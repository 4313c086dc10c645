use std::collections::VecDeque;
use std::sync::{Arc, Mutex};
use train_core::callback::{
    AsyncTrainerCallback, CallbackThread, LearnerCallback, LearnerItem, Message,
};

/// Keeps every notification it receives, under the name of the method that
/// received it.
struct Recorder {
    calls: Vec<String>,
    log: Vec<Message<u32, i64>>,
}

impl Recorder {
    fn new() -> Self {
        Recorder { calls: Vec::new(), log: Vec::new() }
    }
}

impl LearnerCallback<u32, i64> for Recorder {
    fn on_train_item(&mut self, item: LearnerItem<u32>) {
        self.calls.push(format!("on_train_item({})", item.item));
        self.log.push(Message::LogTrain(item));
    }

    fn on_valid_item(&mut self, item: LearnerItem<i64>) {
        self.calls.push(format!("on_valid_item({})", item.item));
        self.log.push(Message::LogValid(item));
    }

    fn on_train_end_epoch(&mut self) {
        self.calls.push(format!("on_train_end_epoch"));
        self.log.push(Message::ClearTrain);
    }

    fn on_valid_end_epoch(&mut self) {
        self.calls.push(format!("on_valid_end_epoch"));
        self.log.push(Message::ClearValid);
    }
}

/// Writes every notification it receives to a log that others can read while
/// the callback is held elsewhere.
struct Shared {
    log: Arc<Mutex<Vec<Message<u32, i64>>>>,
}

impl LearnerCallback<u32, i64> for Shared {
    fn on_train_item(&mut self, item: LearnerItem<u32>) {
        self.log.lock().unwrap().push(Message::LogTrain(item));
    }

    fn on_valid_item(&mut self, item: LearnerItem<i64>) {
        self.log.lock().unwrap().push(Message::LogValid(item));
    }

    fn on_train_end_epoch(&mut self) {
        self.log.lock().unwrap().push(Message::ClearTrain);
    }

    fn on_valid_end_epoch(&mut self) {
        self.log.lock().unwrap().push(Message::ClearValid);
    }
}

fn shared() -> (Shared, Arc<Mutex<Vec<Message<u32, i64>>>>) {
    let log = Arc::new(Mutex::new(Vec::new()));
    (Shared { log: log.clone() }, log)
}

fn train(item: u32) -> Message<u32, i64> {
    Message::LogTrain(LearnerItem { item })
}

fn valid(item: i64) -> Message<u32, i64> {
    Message::LogValid(LearnerItem { item })
}

#[test]
fn notifications_arrive_in_the_order_sent() {
    let mut handle = AsyncTrainerCallback::new(Recorder::new());
    handle.on_train_item(LearnerItem { item: 1 });
    handle.on_train_item(LearnerItem { item: 2 });
    handle.on_train_end_epoch();
    handle.on_valid_item(LearnerItem { item: -7 });
    handle.on_valid_end_epoch();
    handle.on_train_item(LearnerItem { item: 3 });
    let callback = handle.join();
    assert_eq!(
        callback.log,
        vec![
            train(1),
            train(2),
            Message::ClearTrain,
            valid(-7),
            Message::ClearValid,
            train(3),
        ]
    );
}

#[test]
fn each_notification_has_its_message() {
    assert_eq!(Message::<u32, i64>::train_item(LearnerItem { item: 5 }), train(5));
    assert_eq!(Message::<u32, i64>::valid_item(LearnerItem { item: -5 }), valid(-5));
    assert_eq!(Message::<u32, i64>::train_end_epoch(), Message::ClearTrain);
    assert_eq!(Message::<u32, i64>::valid_end_epoch(), Message::ClearValid);
    assert_ne!(Message::<u32, u32>::train_item(LearnerItem { item: 5 }), Message::LogValid(LearnerItem { item: 5 }));
    assert_ne!(Message::<u32, i64>::train_end_epoch(), Message::ClearValid);
}

#[test]
fn each_message_reaches_its_own_method() {
    let mut worker = CallbackThread::new(Recorder::new(), VecDeque::new());
    worker.dispatch(train(5));
    worker.dispatch(valid(-6));
    worker.dispatch(Message::ClearTrain);
    worker.dispatch(Message::ClearValid);
    let callback = worker.run();
    assert_eq!(
        callback.calls,
        vec!["on_train_item(5)", "on_valid_item(-6)", "on_train_end_epoch", "on_valid_end_epoch"]
    );
    assert_eq!(
        callback.log,
        vec![train(5), valid(-6), Message::ClearTrain, Message::ClearValid]
    );
}

#[test]
fn dispatch_applies_one_message_at_once() {
    let (callback, log) = shared();
    let mut worker = CallbackThread::new(callback, VecDeque::new());
    assert_eq!(*log.lock().unwrap(), vec![]);
    worker.dispatch(train(5));
    assert_eq!(*log.lock().unwrap(), vec![train(5)]);
    worker.dispatch(Message::ClearValid);
    assert_eq!(*log.lock().unwrap(), vec![train(5), Message::ClearValid]);
}

#[test]
fn dispatch_leaves_the_queue_alone() {
    let (callback, log) = shared();
    let mut queue = VecDeque::new();
    queue.push_back(train(1));
    queue.push_back(Message::ClearTrain);
    let mut worker = CallbackThread::new(callback, queue);
    worker.dispatch(valid(9));
    assert_eq!(*log.lock().unwrap(), vec![valid(9)]);
    let _ = worker.run();
    assert_eq!(*log.lock().unwrap(), vec![valid(9), train(1), Message::ClearTrain]);
}

#[test]
fn sending_does_not_touch_the_callback() {
    let (callback, log) = shared();
    let mut handle = AsyncTrainerCallback::new(callback);
    handle.on_train_item(LearnerItem { item: 4 });
    handle.on_valid_item(LearnerItem { item: 8 });
    handle.on_train_end_epoch();
    handle.on_valid_end_epoch();
    assert_eq!(*log.lock().unwrap(), vec![]);
    let _ = handle.join();
    assert_eq!(
        *log.lock().unwrap(),
        vec![train(4), valid(8), Message::ClearTrain, Message::ClearValid]
    );
}

#[test]
fn a_new_handle_has_nothing_queued() {
    let handle = AsyncTrainerCallback::new(Recorder::new());
    let callback = handle.join();
    assert_eq!(callback.log, vec![]);
    assert_eq!(callback.calls.len(), 0);
}

#[test]
fn every_queued_event_is_applied_before_the_worker_ends() {
    let mut handle = AsyncTrainerCallback::new(Recorder::new());
    let mut expected = Vec::new();
    for k in 0..1000u32 {
        if k % 10 == 9 {
            handle.on_train_end_epoch();
            expected.push(Message::ClearTrain);
        } else if k % 2 == 0 {
            handle.on_train_item(LearnerItem { item: k });
            expected.push(train(k));
        } else {
            handle.on_valid_item(LearnerItem { item: -(k as i64) });
            expected.push(valid(-(k as i64)));
        }
    }
    let callback = handle.join();
    assert_eq!(callback.log.len(), 1000);
    assert_eq!(callback.log, expected);
}

#[test]
fn run_drains_a_queue_that_was_filled_beforehand() {
    let mut queue = VecDeque::new();
    queue.push_back(Message::ClearValid);
    queue.push_back(train(11));
    queue.push_back(Message::ClearTrain);
    queue.push_back(valid(12));
    let worker = CallbackThread::new(Recorder::new(), queue);
    let callback = worker.run();
    assert_eq!(callback.log, vec![Message::ClearValid, train(11), Message::ClearTrain, valid(12)]);
    assert_eq!(
        callback.calls,
        vec!["on_valid_end_epoch", "on_train_item(11)", "on_train_end_epoch", "on_valid_item(12)"]
    );
}

#[test]
fn run_appends_to_what_the_callback_has_seen() {
    let mut callback = Recorder::new();
    callback.on_train_item(LearnerItem { item: 1 });
    callback.on_train_end_epoch();
    let mut queue = VecDeque::new();
    queue.push_back(train(2));
    let callback = CallbackThread::new(callback, queue).run();
    assert_eq!(callback.log, vec![train(1), Message::ClearTrain, train(2)]);
}

#[test]
fn run_on_an_empty_queue_changes_nothing() {
    let mut callback = Recorder::new();
    callback.on_valid_item(LearnerItem { item: 3 });
    let callback = CallbackThread::new(callback, VecDeque::new()).run();
    assert_eq!(callback.log, vec![valid(3)]);
    assert_eq!(callback.calls, vec!["on_valid_item(3)"]);
}

#[test]
fn equal_messages_are_neither_merged_nor_dropped() {
    let mut handle = AsyncTrainerCallback::new(Recorder::new());
    handle.on_train_end_epoch();
    handle.on_train_end_epoch();
    handle.on_train_item(LearnerItem { item: 0 });
    handle.on_train_item(LearnerItem { item: 0 });
    handle.on_train_end_epoch();
    let callback = handle.join();
    assert_eq!(
        callback.log,
        vec![Message::ClearTrain, Message::ClearTrain, train(0), train(0), Message::ClearTrain]
    );
}

#[test]
fn a_handle_can_wrap_a_handle() {
    let (callback, log) = shared();
    let inner = AsyncTrainerCallback::new(callback);
    let mut outer = AsyncTrainerCallback::new(inner);
    outer.on_train_item(LearnerItem { item: 21 });
    outer.on_valid_end_epoch();
    let mut inner = outer.join();
    assert_eq!(*log.lock().unwrap(), vec![]);
    inner.on_train_end_epoch();
    let _ = inner.join();
    assert_eq!(
        *log.lock().unwrap(),
        vec![train(21), Message::ClearValid, Message::ClearTrain]
    );
}

#[test]
fn a_boxed_callback_is_reached_like_any_other() {
    let (callback, log) = shared();
    let boxed: Box<dyn LearnerCallback<u32, i64>> = Box::new(callback);
    let mut handle = AsyncTrainerCallback::new(boxed);
    handle.on_train_item(LearnerItem { item: 1 });
    handle.on_valid_item(LearnerItem { item: 2 });
    handle.on_train_end_epoch();
    handle.on_valid_end_epoch();
    assert_eq!(*log.lock().unwrap(), vec![]);
    let _ = handle.join();
    assert_eq!(
        *log.lock().unwrap(),
        vec![train(1), valid(2), Message::ClearTrain, Message::ClearValid]
    );
}
