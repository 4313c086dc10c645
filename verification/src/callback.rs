//! Deferred delivery of training notifications.
//!
//! A producer reports progress through four notifications. A handle turns each
//! of them into a [`Message`] and appends it to a queue without touching the
//! callback; a worker takes the messages from the front of the queue and
//! applies them to the callback one at a time.
use std::collections::VecDeque;
use vstd::prelude::*;

verus! {

/// The result of one learning step, as it is handed to a callback.
#[derive(Debug, PartialEq, Eq)]
pub struct LearnerItem<T> {
    pub item: T,
}

/// One notification on its way to a callback.
#[derive(Debug, PartialEq, Eq)]
pub enum Message<T, V> {
    LogTrain(LearnerItem<T>),
    LogValid(LearnerItem<V>),
    ClearTrain,
    ClearValid,
}

impl<T, V> Message<T, V> {
    /// The message that stands for the notification of a training item.
    pub fn train_item(item: LearnerItem<T>) -> (message: Self)
        ensures
            message == Message::<T, V>::LogTrain(item),
    {
        Message::LogTrain(item)
    }

    /// The message that stands for the notification of a validation item.
    pub fn valid_item(item: LearnerItem<V>) -> (message: Self)
        ensures
            message == Message::<T, V>::LogValid(item),
    {
        Message::LogValid(item)
    }

    /// The message that stands for the end of an epoch's training pass.
    pub fn train_end_epoch() -> (message: Self)
        ensures
            message == Message::<T, V>::ClearTrain,
    {
        Message::ClearTrain
    }

    /// The message that stands for the end of an epoch's validation pass.
    pub fn valid_end_epoch() -> (message: Self)
        ensures
            message == Message::<T, V>::ClearValid,
    {
        Message::ClearValid
    }
}

/// An observer of a training run. It can be handed to another thread.
///
/// The abstract state of an observer is the sequence of notifications that it
/// has received, oldest first. Each method adds exactly its own notification
/// to the end of that sequence.
pub trait LearnerCallback<T, V>: Send {
    /// The notifications received so far, oldest first. A verified
    /// implementation says what they are; where it does not, they are left
    /// unknown, and no method can then be shown to meet its contract.
    open spec fn observed(&self) -> Seq<Message<T, V>> {
        arbitrary()
    }

    fn on_train_item(&mut self, item: LearnerItem<T>)
        ensures
            final(self).observed() == old(self).observed().push(Message::LogTrain(item)),
    ;

    fn on_valid_item(&mut self, item: LearnerItem<V>)
        ensures
            final(self).observed() == old(self).observed().push(Message::LogValid(item)),
    ;

    fn on_train_end_epoch(&mut self)
        ensures
            final(self).observed() == old(self).observed().push(Message::ClearTrain),
    ;

    fn on_valid_end_epoch(&mut self)
        ensures
            final(self).observed() == old(self).observed().push(Message::ClearValid),
    ;
}

/// A boxed callback is a callback: it hands every notification to the
/// callback in the box, so a callback can be chosen while the program runs.
impl<T, V> LearnerCallback<T, V> for Box<dyn LearnerCallback<T, V>> {
    open spec fn observed(&self) -> Seq<Message<T, V>> {
        (**self).observed()
    }

    fn on_train_item(&mut self, item: LearnerItem<T>) {
        (**self).on_train_item(item)
    }

    fn on_valid_item(&mut self, item: LearnerItem<V>) {
        (**self).on_valid_item(item)
    }

    fn on_train_end_epoch(&mut self) {
        (**self).on_train_end_epoch()
    }

    fn on_valid_end_epoch(&mut self) {
        (**self).on_valid_end_epoch()
    }
}

/// The consuming side of the queue: the callback, and the messages that have
/// been sent to it and not applied yet, oldest first.
///
/// The worker owns the callback. Nothing else can reach it: it is applied
/// through [`Self::dispatch`] and [`Self::run`] only, one message at a time,
/// and it is handed back when the worker ends.
pub struct CallbackThread<T, V, C: LearnerCallback<T, V>> {
    callback: C,
    receiver: VecDeque<Message<T, V>>,
}

impl<T, V, C: LearnerCallback<T, V>> CallbackThread<T, V, C> {
    /// The callback that the worker owns.
    pub closed spec fn callback(&self) -> C {
        self.callback
    }

    /// The messages that wait to be applied, oldest first.
    pub closed spec fn pending(&self) -> Seq<Message<T, V>> {
        self.receiver@
    }

    /// A worker for `callback` with the messages of `receiver` waiting,
    /// oldest first.
    pub fn new(callback: C, receiver: VecDeque<Message<T, V>>) -> (worker: Self)
        ensures
            worker.callback() == callback,
            worker.pending() == receiver@,
    {
        Self { callback, receiver }
    }

    /// Applies one message to the callback: the notification that the message
    /// stands for, and no other. The queue is left as it is.
    pub fn dispatch(&mut self, message: Message<T, V>)
        ensures
            final(self).callback().observed() == old(self).callback().observed().push(message),
            final(self).pending() == old(self).pending(),
    {
        match message {
            Message::LogTrain(item) => {
                self.callback.on_train_item(item);
            },
            Message::ClearTrain => {
                self.callback.on_train_end_epoch();
            },
            Message::LogValid(item) => {
                self.callback.on_valid_item(item);
            },
            Message::ClearValid => {
                self.callback.on_valid_end_epoch();
            },
        }
    }

    /// Drains the queue: every queued message is applied to the callback, one
    /// at a time and oldest first, and the callback is handed back once the
    /// queue is empty.
    pub fn run(self) -> (callback: C)
        ensures
            callback.observed() == self.callback().observed() + self.pending(),
    {
        let mut worker = self;
        loop
            invariant
                worker.callback().observed() + worker.pending() == self.callback().observed()
                    + self.pending(),
            ensures
                worker.pending().len() == 0,
            decreases worker.pending().len(),
        {
            match worker.receiver.pop_front() {
                Some(message) => {
                    worker.dispatch(message);
                },
                None => {
                    break ;
                },
            }
        }
        worker.callback
    }
}

/// The producing side of the queue: a callback that defers every notification.
///
/// A notification sent through the handle is appended to the worker's queue
/// and nothing else happens: the wrapped callback is not called, so a slow
/// callback never holds the producer up. The queue is unbounded. The
/// notifications reach the wrapped callback when the handle is joined.
///
/// The handle gives the wrapped callback to nobody: until it is joined, the
/// only thing that can be done with it is to send a message.
pub struct AsyncTrainerCallback<T, V, C: LearnerCallback<T, V>> {
    worker: CallbackThread<T, V, C>,
}

impl<T, V, C: LearnerCallback<T, V>> AsyncTrainerCallback<T, V, C> {
    /// The messages sent through the handle and not applied yet, oldest first.
    pub closed spec fn pending(&self) -> Seq<Message<T, V>> {
        self.worker.pending()
    }

    /// The wrapped callback, as it is while the messages wait.
    pub closed spec fn callback(&self) -> C {
        self.worker.callback()
    }

    /// `self` is `before` after one more message was sent: the message stands
    /// at the end of the queue, behind everything sent earlier, and the
    /// wrapped callback has not been touched.
    pub open spec fn follows(&self, before: &Self, message: Message<T, V>) -> bool {
        &&& self.callback() == before.callback()
        &&& self.pending() == before.pending().push(message)
    }

    /// A handle for `callback`, with nothing sent yet.
    pub fn new(callback: C) -> (handle: Self)
        ensures
            handle.callback() == callback,
            handle.pending() == Seq::<Message<T, V>>::empty(),
    {
        Self { worker: CallbackThread::new(callback, VecDeque::new()) }
    }

    /// Closes the handle and lets the worker drain the queue: every message
    /// sent through the handle is applied to the wrapped callback, in the
    /// order in which it was sent, and the callback is handed back. Nothing
    /// can be sent afterwards.
    pub fn join(self) -> (callback: C)
        ensures
            callback.observed() == self.callback().observed() + self.pending(),
    {
        self.worker.run()
    }

    /// `states` are the states that a handle goes through while the messages
    /// `sent` are sent through it one after the other, `states[0]` before the
    /// first of them and `states[i + 1]` after `sent[i]`.
    pub open spec fn sends(states: Seq<Self>, sent: Seq<Message<T, V>>) -> bool {
        &&& states.len() == sent.len() + 1
        &&& forall|i: int|
            0 < i < states.len() ==> (#[trigger] states[i]).follows(&states[i - 1], sent[i - 1])
    }

    /// While messages are sent, the wrapped callback is left alone and the
    /// queue grows at its end only: nothing that waits is overtaken, dropped
    /// or merged.
    pub proof fn lemma_pending_grows(states: Seq<Self>, sent: Seq<Message<T, V>>)
        requires
            Self::sends(states, sent),
        ensures
            states.last().callback() == states[0].callback(),
            states.last().pending() == states[0].pending() + sent,
        decreases sent.len(),
    {
        if sent.len() > 0 {
            let shorter = states.drop_last();
            assert forall|i: int| 0 < i < shorter.len() implies (#[trigger] shorter[i]).follows(
                &shorter[i - 1],
                sent.drop_last()[i - 1],
            ) by {
                assert(states[i].follows(&states[i - 1], sent[i - 1]));
            }
            Self::lemma_pending_grows(shorter, sent.drop_last());
        }
    }

    /// Messages sent through a handle reach the callback in the order in which
    /// they were sent, none lost and none twice: if the messages `sent` are
    /// sent through a handle and `delivered` is the callback that joining the
    /// handle then hands back, `delivered` has observed what the callback had
    /// observed at the start, then what was waiting at the start, then `sent`.
    pub proof fn lemma_fifo_delivery(states: Seq<Self>, sent: Seq<Message<T, V>>, delivered: C)
        requires
            Self::sends(states, sent),
            delivered.observed() == states.last().callback().observed() + states.last().pending(),
        ensures
            delivered.observed() == states[0].callback().observed() + states[0].pending() + sent,
    {
        Self::lemma_pending_grows(states, sent);
    }
}

impl<T: Send, V: Send, C: LearnerCallback<T, V>> LearnerCallback<T, V> for AsyncTrainerCallback<
    T,
    V,
    C,
> {
    /// What the wrapped callback has observed, then what is waiting for it:
    /// that is what the wrapped callback will have observed once the handle is
    /// joined.
    open spec fn observed(&self) -> Seq<Message<T, V>> {
        self.callback().observed() + self.pending()
    }

    fn on_train_item(&mut self, item: LearnerItem<T>)
        ensures
            final(self).follows(old(self), Message::LogTrain(item)),
    {
        self.worker.receiver.push_back(Message::train_item(item));
    }

    fn on_valid_item(&mut self, item: LearnerItem<V>)
        ensures
            final(self).follows(old(self), Message::LogValid(item)),
    {
        self.worker.receiver.push_back(Message::valid_item(item));
    }

    fn on_train_end_epoch(&mut self)
        ensures
            final(self).follows(old(self), Message::ClearTrain),
    {
        self.worker.receiver.push_back(Message::train_end_epoch());
    }

    fn on_valid_end_epoch(&mut self)
        ensures
            final(self).follows(old(self), Message::ClearValid),
    {
        self.worker.receiver.push_back(Message::valid_end_epoch());
    }
}

} // verus!
