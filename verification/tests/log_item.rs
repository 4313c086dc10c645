use train_core::logger::{LogEvent, LogItem};

#[test]
fn a_new_item_has_no_position() {
    let log = LogItem::new("loss");
    assert_eq!(
        log,
        LogItem { item: "loss", iteration: None, iteration_total: None, epoch: None, epoch_total: None }
    );
}

#[test]
fn each_builder_sets_its_own_field_only() {
    assert_eq!(
        LogItem::new(1u8).iteration(3),
        LogItem { item: 1u8, iteration: Some(3), iteration_total: None, epoch: None, epoch_total: None }
    );
    assert_eq!(
        LogItem::new(1u8).iteration_total(4),
        LogItem { item: 1u8, iteration: None, iteration_total: Some(4), epoch: None, epoch_total: None }
    );
    assert_eq!(
        LogItem::new(1u8).epoch(5),
        LogItem { item: 1u8, iteration: None, iteration_total: None, epoch: Some(5), epoch_total: None }
    );
    assert_eq!(
        LogItem::new(1u8).epoch_total(6),
        LogItem { item: 1u8, iteration: None, iteration_total: None, epoch: None, epoch_total: Some(6) }
    );
}

#[test]
fn builders_chain_in_any_order() {
    let a = LogItem::new('x').iteration(0).iteration_total(3).epoch(1).epoch_total(2);
    let b = LogItem::new('x').epoch_total(2).epoch(1).iteration_total(3).iteration(0);
    let expected = LogItem {
        item: 'x',
        iteration: Some(0),
        iteration_total: Some(3),
        epoch: Some(1),
        epoch_total: Some(2),
    };
    assert_eq!(a, expected);
    assert_eq!(b, expected);
}

#[test]
fn a_later_value_replaces_an_earlier_one() {
    let log = LogItem::new(0u8).iteration(1).iteration(usize::MAX).epoch(2).epoch(0);
    assert_eq!(log.iteration, Some(usize::MAX));
    assert_eq!(log.epoch, Some(0));
    assert_eq!(log.iteration_total, None);
    assert_eq!(log.epoch_total, None);
    assert_eq!(log.item, 0);
}

#[test]
fn an_item_and_the_end_of_a_pass_differ() {
    assert_ne!(LogEvent::Log(LogItem::new(0u8)), LogEvent::Clear);
    assert_eq!(LogEvent::<u8>::Clear, LogEvent::Clear);
    assert_ne!(LogEvent::Log(LogItem::new(0u8)), LogEvent::Log(LogItem::new(0u8).epoch(0)));
}
