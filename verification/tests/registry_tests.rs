use node_worker::errors::WorkerError;
use node_worker::registry::{
    await_response, outcome_of_offer, response_from_wait, Delivery, Registry, Waited,
    SLOT_CAPACITY,
};

#[test]
fn slot_capacity_is_twenty_four() {
    assert_eq!(SLOT_CAPACITY, 24);
}

#[test]
fn new_registry_is_empty() {
    let registry = Registry::new();
    assert_eq!(registry.len(), 0);
    assert!(!registry.is_pending(1));
}

#[test]
fn register_stores_one_slot() {
    let mut registry = Registry::new();
    let receiver = registry.register(1);
    assert!(receiver.is_ok());
    assert!(registry.is_pending(1));
    assert!(!registry.is_pending(2));
    assert_eq!(registry.len(), 1);
}

#[test]
fn register_twice_is_a_duplicate() {
    let mut registry = Registry::new();
    let _first = registry.register(5).unwrap();
    match registry.register(5) {
        Ok(_) => panic!("a second slot was registered"),
        Err(e) => assert_eq!(e, WorkerError::DuplicateSequence),
    }
    assert_eq!(registry.len(), 1);
    assert!(registry.is_pending(5));
}

#[test]
fn duplicate_register_keeps_the_first_slot() {
    let mut registry = Registry::new();
    let first = registry.register(5).unwrap();
    assert!(registry.register(5).is_err());
    assert_eq!(registry.deliver(5, String::from("kept")), Delivery::Delivered);
    assert_eq!(await_response(&first, None), Ok(String::from("kept")));
}

#[test]
fn deliver_places_the_payload_and_removes_the_slot() {
    let mut registry = Registry::new();
    let receiver = registry.register(3).unwrap();
    assert_eq!(registry.deliver(3, String::from("payload")), Delivery::Delivered);
    assert!(!registry.is_pending(3));
    assert_eq!(registry.len(), 0);
    assert_eq!(await_response(&receiver, None), Ok(String::from("payload")));
}

#[test]
fn deliver_to_an_unknown_sequence_is_discarded() {
    let mut registry = Registry::new();
    let receiver = registry.register(3).unwrap();
    assert_eq!(registry.deliver(4, String::from("stray")), Delivery::Unknown);
    assert!(registry.is_pending(3));
    assert_eq!(
        await_response(&receiver, Some(20)),
        Err(WorkerError::WorkerTimeout)
    );
}

#[test]
fn deliver_twice_finds_no_slot_the_second_time() {
    let mut registry = Registry::new();
    let receiver = registry.register(9).unwrap();
    assert_eq!(registry.deliver(9, String::from("one")), Delivery::Delivered);
    assert_eq!(registry.deliver(9, String::from("two")), Delivery::Unknown);
    assert_eq!(await_response(&receiver, None), Ok(String::from("one")));
    assert_eq!(
        await_response(&receiver, None),
        Err(WorkerError::WorkerChannelClosed)
    );
}

#[test]
fn deliver_to_an_abandoned_caller_is_dropped() {
    let mut registry = Registry::new();
    let receiver = registry.register(2).unwrap();
    drop(receiver);
    assert_eq!(registry.deliver(2, String::from("late")), Delivery::Dropped);
    assert!(!registry.is_pending(2));
}

#[test]
fn deliver_leaves_other_slots_alone() {
    let mut registry = Registry::new();
    let a = registry.register(1).unwrap();
    let b = registry.register(2).unwrap();
    assert_eq!(registry.deliver(2, String::from("for b")), Delivery::Delivered);
    assert!(registry.is_pending(1));
    assert_eq!(registry.deliver(1, String::from("for a")), Delivery::Delivered);
    assert_eq!(await_response(&a, None), Ok(String::from("for a")));
    assert_eq!(await_response(&b, None), Ok(String::from("for b")));
}

#[test]
fn take_hands_out_the_registered_slot() {
    let mut registry = Registry::new();
    let receiver = registry.register(6).unwrap();
    let slot = registry.take(6).unwrap();
    assert!(!registry.is_pending(6));
    assert!(registry.take(6).is_none());
    slot.try_send(String::from("direct")).unwrap();
    assert_eq!(await_response(&receiver, None), Ok(String::from("direct")));
}

#[test]
fn clear_closes_every_slot() {
    let mut registry = Registry::new();
    let a = registry.register(1).unwrap();
    let b = registry.register(2).unwrap();
    registry.clear();
    assert_eq!(registry.len(), 0);
    assert_eq!(await_response(&a, None), Err(WorkerError::WorkerChannelClosed));
    assert_eq!(
        await_response(&b, Some(1000)),
        Err(WorkerError::WorkerChannelClosed)
    );
}

#[test]
fn wait_with_a_limit_times_out() {
    let mut registry = Registry::new();
    let receiver = registry.register(1).unwrap();
    assert_eq!(
        await_response(&receiver, Some(10)),
        Err(WorkerError::WorkerTimeout)
    );
    assert!(registry.is_pending(1));
}

#[test]
fn wait_with_a_limit_returns_what_is_there() {
    let mut registry = Registry::new();
    let receiver = registry.register(1).unwrap();
    assert_eq!(registry.deliver(1, String::from("in time")), Delivery::Delivered);
    assert_eq!(
        await_response(&receiver, Some(1000)),
        Ok(String::from("in time"))
    );
}

#[test]
fn response_from_wait_maps_each_end() {
    assert_eq!(
        response_from_wait(Waited::Payload(String::from("p"))),
        Ok(String::from("p"))
    );
    assert_eq!(
        response_from_wait(Waited::Closed),
        Err(WorkerError::WorkerChannelClosed)
    );
    assert_eq!(
        response_from_wait(Waited::TimedOut),
        Err(WorkerError::WorkerTimeout)
    );
}

#[test]
fn outcome_of_offer_maps_each_answer() {
    assert_eq!(outcome_of_offer(true), Delivery::Delivered);
    assert_eq!(outcome_of_offer(false), Delivery::Dropped);
}
