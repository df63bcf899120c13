use std::cell::RefCell;
use std::rc::Rc;

use into_inner_drop::{DetachedDrop, IntoInnerHelper, Slot};

type Log = Rc<RefCell<Vec<String>>>;

struct Named {
    name: String,
    log: Log,
}

enum Record {}

impl DetachedDrop for Record {
    type Implementor = Named;

    fn drop(value: Named) {
        let Named { name, log } = value;
        log.borrow_mut().push(name);
    }
}

fn named(name: &str, log: &Log) -> Named {
    Named { name: name.to_string(), log: Rc::clone(log) }
}

fn cell(name: &str, log: &Log) -> IntoInnerHelper<Named, Record> {
    IntoInnerHelper::new(named(name, log))
}

fn slot(name: &str, log: &Log) -> Slot<Named, Record> {
    Slot::new(named(name, log))
}

fn names(log: &Log) -> Vec<String> {
    log.borrow().clone()
}

#[test]
fn destroyed_cell_is_finalized_once_with_its_payload() {
    let log = Log::default();
    let a = cell("A", &log);
    assert!(names(&log).is_empty());
    a.destroy();
    assert_eq!(names(&log), vec!["A".to_string()]);
}

#[test]
fn destroyed_slot_is_finalized_once_with_its_payload() {
    let log = Log::default();
    let mut a = slot("A", &log);
    assert!(names(&log).is_empty());
    assert!(a.destroy());
    assert_eq!(names(&log), vec!["A".to_string()]);
    core::mem::drop(a);
    assert_eq!(names(&log), vec!["A".to_string()]);
}

#[test]
fn second_destruction_does_not_finalize_again() {
    let log = Log::default();
    let mut a = slot("A", &log);
    assert!(a.destroy());
    assert!(!a.destroy());
    assert!(!a.destroy());
    assert_eq!(names(&log), vec!["A".to_string()]);
}

#[test]
fn extracted_payload_is_never_finalized() {
    let log = Log::default();
    let b = cell("B", &log);
    let payload = b.into_inner();
    assert_eq!(payload.name, "B");
    assert!(names(&log).is_empty());
    core::mem::drop(payload);
    assert!(names(&log).is_empty());
}

#[test]
fn extracted_slot_is_not_finalized_when_destroyed() {
    let log = Log::default();
    let mut b = slot("B", &log);
    let payload = b.extract();
    assert_eq!(payload.map(|p| p.name), Some("B".to_string()));
    assert!(!b.destroy());
    core::mem::drop(b);
    assert!(names(&log).is_empty());
}

fn three_slots_second_extracted(order: [usize; 3]) -> Vec<String> {
    let log = Log::default();
    let mut slots = vec![slot("X", &log), slot("Y", &log), slot("Z", &log)];
    let extracted = slots[1].extract();
    assert_eq!(extracted.map(|p| p.name), Some("Y".to_string()));
    let mut ran = Vec::new();
    for i in order {
        ran.push((i, slots[i].destroy()));
    }
    for (i, finalized) in ran {
        assert_eq!(finalized, i != 1);
    }
    names(&log)
}

#[test]
fn three_slots_second_extracted_destroyed_in_order() {
    assert_eq!(three_slots_second_extracted([0, 1, 2]), vec!["X".to_string(), "Z".to_string()]);
}

#[test]
fn three_slots_second_extracted_destroyed_in_reverse() {
    assert_eq!(three_slots_second_extracted([2, 1, 0]), vec!["Z".to_string(), "X".to_string()]);
}

#[test]
fn three_slots_second_extracted_destroyed_in_every_order() {
    let orders = [[0, 1, 2], [0, 2, 1], [1, 0, 2], [1, 2, 0], [2, 0, 1], [2, 1, 0]];
    for order in orders {
        let mut finalized = three_slots_second_extracted(order);
        assert_eq!(finalized.len(), 2);
        finalized.sort();
        assert_eq!(finalized, vec!["X".to_string(), "Z".to_string()]);
    }
}

#[test]
fn three_cells_second_moved_out() {
    let log = Log::default();
    let first = cell("X", &log);
    let second = cell("Y", &log);
    let third = cell("Z", &log);
    let payload = second.into_inner();
    first.destroy();
    core::mem::drop(payload);
    third.destroy();
    assert_eq!(names(&log), vec!["X".to_string(), "Z".to_string()]);
}

#[test]
fn three_cells_second_moved_out_destroyed_in_reverse() {
    let log = Log::default();
    let first = cell("X", &log);
    let second = cell("Y", &log);
    let third = cell("Z", &log);
    let payload = second.into_inner();
    third.destroy();
    core::mem::drop(payload);
    first.destroy();
    assert_eq!(names(&log), vec!["Z".to_string(), "X".to_string()]);
}
