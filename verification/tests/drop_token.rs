use dropcheck::{DropCheck, DropToken};
use into_inner_drop::{DetachedDrop, IntoInnerHelper, Slot};

enum Dummy {}

impl DetachedDrop for Dummy {
    type Implementor = DropToken;

    fn drop(_: Self::Implementor) {}
}

#[test]
fn drop_once() {
    let check = DropCheck::new();
    let (drop_token, drop_state) = check.pair();
    let helper = <IntoInnerHelper<_, Dummy>>::new(drop_token);
    assert!(drop_state.is_not_dropped());
    core::mem::drop(helper);
    assert!(drop_state.is_dropped());
}

#[test]
fn into_inner() {
    let check = DropCheck::new();
    let (drop_token, drop_state) = check.pair();
    let helper = <IntoInnerHelper<_, Dummy>>::new(drop_token);
    assert!(drop_state.is_not_dropped());
    let inner = helper.into_inner();
    assert!(drop_state.is_not_dropped());
    core::mem::drop(inner);
    assert!(drop_state.is_dropped());
}

#[test]
fn destroy_once() {
    let check = DropCheck::new();
    let (drop_token, drop_state) = check.pair();
    let helper = <IntoInnerHelper<_, Dummy>>::new(drop_token);
    assert!(drop_state.is_not_dropped());
    helper.destroy();
    assert!(drop_state.is_dropped());
}

#[test]
fn destroy_in_place_once() {
    let check = DropCheck::new();
    let (drop_token, drop_state) = check.pair();
    let mut helper = <Slot<_, Dummy>>::new(drop_token);
    assert!(drop_state.is_not_dropped());
    assert!(helper.destroy());
    assert!(drop_state.is_dropped());
    assert!(!helper.destroy());
    core::mem::drop(helper);
    assert!(drop_state.is_dropped());
}

#[test]
fn extract_in_place_keeps_token() {
    let check = DropCheck::new();
    let (drop_token, drop_state) = check.pair();
    let mut helper = <Slot<_, Dummy>>::new(drop_token);
    let inner = helper.extract();
    assert!(inner.is_some());
    assert!(drop_state.is_not_dropped());
    assert!(!helper.destroy());
    core::mem::drop(helper);
    assert!(drop_state.is_not_dropped());
    core::mem::drop(inner);
    assert!(drop_state.is_dropped());
}
