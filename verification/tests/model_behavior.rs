use builder::emit::missing_message;
use builder::model::BuilderState;

#[test]
fn fresh_builder_every_slot_absent() {
    // A fresh builder reports its first member as unset.
    let mut b: BuilderState<u64> = BuilderState::new_builder(3);
    assert_eq!(b.build().unwrap_err(), 0);
}

#[test]
fn setters_in_any_order_then_build() {
    let mut b: BuilderState<u64> = BuilderState::new_builder(3);
    b.set(2, 30);
    b.set(0, 10);
    b.set(1, 20);
    assert_eq!(b.build().unwrap(), vec![10, 20, 30]);

    let mut c: BuilderState<u64> = BuilderState::new_builder(3);
    c.set(1, 20);
    c.set(2, 30);
    c.set(0, 10);
    assert_eq!(c.build().unwrap(), vec![10, 20, 30]);
}

#[test]
fn single_member_success() {
    let mut b: BuilderState<char> = BuilderState::new_builder(1);
    b.set(0, 'x');
    assert_eq!(b.build().unwrap(), vec!['x']);
}

#[test]
fn missing_member_reported_first_in_declaration_order() {
    // Second of three members left unset.
    let mut b: BuilderState<u64> = BuilderState::new_builder(3);
    b.set(0, 1);
    b.set(2, 3);
    assert_eq!(b.build().unwrap_err(), 1);

    // Only the last member set: the first absent one wins the tie-break.
    let mut c: BuilderState<u64> = BuilderState::new_builder(3);
    c.set(2, 3);
    assert_eq!(c.build().unwrap_err(), 0);
}

#[test]
fn missing_member_message_text() {
    // The emitted build reports the failing member by name.
    let mut b: BuilderState<u64> = BuilderState::new_builder(2);
    b.set(1, 80);
    let missing = b.build().unwrap_err();
    assert_eq!(missing, 0);
    let names = ["host", "port"];
    assert_eq!(missing_message(names[missing]), "host was not set");
}

#[test]
fn build_leaves_builder_reusable() {
    let mut b: BuilderState<u64> = BuilderState::new_builder(2);
    b.set(0, 7);
    b.set(1, 8);
    let first = b.build().unwrap();
    let second = b.build().unwrap();
    assert_eq!(first, second);
    assert_eq!(second, vec![7, 8]);

    // A failed build leaves the builder usable too: set the missing member
    // and retry.
    let mut c: BuilderState<u64> = BuilderState::new_builder(2);
    c.set(1, 8);
    assert_eq!(c.build().unwrap_err(), 0);
    c.set(0, 7);
    assert_eq!(c.build().unwrap(), vec![7, 8]);
}

#[test]
fn overwriting_a_slot_keeps_the_last_value() {
    let mut b: BuilderState<i64> = BuilderState::new_builder(1);
    b.set(0, 1);
    b.set(0, 2);
    b.set(0, 3);
    assert_eq!(b.build().unwrap(), vec![3]);
}
