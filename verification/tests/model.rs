use todo::Date;
use todo::IndexError;
use todo::Item;
use todo::ItemUpdate;
use todo::List;
use todo::PROGRESS_SCALE;
use todo::Progress;
use todo::Status;
use todo::ValidationError;

#[test]
fn progress_in_range_succeeds() {
    let zero = Progress::new(0).unwrap();
    assert!(zero.is_zero());
    assert!(!zero.is_one());
    let one = Progress::new(PROGRESS_SCALE).unwrap();
    assert!(one.is_one());
    assert!(!one.is_zero());
    let half = Progress::new(500_000).unwrap();
    assert!(!half.is_zero());
    assert!(!half.is_one());
    assert_eq!(half.units(), 500_000);
}

#[test]
fn progress_out_of_range_fails() {
    let r = Progress::new(PROGRESS_SCALE + 1);
    assert_eq!(
        r,
        Err(ValidationError::ProgressOutOfRange { units: PROGRESS_SCALE + 1 })
    );
    assert!(Progress::new(u32::MAX).is_err());
}

#[test]
fn progress_constants() {
    assert!(Progress::zero().is_zero());
    assert!(Progress::one().is_one());
    assert_eq!(Progress::one().units(), PROGRESS_SCALE);
}

#[test]
fn status_follows_progress() {
    let mut it = Item::new(String::from("task"));
    assert_eq!(it.status(), Status::Todo);
    it.set_progress(Progress::one());
    assert_eq!(it.status(), Status::Complete);
    it.set_progress(Progress::new(300_000).unwrap());
    assert_eq!(it.status(), Status::Underway);
    it.set_progress(Progress::zero());
    assert_eq!(it.status(), Status::Todo);
}

#[test]
fn new_item_defaults() {
    let it = Item::new(String::from("fresh"));
    assert_eq!(it.status(), Status::Todo);
    assert!(it.progress().is_zero());
    assert_eq!(it.deadline(), None);
    assert_eq!(it.desc(), "fresh");
}

#[test]
fn due_builder_sets_deadline() {
    let d = Date::new(2024, 12, 31).unwrap();
    let it = Item::new(String::from("year end")).due(d);
    assert_eq!(it.deadline(), Some(d));
}

#[test]
fn date_validation() {
    assert!(Date::new(2023, 5, 1).is_ok());
    assert!(Date::new(2024, 2, 29).is_ok());
    assert_eq!(
        Date::new(2023, 2, 29),
        Err(ValidationError::InvalidDate { year: 2023, month: 2, day: 29 })
    );
    assert!(Date::new(2023, 13, 1).is_err());
    assert!(Date::new(2023, 0, 1).is_err());
    assert!(Date::new(2023, 4, 31).is_err());
    assert!(Date::new(2023, 1, 0).is_err());
    assert!(Date::new(1900, 2, 29).is_err());
    assert!(Date::new(2000, 2, 29).is_ok());
}

#[test]
fn remove_valid_index_shifts() {
    let mut l = List::new();
    l.add(Item::new(String::from("a")));
    l.add(Item::new(String::from("b")));
    l.add(Item::new(String::from("c")));
    l.add(Item::new(String::from("d")));
    assert_eq!(l.len(), 4);
    let found = l.remove(1);
    assert!(found);
    assert_eq!(l.len(), 3);
    assert_eq!(l.list()[0].desc(), "a");
    assert_eq!(l.list()[1].desc(), "c");
    assert_eq!(l.list()[2].desc(), "d");
}

#[test]
fn remove_invalid_index_reports_not_found() {
    let mut l = List::new();
    l.add(Item::new(String::from("only")));
    let found = l.remove(1);
    assert!(!found);
    assert_eq!(l.len(), 1);
    assert_eq!(l.list()[0].desc(), "only");
    let mut empty = List::new();
    assert!(!empty.remove(0));
    assert_eq!(empty.len(), 0);
}

#[test]
fn get_is_bounds_checked() {
    let mut l = List::new();
    l.add(Item::new(String::from("x")));
    assert!(l.get(0).is_some());
    assert!(l.get(1).is_none());
    assert_eq!(l.get(0).unwrap().desc(), "x");
}

#[test]
fn mutate_index_applies_updates() {
    let mut l = List::new();
    l.add(Item::new(String::from("before")));
    let r = l.mutate_index(0, ItemUpdate::Desc(String::from("after")));
    assert_eq!(r, Ok(()));
    assert_eq!(l.list()[0].desc(), "after");
    let d = Date::new(2025, 1, 2).unwrap();
    assert_eq!(l.mutate_index(0, ItemUpdate::Deadline(d)), Ok(()));
    assert_eq!(l.list()[0].deadline(), Some(d));
    assert_eq!(
        l.mutate_index(0, ItemUpdate::Progress(Progress::one())),
        Ok(())
    );
    assert_eq!(l.list()[0].status(), Status::Complete);
}

#[test]
fn mutate_index_out_of_range_reports_len() {
    let mut l = List::new();
    l.add(Item::new(String::from("one")));
    let r = l.mutate_index(5, ItemUpdate::Desc(String::from("nope")));
    assert_eq!(r, Err(IndexError { len: 1 }));
    assert_eq!(l.list()[0].desc(), "one");
    let mut empty = List::new();
    assert_eq!(
        empty.mutate_index(0, ItemUpdate::Progress(Progress::zero())),
        Err(IndexError { len: 0 })
    );
}

#[test]
fn clear_completed_keeps_order() {
    let mut l = List::new();
    l.add(Item::new(String::from("a")));
    l.add(Item::new(String::from("b")));
    l.add(Item::new(String::from("c")));
    l.add(Item::new(String::from("d")));
    l.mutate_index(0, ItemUpdate::Progress(Progress::one())).unwrap();
    l.mutate_index(2, ItemUpdate::Progress(Progress::one())).unwrap();
    l.clear_completed();
    assert_eq!(l.len(), 2);
    assert_eq!(l.list()[0].desc(), "b");
    assert_eq!(l.list()[1].desc(), "d");
}

#[test]
fn clear_completed_keeps_underway() {
    let mut l = List::new();
    l.add(Item::new(String::from("partial")));
    l.mutate_index(0, ItemUpdate::Progress(Progress::new(999_999).unwrap()))
        .unwrap();
    l.clear_completed();
    assert_eq!(l.len(), 1);
    assert_eq!(l.list()[0].status(), Status::Underway);
}
