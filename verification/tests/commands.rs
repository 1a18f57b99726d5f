use todo::Command;
use todo::Date;
use todo::ItemUpdate;
use todo::List;
use todo::Outcome;
use todo::Progress;
use todo::Status;
use todo::apply;

#[test]
fn scenario_add_done_clear() {
    let mut l = List::new();
    apply(
        &mut l,
        Command::Add { task: String::from("Buy milk"), date: None, progress: None },
    );
    apply(
        &mut l,
        Command::Add { task: String::from("Walk dog"), date: None, progress: None },
    );
    let outs = apply(&mut l, Command::Done { indices: vec![1] });
    assert_eq!(outs, vec![Outcome::Applied { index: 1 }]);
    assert_eq!(l.list()[0].desc(), "Buy milk");
    assert_eq!(l.list()[0].status(), Status::Complete);
    assert_eq!(l.list()[0].progress().units(), 1_000_000);
    assert_eq!(l.list()[1].desc(), "Walk dog");
    assert_eq!(l.list()[1].status(), Status::Todo);
    assert_eq!(l.list()[1].progress().units(), 0);
    apply(&mut l, Command::Clear);
    assert_eq!(l.len(), 1);
    assert_eq!(l.list()[0].desc(), "Walk dog");
}

#[test]
fn add_with_date_and_progress() {
    let mut l = List::new();
    let d = Date::new(2030, 6, 15).unwrap();
    apply(
        &mut l,
        Command::Add {
            task: String::from("later"),
            date: Some(d),
            progress: Some(Progress::new(400_000).unwrap()),
        },
    );
    assert_eq!(l.len(), 1);
    assert_eq!(l.list()[0].deadline(), Some(d));
    assert_eq!(l.list()[0].status(), Status::Underway);
    assert_eq!(l.list()[0].progress().units(), 400_000);
}

#[test]
fn remove_batch_reports_each_index() {
    let mut l = List::new();
    for name in ["a", "b", "c"] {
        apply(&mut l, Command::Add { task: String::from(name), date: None, progress: None });
    }
    let outs = apply(&mut l, Command::Remove { indices: vec![1, 7, 1] });
    assert_eq!(
        outs,
        vec![
            Outcome::Applied { index: 1 },
            Outcome::OutOfRange { index: 7, len: 2 },
            Outcome::Applied { index: 1 },
        ]
    );
    assert_eq!(l.len(), 1);
    assert_eq!(l.list()[0].desc(), "c");
}

#[test]
fn index_zero_is_out_of_range() {
    let mut l = List::new();
    apply(&mut l, Command::Add { task: String::from("a"), date: None, progress: None });
    let outs = apply(&mut l, Command::Done { indices: vec![0] });
    assert_eq!(outs, vec![Outcome::OutOfRange { index: 0, len: 1 }]);
    assert_eq!(l.list()[0].status(), Status::Todo);
    let outs = apply(&mut l, Command::Remove { indices: vec![0] });
    assert_eq!(outs, vec![Outcome::OutOfRange { index: 0, len: 1 }]);
    assert_eq!(l.len(), 1);
}

#[test]
fn done_and_undo_round() {
    let mut l = List::new();
    apply(&mut l, Command::Add { task: String::from("t"), date: None, progress: None });
    apply(&mut l, Command::Done { indices: vec![1] });
    assert_eq!(l.list()[0].status(), Status::Complete);
    let outs = apply(&mut l, Command::Undo { indices: vec![1] });
    assert_eq!(outs, vec![Outcome::Applied { index: 1 }]);
    assert_eq!(l.list()[0].status(), Status::Todo);
    assert!(l.list()[0].progress().is_zero());
}

#[test]
fn bad_index_does_not_stop_batch() {
    let mut l = List::new();
    for name in ["a", "b"] {
        apply(&mut l, Command::Add { task: String::from(name), date: None, progress: None });
    }
    let outs = apply(&mut l, Command::Done { indices: vec![9, 2, 0] });
    assert_eq!(
        outs,
        vec![
            Outcome::OutOfRange { index: 9, len: 2 },
            Outcome::Applied { index: 2 },
            Outcome::OutOfRange { index: 0, len: 2 },
        ]
    );
    assert_eq!(l.list()[0].status(), Status::Todo);
    assert_eq!(l.list()[1].status(), Status::Complete);
}

#[test]
fn update_command_variants() {
    let mut l = List::new();
    apply(&mut l, Command::Add { task: String::from("old"), date: None, progress: None });
    let outs = apply(
        &mut l,
        Command::Update { index: 1, value: ItemUpdate::Desc(String::from("new")) },
    );
    assert_eq!(outs, vec![Outcome::Applied { index: 1 }]);
    assert_eq!(l.list()[0].desc(), "new");
    let d = Date::new(2024, 3, 9).unwrap();
    apply(&mut l, Command::Update { index: 1, value: ItemUpdate::Deadline(d) });
    assert_eq!(l.list()[0].deadline(), Some(d));
    apply(
        &mut l,
        Command::Update { index: 1, value: ItemUpdate::Progress(Progress::one()) },
    );
    assert_eq!(l.list()[0].status(), Status::Complete);
    let outs = apply(
        &mut l,
        Command::Update { index: 2, value: ItemUpdate::Desc(String::from("x")) },
    );
    assert_eq!(outs, vec![Outcome::OutOfRange { index: 2, len: 1 }]);
}

#[test]
fn list_command_changes_nothing() {
    let mut l = List::new();
    apply(&mut l, Command::Add { task: String::from("a"), date: None, progress: None });
    let outs = apply(&mut l, Command::List);
    assert!(outs.is_empty());
    assert_eq!(l.len(), 1);
    assert_eq!(l.list()[0].desc(), "a");
}
