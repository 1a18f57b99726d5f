use todo::Date;
use todo::Item;
use todo::ItemUpdate;
use todo::List;
use todo::PersistenceError;
use todo::Progress;
use todo::Status;
use todo::load;
use todo::save;

fn sample_list() -> List {
    let mut l = List::new();
    l.add(Item::new(String::from("plain task")));
    let d = Date::new(2023, 5, 1).unwrap();
    l.add(Item::new(String::from("dated")).due(d));
    l.mutate_index(1, ItemUpdate::Progress(Progress::new(250_000).unwrap()))
        .unwrap();
    l.add(Item::new(String::from("done one")));
    l.mutate_index(2, ItemUpdate::Progress(Progress::one())).unwrap();
    l
}

fn assert_lists_equal(a: &List, b: &List) {
    assert_eq!(a.len(), b.len());
    for i in 0..a.len() {
        let x = a.get(i).unwrap();
        let y = b.get(i).unwrap();
        assert_eq!(x.desc(), y.desc());
        assert_eq!(x.deadline(), y.deadline());
        assert_eq!(x.status(), y.status());
        assert_eq!(x.progress().units(), y.progress().units());
    }
}

#[test]
fn round_trip_empty() {
    let l = List::new();
    let text = save(&l);
    let back = load(&text).unwrap();
    assert_eq!(back.len(), 0);
}

#[test]
fn round_trip_sample() {
    let l = sample_list();
    let text = save(&l);
    let back = load(&text).unwrap();
    assert_lists_equal(&l, &back);
}

#[test]
fn round_trip_special_characters() {
    let mut l = List::new();
    l.add(Item::new(String::from("say \"hi\" to a\\b")));
    l.add(Item::new(String::from("line\none\ttab\u{1}ctl")));
    l.add(Item::new(String::from("unicode: \u{e9}\u{4e16}\u{1f600}")));
    l.add(Item::new(String::from("")));
    let text = save(&l);
    let back = load(&text).unwrap();
    assert_lists_equal(&l, &back);
}

#[test]
fn round_trip_twice_is_stable() {
    let l = sample_list();
    let text1 = save(&l);
    let back1 = load(&text1).unwrap();
    let text2 = save(&back1);
    assert_eq!(text1, text2);
}

#[test]
fn save_writes_expected_document() {
    let mut l = List::new();
    l.add(Item::new(String::from("A")));
    assert_eq!(
        save(&l),
        "{\"items\":[{\"status\":\"Todo\",\"desc\":\"A\",\"deadline\":null,\"progress\":0.000000}]}"
    );
    let d = Date::new(2023, 5, 1).unwrap();
    l.add(Item::new(String::from("B")).due(d));
    l.mutate_index(1, ItemUpdate::Progress(Progress::new(250_000).unwrap()))
        .unwrap();
    assert_eq!(
        save(&l),
        "{\"items\":[{\"status\":\"Todo\",\"desc\":\"A\",\"deadline\":null,\"progress\":0.000000},{\"status\":\"Underway\",\"desc\":\"B\",\"deadline\":\"2023-05-01\",\"progress\":0.250000}]}"
    );
}

#[test]
fn save_empty_writes_expected_document() {
    assert_eq!(save(&List::new()), "{\"items\":[]}");
}

#[test]
fn save_escapes_description() {
    let mut l = List::new();
    l.add(Item::new(String::from("say \"hi\"\n")));
    assert_eq!(
        save(&l),
        "{\"items\":[{\"status\":\"Todo\",\"desc\":\"say \\\"hi\\\"\\u000a\",\"deadline\":null,\"progress\":0.000000}]}"
    );
}

#[test]
fn load_accepts_written_document() {
    let text = "{\"items\":[{\"status\":\"Complete\",\"desc\":\"x\",\"deadline\":\"2024-02-29\",\"progress\":1.000000}]}";
    let l = load(text).unwrap();
    assert_eq!(l.len(), 1);
    let it = l.get(0).unwrap();
    assert_eq!(it.desc(), "x");
    assert_eq!(it.status(), Status::Complete);
    assert_eq!(it.deadline(), Some(Date::new(2024, 2, 29).unwrap()));
    assert_eq!(it.progress().units(), 1_000_000);
}

#[test]
fn load_rejects_malformed_documents() {
    assert_eq!(load("").unwrap_err(), PersistenceError::Malformed);
    assert_eq!(load("{}").unwrap_err(), PersistenceError::Malformed);
    assert_eq!(load("{\"items\":[").unwrap_err(), PersistenceError::Malformed);
    assert_eq!(load("{\"items\":[]").unwrap_err(), PersistenceError::Malformed);
    assert_eq!(load("{\"items\":[]}}").unwrap_err(), PersistenceError::Malformed);
    assert_eq!(load("not json at all").unwrap_err(), PersistenceError::Malformed);
}

#[test]
fn load_rejects_out_of_range_progress() {
    let text = "{\"items\":[{\"status\":\"Complete\",\"desc\":\"x\",\"deadline\":null,\"progress\":1.500000}]}";
    assert_eq!(load(text).unwrap_err(), PersistenceError::Malformed);
}

#[test]
fn load_rejects_status_progress_mismatch() {
    let text = "{\"items\":[{\"status\":\"Complete\",\"desc\":\"x\",\"deadline\":null,\"progress\":0.000000}]}";
    assert_eq!(load(text).unwrap_err(), PersistenceError::Malformed);
}

#[test]
fn load_rejects_invalid_date() {
    let text = "{\"items\":[{\"status\":\"Todo\",\"desc\":\"x\",\"deadline\":\"2023-02-30\",\"progress\":0.000000}]}";
    assert_eq!(load(text).unwrap_err(), PersistenceError::Malformed);
}
