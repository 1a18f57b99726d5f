use todo::todo::Item;
use todo::todo::TodoList;

#[test]
fn new_entry_is_open() {
    let it = Item::new(String::from("Buy Milk"));
    assert!(!it.is_done());
    assert_eq!(it.desc, "Buy Milk");
}

#[test]
fn mark_and_unmark_entry() {
    let mut it = Item::new(String::from("t"));
    it.mark_as_done();
    assert!(it.is_done());
    it.unmark();
    assert!(!it.is_done());
}

#[test]
fn checklist_add_and_mark() {
    let mut list = TodoList::new();
    list.add(String::from("Buy Milk"));
    list.add(String::from("Walk dog"));
    assert_eq!(list.items().len(), 2);
    list.mark_as_done(0);
    assert!(list.items()[0].is_done());
    assert!(!list.items()[1].is_done());
    list.mark_as_done(9);
    assert!(!list.items()[1].is_done());
}

#[test]
fn checklist_remove_shifts() {
    let mut list = TodoList::new();
    list.add(String::from("a"));
    list.add(String::from("b"));
    list.add(String::from("c"));
    list.remove(0);
    assert_eq!(list.items().len(), 2);
    assert_eq!(list.items()[0].desc, "b");
    assert_eq!(list.items()[1].desc, "c");
}

#[test]
fn checklist_clear_done_tasks() {
    let mut list = TodoList::new();
    list.add(String::from("a"));
    list.add(String::from("b"));
    list.add(String::from("c"));
    list.mark_as_done(0);
    list.mark_as_done(2);
    list.clear_done_tasks();
    assert_eq!(list.items().len(), 1);
    assert_eq!(list.items()[0].desc, "b");
}
