use vstd::prelude::*;

use crate::item::Date;
use crate::item::Item;
use crate::item::ItemView;
use crate::item::Progress;
use crate::item::Status;
use crate::item::spec_status_of;

verus! {

/// An index outside the valid range `0..len` of a list, together with the
/// length the list had, so callers can report the valid range.
#[derive(Clone, Copy, Debug, PartialEq, Eq, Structural)]
pub struct IndexError {
    pub len: usize,
}

/// One in-place change of a single task, applied through `List::mutate_index`.
pub enum ItemUpdate {
    Desc(String),
    Deadline(Date),
    Progress(Progress),
}

impl ItemUpdate {
    /// The update's argument is itself a valid value.
    pub open spec fn wf(self) -> bool {
        match self {
            ItemUpdate::Desc(_) => true,
            ItemUpdate::Deadline(d) => d.is_valid(),
            ItemUpdate::Progress(p) => p.wf(),
        }
    }
}

/// What one `ItemUpdate` does to the value of a task: a progress update also
/// recomputes the status, the other two touch only their own field.
pub open spec fn spec_apply_update(iv: ItemView, u: ItemUpdate) -> ItemView {
    match u {
        ItemUpdate::Desc(d) => ItemView { desc: d@, ..iv },
        ItemUpdate::Deadline(d) => ItemView { deadline: Some(d), ..iv },
        ItemUpdate::Progress(p) => ItemView {
            status: spec_status_of(p@),
            progress: p@,
            ..iv
        },
    }
}

/// The predicate that survives a `clear_completed`: everything whose status
/// is not `Complete`.
pub open spec fn not_complete() -> spec_fn(ItemView) -> bool {
    |iv: ItemView| iv.status != Status::Complete
}

/// An ordered sequence of tasks, addressed by position: valid indices are
/// exactly `0..len`, and removal shifts every later task down by one.
#[derive(Debug)]
pub struct List {
    items: Vec<Item>,
}

impl View for List {
    type V = Seq<ItemView>;

    closed spec fn view(&self) -> Seq<ItemView> {
        self.items@.map_values(|it: Item| it@)
    }
}

impl List {
    /// Every task the list holds is well formed.
    pub open spec fn wf(self) -> bool {
        forall|i: int| 0 <= i < self@.len() ==> (#[trigger] self@[i]).wf()
    }

    pub fn new() -> (r: List)
        ensures
            r@ == Seq::<ItemView>::empty(),
            r.wf(),
    {
        let r = List { items: Vec::new() };
        proof {
            assert(r@ =~= Seq::<ItemView>::empty());
        }
        r
    }

    pub fn len(&self) -> (r: usize)
        ensures
            r == self@.len(),
    {
        self.items.len()
    }

    /// Appends at the end: the new task gets the highest valid index.
    pub fn add(&mut self, item: Item)
        ensures
            final(self)@ == old(self)@.push(item@),
            old(self).wf() && item.wf() ==> final(self).wf(),
    {
        self.items.push(item);
        proof {
            assert(self@ =~= old(self)@.push(item@));
        }
    }

    /// Removes the task at `index` if the index is valid, shifting every
    /// later task down by one, and reports whether a task was found there.
    pub fn remove(&mut self, index: usize) -> (found: bool)
        ensures
            found <==> index < old(self)@.len(),
            found ==> final(self)@ == old(self)@.remove(index as int),
            !found ==> final(self)@ == old(self)@,
            old(self).wf() ==> final(self).wf(),
    {
        if index < self.items.len() {
            self.items.remove(index);
            proof {
                assert(self@ =~= old(self)@.remove(index as int));
            }
            true
        } else {
            false
        }
    }

    pub fn get(&self, index: usize) -> (r: Option<&Item>)
        ensures
            index < self@.len() ==> (r matches Some(it) && it@ == self@[index as int]),
            index >= self@.len() ==> r is None,
    {
        if index < self.items.len() {
            Some(&self.items[index])
        } else {
            None
        }
    }

    pub fn list(&self) -> (r: &Vec<Item>)
        ensures
            r@.len() == self@.len(),
            forall|i: int| 0 <= i < self@.len() ==> (#[trigger] r@[i])@ == self@[i],
    {
        &self.items
    }

    /// Applies one update to the task at `index` if the index is valid;
    /// otherwise reports the valid range and leaves the list unchanged.
    pub fn mutate_index(&mut self, index: usize, update: ItemUpdate) -> (r: Result<(), IndexError>)
        requires
            update.wf(),
        ensures
            r is Ok <==> index < old(self)@.len(),
            r is Ok ==> final(self)@ == old(self)@.update(
                index as int,
                spec_apply_update(old(self)@[index as int], update),
            ),
            r matches Err(e) ==> e == (IndexError { len: old(self)@.len() as usize })
                && final(self)@ == old(self)@,
            old(self).wf() ==> final(self).wf(),
    {
        if index < self.items.len() {
            let it = &mut self.items[index];
            match update {
                ItemUpdate::Desc(d) => it.set_desc(d),
                ItemUpdate::Deadline(d) => it.set_deadline(d),
                ItemUpdate::Progress(p) => it.set_progress(p),
            }
            proof {
                assert(self@ =~= old(self)@.update(
                    index as int,
                    spec_apply_update(old(self)@[index as int], update),
                ));
            }
            Ok(())
        } else {
            Err(IndexError { len: self.items.len() })
        }
    }

    /// Removes every completed task, keeping the surviving tasks in their
    /// relative order.
    pub fn clear_completed(&mut self)
        ensures
            final(self)@ == old(self)@.filter(not_complete()),
            old(self).wf() ==> final(self).wf(),
    {
        let ghost pred = not_complete();
        let mut kept: Vec<Item> = Vec::new();
        let n = self.items.len();
        let mut i: usize = 0;
        proof {
            reveal(Seq::filter);
            assert(old(self)@.take(0).filter(pred) =~= Seq::<ItemView>::empty());
            assert(kept@.map_values(|it: Item| it@) =~= Seq::<ItemView>::empty());
        }
        while i < n
            invariant
                pred == not_complete(),
                n == self.items@.len(),
                self == old(self),
                i <= n,
                kept@.map_values(|it: Item| it@) == old(self)@.take(i as int).filter(pred),
                old(self).wf() ==> forall|j: int|
                    0 <= j < kept@.len() ==> (#[trigger] kept@[j])@.wf(),
            decreases n - i,
        {
            let keep = match self.items[i].status() {
                Status::Complete => false,
                _ => true,
            };
            let ghost prev = kept@;
            proof {
                reveal(Seq::filter);
                assert(old(self)@[i as int] == self.items@[i as int]@);
                let t1 = old(self)@.take(i + 1);
                assert(t1.drop_last() =~= old(self)@.take(i as int));
                assert(t1.last() == old(self)@[i as int]);
                let iv = old(self)@[i as int];
                assert(not_complete()(iv) == (iv.status != Status::Complete));
                assert(keep == (iv.status != Status::Complete));
                assert(keep == pred(iv));
                assert(t1.filter(pred) == if pred(t1.last()) {
                    t1.drop_last().filter(pred).push(t1.last())
                } else {
                    t1.drop_last().filter(pred)
                });
            }
            if keep {
                let it = self.items[i].clone_item();
                kept.push(it);
                proof {
                    assert(kept@ == prev.push(it));
                    assert(kept@.map_values(|it: Item| it@) =~= prev.map_values(
                        |it: Item| it@,
                    ).push(old(self)@[i as int]));
                }
            }
            proof {
                reveal(Seq::filter);
                assert(kept@.map_values(|it: Item| it@) =~= old(self)@.take(i + 1).filter(pred));
            }
            i = i + 1;
        }
        proof {
            assert(old(self)@.take(n as int) =~= old(self)@);
        }
        self.items = kept;
        proof {
            assert(self@ =~= old(self)@.filter(pred));
        }
    }
}

} // verus!
