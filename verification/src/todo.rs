use vstd::prelude::*;

verus! {

/// Status of a minimal checklist entry: either still to do or complete.
#[derive(Debug, PartialEq, Eq, Structural, Clone, Copy)]
pub enum Status {
    Todo,
    Complete,
}

/// A minimal checklist entry: a description and whether it is done. This is
/// the reduced model kept beside the full task list: no deadline and no
/// progress fraction, only the two-state status.
#[derive(Debug)]
pub struct Item {
    status: Status,
    pub desc: String,
}

impl Item {
    /// Whether the entry has been marked done.
    pub closed spec fn spec_is_done(self) -> bool {
        self.status == Status::Complete
    }

    /// The entry's description, as a character sequence.
    pub closed spec fn spec_desc(self) -> Seq<char> {
        self.desc@
    }

    pub fn new(desc: String) -> (r: Item)
        ensures
            !r.spec_is_done(),
            r.spec_desc() == desc@,
    {
        Item { status: Status::Todo, desc }
    }

    pub fn mark_as_done(&mut self)
        ensures
            final(self).spec_is_done(),
            final(self).spec_desc() == old(self).spec_desc(),
    {
        self.status = Status::Complete;
    }

    pub fn unmark(&mut self)
        ensures
            !final(self).spec_is_done(),
            final(self).spec_desc() == old(self).spec_desc(),
    {
        self.status = Status::Todo;
    }

    pub fn is_done(&self) -> (r: bool)
        ensures
            r == self.spec_is_done(),
    {
        match self.status {
            Status::Complete => true,
            Status::Todo => false,
        }
    }
}

/// The predicate that survives `clear_done_tasks`: entries not yet done.
pub open spec fn still_open() -> spec_fn(Item) -> bool {
    |it: Item| !it.spec_is_done()
}

/// An ordered checklist of entries, addressed by position.
#[derive(Debug)]
pub struct TodoList {
    items: Vec<Item>,
}

impl TodoList {
    /// The entries the checklist holds, in order.
    pub closed spec fn entries(self) -> Seq<Item> {
        self.items@
    }

    pub fn new() -> (r: TodoList)
        ensures
            r.entries() == Seq::<Item>::empty(),
    {
        let r = TodoList { items: Vec::new() };
        proof {
            assert(r.entries() =~= Seq::<Item>::empty());
        }
        r
    }

    pub fn add(&mut self, desc: String)
        ensures
            final(self).entries().len() == old(self).entries().len() + 1,
            forall|j: int|
                0 <= j < old(self).entries().len() ==> final(self).entries()[j] == old(
                    self,
                ).entries()[j],
            !final(self).entries().last().spec_is_done(),
            final(self).entries().last().spec_desc() == desc@,
    {
        self.items.push(Item::new(desc));
    }

    /// Removes the entry at `idx`, shifting later entries down by one. The
    /// index must be valid: this mirrors a checklist that fails hard on a
    /// bad index rather than reporting it.
    pub fn remove(&mut self, idx: usize)
        requires
            idx < old(self).entries().len(),
        ensures
            final(self).entries() == old(self).entries().remove(idx as int),
    {
        self.items.remove(idx);
    }

    /// Marks the entry at `idx` done if there is one; a bad index is a
    /// silent no-op here.
    pub fn mark_as_done(&mut self, idx: usize)
        ensures
            final(self).entries().len() == old(self).entries().len(),
            idx < old(self).entries().len() ==> final(self).entries()[idx as int].spec_is_done()
                && final(self).entries()[idx as int].spec_desc() == old(self).entries()[idx as int].spec_desc(),
            forall|j: int|
                0 <= j < old(self).entries().len() && j != idx ==> final(self).entries()[j] == old(
                    self,
                ).entries()[j],
    {
        if idx < self.items.len() {
            let it = &mut self.items[idx];
            it.mark_as_done();
        }
    }

    /// Removes every entry already done, keeping the rest in order.
    pub fn clear_done_tasks(&mut self)
        ensures
            final(self).entries() == old(self).entries().filter(still_open()),
    {
        let ghost pred = still_open();
        let ghost orig = self.items@;
        let mut source: Vec<Item> = Vec::new();
        core::mem::swap(&mut self.items, &mut source);
        let mut kept: Vec<Item> = Vec::new();
        let mut i: usize = 0;
        let n = source.len();
        proof {
            reveal(Seq::filter);
            assert(orig.take(0).filter(pred) =~= Seq::<Item>::empty());
            assert(kept@ =~= orig.take(0).filter(pred));
        }
        while i < n
            invariant
                pred == still_open(),
                i <= n,
                n == orig.len(),
                source@ == orig.skip(i as int),
                kept@ == orig.take(i as int).filter(pred),
            decreases n - i,
        {
            let it = source.remove(0);
            proof {
                reveal(Seq::filter);
                assert(orig.skip(i as int)[0] == orig[i as int]);
                assert(orig.skip(i as int).remove(0) =~= orig.skip(i + 1));
                let t1 = orig.take(i + 1);
                assert(t1.drop_last() =~= orig.take(i as int));
                assert(t1.last() == orig[i as int]);
                let x = orig[i as int];
                assert(still_open()(x) == !x.spec_is_done());
            }
            let keep = !it.is_done();
            if keep {
                kept.push(it);
            }
            proof {
                reveal(Seq::filter);
                assert(kept@ =~= orig.take(i + 1).filter(pred));
            }
            i = i + 1;
        }
        proof {
            assert(orig.take(n as int) =~= orig);
        }
        self.items = kept;
    }

    /// The entries, read-only.
    pub fn items(&self) -> (r: &Vec<Item>)
        ensures
            r@ == self.entries(),
    {
        &self.items
    }
}

} // verus!
