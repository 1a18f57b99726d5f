use vstd::prelude::*;

use crate::item::Date;
use crate::item::Item;
use crate::item::ItemView;
use crate::item::PROGRESS_SCALE;
use crate::item::Progress;
use crate::item::spec_status_of;
use crate::list::ItemUpdate;
use crate::list::List;
use crate::list::not_complete;
use crate::list::spec_apply_update;

verus! {

/// One invocation's command against the task list. Indices are the user's,
/// counting from 1.
pub enum Command {
    Add { task: String, date: Option<Date>, progress: Option<Progress> },
    Remove { indices: Vec<usize> },
    Done { indices: Vec<usize> },
    Undo { indices: Vec<usize> },
    Update { index: usize, value: ItemUpdate },
    List,
    Clear,
}

/// What happened to one user-supplied index of a batch.
#[derive(Clone, Copy, Debug, PartialEq, Eq, Structural)]
pub enum Outcome {
    Applied { index: usize },
    OutOfRange { index: usize, len: usize },
}

/// A 1-based user index addresses a task iff it lies in `1..=len`: zero is
/// rejected outright instead of wrapping below the first task.
pub open spec fn user_index_ok(len: int, idx: usize) -> bool {
    1 <= idx && idx <= len
}

/// Removes the tasks at the given 1-based indices, one after the other;
/// each index is judged against the list as the earlier removals left it.
pub open spec fn spec_remove_all(l: Seq<ItemView>, idxs: Seq<usize>) -> Seq<ItemView>
    decreases idxs.len(),
{
    if idxs.len() == 0 {
        l
    } else {
        let l1 = if user_index_ok(l.len() as int, idxs[0]) {
            l.remove(idxs[0] as int - 1)
        } else {
            l
        };
        spec_remove_all(l1, idxs.skip(1))
    }
}

/// The per-index reports of that removal batch, in order.
pub open spec fn spec_remove_outcomes(l: Seq<ItemView>, idxs: Seq<usize>) -> Seq<Outcome>
    decreases idxs.len(),
{
    if idxs.len() == 0 {
        Seq::empty()
    } else {
        let o = if user_index_ok(l.len() as int, idxs[0]) {
            Outcome::Applied { index: idxs[0] }
        } else {
            Outcome::OutOfRange { index: idxs[0], len: l.len() as usize }
        };
        let l1 = if user_index_ok(l.len() as int, idxs[0]) {
            l.remove(idxs[0] as int - 1)
        } else {
            l
        };
        seq![o] + spec_remove_outcomes(l1, idxs.skip(1))
    }
}

/// Sets the progress of the tasks at the given 1-based indices to `u`
/// units, deriving the status anew; invalid indices leave the list as it
/// is.
pub open spec fn spec_mark_all(l: Seq<ItemView>, idxs: Seq<usize>, u: int) -> Seq<ItemView>
    decreases idxs.len(),
{
    if idxs.len() == 0 {
        l
    } else {
        let l1 = if user_index_ok(l.len() as int, idxs[0]) {
            l.update(
                idxs[0] as int - 1,
                ItemView {
                    status: spec_status_of(u),
                    progress: u,
                    ..l[idxs[0] as int - 1]
                },
            )
        } else {
            l
        };
        spec_mark_all(l1, idxs.skip(1), u)
    }
}

/// The per-index reports of a marking batch; the length never changes, so
/// every index is judged against the same length.
pub open spec fn spec_mark_outcomes(len: int, idxs: Seq<usize>) -> Seq<Outcome>
    decreases idxs.len(),
{
    if idxs.len() == 0 {
        Seq::empty()
    } else {
        let o = if user_index_ok(len, idxs[0]) {
            Outcome::Applied { index: idxs[0] }
        } else {
            Outcome::OutOfRange { index: idxs[0], len: len as usize }
        };
        seq![o] + spec_mark_outcomes(len, idxs.skip(1))
    }
}

/// The task an `Add` command appends: described, possibly dated, with the
/// given or zero progress and the status that progress derives.
pub open spec fn spec_new_item(task: Seq<char>, date: Option<Date>, progress: Option<Progress>) -> ItemView {
    let u: int = match progress {
        None => 0,
        Some(p) => p@,
    };
    ItemView { status: spec_status_of(u), desc: task, deadline: date, progress: u }
}

/// The command's own values are valid: any date is a real calendar date and
/// any progress lies in range.
pub open spec fn command_wf(c: Command) -> bool {
    match c {
        Command::Add { task: _, date, progress } => (date matches Some(d) ==> d.is_valid()) && (
        progress matches Some(p) ==> p.wf()),
        Command::Update { index: _, value } => value.wf(),
        _ => true,
    }
}

fn mark_all(list: &mut List, indices: &Vec<usize>, p: Progress) -> (outs: Vec<Outcome>)
    requires
        p.wf(),
        old(list).wf(),
    ensures
        final(list).wf(),
        final(list)@ == spec_mark_all(old(list)@, indices@, p@),
        outs@ == spec_mark_outcomes(old(list)@.len() as int, indices@),
{
    let mut outs: Vec<Outcome> = Vec::new();
    let n = indices.len();
    let mut k: usize = 0;
    proof {
        assert(indices@.skip(0) =~= indices@);
        assert(outs@ =~= Seq::<Outcome>::empty());
    }
    while k < n
        invariant
            k <= n,
            n == indices@.len(),
            p.wf(),
            list.wf(),
            list@.len() == old(list)@.len(),
            spec_mark_all(old(list)@, indices@, p@) == spec_mark_all(
                list@,
                indices@.skip(k as int),
                p@,
            ),
            spec_mark_outcomes(old(list)@.len() as int, indices@) == outs@ + spec_mark_outcomes(
                old(list)@.len() as int,
                indices@.skip(k as int),
            ),
        decreases n - k,
    {
        let idx = indices[k];
        let ghost pre = list@;
        let ghost preouts = outs@;
        let ghost sk = indices@.skip(k as int);
        let len = list.len();
        if idx >= 1 && idx <= len {
            let _applied = list.mutate_index(idx - 1, ItemUpdate::Progress(p));
            outs.push(Outcome::Applied { index: idx });
            proof {
                assert(list@ == pre.update(
                    idx as int - 1,
                    spec_apply_update(pre[idx as int - 1], ItemUpdate::Progress(p)),
                ));
            }
        } else {
            outs.push(Outcome::OutOfRange { index: idx, len });
        }
        proof {
            assert(sk[0] == indices@[k as int]);
            assert(sk.skip(1) =~= indices@.skip(k + 1));
            let o = if user_index_ok(pre.len() as int, idx) {
                Outcome::Applied { index: idx }
            } else {
                Outcome::OutOfRange { index: idx, len: pre.len() as usize }
            };
            assert(outs@ =~= preouts.push(o));
            let rest = spec_mark_outcomes(old(list)@.len() as int, indices@.skip(k + 1));
            assert(preouts.push(o) + rest =~= preouts + (seq![o] + rest));
        }
        k = k + 1;
    }
    proof {
        assert(indices@.skip(n as int) =~= Seq::<usize>::empty());
    }
    outs
}

/// Applies one command to the task list: the single mutation step a run of
/// the tool performs between loading the list and saving it back. Reports
/// one outcome per user-supplied index; a bad index never stops the rest of
/// its batch.
pub fn apply(list: &mut List, cmd: Command) -> (outcomes: Vec<Outcome>)
    requires
        command_wf(cmd),
        old(list).wf(),
    ensures
        final(list).wf(),
        match cmd {
            Command::Add { task, date, progress } => final(list)@ == old(list)@.push(
                spec_new_item(task@, date, progress),
            ) && outcomes@ == Seq::<Outcome>::empty(),
            Command::Remove { indices } => final(list)@ == spec_remove_all(old(list)@, indices@)
                && outcomes@ == spec_remove_outcomes(old(list)@, indices@),
            Command::Done { indices } => final(list)@ == spec_mark_all(
                old(list)@,
                indices@,
                PROGRESS_SCALE as int,
            ) && outcomes@ == spec_mark_outcomes(old(list)@.len() as int, indices@),
            Command::Undo { indices } => final(list)@ == spec_mark_all(old(list)@, indices@, 0)
                && outcomes@ == spec_mark_outcomes(old(list)@.len() as int, indices@),
            Command::Update { index, value } => if user_index_ok(old(list)@.len() as int, index) {
                final(list)@ == old(list)@.update(
                    index as int - 1,
                    spec_apply_update(old(list)@[index as int - 1], value),
                ) && outcomes@ == seq![(Outcome::Applied { index })]
            } else {
                final(list)@ == old(list)@ && outcomes@ == seq![
                    (Outcome::OutOfRange { index, len: old(list)@.len() as usize }),
                ]
            },
            Command::List => final(list)@ == old(list)@ && outcomes@ == Seq::<Outcome>::empty(),
            Command::Clear => final(list)@ == old(list)@.filter(not_complete()) && outcomes@
                == Seq::<Outcome>::empty(),
        },
{
    match cmd {
        Command::Add { task, date, progress } => {
            let ghost dd = date;
            let ghost pp = progress;
            let mut it = Item::new(task);
            match date {
                Some(d) => it.set_deadline(d),
                None => {
                },
            }
            match progress {
                Some(p) => it.set_progress(p),
                None => {
                },
            }
            proof {
                assert(it@ == spec_new_item(it@.desc, dd, pp));
            }
            list.add(it);
            Vec::new()
        },
        Command::Remove { indices } => {
            let mut outs: Vec<Outcome> = Vec::new();
            let n = indices.len();
            let mut k: usize = 0;
            proof {
                assert(indices@.skip(0) =~= indices@);
                assert(outs@ =~= Seq::<Outcome>::empty());
            }
            while k < n
                invariant
                    k <= n,
                    n == indices@.len(),
                    list.wf(),
                    spec_remove_all(old(list)@, indices@) == spec_remove_all(
                        list@,
                        indices@.skip(k as int),
                    ),
                    spec_remove_outcomes(old(list)@, indices@) == outs@ + spec_remove_outcomes(
                        list@,
                        indices@.skip(k as int),
                    ),
                decreases n - k,
            {
                let idx = indices[k];
                let ghost pre = list@;
                let ghost preouts = outs@;
                let ghost sk = indices@.skip(k as int);
                let len = list.len();
                if idx >= 1 && idx <= len {
                    let _found = list.remove(idx - 1);
                    outs.push(Outcome::Applied { index: idx });
                } else {
                    outs.push(Outcome::OutOfRange { index: idx, len });
                }
                proof {
                    assert(sk[0] == indices@[k as int]);
                    assert(sk.skip(1) =~= indices@.skip(k + 1));
                    let o = if user_index_ok(pre.len() as int, idx) {
                        Outcome::Applied { index: idx }
                    } else {
                        Outcome::OutOfRange { index: idx, len: pre.len() as usize }
                    };
                    assert(outs@ =~= preouts.push(o));
                    let rest = spec_remove_outcomes(list@, indices@.skip(k + 1));
                    assert(preouts.push(o) + rest =~= preouts + (seq![o] + rest));
                }
                k = k + 1;
            }
            proof {
                assert(indices@.skip(n as int) =~= Seq::<usize>::empty());
            }
            outs
        },
        Command::Done { indices } => mark_all(list, &indices, Progress::one()),
        Command::Undo { indices } => mark_all(list, &indices, Progress::zero()),
        Command::Update { index, value } => {
            let mut outs: Vec<Outcome> = Vec::new();
            if index >= 1 {
                match list.mutate_index(index - 1, value) {
                    Ok(()) => outs.push(Outcome::Applied { index }),
                    Err(e) => outs.push(Outcome::OutOfRange { index, len: e.len }),
                }
            } else {
                let len = list.len();
                outs.push(Outcome::OutOfRange { index, len });
            }
            proof {
                if user_index_ok(old(list)@.len() as int, index) {
                    assert(outs@ =~= seq![(Outcome::Applied { index })]);
                } else {
                    assert(outs@ =~= seq![
                        (Outcome::OutOfRange {
                            index,
                            len: old(list)@.len() as usize,
                        }),
                    ]);
                }
            }
            outs
        },
        Command::List => Vec::new(),
        Command::Clear => {
            list.clear_completed();
            Vec::new()
        },
    }
}

} // verus!
