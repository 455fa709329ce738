//! The label index: a pre-pass over the instruction sequence building the
//! mapping from label identifier to instruction position, consumed by the
//! virtual machine's conditional jumps.
//!
//! One forward pass: each `Label` instruction at position `p` with a
//! non-negative identifier `id` grows the mapping up to `id` (unset slots
//! default to the end of the program, so a jump to one halts) and then sets
//! slot `id` to `p`; the last writer wins for duplicate identifiers.

use vstd::prelude::*;
use vstd::pervasive::VecAdditionalExecFns;

use crate::instr::Instr;

verus! {

/// No `Label(id)` instruction stands in `prog` at a position in `[lo, hi)`.
pub open spec fn no_label_between(prog: Seq<Instr>, id: i32, lo: int, hi: int) -> bool {
    forall|p: int| lo <= p < hi ==> prog[p] != Instr::Label(id)
}

/// Slot `id` of the mapping is correct against the first `upto` instructions:
/// either it holds the position of the last `Label(id)` seen so far, or it
/// holds the end of the program and no `Label(id)` has been seen.
pub open spec fn label_slot_ok(labels: Seq<usize>, prog: Seq<Instr>, upto: int, id: int) -> bool {
    ||| (labels[id] < upto && prog[labels[id] as int] == Instr::Label(id as i32)
        && no_label_between(prog, id as i32, labels[id] + 1, upto))
    ||| (labels[id] == prog.len() && no_label_between(prog, id as i32, 0, upto))
}

/// Whether an instruction's label identifier, if it has one, falls below `n`.
pub open spec fn label_id_below(ins: Instr, n: int) -> bool {
    match ins {
        Instr::Label(id) => id >= 0 ==> (id as int) < n,
        _ => true,
    }
}

/// The mapping is correct against the first `upto` instructions: every slot
/// is correct and every labelled position seen so far is covered by a slot.
pub open spec fn labels_partial(labels: Seq<usize>, prog: Seq<Instr>, upto: int) -> bool {
    &&& forall|id: int| 0 <= id < labels.len() ==> #[trigger] label_slot_ok(labels, prog, upto, id)
    &&& forall|p: int| 0 <= p < upto ==> #[trigger] label_id_below(prog[p], labels.len() as int)
}

/// The mapping is the label index of `prog`: correct for the whole program,
/// and no longer than needed (its top slot holds a real position).
pub open spec fn labels_ok(labels: Seq<usize>, prog: Seq<Instr>) -> bool {
    &&& labels_partial(labels, prog, prog.len() as int)
    &&& labels.len() > 0 ==> labels[labels.len() - 1] < prog.len()
}

/// Builds the label index of a program.
pub fn build_labels(prog: &Vec<Instr>) -> (r: Vec<usize>)
    ensures
        labels_ok(r@, prog@),
{
    let mut labels: Vec<usize> = Vec::new();
    let mut p: usize = 0;
    while p < prog.len()
        invariant
            0 <= p <= prog@.len(),
            labels@.len() <= i32::MAX + 1,
            labels_partial(labels@, prog@, p as int),
            labels@.len() > 0 ==> labels@[labels@.len() - 1] < p,
        decreases prog@.len() - p,
    {
        let ghost pre = labels@;
        match prog[p] {
            Instr::Label(id) => {
                if id >= 0 {
                    let idu = id as usize;
                    while labels.len() <= idu
                        invariant
                            idu <= i32::MAX,
                            labels@.len() >= pre.len(),
                            labels@.len() == pre.len() || labels@.len() <= idu + 1,
                            forall|k: int| 0 <= k < pre.len() ==> labels@[k] == pre[k],
                            forall|k: int|
                                pre.len() <= k < labels@.len() ==> labels@[k] == prog@.len(),
                        decreases idu + 1 - labels@.len(),
                    {
                        labels.push(prog.len());
                    }
                    labels.set(idu, p);
                    proof {
                        assert forall|id2: int| 0 <= id2 < labels@.len() implies #[trigger]
                        label_slot_ok(labels@, prog@, p + 1 as int, id2) by {
                            if id2 == idu as int {
                                assert(labels@[id2] == p as usize);
                            } else if id2 < pre.len() {
                                assert(label_slot_ok(pre, prog@, p as int, id2));
                                assert(labels@[id2] == pre[id2]);
                                assert(prog@[p as int] != Instr::Label(id2 as i32));
                            } else {
                                assert(labels@[id2] == prog@.len());
                                assert forall|q: int| 0 <= q < p + 1 implies prog@[q]
                                    != Instr::Label(id2 as i32) by {
                                    if q < p {
                                        assert(label_id_below(prog@[q], pre.len() as int));
                                    }
                                }
                            }
                        }
                        assert forall|q: int| 0 <= q < p + 1 implies #[trigger] label_id_below(
                            prog@[q],
                            labels@.len() as int,
                        ) by {
                            if q < p {
                                assert(label_id_below(prog@[q], pre.len() as int));
                            }
                        }
                    }
                } else {
                    proof {
                        assert forall|id2: int| 0 <= id2 < labels@.len() implies #[trigger]
                        label_slot_ok(labels@, prog@, p + 1 as int, id2) by {
                            assert(label_slot_ok(labels@, prog@, p as int, id2));
                            assert(prog@[p as int] != Instr::Label(id2 as i32));
                        }
                        assert forall|q: int| 0 <= q < p + 1 implies #[trigger] label_id_below(
                            prog@[q],
                            labels@.len() as int,
                        ) by {
                            if q < p {
                                assert(label_id_below(prog@[q], pre.len() as int));
                            }
                        }
                    }
                }
            },
            _ => {
                proof {
                    assert forall|id2: int| 0 <= id2 < labels@.len() implies #[trigger]
                    label_slot_ok(labels@, prog@, p + 1 as int, id2) by {
                        assert(label_slot_ok(labels@, prog@, p as int, id2));
                        assert(prog@[p as int] != Instr::Label(id2 as i32));
                    }
                    assert forall|q: int| 0 <= q < p + 1 implies #[trigger] label_id_below(
                        prog@[q],
                        labels@.len() as int,
                    ) by {
                        if q < p {
                            assert(label_id_below(prog@[q], pre.len() as int));
                        }
                    }
                }
            },
        }
        p = p + 1;
    }
    labels
}

} // verus!
