//! Transactions: the sole mutator of stack state.
//!
//! A transaction holds the original stack untouched and a working copy of
//! its partitions. Mutating operations run against the working copy;
//! `execute` then commits atomically — partitions, head and a fresh log
//! snapshot advance together — while `abort` returns the original stack
//! bit-for-bit. A conflict during a push is a partial success: the
//! transaction still commits so the repository reflects the conflicted
//! state, and the conflict is surfaced to the caller afterwards.

use vstd::prelude::*;

use crate::CommitId;
use crate::error::StackError;
use crate::patch::{Patch, contains_name, name_seq};
use crate::seq_facts::{
    lemma_filter_partition_names, lemma_filter_push, lemma_multiset_of_three, lemma_name_seq_add,
    lemma_no_dup_from_multiset, lemma_no_dup_same_membership_multiset, lemma_no_dup_subset_len,
    not_pred,
};
use crate::stack::{
    Parts, PartsV, Stack, StackState, StackV, applied_seq, clone_parts, name_multiset, replay_top,
    stack_names, unapplied_seq, wf_parts,
};

verus! {

/// Explicit, immutable transaction configuration, fixed before the
/// transaction opens.
#[derive(Clone, Copy, Debug, PartialEq, Eq, Structural)]
pub struct TransConfig {
    /// Materialize patch content into the index and worktree (as opposed
    /// to a metadata-only reorder). The caller performs the materialization;
    /// the engine records the choice.
    pub use_index_and_worktree: bool,
    /// Tolerate a head/top mismatch instead of failing.
    pub allow_bad_head: bool,
    /// Permit throwing away uncommitted worktree modifications.
    pub discard_changes: bool,
    /// Continue past a conflicting patch (leaving it applied with conflict
    /// markers) instead of stopping before it.
    pub allow_push_conflicts: bool,
}

impl TransConfig {
    /// The default configuration: everything off.
    pub fn new() -> (c: TransConfig)
        ensures
            c == (TransConfig {
                use_index_and_worktree: false,
                allow_bad_head: false,
                discard_changes: false,
                allow_push_conflicts: false,
            }),
    {
        TransConfig {
            use_index_and_worktree: false,
            allow_bad_head: false,
            discard_changes: false,
            allow_push_conflicts: false,
        }
    }
}

/// The backend's verdict on applying one patch's change-set to the
/// current head. Every outcome names the commit the backend created for
/// the attempt; for a conflicting application under a configuration that
/// refuses conflicts, that commit is simply discarded.
#[derive(Clone, Copy, Debug, PartialEq, Eq, Structural)]
pub enum PushOutcome {
    /// The change-set merged cleanly; `new_head` holds it.
    Clean { new_head: CommitId },
    /// The change-set is a no-operation against the current base: it was
    /// already merged upstream. `new_head` is the (empty) commit created
    /// for the patch's place in the chain.
    AlreadyMerged { new_head: CommitId },
    /// The merge produced conflicts; `new_head` holds the patch with its
    /// conflict markers.
    Conflict { new_head: CommitId },
}

/// The commit an outcome carries.
pub open spec fn outcome_head(o: PushOutcome) -> CommitId {
    match o {
        PushOutcome::Clean { new_head } => new_head,
        PushOutcome::AlreadyMerged { new_head } => new_head,
        PushOutcome::Conflict { new_head } => new_head,
    }
}

/// The index of the first conflicting outcome, or the length when none
/// conflicts.
pub open spec fn first_conflict(os: Seq<PushOutcome>) -> int
    decreases os.len(),
{
    if os.len() == 0 {
        0
    } else if os[0] is Conflict {
        0
    } else {
        1 + first_conflict(os.drop_first())
    }
}

/// How `first_conflict` characterizes the outcome sequence.
pub proof fn lemma_first_conflict(os: Seq<PushOutcome>)
    ensures
        0 <= first_conflict(os) <= os.len(),
        forall|i: int| 0 <= i < first_conflict(os) ==> !((#[trigger] os[i]) is Conflict),
        first_conflict(os) < os.len() ==> os[first_conflict(os)] is Conflict,
    decreases os.len(),
{
    if os.len() == 0 {
    } else if os[0] is Conflict {
    } else {
        lemma_first_conflict(os.drop_first());
        assert forall|i: int| 0 <= i < first_conflict(os) implies !((os[i]) is Conflict) by {
            if i >= 1 {
                assert(os.drop_first()[i - 1] == os[i]);
                assert(!(os.drop_first()[i - 1] is Conflict));
            }
        }
        if first_conflict(os) < os.len() {
            assert(os[first_conflict(os)] == os.drop_first()[first_conflict(os.drop_first())]);
        }
    }
}

/// How many patches a push call actually moves to the applied partition:
/// everything before the first conflict, plus the conflicting patch itself
/// when conflicts are allowed to land.
pub open spec fn pushed_count(os: Seq<PushOutcome>, allow_push_conflicts: bool) -> int {
    let k = first_conflict(os);
    if k < os.len() && allow_push_conflicts {
        k + 1
    } else {
        k
    }
}

/// The outcome of a push operation: either every named patch was applied,
/// or application stopped at a conflicting patch.
#[derive(Debug)]
pub enum PushStatus {
    /// All named patches are now applied.
    Completed,
    /// Application stopped at `blocked_at`; the patches named after it
    /// remain unapplied.
    PartialWithConflict { blocked_at: String },
}

/// Selects patches whose name occurs in `names`.
pub open spec fn name_in_pred(names: Seq<Seq<char>>) -> spec_fn(Patch) -> bool {
    |q: Patch| names.contains(q.name@)
}

/// Selects patches whose name does not occur in `names`.
pub open spec fn name_not_in_pred(names: Seq<Seq<char>>) -> spec_fn(Patch) -> bool {
    |q: Patch| !names.contains(q.name@)
}

/// The applied patches a pop call keeps, in order.
pub open spec fn kept_after_pop(p: PartsV, names: Seq<Seq<char>>) -> Seq<Patch> {
    applied_seq(p).filter(name_not_in_pred(names))
}

/// The applied patches a pop call removes, in application order.
pub open spec fn popped_by(p: PartsV, names: Seq<Seq<char>>) -> Seq<Patch> {
    applied_seq(p).filter(name_in_pred(names))
}

/// The unapplied patches that survive pushing the patches named in
/// `pushed`, in their previous order.
pub open spec fn remaining_after_push(p: PartsV, pushed: Seq<Seq<char>>) -> Seq<Patch> {
    unapplied_seq(p).filter(name_not_in_pred(pushed))
}

/// A scoped, atomic unit of stack mutation: the original stack is kept
/// untouched until `execute`, and returned unchanged by `abort`.
pub struct Transaction {
    /// The stack as it was when the transaction opened; the sole
    /// authoritative state until commit.
    pub original: Stack,
    /// The candidate partitions the operations mutate.
    pub working: Parts,
    /// The configuration fixed at open time.
    pub conf: TransConfig,
    /// Whether an operation has changed the working copy.
    pub dirty: bool,
    /// When the transaction is a pure reset to a recorded snapshot, the
    /// snapshot's log position; commit then moves the cursor instead of
    /// appending.
    pub reset_to: Option<usize>,
    /// The patch at which a push stopped with conflicts, if any.
    pub conflict: Option<String>,
}

impl Transaction {
    /// The transaction invariant.
    pub open spec fn wf(&self) -> bool {
        &&& self.original.wf()
        &&& wf_parts(self.working@)
        &&& match self.reset_to {
            Some(k) => {
                &&& (k as int) < self.original@.log.entries.len()
                &&& (!self.dirty ==> self.working@ =~= self.original@.log.entries[k as int].parts)
            },
            None => true,
        }
    }
}

impl Stack {
    /// Opens a transaction: a working copy of the current partitions under
    /// an explicit configuration. The stack itself moves into the
    /// transaction and comes back, unchanged or committed, from `abort`
    /// or `execute`.
    pub fn setup_transaction(self, conf: TransConfig) -> (t: Transaction)
        requires
            self.wf(),
        ensures
            t.wf(),
            t.original == self,
            t.working@ == self@.parts,
            t.conf == conf,
            !t.dirty,
            t.reset_to is None,
            t.conflict is None,
    {
        let working = clone_parts(&self.parts);
        Transaction { original: self, working, conf, dirty: false, reset_to: None, conflict: None }
    }
}

impl Transaction {
    /// The stack the transaction was opened on, untouched by any staged
    /// operation.
    pub fn stack(&self) -> (s: &Stack)
        ensures
            *s == self.original,
    {
        &self.original
    }

    /// Removes every applied patch whose name occurs in `names`, most
    /// recently applied first. Each popped patch moves to the front of the
    /// unapplied partition, so the popped patches stand before the
    /// previously unapplied ones, both groups in their old order. Popping
    /// never conflicts; the head returns to the top of the remaining
    /// applied patches and the base does not move. No patch is lost or
    /// duplicated.
    #[verifier::rlimit(80)]
    pub fn pop_patches(&mut self, names: &Vec<String>)
        requires
            old(self).wf(),
        ensures
            final(self).wf(),
            final(self).working@.patches =~= kept_after_pop(old(self).working@, names.deep_view())
                + popped_by(old(self).working@, names.deep_view())
                + unapplied_seq(old(self).working@),
            final(self).working@.applied_count == kept_after_pop(
                old(self).working@,
                names.deep_view(),
            ).len(),
            final(self).working@.base == old(self).working@.base,
            final(self).working@.hidden == old(self).working@.hidden,
            final(self).working@.head == replay_top(final(self).working@),
            name_multiset(final(self).working@) == name_multiset(old(self).working@),
            final(self).dirty == (old(self).dirty || popped_by(
                old(self).working@,
                names.deep_view(),
            ).len() > 0),
            final(self).original == old(self).original,
            final(self).conf == old(self).conf,
            final(self).reset_to == old(self).reset_to,
            final(self).conflict == old(self).conflict,
    {
        let ghost w = self.working@;
        let ghost nv = names.deep_view();
        let ghost aseq = applied_seq(w);
        let ac = self.working.applied_count;
        let total = self.working.patches.len();
        let mut kept: Vec<Patch> = Vec::new();
        let mut popped: Vec<Patch> = Vec::new();
        let mut i: usize = 0;
        while i < ac
            invariant
                i <= ac,
                ac == w.applied_count,
                self == old(self),
                w == self.working@,
                aseq == applied_seq(w),
                wf_parts(w),
                nv == names.deep_view(),
                kept@ =~= aseq.take(i as int).filter(name_not_in_pred(nv)),
                popped@ =~= aseq.take(i as int).filter(name_in_pred(nv)),
            decreases ac - i,
        {
            let p = &self.working.patches[i];
            proof {
                assert(aseq.take(i + 1) =~= aseq.take(i as int).push(aseq[i as int]));
                lemma_filter_push(aseq.take(i as int), aseq[i as int], name_not_in_pred(nv));
                lemma_filter_push(aseq.take(i as int), aseq[i as int], name_in_pred(nv));
                assert(aseq[i as int] == w.patches[i as int]);
            }
            if contains_name(names, &p.name) {
                popped.push(p.clone());
            } else {
                kept.push(p.clone());
            }
            i += 1;
        }
        proof {
            assert(aseq.take(ac as int) =~= aseq);
        }
        let new_count = kept.len();
        let n_popped = popped.len();
        let mut newpatches = kept;
        newpatches.append(&mut popped);
        let mut j: usize = ac;
        while j < total
            invariant
                ac <= j <= total,
                total == w.patches.len(),
                ac == w.applied_count,
                self == old(self),
                w == self.working@,
                wf_parts(w),
                nv == names.deep_view(),
                newpatches@ =~= kept_after_pop(w, nv) + popped_by(w, nv) + w.patches.subrange(
                    ac as int,
                    j as int,
                ),
            decreases total - j,
        {
            let p = self.working.patches[j].clone();
            newpatches.push(p);
            proof {
                assert(w.patches.subrange(ac as int, j + 1) =~= w.patches.subrange(
                    ac as int,
                    j as int,
                ).push(w.patches[j as int]));
            }
            j += 1;
        }
        proof {
            assert(w.patches.subrange(ac as int, total as int) =~= unapplied_seq(w));
        }
        self.working.patches = newpatches;
        self.working.applied_count = new_count;
        if new_count == 0 {
            self.working.head = self.working.base;
        } else {
            self.working.head = self.working.patches[new_count - 1].commit;
        }
        if n_popped > 0 {
            self.dirty = true;
        }
        proof {
            let fw = self.working@;
            let kseq = kept_after_pop(w, nv);
            let pseq = popped_by(w, nv);
            let useq = unapplied_seq(w);
            assert(fw.patches =~= kseq + pseq + useq);
            // The head is the replay of what remains applied.
            assert(applied_seq(fw) =~= kseq) by {
                assert(fw.patches.take(kseq.len() as int) =~= kseq);
            }
            if new_count != 0 {
                assert(fw.patches[new_count - 1] == kseq[new_count - 1]);
            }
            // Partition closure: the name multiset is untouched.
            broadcast use vstd::multiset::group_multiset_axioms;

            lemma_filter_partition_names(aseq, name_in_pred(nv));
            assert(not_pred(name_in_pred(nv)) =~= name_not_in_pred(nv));
            assert(aseq.filter(not_pred(name_in_pred(nv))) == kseq);
            lemma_name_seq_add(kseq, pseq);
            vstd::seq_lib::lemma_multiset_commutative(name_seq(kseq), name_seq(pseq));
            lemma_multiset_of_three(kseq + pseq, useq, w.hidden);
            lemma_multiset_of_three(aseq, useq, w.hidden);
            assert(aseq + useq =~= w.patches);
            assert((aseq + useq) + w.hidden =~= w.patches + w.hidden);
            assert(((kseq + pseq) + useq) + w.hidden =~= fw.patches + fw.hidden);
            assert(name_multiset(fw) == name_multiset(w));
            // Well-formedness: the names stay duplicate-free.
            lemma_no_dup_from_multiset(stack_names(w), stack_names(fw));
            // When nothing was popped the working copy is unchanged as a
            // value, which keeps a pending pure reset pure.
            if pseq.len() == 0 {
                aseq.filter_lemma(name_in_pred(nv));
                assert forall|ii: int| 0 <= ii < aseq.len() implies name_not_in_pred(nv)(
                    aseq[ii],
                ) by {
                    if name_in_pred(nv)(aseq[ii]) {
                        assert(pseq.contains(aseq[ii]));
                    }
                }
                crate::seq_facts::lemma_filter_all(aseq, name_not_in_pred(nv));
                assert(fw =~= w);
            }
        }
    }

    /// Reapplies the named patches, in the given order, on top of the
    /// current top. `outcomes` holds the backend's verdict for each named
    /// patch, in the same order; the engine consumes them up to and
    /// including the first conflict and ignores the rest. A cleanly merged
    /// patch becomes applied; one already merged upstream becomes applied
    /// and, when `check_merged` is set, is recorded as empty rather than
    /// dropped; at the first conflict no further patch is applied — the
    /// conflicting patch itself lands with its conflict markers when the
    /// configuration allows push conflicts and stays unapplied otherwise.
    /// The patches named after the stop keep their places among the
    /// unapplied, in order. No patch is lost or duplicated.
    #[verifier::rlimit(80)]
    pub fn push_patches(
        &mut self,
        names: &Vec<String>,
        check_merged: bool,
        outcomes: &Vec<PushOutcome>,
    ) -> (r: PushStatus)
        requires
            old(self).wf(),
            outcomes@.len() == names@.len(),
            names.deep_view().no_duplicates(),
            forall|i: int|
                0 <= i < names@.len() ==> name_seq(unapplied_seq(old(self).working@)).contains(
                    #[trigger] names.deep_view()[i],
                ),
        ensures
            final(self).wf(),
            final(self).working@.applied_count == old(self).working@.applied_count + pushed_count(
                outcomes@,
                old(self).conf.allow_push_conflicts,
            ),
            final(self).working@.patches.take(old(self).working@.applied_count) =~= applied_seq(
                old(self).working@,
            ),
            forall|j: int|
                0 <= j < pushed_count(outcomes@, old(self).conf.allow_push_conflicts) ==> {
                    &&& (#[trigger] final(self).working@.patches[old(self).working@.applied_count
                        + j]).name@ == names.deep_view()[j]
                    &&& final(self).working@.patches[old(self).working@.applied_count + j].commit
                        == outcome_head(outcomes@[j])
                    &&& final(self).working@.patches[old(self).working@.applied_count + j].empty
                        == (check_merged && outcomes@[j] is AlreadyMerged)
                },
            final(self).working@.patches.skip(
                old(self).working@.applied_count + pushed_count(
                    outcomes@,
                    old(self).conf.allow_push_conflicts,
                ),
            ) =~= remaining_after_push(
                old(self).working@,
                names.deep_view().take(
                    pushed_count(outcomes@, old(self).conf.allow_push_conflicts),
                ),
            ),
            final(self).working@.head == (if pushed_count(
                outcomes@,
                old(self).conf.allow_push_conflicts,
            ) == 0 {
                old(self).working@.head
            } else {
                outcome_head(
                    outcomes@[pushed_count(outcomes@, old(self).conf.allow_push_conflicts) - 1],
                )
            }),
            final(self).working@.base == old(self).working@.base,
            final(self).working@.hidden == old(self).working@.hidden,
            name_multiset(final(self).working@) == name_multiset(old(self).working@),
            final(self).dirty == (old(self).dirty || pushed_count(
                outcomes@,
                old(self).conf.allow_push_conflicts,
            ) > 0),
            final(self).original == old(self).original,
            final(self).conf == old(self).conf,
            final(self).reset_to == old(self).reset_to,
            first_conflict(outcomes@) < outcomes@.len() ==> (final(self).conflict matches Some(n)
                && n@ == names.deep_view()[first_conflict(outcomes@)]),
            first_conflict(outcomes@) == outcomes@.len() ==> final(self).conflict == old(
                self,
            ).conflict,
            first_conflict(outcomes@) == outcomes@.len() ==> r is Completed,
            first_conflict(outcomes@) < outcomes@.len() ==> (r matches
                PushStatus::PartialWithConflict { blocked_at } && blocked_at@
                == names.deep_view()[first_conflict(outcomes@)]),
    {
        let ghost w = self.working@;
        let ghost nv = names.deep_view();
        let ghost os = outcomes@;
        let ghost useq = unapplied_seq(w);
        let n = names.len();
        // Find where application stops.
        let mut fc: usize = 0;
        while fc < n && !outcome_is_conflict(&outcomes[fc])
            invariant
                fc <= n,
                n == os.len(),
                os == outcomes@,
                forall|i: int| 0 <= i < fc ==> !((#[trigger] os[i]) is Conflict),
            decreases n - fc,
        {
            fc += 1;
        }
        proof {
            lemma_first_conflict(os);
            assert(fc as int == first_conflict(os));
        }
        let allow = self.conf.allow_push_conflicts;
        let pc: usize = if fc < n && allow {
            fc + 1
        } else {
            fc
        };
        proof {
            assert(pc as int == pushed_count(os, self.conf.allow_push_conflicts));
            // The pushed names all stand among the unapplied names, so the
            // new boundary stays within the patch sequence.
            assert(nv.len() <= name_seq(useq).len()) by {
                assert(forall|x: Seq<char>| nv.contains(x) ==> name_seq(useq).contains(x)) by {
                    assert forall|x: Seq<char>| nv.contains(x) implies name_seq(useq).contains(
                        x,
                    ) by {
                        let i = choose|i: int| 0 <= i < nv.len() && nv[i] == x;
                        assert(name_seq(useq).contains(nv[i]));
                    }
                }
                lemma_no_dup_subset_len(nv, name_seq(useq));
            }
        }
        let ghost pushed_names = nv.take(pc as int);
        // Build the new applied entries.
        let mut entries: Vec<Patch> = Vec::new();
        let mut newhead: CommitId = self.working.head;
        let mut j: usize = 0;
        while j < pc
            invariant
                j <= pc,
                pc <= n,
                n == names@.len(),
                n == os.len(),
                os == outcomes@,
                nv == names.deep_view(),
                w == self.working@,
                self == old(self),
                entries@.len() == j as int,
                forall|k: int|
                    0 <= k < j ==> {
                        let q = #[trigger] entries@[k];
                        &&& q.name@ == nv[k]
                        &&& q.commit == outcome_head(os[k])
                        &&& q.empty == (check_merged && os[k] is AlreadyMerged)
                    },
                newhead == (if j == 0 {
                    w.head
                } else {
                    outcome_head(os[j - 1])
                }),
            decreases pc - j,
        {
            let o = &outcomes[j];
            let h = outcome_new_head(o);
            let emp = check_merged && outcome_is_merged(o);
            entries.push(Patch { name: names[j].clone(), commit: h, empty: emp });
            newhead = h;
            j += 1;
        }
        // Collect the unapplied patches that are not being pushed.
        let ac = self.working.applied_count;
        let total = self.working.patches.len();
        let mut kept: Vec<Patch> = Vec::new();
        let mut i: usize = ac;
        while i < total
            invariant
                ac <= i <= total,
                ac == w.applied_count,
                total == w.patches.len(),
                pc <= n,
                n == names@.len(),
                nv == names.deep_view(),
                pushed_names == nv.take(pc as int),
                w == self.working@,
                self == old(self),
                wf_parts(w),
                kept@ =~= w.patches.subrange(ac as int, i as int).filter(
                    name_not_in_pred(pushed_names),
                ),
            decreases total - i,
        {
            let p = &self.working.patches[i];
            proof {
                assert(w.patches.subrange(ac as int, i + 1) =~= w.patches.subrange(
                    ac as int,
                    i as int,
                ).push(w.patches[i as int]));
                lemma_filter_push(
                    w.patches.subrange(ac as int, i as int),
                    w.patches[i as int],
                    name_not_in_pred(pushed_names),
                );
            }
            if !contains_name_upto(names, pc, &p.name) {
                kept.push(p.clone());
            }
            i += 1;
        }
        proof {
            assert(w.patches.subrange(ac as int, total as int) =~= useq);
        }
        // Assemble the new patch sequence.
        let ghost eseq = entries@;
        let ghost kseq = kept@;
        let mut newpatches: Vec<Patch> = Vec::new();
        let mut i2: usize = 0;
        while i2 < ac
            invariant
                i2 <= ac,
                ac == w.applied_count,
                ac <= w.patches.len(),
                w == self.working@,
                self == old(self),
                newpatches@ =~= w.patches.take(i2 as int),
            decreases ac - i2,
        {
            newpatches.push(self.working.patches[i2].clone());
            i2 += 1;
        }
        newpatches.append(&mut entries);
        newpatches.append(&mut kept);
        self.working.patches = newpatches;
        self.working.applied_count = ac + pc;
        if pc > 0 {
            self.working.head = newhead;
            self.dirty = true;
        }
        let st = if fc < n {
            self.conflict = Some(names[fc].clone());
            PushStatus::PartialWithConflict { blocked_at: names[fc].clone() }
        } else {
            PushStatus::Completed
        };
        proof {
            broadcast use vstd::multiset::group_multiset_axioms;
            broadcast use vstd::seq_lib::group_to_multiset_ensures;

            let fw = self.working@;
            let aseq = applied_seq(w);
            let removed = useq.filter(name_in_pred(pushed_names));
            assert(aseq =~= w.patches.take(ac as int));
            assert(fw.patches =~= aseq + eseq + kseq);
            assert(fw.patches.take(ac as int) =~= aseq);
            assert(fw.patches.skip(ac + pc) =~= kseq);
            assert(name_seq(eseq) =~= pushed_names);
            // The unapplied names are themselves duplicate-free.
            assert(name_seq(useq).no_duplicates()) by {
                assert(forall|k: int|
                    0 <= k < useq.len() ==> name_seq(useq)[k] == stack_names(w)[ac + k]);
            }
            // The names being pushed are exactly the names of the removed
            // unapplied patches.
            useq.filter_lemma(name_in_pred(pushed_names));
            assert forall|x: Seq<char>| pushed_names.contains(x) <==> name_seq(removed).contains(
                x,
            ) by {
                if pushed_names.contains(x) {
                    let jj = choose|jj: int| 0 <= jj < pushed_names.len() && pushed_names[jj] == x;
                    assert(name_seq(useq).contains(nv[jj]));
                    let ui = choose|ui: int| 0 <= ui < useq.len() && name_seq(useq)[ui] == x;
                    assert(name_in_pred(pushed_names)(useq[ui]));
                    assert(removed.contains(useq[ui]));
                    let ri = choose|ri: int| 0 <= ri < removed.len() && removed[ri] == useq[ui];
                    assert(name_seq(removed)[ri] == x);
                }
                if name_seq(removed).contains(x) {
                    let ri = choose|ri: int| 0 <= ri < removed.len() && removed[ri].name@ == x;
                    assert(name_in_pred(pushed_names)(removed[ri]));
                }
            }
            // The removed names hold no duplicate either.
            lemma_filter_partition_names(useq, name_in_pred(pushed_names));
            assert(not_pred(name_in_pred(pushed_names)) =~= name_not_in_pred(pushed_names));
            assert(useq.filter(not_pred(name_in_pred(pushed_names))) == kseq);
            name_seq(useq).lemma_multiset_has_no_duplicates();
            assert forall|x: Seq<char>| name_seq(removed).to_multiset().contains(x) implies
                name_seq(removed).to_multiset().count(x) == 1 by {
                assert(name_seq(removed).to_multiset().count(x) + name_seq(
                    kseq,
                ).to_multiset().count(x) == name_seq(useq).to_multiset().count(x));
                assert(name_seq(useq).to_multiset().contains(x));
            }
            name_seq(removed).lemma_multiset_has_no_duplicates_conv();
            assert(pushed_names.no_duplicates()) by {
                assert(forall|a: int, b: int|
                    0 <= a < pc && 0 <= b < pc && a != b ==> pushed_names[a] != pushed_names[b]);
            }
            lemma_no_dup_same_membership_multiset(pushed_names, name_seq(removed));
            assert(name_seq(eseq).to_multiset() == name_seq(removed).to_multiset());
            assert(name_seq(eseq).to_multiset().add(name_seq(kseq).to_multiset()) == name_seq(
                useq,
            ).to_multiset());
            // Partition closure: the name multiset is untouched.
            lemma_name_seq_add(aseq, eseq);
            vstd::seq_lib::lemma_multiset_commutative(name_seq(aseq), name_seq(eseq));
            lemma_multiset_of_three(aseq + eseq, kseq, w.hidden);
            lemma_multiset_of_three(aseq, useq, w.hidden);
            assert(aseq + useq =~= w.patches);
            assert((aseq + useq) + w.hidden =~= w.patches + w.hidden);
            assert(((aseq + eseq) + kseq) + w.hidden =~= fw.patches + fw.hidden);
            assert(name_seq(aseq + eseq) =~= name_seq(aseq) + name_seq(eseq));
            assert(name_multiset(fw) =~= name_multiset(w));
            lemma_no_dup_from_multiset(stack_names(w), stack_names(fw));
            // A push that applies nothing leaves the working copy unchanged
            // as a value, which keeps a pending pure reset pure.
            if pc == 0 {
                assert(forall|k: int|
                    0 <= k < useq.len() ==> name_not_in_pred(pushed_names)(#[trigger] useq[k]));
                crate::seq_facts::lemma_filter_all(useq, name_not_in_pred(pushed_names));
                assert(fw =~= w);
            }
        }
        st
    }

    /// Replaces the working copy's partitions with a previously recorded
    /// snapshot — the mechanism behind undo and redo. When no other
    /// mutating operation runs in the same transaction, `execute` then
    /// moves the log cursor to the snapshot instead of appending.
    pub fn reset_to_state(&mut self, state: &StackState)
        requires
            old(self).wf(),
            0 <= state@.position < old(self).original@.log.entries.len(),
            old(self).original@.log.entries[state@.position] =~= state@,
        ensures
            final(self).wf(),
            final(self).working@ =~= state@.parts,
            final(self).reset_to == Some(state.position),
            final(self).dirty == old(self).dirty,
            final(self).conflict == old(self).conflict,
            final(self).original == old(self).original,
            final(self).conf == old(self).conf,
    {
        self.working = clone_parts(&state.parts);
        self.reset_to = Some(state.position);
    }

    /// Abandons the transaction: the original stack comes back bit for
    /// bit — partitions, head and log untouched. Together with the staged
    /// operations' guarantee that they never touch `original`, this is the
    /// atomicity of the failure path: nothing persisted changes.
    pub fn abort(self) -> (s: Stack)
        ensures
            s == self.original,
    {
        let Transaction { original, .. } = self;
        original
    }

    /// Commits the transaction. On the fresh-mutation path, partitions,
    /// head and a new labeled log snapshot advance together: entries
    /// beyond the cursor are truncated, the snapshot is appended, and the
    /// cursor moves to it — which is what makes redo unavailable after any
    /// fresh mutation. A transaction that was a pure reset to a recorded
    /// snapshot moves the cursor to that snapshot instead, leaving the
    /// entries untouched, so undo and redo travel the log without
    /// rewriting it. A transaction that changed nothing returns the
    /// original stack unchanged. A conflict recorded by a push is
    /// surfaced as an error after the commit, never instead of it.
    pub fn execute(self, label: &str) -> (r: (Stack, Result<(), StackError>))
        requires
            self.wf(),
        ensures
            r.0.wf(),
            r.0@.parts.head == replay_top(r.0@.parts),
            self.dirty ==> committed_fresh(self, label@, r.0@),
            !self.dirty ==> (match self.reset_to {
                Some(k) => committed_reset(self, k as int, r.0@),
                None => r.0 == self.original,
            }),
            (match self.conflict {
                Some(n) => r.1 == Err::<(), StackError>(
                    StackError::Conflicts { patch: Some(n) },
                ),
                None => r.1 == Ok::<(), StackError>(()),
            }),
    {
        let Transaction { original, working, conf: _, dirty, reset_to, conflict } = self;
        let stack: Stack = if dirty {
            let Stack { branch, parts: _, mut log } = original;
            let n = log.entries.len();
            proof {
                assert(log.cursor < n);
            }
            let position = log.cursor + 1;
            log.entries.truncate(position);
            let entry = StackState {
                position,
                label: String::from_str(label),
                parts: clone_parts(&working),
            };
            log.entries.push(entry);
            log.cursor = position;
            let s = Stack { branch, parts: working, log };
            proof {
                let c = self.original@.log.cursor;
                assert(s@.log.entries.take(c + 1) =~= self.original@.log.entries.take(c + 1));
                assert(s@.log.entries[s@.log.cursor].parts =~= s@.parts);
                assert forall|i: int| 0 <= i < s@.log.entries.len() implies {
                    &&& (#[trigger] s@.log.entries[i]).position == i
                    &&& wf_parts(s@.log.entries[i].parts)
                } by {
                    if i < c + 1 {
                        assert(s@.log.entries.take(c + 1)[i] == s@.log.entries[i]);
                        assert(self.original@.log.entries.take(c + 1)[i]
                            == self.original@.log.entries[i]);
                    }
                }
            }
            s
        } else {
            match reset_to {
                Some(k) => {
                    let Stack { branch, parts: _, mut log } = original;
                    log.cursor = k;
                    let s = Stack { branch, parts: working, log };
                    proof {
                        assert(s@.log.entries == self.original@.log.entries);
                        assert(s@.log.entries[s@.log.cursor].parts =~= s@.parts);
                    }
                    s
                },
                None => original,
            }
        };
        let res: Result<(), StackError> = match conflict {
            Some(n) => Err(StackError::Conflicts { patch: Some(n) }),
            None => Ok(()),
        };
        (stack, res)
    }
}

/// What holds of the stack a dirty transaction commits: the working
/// partitions become current, the log is truncated past the cursor, a
/// fresh snapshot with the given label is appended, and the cursor moves
/// to it.
pub open spec fn committed_fresh(t: Transaction, label: Seq<char>, s: StackV) -> bool {
    &&& s.branch == t.original@.branch
    &&& s.parts =~= t.working@
    &&& s.log.cursor == t.original@.log.cursor + 1
    &&& s.log.entries.len() == t.original@.log.cursor + 2
    &&& s.log.entries.take(t.original@.log.cursor + 1) =~= t.original@.log.entries.take(
        t.original@.log.cursor + 1,
    )
    &&& s.log.entries.last().parts =~= t.working@
    &&& s.log.entries.last().label == label
    &&& s.log.entries.last().position == t.original@.log.cursor + 1
}

/// What holds of the stack a pure-reset transaction commits: the recorded
/// snapshot's partitions become current and the cursor moves to its
/// position; the log entries are untouched.
pub open spec fn committed_reset(t: Transaction, k: int, s: StackV) -> bool {
    &&& s.branch == t.original@.branch
    &&& s.parts =~= t.working@
    &&& s.log.entries == t.original@.log.entries
    &&& s.log.cursor == k
}

/// Whether an outcome is a conflict.
fn outcome_is_conflict(o: &PushOutcome) -> (r: bool)
    ensures
        r == (*o is Conflict),
{
    match o {
        PushOutcome::Conflict { .. } => true,
        _ => false,
    }
}

/// Whether an outcome reports the change-set as already merged upstream.
fn outcome_is_merged(o: &PushOutcome) -> (r: bool)
    ensures
        r == (*o is AlreadyMerged),
{
    match o {
        PushOutcome::AlreadyMerged { .. } => true,
        _ => false,
    }
}

/// The commit an outcome carries.
fn outcome_new_head(o: &PushOutcome) -> (r: CommitId)
    ensures
        r == outcome_head(*o),
{
    match *o {
        PushOutcome::Clean { new_head } => new_head,
        PushOutcome::AlreadyMerged { new_head } => new_head,
        PushOutcome::Conflict { new_head } => new_head,
    }
}

/// Whether `n` occurs among the first `upto` of `names`.
fn contains_name_upto(names: &Vec<String>, upto: usize, n: &String) -> (r: bool)
    requires
        upto <= names@.len(),
    ensures
        r == names.deep_view().take(upto as int).contains(n@),
{
    let mut i: usize = 0;
    while i < upto
        invariant
            i <= upto <= names@.len(),
            forall|j: int| 0 <= j < i ==> names.deep_view()[j] != n@,
        decreases upto - i,
    {
        if names[i].eq(n) {
            proof {
                assert(names.deep_view().take(upto as int)[i as int] == n@);
            }
            return true;
        }
        i += 1;
    }
    proof {
        assert forall|j: int| 0 <= j < upto implies names.deep_view().take(upto as int)[j]
            != n@ by {
            assert(names.deep_view().take(upto as int)[j] == names.deep_view()[j]);
        }
    }
    false
}

} // verus!
