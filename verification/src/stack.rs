//! The stack: one branch's patches, partitioned into applied, unapplied and
//! hidden, plus its base commit and its undo/redo log.
//!
//! Applied and unapplied patches are one ordered sequence with a movable
//! partition boundary: the patches below `applied_count` are applied, in
//! application order, and the rest are unapplied. Hidden patches are
//! recorded separately and excluded from replay. The log is an append-only
//! sequence of immutable snapshots with a cursor marking the current
//! logical position.

use vstd::prelude::*;
use vstd::multiset::Multiset;

use crate::CommitId;
use crate::error::StackError;
use crate::patch::{Patch, clone_patches, name_seq};

verus! {

/// The mutable portion of a stack: partitions, base and head.
pub struct Parts {
    /// The commit beneath all applied patches; moves only on transaction
    /// commit, never mid-transaction.
    pub base: CommitId,
    /// Applied patches (below `applied_count`, in application order)
    /// followed by unapplied patches.
    pub patches: Vec<Patch>,
    /// The partition boundary: how many of `patches` are applied.
    pub applied_count: usize,
    /// Hidden patches, excluded from replay.
    pub hidden: Vec<Patch>,
    /// The branch head commit the partitions reproduce.
    pub head: CommitId,
}

/// The spec-level value of `Parts`.
#[verifier::ext_equal]
pub ghost struct PartsV {
    pub base: CommitId,
    pub patches: Seq<Patch>,
    pub applied_count: int,
    pub hidden: Seq<Patch>,
    pub head: CommitId,
}

impl View for Parts {
    type V = PartsV;

    open spec fn view(&self) -> PartsV {
        PartsV {
            base: self.base,
            patches: self.patches@,
            applied_count: self.applied_count as int,
            hidden: self.hidden@,
            head: self.head,
        }
    }
}

/// An immutable snapshot of stack state, created once per committed
/// transaction and never mutated afterwards.
pub struct StackState {
    /// The snapshot's place in the log; positions increase by one.
    pub position: usize,
    /// Free text describing the operation that produced this state.
    pub label: String,
    /// The partitions, base and head at the time of the snapshot.
    pub parts: Parts,
}

/// The spec-level value of `StackState`.
#[verifier::ext_equal]
pub ghost struct StateV {
    pub position: int,
    pub label: Seq<char>,
    pub parts: PartsV,
}

impl View for StackState {
    type V = StateV;

    open spec fn view(&self) -> StateV {
        StateV { position: self.position as int, label: self.label@, parts: self.parts@ }
    }
}

/// The per-branch history of stack snapshots with a navigable cursor.
pub struct UndoRedoLog {
    /// Snapshots, oldest first; entry `i` has position `i`.
    pub entries: Vec<StackState>,
    /// The entry describing the current logical state. The cursor is behind
    /// the most recent entry exactly when the preceding action was an undo.
    pub cursor: usize,
}

/// The spec-level value of `UndoRedoLog`.
#[verifier::ext_equal]
pub ghost struct LogV {
    pub entries: Seq<StateV>,
    pub cursor: int,
}

impl View for UndoRedoLog {
    type V = LogV;

    open spec fn view(&self) -> LogV {
        LogV {
            entries: Seq::new(self.entries@.len(), |i: int| self.entries@[i]@),
            cursor: self.cursor as int,
        }
    }
}

/// One branch's patch stack.
pub struct Stack {
    /// The branch this stack belongs to.
    pub branch: String,
    /// The current partitions, base and head.
    pub parts: Parts,
    /// The undo/redo history of this branch.
    pub log: UndoRedoLog,
}

/// The spec-level value of `Stack`.
#[verifier::ext_equal]
pub ghost struct StackV {
    pub branch: Seq<char>,
    pub parts: PartsV,
    pub log: LogV,
}

impl View for Stack {
    type V = StackV;

    open spec fn view(&self) -> StackV {
        StackV { branch: self.branch@, parts: self.parts@, log: self.log@ }
    }
}

/// The applied patches, in application order.
pub open spec fn applied_seq(p: PartsV) -> Seq<Patch> {
    p.patches.take(p.applied_count)
}

/// The unapplied patches, in order.
pub open spec fn unapplied_seq(p: PartsV) -> Seq<Patch> {
    p.patches.skip(p.applied_count)
}

/// The commit that replaying `base` plus the applied change-sets, in order,
/// reproduces: the commit recorded for the top applied patch, or `base`
/// itself when nothing is applied.
pub open spec fn replay_top(p: PartsV) -> CommitId {
    if p.applied_count == 0 {
        p.base
    } else {
        p.patches[p.applied_count - 1].commit
    }
}

/// Every patch of the stack: applied, unapplied, then hidden.
pub open spec fn all_patches(p: PartsV) -> Seq<Patch> {
    p.patches + p.hidden
}

/// The names across applied, unapplied and hidden, in order.
pub open spec fn stack_names(p: PartsV) -> Seq<Seq<char>> {
    name_seq(all_patches(p))
}

/// The multiset of patch names; pop and push operations preserve it.
pub open spec fn name_multiset(p: PartsV) -> Multiset<Seq<char>> {
    stack_names(p).to_multiset()
}

/// Well-formed partitions: the boundary is in range, names are unique
/// across all three partitions, and the head is exactly what replaying the
/// applied patches over the base reproduces.
pub open spec fn wf_parts(p: PartsV) -> bool {
    &&& 0 <= p.applied_count <= p.patches.len()
    &&& stack_names(p).no_duplicates()
    &&& p.head == replay_top(p)
}

/// A well-formed log: non-empty, cursor in range, positions dense in order,
/// and every recorded snapshot itself well-formed.
pub open spec fn wf_log(l: LogV) -> bool {
    &&& l.entries.len() >= 1
    &&& 0 <= l.cursor < l.entries.len()
    &&& forall|i: int| 0 <= i < l.entries.len() ==> (#[trigger] l.entries[i]).position == i
    &&& forall|i: int| 0 <= i < l.entries.len() ==> wf_parts((#[trigger] l.entries[i]).parts)
}

impl Stack {
    /// The stack invariant: partitions and log are well-formed and the
    /// cursor's entry records exactly the current partitions.
    pub open spec fn wf(&self) -> bool {
        &&& wf_parts(self@.parts)
        &&& wf_log(self@.log)
        &&& self@.log.entries[self@.log.cursor].parts =~= self@.parts
    }
}

/// An element-wise copy of partitions.
pub fn clone_parts(p: &Parts) -> (r: Parts)
    ensures
        r@ == p@,
{
    let r = Parts {
        base: p.base,
        patches: clone_patches(&p.patches),
        applied_count: p.applied_count,
        hidden: clone_patches(&p.hidden),
        head: p.head,
    };
    proof {
        assert(r@ =~= p@);
    }
    r
}

/// An element-wise copy of a snapshot.
pub fn clone_state(s: &StackState) -> (r: StackState)
    ensures
        r@ == s@,
{
    let r = StackState { position: s.position, label: s.label.clone(), parts: clone_parts(&s.parts) };
    proof {
        assert(r@ =~= s@);
    }
    r
}

/// The names of the patches at positions `from..to`, in order.
fn names_in_range(v: &Vec<Patch>, from: usize, to: usize) -> (r: Vec<String>)
    requires
        from <= to <= v@.len(),
    ensures
        r.deep_view() == name_seq(v@.subrange(from as int, to as int)),
{
    let mut r: Vec<String> = Vec::new();
    let mut i: usize = from;
    while i < to
        invariant
            from <= i <= to <= v@.len(),
            r@.len() == i - from,
            forall|k: int| 0 <= k < i - from ==> r@[k]@ == v@[from + k].name@,
        decreases to - i,
    {
        r.push(v[i].name.clone());
        i += 1;
    }
    proof {
        assert forall|k: int| 0 <= k < r.deep_view().len() implies r.deep_view()[k] == name_seq(
            v@.subrange(from as int, to as int),
        )[k] by {
            assert(r.deep_view()[k] == r@[k]@);
        }
        assert(r.deep_view() =~= name_seq(v@.subrange(from as int, to as int)));
    }
    r
}

impl Stack {
    /// The branch this stack belongs to.
    pub fn branch_name(&self) -> (r: &String)
        ensures
            r@ == self@.branch,
    {
        &self.branch
    }

    /// The commit beneath all applied patches.
    pub fn base(&self) -> (r: CommitId)
        ensures
            r == self@.parts.base,
    {
        self.parts.base
    }

    /// The branch head commit the stack reproduces.
    pub fn head(&self) -> (r: CommitId)
        ensures
            r == self@.parts.head,
    {
        self.parts.head
    }

    /// The names of the applied patches, in application order.
    pub fn applied_names(&self) -> (r: Vec<String>)
        requires
            self.wf(),
        ensures
            r.deep_view() == name_seq(applied_seq(self@.parts)),
    {
        let r = names_in_range(&self.parts.patches, 0, self.parts.applied_count);
        proof {
            assert(self.parts.patches@.subrange(0, self@.parts.applied_count) =~= applied_seq(
                self@.parts,
            ));
        }
        r
    }

    /// The names of the unapplied patches, in order.
    pub fn unapplied_names(&self) -> (r: Vec<String>)
        requires
            self.wf(),
        ensures
            r.deep_view() == name_seq(unapplied_seq(self@.parts)),
    {
        let r = names_in_range(
            &self.parts.patches,
            self.parts.applied_count,
            self.parts.patches.len(),
        );
        proof {
            assert(self.parts.patches@.subrange(
                self@.parts.applied_count,
                self.parts.patches@.len() as int,
            ) =~= unapplied_seq(self@.parts));
        }
        r
    }

    /// The names of the hidden patches, in order.
    pub fn hidden_names(&self) -> (r: Vec<String>)
        ensures
            r.deep_view() == name_seq(self@.parts.hidden),
    {
        let r = names_in_range(&self.parts.hidden, 0, self.parts.hidden.len());
        proof {
            assert(self.parts.hidden@.subrange(0, self.parts.hidden@.len() as int)
                =~= self@.parts.hidden);
        }
        r
    }
}

/// The names of all patches, partition order, applied and unapplied first.
fn collect_names(patches: &Vec<Patch>, hidden: &Vec<Patch>) -> (r: Vec<String>)
    ensures
        r.deep_view() == name_seq(patches@ + hidden@),
{
    let mut r: Vec<String> = Vec::new();
    let mut i: usize = 0;
    while i < patches.len()
        invariant
            i <= patches.len(),
            r@.len() == i as int,
            forall|k: int| 0 <= k < i ==> r@[k]@ == patches@[k].name@,
        decreases patches.len() - i,
    {
        r.push(patches[i].name.clone());
        i += 1;
    }
    let mut j: usize = 0;
    while j < hidden.len()
        invariant
            j <= hidden.len(),
            r@.len() == patches@.len() + j,
            forall|k: int| 0 <= k < patches@.len() ==> r@[k]@ == patches@[k].name@,
            forall|k: int| 0 <= k < j ==> r@[patches@.len() + k]@ == hidden@[k].name@,
        decreases hidden.len() - j,
    {
        r.push(hidden[j].name.clone());
        j += 1;
    }
    proof {
        assert forall|k: int| 0 <= k < r.deep_view().len() implies r.deep_view()[k] == name_seq(
            patches@ + hidden@,
        )[k] by {
            assert(r.deep_view()[k] == r@[k]@);
            if k >= patches@.len() {
                assert(r@[k]@ == hidden@[k - patches@.len()].name@);
            }
        }
        assert(r.deep_view() =~= name_seq(patches@ + hidden@));
    }
    r
}

/// Whether no name occurs twice.
fn names_distinct(names: &Vec<String>) -> (r: bool)
    ensures
        r == names.deep_view().no_duplicates(),
{
    let mut i: usize = 0;
    while i < names.len()
        invariant
            i <= names.len(),
            forall|a: int, b: int|
                0 <= a < i && 0 <= b < i && a != b ==> names.deep_view()[a] != names.deep_view()[b],
        decreases names.len() - i,
    {
        let mut j: usize = 0;
        while j < i
            invariant
                j <= i < names.len(),
                forall|b: int| 0 <= b < j ==> names.deep_view()[b] != names.deep_view()[i as int],
            decreases i - j,
        {
            if names[j].eq(&names[i]) {
                proof {
                    assert(names.deep_view()[j as int] == names.deep_view()[i as int]);
                }
                return false;
            }
            j += 1;
        }
        i += 1;
    }
    true
}

impl Stack {
    /// Loads a stack from persisted metadata: the branch name, the base
    /// commit, the ordered patches with their partition boundary, and the
    /// hidden patches. The head is recomputed as the replay of the applied
    /// patches over the base. Metadata whose boundary is out of range or
    /// whose names collide is rejected as corrupt.
    pub fn load(
        branch: String,
        base: CommitId,
        patches: Vec<Patch>,
        applied_count: usize,
        hidden: Vec<Patch>,
    ) -> (r: Result<Stack, StackError>)
        ensures
            ({
                let p = PartsV {
                    base,
                    patches: patches@,
                    applied_count: applied_count as int,
                    hidden: hidden@,
                    head: replay_top(
                        PartsV {
                            base,
                            patches: patches@,
                            applied_count: applied_count as int,
                            hidden: hidden@,
                            head: base,
                        },
                    ),
                };
                if applied_count <= patches@.len() && stack_names(p).no_duplicates() {
                    &&& r matches Ok(s)
                    &&& s.wf()
                    &&& s@.branch == branch@
                    &&& s@.parts =~= p
                    &&& s@.log.entries.len() == 1
                    &&& s@.log.cursor == 0
                } else {
                    r matches Err(e) && e is Backend
                }
            }),
    {
        if applied_count > patches.len() {
            return Err(
                StackError::Backend { context: String::from_str("stack metadata: applied boundary out of range") },
            );
        }
        let names = collect_names(&patches, &hidden);
        if !names_distinct(&names) {
            return Err(
                StackError::Backend { context: String::from_str("stack metadata: duplicate patch name") },
            );
        }
        let head = if applied_count == 0 { base } else { patches[applied_count - 1].commit };
        let parts = Parts { base, patches, applied_count, hidden, head };
        let entry = StackState { position: 0, label: String::new(), parts: clone_parts(&parts) };
        let log = UndoRedoLog { entries: vec![entry], cursor: 0 };
        let s = Stack { branch, parts, log };
        proof {
            assert(s@.log.entries[0].parts =~= s@.parts);
        }
        Ok(s)
    }

    /// True if branch-level configuration marks the branch as protected;
    /// `protect` is the configured flag, absent when the key is unset.
    pub fn is_protected(&self, protect: Option<bool>) -> (r: bool)
        ensures
            r == (protect == Some(true)),
    {
        match protect {
            Some(b) => b,
            None => false,
        }
    }

    /// True if the branch's actual head commit agrees with the recorded
    /// top of the applied chain.
    pub fn is_head_top(&self, actual_head: CommitId) -> (r: bool)
        ensures
            r == (actual_head == self@.parts.head),
    {
        actual_head == self.parts.head
    }

    /// Fails when the branch's actual head differs from the recorded top:
    /// something committed externally since the stack was synchronized, and
    /// mutating operations must not proceed blindly.
    pub fn check_head_top_mismatch(&self, actual_head: CommitId) -> (r: Result<(), StackError>)
        ensures
            r == (if actual_head == self@.parts.head {
                Ok::<(), StackError>(())
            } else {
                Err::<(), StackError>(StackError::HeadTopMismatch)
            }),
    {
        if actual_head == self.parts.head {
            Ok(())
        } else {
            Err(StackError::HeadTopMismatch)
        }
    }

    /// Records a head movement that happened outside a transaction (for
    /// example a plain pull): the base and head move to the externally
    /// created commit and a fresh snapshot is appended, so the history
    /// stays a faithful audit trail. Meaningful only while no patch is
    /// applied (a pull pops all applied patches first); the unapplied and
    /// hidden partitions are kept.
    pub fn log_external_mods(self, label: &str, new_head: CommitId) -> (s: Stack)
        requires
            self.wf(),
            self@.parts.applied_count == 0,
        ensures
            s.wf(),
            s@.branch == self@.branch,
            s@.parts.base == new_head,
            s@.parts.head == new_head,
            s@.parts.applied_count == 0,
            s@.parts.patches == self@.parts.patches,
            s@.parts.hidden == self@.parts.hidden,
            name_multiset(s@.parts) == name_multiset(self@.parts),
            s@.log.entries == self@.log.entries.take(self@.log.cursor + 1).push(s@.log.entries.last()),
            s@.log.entries.last().parts =~= s@.parts,
            s@.log.entries.last().label == label@,
            s@.log.cursor == self@.log.cursor + 1,
    {
        let Stack { branch, mut parts, mut log } = self;
        parts.base = new_head;
        parts.head = new_head;
        let n = log.entries.len();
        proof {
            assert(log.cursor < n);
        }
        let position = log.cursor + 1;
        log.entries.truncate(position);
        let entry = StackState { position, label: String::from_str(label), parts: clone_parts(&parts) };
        log.entries.push(entry);
        log.cursor = position;
        let s = Stack { branch, parts, log };
        proof {
            assert(name_multiset(s@.parts) =~= name_multiset(self@.parts));
            assert(s@.log.entries =~= self@.log.entries.take(self@.log.cursor + 1).push(
                s@.log.entries.last(),
            ));
            assert(s@.log.entries[s@.log.cursor].parts =~= s@.parts);
        }
        s
    }
}

} // verus!
