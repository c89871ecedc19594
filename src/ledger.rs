use vstd::prelude::*;
use crate::tlc::{
    AddTlcInfo, AddTlcView, CommitmentNumbers, RemoveReasonView, RemoveTlcReason, RetryableRemoveTlc,
    RetryableView, TLCId, TlcKind, TlcKindView,
};

verus! {

/// The views of a list of operations.
pub open spec fn views(s: Seq<TlcKind>) -> Seq<TlcKindView> {
    s.map_values(|k: TlcKind| k@)
}

/// Whether some operation of `s` is the same kind of operation on the same TLC as `op`.
pub open spec fn contains_op(s: Seq<TlcKindView>, op: TlcKindView) -> bool {
    exists|i: int| 0 <= i < s.len() && (#[trigger] s[i]).same_operation(op)
}

/// No two operations of `s` share their kind and TLC id.
pub open spec fn unique_ops(s: Seq<TlcKindView>) -> bool {
    forall|i: int, j: int|
        0 <= i < s.len() && 0 <= j < s.len() && i != j ==> !(#[trigger] s[i]).same_operation(
            #[trigger] s[j],
        )
}

/// `ops` followed by each operation of `extra` that is not yet present, in order.
pub open spec fn merge_ops(ops: Seq<TlcKindView>, extra: Seq<TlcKindView>) -> Seq<TlcKindView>
    decreases extra.len(),
{
    if extra.len() == 0 {
        ops
    } else {
        let acc = merge_ops(ops, extra.drop_last());
        if contains_op(acc, extra.last()) {
            acc
        } else {
            acc.push(extra.last())
        }
    }
}

/// Whether an operation survives dropping the removes of `id`.
pub open spec fn keeps_unless_remove_of(op: TlcKindView, id: TLCId) -> bool {
    !(op is RemoveTlc && op.tlc_id() == id)
}

/// Whether an operation survives compaction: all but removed-marked adds.
pub open spec fn keeps_unless_removed_add(op: TlcKindView) -> bool {
    !(op is AddTlc && op->AddTlc_0.removed_at is Some)
}

/// The operations of `s` other than removes of `id`, in order.
pub open spec fn drop_removes_of(s: Seq<TlcKindView>, id: TLCId) -> Seq<TlcKindView>
    decreases s.len(),
{
    if s.len() == 0 {
        s
    } else {
        let rest = drop_removes_of(s.drop_last(), id);
        if keeps_unless_remove_of(s.last(), id) {
            rest.push(s.last())
        } else {
            rest
        }
    }
}

/// The operations of `s` other than adds marked removed, in order.
pub open spec fn drop_removed_adds(s: Seq<TlcKindView>) -> Seq<TlcKindView>
    decreases s.len(),
{
    if s.len() == 0 {
        s
    } else {
        let rest = drop_removed_adds(s.drop_last());
        if keeps_unless_removed_add(s.last()) {
            rest.push(s.last())
        } else {
            rest
        }
    }
}

/// `s` with every add of `id` marked as removed at `at` for `reason`.
pub open spec fn mark_removed_in(
    s: Seq<TlcKindView>,
    id: TLCId,
    at: CommitmentNumbers,
    reason: RemoveReasonView,
) -> Seq<TlcKindView> {
    s.map_values(
        |op: TlcKindView|
            if op is AddTlc && op.tlc_id() == id {
                TlcKindView::AddTlc(AddTlcView { removed_at: Some((at, reason)), ..op->AddTlc_0 })
            } else {
                op
            },
    )
}

pub proof fn lemma_views_push(s: Seq<TlcKind>, k: TlcKind)
    ensures
        views(s.push(k)) == views(s).push(k@),
{
    assert(views(s.push(k)) =~= views(s).push(k@));
}

pub proof fn lemma_unique_push(s: Seq<TlcKindView>, op: TlcKindView)
    requires
        unique_ops(s),
        !contains_op(s, op),
    ensures
        unique_ops(s.push(op)),
{
    let t = s.push(op);
    assert forall|i: int, j: int|
        0 <= i < t.len() && 0 <= j < t.len() && i != j implies !(#[trigger] t[i]).same_operation(
            #[trigger] t[j],
        ) by {
        if i == s.len() {
            assert(t[j] == s[j]);
            if t[i].same_operation(t[j]) {
                assert(s[j].same_operation(op));
            }
        } else if j == s.len() {
            assert(t[i] == s[i]);
        } else {
            assert(t[i] == s[i] && t[j] == s[j]);
        }
    }
}

pub proof fn lemma_merge_unique(ops: Seq<TlcKindView>, extra: Seq<TlcKindView>)
    requires
        unique_ops(ops),
    ensures
        unique_ops(merge_ops(ops, extra)),
        merge_ops(ops, extra).len() >= ops.len(),
        merge_ops(ops, extra).subrange(0, ops.len() as int) == ops,
    decreases extra.len(),
{
    if extra.len() > 0 {
        lemma_merge_unique(ops, extra.drop_last());
        let acc = merge_ops(ops, extra.drop_last());
        if !contains_op(acc, extra.last()) {
            lemma_unique_push(acc, extra.last());
            assert(acc.push(extra.last()).subrange(0, ops.len() as int) =~= acc.subrange(
                0,
                ops.len() as int,
            ));
        }
    } else {
        assert(ops.subrange(0, ops.len() as int) =~= ops);
    }
}

pub proof fn lemma_drop_removes_of(s: Seq<TlcKindView>, id: TLCId)
    requires
        unique_ops(s),
    ensures
        unique_ops(drop_removes_of(s, id)),
        forall|op: TlcKindView| contains_op(drop_removes_of(s, id), op) ==> contains_op(s, op),
    decreases s.len(),
{
    if s.len() > 0 {
        let p = s.drop_last();
        assert(unique_ops(p)) by {
            assert forall|i: int, j: int|
                0 <= i < p.len() && 0 <= j < p.len() && i != j implies !(#[trigger] p[i]).same_operation(
                    #[trigger] p[j],
                ) by {
                assert(p[i] == s[i] && p[j] == s[j]);
            }
        }
        lemma_drop_removes_of(p, id);
        let rest = drop_removes_of(p, id);
        assert forall|op: TlcKindView| contains_op(p, op) implies contains_op(s, op) by {
            let i = choose|i: int| 0 <= i < p.len() && (#[trigger] p[i]).same_operation(op);
            assert(s[i] == p[i]);
        }
        if keeps_unless_remove_of(s.last(), id) {
            if contains_op(rest, s.last()) {
                assert(contains_op(p, s.last()));
                let i = choose|i: int| 0 <= i < p.len() && (#[trigger] p[i]).same_operation(s.last());
                assert(s[i] == p[i]);
                assert(s[i].same_operation(s[s.len() - 1]));
            }
            lemma_unique_push(rest, s.last());
            assert forall|op: TlcKindView| contains_op(rest.push(s.last()), op) implies contains_op(
                s,
                op,
            ) by {
                let t = rest.push(s.last());
                let i = choose|i: int| 0 <= i < t.len() && (#[trigger] t[i]).same_operation(op);
                if i == rest.len() {
                    assert(s[s.len() - 1].same_operation(op));
                } else {
                    assert(t[i] == rest[i]);
                }
            }
        }
    }
}

pub proof fn lemma_drop_removed_adds(s: Seq<TlcKindView>)
    requires
        unique_ops(s),
    ensures
        unique_ops(drop_removed_adds(s)),
        forall|op: TlcKindView| contains_op(drop_removed_adds(s), op) ==> contains_op(s, op),
    decreases s.len(),
{
    if s.len() > 0 {
        let p = s.drop_last();
        assert(unique_ops(p)) by {
            assert forall|i: int, j: int|
                0 <= i < p.len() && 0 <= j < p.len() && i != j implies !(#[trigger] p[i]).same_operation(
                    #[trigger] p[j],
                ) by {
                assert(p[i] == s[i] && p[j] == s[j]);
            }
        }
        lemma_drop_removed_adds(p);
        let rest = drop_removed_adds(p);
        assert forall|op: TlcKindView| contains_op(p, op) implies contains_op(s, op) by {
            let i = choose|i: int| 0 <= i < p.len() && (#[trigger] p[i]).same_operation(op);
            assert(s[i] == p[i]);
        }
        if keeps_unless_removed_add(s.last()) {
            if contains_op(rest, s.last()) {
                assert(contains_op(p, s.last()));
                let i = choose|i: int| 0 <= i < p.len() && (#[trigger] p[i]).same_operation(s.last());
                assert(s[i] == p[i]);
                assert(s[i].same_operation(s[s.len() - 1]));
            }
            lemma_unique_push(rest, s.last());
            assert forall|op: TlcKindView| contains_op(rest.push(s.last()), op) implies contains_op(
                s,
                op,
            ) by {
                let t = rest.push(s.last());
                let i = choose|i: int| 0 <= i < t.len() && (#[trigger] t[i]).same_operation(op);
                if i == rest.len() {
                    assert(s[s.len() - 1].same_operation(op));
                } else {
                    assert(t[i] == rest[i]);
                }
            }
        }
    }
}

pub proof fn lemma_mark_removed_unique(
    s: Seq<TlcKindView>,
    id: TLCId,
    at: CommitmentNumbers,
    reason: RemoveReasonView,
)
    requires
        unique_ops(s),
    ensures
        unique_ops(mark_removed_in(s, id, at, reason)),
        forall|op: TlcKindView|
            contains_op(mark_removed_in(s, id, at, reason), op) <==> contains_op(s, op),
{
    let t = mark_removed_in(s, id, at, reason);
    assert forall|i: int| 0 <= i < s.len() implies (#[trigger] t[i]).same_operation(s[i]) && (forall|
        op: TlcKindView,
    | t[i].same_operation(op) == s[i].same_operation(op)) by {}
    assert forall|op: TlcKindView| contains_op(t, op) <==> contains_op(s, op) by {
        if contains_op(t, op) {
            let i = choose|i: int| 0 <= i < t.len() && (#[trigger] t[i]).same_operation(op);
            assert(s[i].same_operation(op));
        }
        if contains_op(s, op) {
            let i = choose|i: int| 0 <= i < s.len() && (#[trigger] s[i]).same_operation(op);
            assert(t[i].same_operation(op));
        }
    }
    assert forall|i: int, j: int|
        0 <= i < t.len() && 0 <= j < t.len() && i != j implies !(#[trigger] t[i]).same_operation(
            #[trigger] t[j],
        ) by {
        assert(!s[i].same_operation(s[j]));
    }
}

/// The operations one side proposed: a list whose prefix up to
/// `committed_index` is committed and whose rest is staging.
#[derive(Debug)]
pub struct PendingTlcs {
    tlcs: Vec<TlcKind>,
    committed_index: usize,
    next_tlc_id: u64,
}

impl PendingTlcs {
    /// The operations, in order.
    pub closed spec fn ops(&self) -> Seq<TlcKindView> {
        views(self.tlcs@)
    }

    /// How many leading operations are committed.
    pub closed spec fn committed_len(&self) -> nat {
        self.committed_index as nat
    }

    /// The id the next TLC of this direction gets.
    pub closed spec fn next_id(&self) -> u64 {
        self.next_tlc_id
    }

    pub open spec fn committed_ops(&self) -> Seq<TlcKindView> {
        self.ops().subrange(0, self.committed_len() as int)
    }

    pub open spec fn staging_ops(&self) -> Seq<TlcKindView> {
        self.ops().subrange(self.committed_len() as int, self.ops().len() as int)
    }

    /// The committed prefix lies within the list, and no two operations
    /// share kind and TLC id.
    pub open spec fn wf(&self) -> bool {
        &&& self.committed_len() <= self.ops().len()
        &&& unique_ops(self.ops())
    }

    pub fn new() -> (r: Self)
        ensures
            r.wf(),
            r.ops() == Seq::<TlcKindView>::empty(),
            r.committed_len() == 0,
            r.next_id() == 0,
    {
        let r = PendingTlcs { tlcs: Vec::new(), committed_index: 0, next_tlc_id: 0 };
        proof {
            assert(r.ops() =~= Seq::<TlcKindView>::empty());
        }
        r
    }

    pub fn next_tlc_id(&self) -> (r: u64)
        ensures
            r == self.next_id(),
    {
        self.next_tlc_id
    }

    pub fn increment_next_tlc_id(&mut self)
        requires
            old(self).next_id() < u64::MAX,
        ensures
            final(self).next_id() == old(self).next_id() + 1,
            final(self).ops() == old(self).ops(),
            final(self).committed_len() == old(self).committed_len(),
    {
        self.next_tlc_id = self.next_tlc_id + 1;
    }

    /// Whether an operation of the same kind on the same TLC is present.
    pub fn is_tlc_present(&self, tlc: &TlcKind) -> (r: bool)
        ensures
            r == contains_op(self.ops(), tlc@),
    {
        let mut i: usize = 0;
        while i < self.tlcs.len()
            invariant
                i <= self.tlcs@.len(),
                self.ops().len() == self.tlcs@.len(),
                forall|j: int| 0 <= j < i ==> !(#[trigger] self.ops()[j]).same_operation(tlc@),
            decreases self.tlcs@.len() - i,
        {
            let t = &self.tlcs[i];
            let same = match (t, tlc) {
                (TlcKind::AddTlc(a), TlcKind::AddTlc(b)) => a.tlc_id == b.tlc_id,
                (TlcKind::RemoveTlc(a), TlcKind::RemoveTlc(b)) => a.tlc_id == b.tlc_id,
                _ => false,
            };
            assert(self.ops()[i as int] == self.tlcs@[i as int]@);
            if same {
                return true;
            }
            i = i + 1;
        }
        false
    }

    /// Append an operation to the staging part.
    pub fn add_tlc_operation(&mut self, tlc_op: TlcKind)
        requires
            old(self).wf(),
            !contains_op(old(self).ops(), tlc_op@),
        ensures
            final(self).wf(),
            final(self).ops() == old(self).ops().push(tlc_op@),
            final(self).committed_len() == old(self).committed_len(),
            final(self).next_id() == old(self).next_id(),
    {
        proof {
            lemma_views_push(self.tlcs@, tlc_op);
            lemma_unique_push(self.ops(), tlc_op@);
        }
        self.tlcs.push(tlc_op);
    }

    /// Append an operation; none of the same kind on the same TLC may be present.
    pub fn push(&mut self, tlc: TlcKind)
        requires
            old(self).wf(),
            !contains_op(old(self).ops(), tlc@),
        ensures
            final(self).wf(),
            final(self).ops() == old(self).ops().push(tlc@),
            final(self).committed_len() == old(self).committed_len(),
            final(self).next_id() == old(self).next_id(),
    {
        self.add_tlc_operation(tlc);
    }

    pub fn tlcs(&self) -> (r: &[TlcKind])
        ensures
            views(r@) == self.ops(),
    {
        self.tlcs.as_slice()
    }

    pub fn get_staging_tlcs(&self) -> (r: &[TlcKind])
        requires
            self.wf(),
        ensures
            views(r@) == self.staging_ops(),
    {
        let (_, staging) = self.tlcs.as_slice().split_at(self.committed_index);
        proof {
            assert(views(staging@) =~= self.staging_ops());
        }
        staging
    }

    pub fn get_committed_tlcs(&self) -> (r: &[TlcKind])
        requires
            self.wf(),
        ensures
            views(r@) == self.committed_ops(),
    {
        let (committed, _) = self.tlcs.as_slice().split_at(self.committed_index);
        proof {
            assert(views(committed@) =~= self.committed_ops());
        }
        committed
    }

    /// Commit the staging part, appending each operation of
    /// `committed_tlcs` that is not yet present; returns what was staging.
    pub fn commit_tlcs(&mut self, committed_tlcs: &[TlcKind]) -> (r: Vec<TlcKind>)
        requires
            old(self).wf(),
        ensures
            final(self).wf(),
            views(r@) == old(self).staging_ops(),
            final(self).ops() == merge_ops(old(self).ops(), views(committed_tlcs@)),
            final(self).committed_len() == final(self).ops().len(),
            final(self).next_id() == old(self).next_id(),
    {
        let staging = clone_ops(self.get_staging_tlcs());
        let ghost old_ops = self.ops();
        let ghost extra = views(committed_tlcs@);
        let mut i: usize = 0;
        proof {
            assert(extra.subrange(0, 0) =~= Seq::<TlcKindView>::empty());
        }
        while i < committed_tlcs.len()
            invariant
                i <= committed_tlcs@.len(),
                extra == views(committed_tlcs@),
                self.ops() == merge_ops(old_ops, extra.subrange(0, i as int)),
                unique_ops(self.ops()),
                self.committed_len() <= self.ops().len(),
                self.next_id() == old(self).next_id(),
            decreases committed_tlcs@.len() - i,
        {
            proof {
                assert(extra.subrange(0, i + 1).drop_last() =~= extra.subrange(0, i as int));
                assert(extra.subrange(0, i + 1).last() == committed_tlcs@[i as int]@);
            }
            let tlc = &committed_tlcs[i];
            if !self.is_tlc_present(tlc) {
                self.add_tlc_operation(tlc.clone());
            }
            i = i + 1;
        }
        proof {
            assert(extra.subrange(0, extra.len() as int) =~= extra);
        }
        self.committed_index = self.tlcs.len();
        staging
    }

    /// Mark every add of `tlc_id` as removed at `removed_at` for `reason`.
    pub fn mark_removed(&mut self, tlc_id: TLCId, removed_at: CommitmentNumbers, reason: &RemoveTlcReason)
        requires
            old(self).wf(),
        ensures
            final(self).wf(),
            final(self).ops() == mark_removed_in(old(self).ops(), tlc_id, removed_at, reason@),
            final(self).committed_len() == old(self).committed_len(),
            final(self).next_id() == old(self).next_id(),
    {
        let ghost old_ops = self.ops();
        let ghost target = mark_removed_in(old_ops, tlc_id, removed_at, reason@);
        let mut out: Vec<TlcKind> = Vec::new();
        let mut i: usize = 0;
        while i < self.tlcs.len()
            invariant
                i <= self.tlcs@.len(),
                old_ops == self.ops(),
                old_ops.len() == self.tlcs@.len(),
                target == mark_removed_in(old_ops, tlc_id, removed_at, reason@),
                out@.len() == i,
                forall|j: int| 0 <= j < i ==> (#[trigger] out@[j])@ == target[j],
            decreases self.tlcs@.len() - i,
        {
            assert(old_ops[i as int] == self.tlcs@[i as int]@);
            match &self.tlcs[i] {
                TlcKind::AddTlc(info) => {
                    let mut c = info.clone();
                    if info.tlc_id == tlc_id {
                        c.removed_at = Some((removed_at, reason.clone()));
                    }
                    out.push(TlcKind::AddTlc(c));
                },
                TlcKind::RemoveTlc(info) => {
                    out.push(TlcKind::RemoveTlc(info.clone()));
                },
            }
            i = i + 1;
        }
        proof {
            assert(views(out@) =~= target);
            lemma_mark_removed_unique(old_ops, tlc_id, removed_at, reason@);
        }
        self.tlcs = out;
    }

    /// Drop every remove of `tlc_id`; everything that is left counts as committed.
    pub fn drop_remove_tlc(&mut self, tlc_id: &TLCId)
        requires
            old(self).wf(),
        ensures
            final(self).wf(),
            final(self).ops() == drop_removes_of(old(self).ops(), *tlc_id),
            final(self).committed_len() == final(self).ops().len(),
            final(self).next_id() == old(self).next_id(),
    {
        let ghost old_ops = self.ops();
        let mut out: Vec<TlcKind> = Vec::new();
        let mut i: usize = 0;
        proof {
            assert(old_ops.subrange(0, 0) =~= Seq::<TlcKindView>::empty());
        }
        while i < self.tlcs.len()
            invariant
                i <= self.tlcs@.len(),
                old_ops == self.ops(),
                old_ops.len() == self.tlcs@.len(),
                views(out@) == drop_removes_of(old_ops.subrange(0, i as int), *tlc_id),
            decreases self.tlcs@.len() - i,
        {
            proof {
                assert(old_ops.subrange(0, i + 1).drop_last() =~= old_ops.subrange(0, i as int));
                assert(old_ops[i as int] == self.tlcs@[i as int]@);
            }
            let keep = match &self.tlcs[i] {
                TlcKind::RemoveTlc(info) => info.tlc_id != *tlc_id,
                _ => true,
            };
            if keep {
                let c = self.tlcs[i].clone();
                proof {
                    lemma_views_push(out@, c);
                }
                out.push(c);
            }
            i = i + 1;
        }
        proof {
            assert(old_ops.subrange(0, old_ops.len() as int) =~= old_ops);
            lemma_drop_removes_of(old_ops, *tlc_id);
        }
        self.tlcs = out;
        self.committed_index = self.tlcs.len();
    }

    /// Compact away the adds marked removed; the whole list must be committed.
    pub fn shrink_removed_tlc(&mut self)
        requires
            old(self).wf(),
            old(self).committed_len() == old(self).ops().len(),
        ensures
            final(self).wf(),
            final(self).ops() == drop_removed_adds(old(self).ops()),
            final(self).committed_len() == final(self).ops().len(),
            final(self).next_id() == old(self).next_id(),
    {
        let ghost old_ops = self.ops();
        let mut out: Vec<TlcKind> = Vec::new();
        let mut i: usize = 0;
        proof {
            assert(old_ops.subrange(0, 0) =~= Seq::<TlcKindView>::empty());
        }
        while i < self.tlcs.len()
            invariant
                i <= self.tlcs@.len(),
                old_ops == self.ops(),
                old_ops.len() == self.tlcs@.len(),
                views(out@) == drop_removed_adds(old_ops.subrange(0, i as int)),
            decreases self.tlcs@.len() - i,
        {
            proof {
                assert(old_ops.subrange(0, i + 1).drop_last() =~= old_ops.subrange(0, i as int));
                assert(old_ops[i as int] == self.tlcs@[i as int]@);
            }
            let keep = match &self.tlcs[i] {
                TlcKind::AddTlc(info) => info.removed_at.is_none(),
                _ => true,
            };
            if keep {
                let c = self.tlcs[i].clone();
                proof {
                    lemma_views_push(out@, c);
                }
                out.push(c);
            }
            i = i + 1;
        }
        proof {
            assert(old_ops.subrange(0, old_ops.len() as int) =~= old_ops);
            lemma_drop_removed_adds(old_ops);
        }
        self.tlcs = out;
        self.committed_index = self.tlcs.len();
    }
}

/// A copy of a list of operations.
pub fn clone_ops(s: &[TlcKind]) -> (r: Vec<TlcKind>)
    ensures
        views(r@) == views(s@),
{
    let mut out: Vec<TlcKind> = Vec::new();
    let mut i: usize = 0;
    while i < s.len()
        invariant
            i <= s@.len(),
            out@.len() == i,
            forall|j: int| 0 <= j < i ==> (#[trigger] out@[j])@ == s@[j]@,
        decreases s@.len() - i,
    {
        out.push(s[i].clone());
        i = i + 1;
    }
    proof {
        assert(views(out@) =~= views(s@));
    }
    out
}


/// Whether `s` holds an add of `id`.
pub open spec fn has_add(s: Seq<TlcKindView>, id: TLCId) -> bool {
    exists|i: int| 0 <= i < s.len() && (#[trigger] s[i]) is AddTlc && s[i].tlc_id() == id
}

/// `q` without the entries equal to `e`, in order.
pub open spec fn drop_entry(q: Seq<RetryableView>, e: RetryableView) -> Seq<RetryableView>
    decreases q.len(),
{
    if q.len() == 0 {
        q
    } else {
        let rest = drop_entry(q.drop_last(), e);
        if q.last() != e {
            rest.push(q.last())
        } else {
            rest
        }
    }
}

pub open spec fn retry_views(q: Seq<RetryableRemoveTlc>) -> Seq<RetryableView> {
    q.map_values(|e: RetryableRemoveTlc| e@)
}

/// Both sides' pending operations, the queue of removes to retry, and
/// whether a new local TLC command must wait for the peer's ack.
#[derive(Debug)]
pub struct TlcState {
    local_pending_tlcs: PendingTlcs,
    remote_pending_tlcs: PendingTlcs,
    retryable_remove_tlcs: Vec<RetryableRemoveTlc>,
    waiting_ack: bool,
    // every resolution applied so far, in order, so that a repeat is
    // recognised after the resolved TLC is compacted away
    resolved_tlcs: Vec<(TLCId, CommitmentNumbers, RemoveTlcReason)>,
}

impl TlcState {
    /// The operations we proposed.
    pub closed spec fn local(&self) -> PendingTlcs {
        self.local_pending_tlcs
    }

    /// The operations the peer proposed.
    pub closed spec fn remote(&self) -> PendingTlcs {
        self.remote_pending_tlcs
    }

    /// The removes waiting to be retried, in order.
    pub closed spec fn retry_queue(&self) -> Seq<RetryableView> {
        retry_views(self.retryable_remove_tlcs@)
    }

    pub closed spec fn spec_waiting_ack(&self) -> bool {
        self.waiting_ack
    }

    /// The resolutions applied so far, in order.
    pub closed spec fn resolved(&self) -> Seq<(TLCId, CommitmentNumbers, RemoveReasonView)> {
        resolved_views(self.resolved_tlcs@)
    }

    /// The pending list that holds the adds of `id`: ours for offered
    /// TLCs, the peer's for received ones.
    pub open spec fn side(&self, id: TLCId) -> PendingTlcs {
        if id is Offered {
            self.local()
        } else {
            self.remote()
        }
    }

    pub open spec fn wf(&self) -> bool {
        self.local().wf() && self.remote().wf()
    }

    pub fn new() -> (r: Self)
        ensures
            r.wf(),
            r.local().ops().len() == 0,
            r.remote().ops().len() == 0,
            r.local().committed_len() == 0,
            r.remote().committed_len() == 0,
            r.local().next_id() == 0,
            r.remote().next_id() == 0,
            r.retry_queue().len() == 0,
            r.resolved().len() == 0,
            !r.spec_waiting_ack(),
    {
        TlcState {
            local_pending_tlcs: PendingTlcs::new(),
            remote_pending_tlcs: PendingTlcs::new(),
            retryable_remove_tlcs: Vec::new(),
            waiting_ack: false,
            resolved_tlcs: Vec::new(),
        }
    }

    pub fn get_next_offering(&self) -> (r: u64)
        ensures
            r == self.local().next_id(),
    {
        self.local_pending_tlcs.next_tlc_id()
    }

    pub fn get_next_received(&self) -> (r: u64)
        ensures
            r == self.remote().next_id(),
    {
        self.remote_pending_tlcs.next_tlc_id()
    }

    pub fn increment_offering(&mut self)
        requires
            old(self).local().next_id() < u64::MAX,
        ensures
            final(self).local().next_id() == old(self).local().next_id() + 1,
            final(self).local().ops() == old(self).local().ops(),
            final(self).local().committed_len() == old(self).local().committed_len(),
            final(self).remote() == old(self).remote(),
            final(self).retry_queue() == old(self).retry_queue(),
            final(self).spec_waiting_ack() == old(self).spec_waiting_ack(),
            final(self).resolved() == old(self).resolved(),
    {
        self.local_pending_tlcs.increment_next_tlc_id();
    }

    pub fn increment_received(&mut self)
        requires
            old(self).remote().next_id() < u64::MAX,
        ensures
            final(self).remote().next_id() == old(self).remote().next_id() + 1,
            final(self).remote().ops() == old(self).remote().ops(),
            final(self).remote().committed_len() == old(self).remote().committed_len(),
            final(self).local() == old(self).local(),
            final(self).retry_queue() == old(self).retry_queue(),
            final(self).spec_waiting_ack() == old(self).spec_waiting_ack(),
            final(self).resolved() == old(self).resolved(),
    {
        self.remote_pending_tlcs.increment_next_tlc_id();
    }

    pub fn next_local_tlc_id(&self) -> (r: u64)
        ensures
            r == self.local().next_id(),
    {
        self.local_pending_tlcs.next_tlc_id()
    }

    pub fn increment_local_tlc_id(&mut self)
        requires
            old(self).local().next_id() < u64::MAX,
        ensures
            final(self).local().next_id() == old(self).local().next_id() + 1,
            final(self).local().ops() == old(self).local().ops(),
            final(self).local().committed_len() == old(self).local().committed_len(),
            final(self).remote() == old(self).remote(),
            final(self).retry_queue() == old(self).retry_queue(),
            final(self).spec_waiting_ack() == old(self).spec_waiting_ack(),
            final(self).resolved() == old(self).resolved(),
    {
        self.increment_offering();
    }

    pub fn next_remote_tlc_id(&self) -> (r: u64)
        ensures
            r == self.remote().next_id(),
    {
        self.remote_pending_tlcs.next_tlc_id()
    }

    pub fn increment_remote_tlc_id(&mut self)
        requires
            old(self).remote().next_id() < u64::MAX,
        ensures
            final(self).remote().next_id() == old(self).remote().next_id() + 1,
            final(self).remote().ops() == old(self).remote().ops(),
            final(self).remote().committed_len() == old(self).remote().committed_len(),
            final(self).local() == old(self).local(),
            final(self).retry_queue() == old(self).retry_queue(),
            final(self).spec_waiting_ack() == old(self).spec_waiting_ack(),
            final(self).resolved() == old(self).resolved(),
    {
        self.increment_received();
    }

    pub fn waiting_ack(&self) -> (r: bool)
        ensures
            r == self.spec_waiting_ack(),
    {
        self.waiting_ack
    }

    pub fn set_waiting_ack(&mut self, waiting_ack: bool)
        ensures
            final(self).spec_waiting_ack() == waiting_ack,
            final(self).resolved() == old(self).resolved(),
            final(self).local() == old(self).local(),
            final(self).remote() == old(self).remote(),
            final(self).retry_queue() == old(self).retry_queue(),
    {
        self.waiting_ack = waiting_ack;
    }

    /// Queue a remove of one of this channel's TLCs for a later retry.
    pub fn set_tlc_pending_remove(&mut self, tlc_id: TLCId, reason: RemoveTlcReason)
        ensures
            final(self).retry_queue() == old(self).retry_queue().push(
                RetryableView::RemoveTlc(tlc_id, reason@),
            ),
            final(self).local() == old(self).local(),
            final(self).remote() == old(self).remote(),
            final(self).spec_waiting_ack() == old(self).spec_waiting_ack(),
            final(self).resolved() == old(self).resolved(),
    {
        let e = RetryableRemoveTlc::RemoveTlc(tlc_id, reason);
        proof {
            assert(retry_views(self.retryable_remove_tlcs@.push(e)) =~= retry_views(
                self.retryable_remove_tlcs@,
            ).push(e@));
        }
        self.retryable_remove_tlcs.push(e);
    }

    /// Queue a remove to relay to the upstream channel for a later retry.
    pub fn insert_relay_tlc_remove(&mut self, channel_id: [u8; 32], tlc_id: u64, reason: RemoveTlcReason)
        ensures
            final(self).retry_queue() == old(self).retry_queue().push(
                RetryableView::RelayRemoveTlc(channel_id, tlc_id, reason@),
            ),
            final(self).local() == old(self).local(),
            final(self).remote() == old(self).remote(),
            final(self).spec_waiting_ack() == old(self).spec_waiting_ack(),
            final(self).resolved() == old(self).resolved(),
    {
        let e = RetryableRemoveTlc::RelayRemoveTlc(channel_id, tlc_id, reason);
        proof {
            assert(retry_views(self.retryable_remove_tlcs@.push(e)) =~= retry_views(
                self.retryable_remove_tlcs@,
            ).push(e@));
        }
        self.retryable_remove_tlcs.push(e);
    }

    /// A copy of the retry queue.
    pub fn get_pending_remove(&self) -> (r: Vec<RetryableRemoveTlc>)
        ensures
            retry_views(r@) == self.retry_queue(),
    {
        let mut out: Vec<RetryableRemoveTlc> = Vec::new();
        let mut i: usize = 0;
        while i < self.retryable_remove_tlcs.len()
            invariant
                i <= self.retryable_remove_tlcs@.len(),
                out@.len() == i,
                forall|j: int| 0 <= j < i ==> (#[trigger] out@[j])@ == self.retryable_remove_tlcs@[j]@,
            decreases self.retryable_remove_tlcs@.len() - i,
        {
            out.push(self.retryable_remove_tlcs[i].clone());
            i = i + 1;
        }
        proof {
            assert(retry_views(out@) =~= self.retry_queue());
        }
        out
    }

    /// Drop every queued entry equal to `retryable_remove`.
    pub fn remove_pending_remove_tlc(&mut self, retryable_remove: &RetryableRemoveTlc)
        ensures
            final(self).retry_queue() == drop_entry(old(self).retry_queue(), retryable_remove@),
            final(self).local() == old(self).local(),
            final(self).remote() == old(self).remote(),
            final(self).spec_waiting_ack() == old(self).spec_waiting_ack(),
            final(self).resolved() == old(self).resolved(),
    {
        let ghost q = self.retry_queue();
        let mut out: Vec<RetryableRemoveTlc> = Vec::new();
        let mut i: usize = 0;
        proof {
            assert(q.subrange(0, 0) =~= Seq::<RetryableView>::empty());
        }
        while i < self.retryable_remove_tlcs.len()
            invariant
                i <= self.retryable_remove_tlcs@.len(),
                q == self.retry_queue(),
                q.len() == self.retryable_remove_tlcs@.len(),
                retry_views(out@) == drop_entry(q.subrange(0, i as int), retryable_remove@),
            decreases self.retryable_remove_tlcs@.len() - i,
        {
            proof {
                assert(q.subrange(0, i + 1).drop_last() =~= q.subrange(0, i as int));
                assert(q[i as int] == self.retryable_remove_tlcs@[i as int]@);
            }
            if !self.retryable_remove_tlcs[i].same_as(retryable_remove) {
                let c = self.retryable_remove_tlcs[i].clone();
                proof {
                    assert(retry_views(out@.push(c)) =~= retry_views(out@).push(c@));
                }
                out.push(c);
            }
            i = i + 1;
        }
        proof {
            assert(q.subrange(0, q.len() as int) =~= q);
        }
        self.retryable_remove_tlcs = out;
    }

    /// The add of `id`, looked up in the list that holds its direction.
    pub fn get(&self, id: &TLCId) -> (r: Option<&AddTlcInfo>)
        ensures
            r is Some == has_add(self.side(*id).ops(), *id),
            r is Some ==> r.unwrap().tlc_id == *id && exists|i: int|
                0 <= i < self.side(*id).ops().len() && self.side(*id).ops()[i] == TlcKindView::AddTlc(
                    r.unwrap()@,
                ),
    {
        let pending = match id {
            TLCId::Offered(_) => &self.local_pending_tlcs,
            TLCId::Received(_) => &self.remote_pending_tlcs,
        };
        let tlcs = pending.tlcs();
        let mut i: usize = 0;
        while i < tlcs.len()
            invariant
                i <= tlcs@.len(),
                views(tlcs@) == pending.ops(),
                *pending == self.side(*id),
                forall|j: int|
                    0 <= j < i ==> !((#[trigger] pending.ops()[j]) is AddTlc && pending.ops()[j].tlc_id()
                        == *id),
            decreases tlcs@.len() - i,
        {
            assert(pending.ops()[i as int] == tlcs@[i as int]@);
            match &tlcs[i] {
                TlcKind::AddTlc(info) => {
                    if info.tlc_id == *id {
                        return Some(info);
                    }
                },
                _ => {},
            }
            i = i + 1;
        }
        None
    }

    /// Record one of our operations; none of the same kind on the same TLC may be present.
    pub fn add_local_tlc(&mut self, tlc_info: TlcKind)
        requires
            old(self).wf(),
            !contains_op(old(self).local().ops(), tlc_info@),
        ensures
            final(self).wf(),
            final(self).local().ops() == old(self).local().ops().push(tlc_info@),
            final(self).local().committed_len() == old(self).local().committed_len(),
            final(self).local().next_id() == old(self).local().next_id(),
            final(self).remote() == old(self).remote(),
            final(self).retry_queue() == old(self).retry_queue(),
            final(self).spec_waiting_ack() == old(self).spec_waiting_ack(),
            final(self).resolved() == old(self).resolved(),
    {
        self.local_pending_tlcs.push(tlc_info);
    }

    /// Record one of the peer's operations; none of the same kind on the same TLC may be present.
    pub fn add_remote_tlc(&mut self, tlc_info: TlcKind)
        requires
            old(self).wf(),
            !contains_op(old(self).remote().ops(), tlc_info@),
        ensures
            final(self).wf(),
            final(self).remote().ops() == old(self).remote().ops().push(tlc_info@),
            final(self).remote().committed_len() == old(self).remote().committed_len(),
            final(self).remote().next_id() == old(self).remote().next_id(),
            final(self).local() == old(self).local(),
            final(self).retry_queue() == old(self).retry_queue(),
            final(self).spec_waiting_ack() == old(self).spec_waiting_ack(),
            final(self).resolved() == old(self).resolved(),
    {
        self.remote_pending_tlcs.push(tlc_info);
    }

    /// Commit our staging operations together with the peer's committed ones.
    pub fn commit_local_tlcs(&mut self) -> (r: Vec<TlcKind>)
        requires
            old(self).wf(),
        ensures
            final(self).wf(),
            views(r@) == old(self).local().staging_ops(),
            final(self).local().ops() == merge_ops(
                old(self).local().ops(),
                old(self).remote().committed_ops(),
            ),
            final(self).local().committed_len() == final(self).local().ops().len(),
            final(self).local().next_id() == old(self).local().next_id(),
            final(self).remote() == old(self).remote(),
            final(self).retry_queue() == old(self).retry_queue(),
            final(self).spec_waiting_ack() == old(self).spec_waiting_ack(),
            final(self).resolved() == old(self).resolved(),
    {
        let remote_committed = clone_ops(self.remote_pending_tlcs.get_committed_tlcs());
        self.local_pending_tlcs.commit_tlcs(remote_committed.as_slice())
    }

    /// Commit the peer's staging operations together with our committed ones.
    pub fn commit_remote_tlcs(&mut self) -> (r: Vec<TlcKind>)
        requires
            old(self).wf(),
        ensures
            final(self).wf(),
            views(r@) == old(self).remote().staging_ops(),
            final(self).remote().ops() == merge_ops(
                old(self).remote().ops(),
                old(self).local().committed_ops(),
            ),
            final(self).remote().committed_len() == final(self).remote().ops().len(),
            final(self).remote().next_id() == old(self).remote().next_id(),
            final(self).local() == old(self).local(),
            final(self).retry_queue() == old(self).retry_queue(),
            final(self).spec_waiting_ack() == old(self).spec_waiting_ack(),
            final(self).resolved() == old(self).resolved(),
    {
        let local_committed = clone_ops(self.local_pending_tlcs.get_committed_tlcs());
        self.remote_pending_tlcs.commit_tlcs(local_committed.as_slice())
    }

    /// Drop the pending removes of `tlc_id` on both sides and mark its adds removed.
    pub fn mark_tlc_remove(&mut self, tlc_id: TLCId, removed_at: CommitmentNumbers, reason: RemoveTlcReason)
        requires
            old(self).wf(),
        ensures
            final(self).wf(),
            final(self).local().ops() == mark_removed_in(
                drop_removes_of(old(self).local().ops(), tlc_id),
                tlc_id,
                removed_at,
                reason@,
            ),
            final(self).remote().ops() == mark_removed_in(
                drop_removes_of(old(self).remote().ops(), tlc_id),
                tlc_id,
                removed_at,
                reason@,
            ),
            final(self).local().committed_len() == final(self).local().ops().len(),
            final(self).remote().committed_len() == final(self).remote().ops().len(),
            final(self).local().next_id() == old(self).local().next_id(),
            final(self).remote().next_id() == old(self).remote().next_id(),
            final(self).retry_queue() == old(self).retry_queue(),
            final(self).spec_waiting_ack() == old(self).spec_waiting_ack(),
            final(self).resolved() == old(self).resolved(),
    {
        self.local_pending_tlcs.drop_remove_tlc(&tlc_id);
        self.remote_pending_tlcs.drop_remove_tlc(&tlc_id);
        self.local_pending_tlcs.mark_removed(tlc_id, removed_at, &reason);
        self.remote_pending_tlcs.mark_removed(tlc_id, removed_at, &reason);
    }

    /// Mark `tlc_id` removed, then compact the list of its direction.
    pub fn apply_remove_tlc(&mut self, tlc_id: TLCId, removed_at: CommitmentNumbers, reason: RemoveTlcReason)
        requires
            old(self).wf(),
        ensures
            final(self).wf(),
            final(self).side(tlc_id).ops() == drop_removed_adds(
                mark_removed_in(
                    drop_removes_of(old(self).side(tlc_id).ops(), tlc_id),
                    tlc_id,
                    removed_at,
                    reason@,
                ),
            ),
            final(self).side(tlc_id.spec_flip()).ops() == mark_removed_in(
                drop_removes_of(old(self).side(tlc_id.spec_flip()).ops(), tlc_id),
                tlc_id,
                removed_at,
                reason@,
            ),
            final(self).local().next_id() == old(self).local().next_id(),
            final(self).remote().next_id() == old(self).remote().next_id(),
            final(self).retry_queue() == old(self).retry_queue(),
            final(self).spec_waiting_ack() == old(self).spec_waiting_ack(),
            final(self).resolved() == old(self).resolved().push((tlc_id, removed_at, reason@)),
    {
        let record = (tlc_id, removed_at, reason.clone());
        proof {
            assert(resolved_views(self.resolved_tlcs@.push(record)) =~= self.resolved().push(
                (tlc_id, removed_at, reason@),
            ));
        }
        self.resolved_tlcs.push(record);
        self.mark_tlc_remove(tlc_id, removed_at, reason);
        if tlc_id.is_offered() {
            self.local_pending_tlcs.shrink_removed_tlc();
        } else {
            self.remote_pending_tlcs.shrink_removed_tlc();
        }
    }
}


/// Whether `s` holds a live add of `id`.
pub open spec fn has_live_add(s: Seq<TlcKindView>, id: TLCId) -> bool {
    exists|i: int| 0 <= i < s.len() && (#[trigger] s[i]).is_live_add() && s[i].tlc_id() == id
}

/// Whether `s` holds a live add whose payment hash is `h`.
pub open spec fn has_live_hash(s: Seq<TlcKindView>, h: [u8; 32]) -> bool {
    exists|i: int|
        0 <= i < s.len() && (#[trigger] s[i]).is_live_add() && s[i]->AddTlc_0.payment_hash == h
}

/// Whether the last operation of `s` is the first live add of its id, in the given direction.
pub open spec fn counts_last(s: Seq<TlcKindView>, offered: bool) -> bool {
    &&& s.len() > 0
    &&& s.last().is_live_add()
    &&& (s.last().tlc_id() is Offered) == offered
    &&& !has_live_add(s.drop_last(), s.last().tlc_id())
}

/// The number of distinct live TLCs of one direction in `s`.
pub open spec fn live_count(s: Seq<TlcKindView>, offered: bool) -> nat
    decreases s.len(),
{
    if s.len() == 0 {
        0
    } else {
        live_count(s.drop_last(), offered) + if counts_last(s, offered) {
            1nat
        } else {
            0nat
        }
    }
}

/// The total amount of the distinct live TLCs of one direction in `s`,
/// each id counted once (at its first live add).
pub open spec fn live_total(s: Seq<TlcKindView>, offered: bool) -> nat
    decreases s.len(),
{
    if s.len() == 0 {
        0
    } else {
        live_total(s.drop_last(), offered) + if counts_last(s, offered) {
            s.last()->AddTlc_0.amount as nat
        } else {
            0nat
        }
    }
}

pub proof fn lemma_live_count_bound(s: Seq<TlcKindView>, offered: bool)
    ensures
        live_count(s, offered) <= s.len(),
    decreases s.len(),
{
    if s.len() > 0 {
        lemma_live_count_bound(s.drop_last(), offered);
    }
}

/// Whether `ids` holds `id`.
pub fn contains_id(ids: &Vec<TLCId>, id: TLCId) -> (r: bool)
    ensures
        r == ids@.contains(id),
{
    let mut i: usize = 0;
    while i < ids.len()
        invariant
            i <= ids@.len(),
            forall|j: int| 0 <= j < i ==> ids@[j] != id,
        decreases ids@.len() - i,
    {
        if ids[i] == id {
            return true;
        }
        i = i + 1;
    }
    false
}

/// The number and the total amount (saturated at `u128::MAX`) of the
/// distinct live TLCs of one direction in `s`.
pub fn live_tlc_summary(s: &[TlcKind], offered: bool) -> (r: (usize, Option<u128>))
    ensures
        r.0 == live_count(views(s@), offered),
        r.1 == if live_total(views(s@), offered) > u128::MAX as nat {
            None
        } else {
            Some(live_total(views(s@), offered) as u128)
        },
{
    let ghost v = views(s@);
    let mut seen: Vec<TLCId> = Vec::new();
    let mut count: usize = 0;
    let mut amount: Option<u128> = Some(0);
    let mut i: usize = 0;
    proof {
        assert(v.subrange(0, 0) =~= Seq::<TlcKindView>::empty());
    }
    while i < s.len()
        invariant
            i <= s@.len(),
            v == views(s@),
            count == live_count(v.subrange(0, i as int), offered),
            amount == if live_total(v.subrange(0, i as int), offered) > u128::MAX as nat {
                None
            } else {
                Some(live_total(v.subrange(0, i as int), offered) as u128)
            },
            forall|id: TLCId|
                seen@.contains(id) <==> (has_live_add(v.subrange(0, i as int), id) && (id is Offered)
                    == offered),
        decreases s@.len() - i,
    {
        let ghost p = v.subrange(0, i as int);
        let ghost q = v.subrange(0, i + 1);
        proof {
            assert(q.drop_last() =~= p);
            assert(q.last() == s@[i as int]@);
            lemma_live_count_bound(p, offered);
            assert(p.len() == i);
        }
        let ghost seen0 = seen@;
        let ghost mut pushed = false;
        match &s[i] {
            TlcKind::AddTlc(info) => {
                if info.removed_at.is_none() && info.tlc_id.is_offered() == offered {
                    if !contains_id(&seen, info.tlc_id) {
                        count = count + 1;
                        amount = match amount {
                            Some(a) => a.checked_add(info.amount),
                            None => None,
                        };
                        seen.push(info.tlc_id);
                        proof {
                            pushed = true;
                            assert(!has_live_add(p, info.tlc_id));
                            assert(q.last().is_live_add());
                            assert(counts_last(q, offered));
                        }
                    } else {
                        assert(has_live_add(p, info.tlc_id));
                        assert(!counts_last(q, offered));
                    }
                } else {
                    assert(!counts_last(q, offered));
                }
            },
            _ => {
                assert(!counts_last(q, offered));
            },
        }
        proof {
            assert forall|id: TLCId|
                has_live_add(q, id) <==> (has_live_add(p, id) || (q.last().is_live_add()
                    && q.last().tlc_id() == id)) by {
                if has_live_add(q, id) {
                    let j = choose|j: int|
                        0 <= j < q.len() && (#[trigger] q[j]).is_live_add() && q[j].tlc_id() == id;
                    if j < p.len() {
                        assert(p[j] == q[j]);
                    }
                }
                if has_live_add(p, id) {
                    let j = choose|j: int|
                        0 <= j < p.len() && (#[trigger] p[j]).is_live_add() && p[j].tlc_id() == id;
                    assert(q[j] == p[j]);
                }
                if q.last().is_live_add() && q.last().tlc_id() == id {
                    assert(q[q.len() - 1] == q.last());
                }
            }
            if pushed {
                assert(seen@ == seen0.push(q.last().tlc_id()));
                assert forall|id: TLCId| seen@.contains(id) <==> (seen0.contains(id) || id == q.last().tlc_id()) by {
                    if seen@.contains(id) {
                        let k = choose|k: int| 0 <= k < seen@.len() && seen@[k] == id;
                        if k < seen0.len() {
                            assert(seen0[k] == id);
                        }
                    }
                    if seen0.contains(id) {
                        let k = choose|k: int| 0 <= k < seen0.len() && seen0[k] == id;
                        assert(seen@[k] == id);
                    }
                    if id == q.last().tlc_id() {
                        assert(seen@[seen0.len() as int] == id);
                    }
                }
            } else {
                assert(seen@ == seen0);
            }
            assert(counts_last(q, offered) == pushed);
            assert forall|id: TLCId|
                seen@.contains(id) <==> (has_live_add(q, id) && (id is Offered) == offered) by {
                if pushed {
                    assert(seen@.contains(id) <==> (seen0.contains(id) || id == q.last().tlc_id()));
                } else {
                    assert(seen@.contains(id) == seen0.contains(id));
                }
                assert(seen0.contains(id) <==> (has_live_add(p, id) && (id is Offered) == offered));
                assert(has_live_add(q, id) <==> (has_live_add(p, id) || (q.last().is_live_add()
                    && q.last().tlc_id() == id)));
                if id == q.last().tlc_id() && q.last().is_live_add() && (id is Offered) == offered && !pushed {
                    assert(has_live_add(p, id));
                }
            }
        }
        i = i + 1;
        assert(v.subrange(0, i as int) == q);
        assert forall|id: TLCId|
            seen@.contains(id) <==> (has_live_add(v.subrange(0, i as int), id) && (id is Offered)
                == offered) by {
            assert(seen@.contains(id) <==> (has_live_add(q, id) && (id is Offered) == offered));
        }
    }
    proof {
        assert(v.subrange(0, s@.len() as int) =~= v);
    }
    (count, amount)
}

/// Whether `s` holds a live add whose payment hash is `h`.
pub fn find_live_payment_hash(s: &[TlcKind], h: &[u8; 32]) -> (r: bool)
    ensures
        r == has_live_hash(views(s@), *h),
{
    let mut i: usize = 0;
    while i < s.len()
        invariant
            i <= s@.len(),
            forall|j: int|
                0 <= j < i ==> !((#[trigger] views(s@)[j]).is_live_add() && views(s@)[j]->AddTlc_0.payment_hash
                    == *h),
        decreases s@.len() - i,
    {
        assert(views(s@)[i as int] == s@[i as int]@);
        match &s[i] {
            TlcKind::AddTlc(info) => {
                if info.removed_at.is_none() && crate::tlc::hash_equal(&info.payment_hash, h) {
                    return true;
                }
            },
            _ => {},
        }
        i = i + 1;
    }
    false
}

impl TlcState {
    /// Every operation of both sides: ours first, then the peer's.
    pub open spec fn all_ops(&self) -> Seq<TlcKindView> {
        self.local().ops() + self.remote().ops()
    }

    /// Every operation of both sides, ours first.
    pub fn all_tlc_operations(&self) -> (r: Vec<TlcKind>)
        ensures
            views(r@) == self.all_ops(),
    {
        let mut a = clone_ops(self.local_pending_tlcs.tlcs());
        let mut b = clone_ops(self.remote_pending_tlcs.tlcs());
        let ghost a0 = a@;
        a.append(&mut b);
        proof {
            assert(views(a@) =~= self.all_ops());
        }
        a
    }
}


pub proof fn lemma_drop_removed_adds_members(s: Seq<TlcKindView>)
    ensures
        forall|k: int|
            0 <= k < drop_removed_adds(s).len() ==> keeps_unless_removed_add(
                #[trigger] drop_removed_adds(s)[k],
            ) && exists|j: int| 0 <= j < s.len() && s[j] == drop_removed_adds(s)[k],
    decreases s.len(),
{
    if s.len() > 0 {
        let p = s.drop_last();
        lemma_drop_removed_adds_members(p);
        let d = drop_removed_adds(s);
        let dp = drop_removed_adds(p);
        assert forall|k: int| 0 <= k < d.len() implies keeps_unless_removed_add(#[trigger] d[k])
            && exists|j: int| 0 <= j < s.len() && s[j] == d[k] by {
            if k < dp.len() {
                assert(d[k] == dp[k]);
                let j = choose|j: int| 0 <= j < p.len() && p[j] == dp[k];
                assert(s[j] == p[j]);
            } else {
                assert(d[k] == s.last());
                assert(s[s.len() - 1] == d[k]);
            }
        }
    }
}

/// After `id` is marked removed and the list compacted, no add of `id` is left.
pub proof fn lemma_removed_add_gone(
    s: Seq<TlcKindView>,
    id: TLCId,
    at: CommitmentNumbers,
    reason: RemoveReasonView,
)
    ensures
        !has_add(drop_removed_adds(mark_removed_in(s, id, at, reason)), id),
{
    let m = mark_removed_in(s, id, at, reason);
    let d = drop_removed_adds(m);
    lemma_drop_removed_adds_members(m);
    if has_add(d, id) {
        let k = choose|k: int| 0 <= k < d.len() && (#[trigger] d[k]) is AddTlc && d[k].tlc_id() == id;
        assert(keeps_unless_removed_add(d[k]));
        let j = choose|j: int| 0 <= j < m.len() && m[j] == d[k];
        assert(m[j] is AddTlc && m[j]->AddTlc_0.removed_at is Some);
    }
}


/// The live adds of `s`, the first of each id, in order of first appearance.
pub open spec fn first_live_adds(s: Seq<TlcKindView>) -> Seq<TlcKindView>
    decreases s.len(),
{
    if s.len() == 0 {
        s
    } else {
        let acc = first_live_adds(s.drop_last());
        if s.last().is_live_add() && !has_add(acc, s.last().tlc_id()) {
            acc.push(s.last())
        } else {
            acc
        }
    }
}

/// `acc` followed by the adds of `staging` whose id it does not hold yet (the first of each).
pub open spec fn with_staging_adds(acc: Seq<TlcKindView>, staging: Seq<TlcKindView>) -> Seq<TlcKindView>
    decreases staging.len(),
{
    if staging.len() == 0 {
        acc
    } else {
        let prev = with_staging_adds(acc, staging.drop_last());
        if staging.last() is AddTlc && !has_add(prev, staging.last().tlc_id()) {
            prev.push(staging.last())
        } else {
            prev
        }
    }
}

/// Whether `s` holds a remove of `id`.
pub open spec fn has_remove(s: Seq<TlcKindView>, id: TLCId) -> bool {
    exists|i: int| 0 <= i < s.len() && (#[trigger] s[i]) is RemoveTlc && s[i].tlc_id() == id
}

/// The operations of `s` whose id no remove of `staging` names, in order.
pub open spec fn without_removed(s: Seq<TlcKindView>, staging: Seq<TlcKindView>) -> Seq<TlcKindView>
    decreases s.len(),
{
    if s.len() == 0 {
        s
    } else {
        let rest = without_removed(s.drop_last(), staging);
        if has_remove(staging, s.last().tlc_id()) {
            rest
        } else {
            rest.push(s.last())
        }
    }
}

/// The TLCs a commitment holds: the live committed adds, then the staging
/// adds of ids not committed, less the ids a staging remove names; one
/// add per id, in order of first appearance.
pub open spec fn unified(staging: Seq<TlcKindView>, committed: Seq<TlcKindView>) -> Seq<TlcKindView> {
    without_removed(with_staging_adds(first_live_adds(committed), staging), staging)
}

/// The ids of the operations of `s`.
pub open spec fn id_set(s: Seq<TlcKindView>) -> Set<TLCId> {
    Set::new(|id: TLCId| exists|i: int| 0 <= i < s.len() && (#[trigger] s[i]).tlc_id() == id)
}

/// Whether `s` holds a remove of `id`.
fn find_remove(s: &[TlcKind], id: TLCId) -> (r: bool)
    ensures
        r == has_remove(views(s@), id),
{
    let mut i: usize = 0;
    while i < s.len()
        invariant
            i <= s@.len(),
            forall|j: int| 0 <= j < i ==> !((#[trigger] views(s@)[j]) is RemoveTlc && views(s@)[j].tlc_id() == id),
        decreases s@.len() - i,
    {
        assert(views(s@)[i as int] == s@[i as int]@);
        match &s[i] {
            TlcKind::RemoveTlc(info) => {
                if info.tlc_id == id {
                    return true;
                }
            },
            _ => {},
        }
        i = i + 1;
    }
    false
}

/// Whether `s` holds an add of `id`.
fn find_add(s: &Vec<TlcKind>, id: TLCId) -> (r: bool)
    ensures
        r == has_add(views(s@), id),
{
    let mut i: usize = 0;
    while i < s.len()
        invariant
            i <= s@.len(),
            forall|j: int| 0 <= j < i ==> !((#[trigger] views(s@)[j]) is AddTlc && views(s@)[j].tlc_id() == id),
        decreases s@.len() - i,
    {
        assert(views(s@)[i as int] == s@[i as int]@);
        match &s[i] {
            TlcKind::AddTlc(info) => {
                if info.tlc_id == id {
                    return true;
                }
            },
            _ => {},
        }
        i = i + 1;
    }
    false
}

/// Merge committed and staging operations into the TLCs a commitment holds.
pub fn unify_tlcs(staging: &[TlcKind], committed: &[TlcKind]) -> (r: Vec<TlcKind>)
    ensures
        views(r@) == unified(views(staging@), views(committed@)),
{
    let ghost c = views(committed@);
    let ghost st = views(staging@);
    let mut acc: Vec<TlcKind> = Vec::new();
    let mut i: usize = 0;
    proof {
        assert(c.subrange(0, 0) =~= Seq::<TlcKindView>::empty());
        assert(views(acc@) =~= Seq::<TlcKindView>::empty());
    }
    while i < committed.len()
        invariant
            i <= committed@.len(),
            c == views(committed@),
            views(acc@) == first_live_adds(c.subrange(0, i as int)),
        decreases committed@.len() - i,
    {
        proof {
            assert(c.subrange(0, i + 1).drop_last() =~= c.subrange(0, i as int));
            assert(c.subrange(0, i + 1).last() == committed@[i as int]@);
        }
        let live = match &committed[i] {
            TlcKind::AddTlc(info) => info.removed_at.is_none(),
            _ => false,
        };
        if live && !find_add(&acc, committed[i].tlc_id()) {
            let x = committed[i].clone();
            proof {
                lemma_views_push(acc@, x);
            }
            acc.push(x);
        }
        i = i + 1;
    }
    proof {
        assert(c.subrange(0, c.len() as int) =~= c);
        assert(st.subrange(0, 0) =~= Seq::<TlcKindView>::empty());
    }
    let ghost base = views(acc@);
    let mut k: usize = 0;
    while k < staging.len()
        invariant
            k <= staging@.len(),
            st == views(staging@),
            views(acc@) == with_staging_adds(base, st.subrange(0, k as int)),
        decreases staging@.len() - k,
    {
        proof {
            assert(st.subrange(0, k + 1).drop_last() =~= st.subrange(0, k as int));
            assert(st.subrange(0, k + 1).last() == staging@[k as int]@);
        }
        let is_add = match &staging[k] {
            TlcKind::AddTlc(_) => true,
            _ => false,
        };
        if is_add && !find_add(&acc, staging[k].tlc_id()) {
            let x = staging[k].clone();
            proof {
                lemma_views_push(acc@, x);
            }
            acc.push(x);
        }
        k = k + 1;
    }
    proof {
        assert(st.subrange(0, st.len() as int) =~= st);
    }
    let ghost merged = views(acc@);
    let mut out: Vec<TlcKind> = Vec::new();
    let mut m: usize = 0;
    proof {
        assert(merged.subrange(0, 0) =~= Seq::<TlcKindView>::empty());
        assert(views(out@) =~= Seq::<TlcKindView>::empty());
    }
    while m < acc.len()
        invariant
            m <= acc@.len(),
            merged == views(acc@),
            st == views(staging@),
            views(out@) == without_removed(merged.subrange(0, m as int), st),
        decreases acc@.len() - m,
    {
        proof {
            assert(merged.subrange(0, m + 1).drop_last() =~= merged.subrange(0, m as int));
            assert(merged.subrange(0, m + 1).last() == acc@[m as int]@);
        }
        if !find_remove(staging, acc[m].tlc_id()) {
            let x = acc[m].clone();
            proof {
                lemma_views_push(out@, x);
            }
            out.push(x);
        }
        m = m + 1;
    }
    proof {
        assert(merged.subrange(0, merged.len() as int) =~= merged);
    }
    out
}

impl TlcState {
    /// The TLCs of our next commitment: our staging operations over the
    /// committed operations of both sides (ours first).
    pub open spec fn spec_tlcs_for_local(&self) -> Seq<TlcKindView> {
        unified(self.local().staging_ops(), self.local().committed_ops() + self.remote().committed_ops())
    }

    /// The TLCs of the peer's next commitment: its staging operations over
    /// the committed operations of both sides (its first).
    pub open spec fn spec_tlcs_for_remote(&self) -> Seq<TlcKindView> {
        unified(self.remote().staging_ops(), self.remote().committed_ops() + self.local().committed_ops())
    }

    pub fn get_tlcs_for_local(&self) -> (r: Vec<TlcKind>)
        requires
            self.wf(),
        ensures
            views(r@) == self.spec_tlcs_for_local(),
    {
        let mut committed = clone_ops(self.local_pending_tlcs.get_committed_tlcs());
        let mut other = clone_ops(self.remote_pending_tlcs.get_committed_tlcs());
        committed.append(&mut other);
        proof {
            assert(views(committed@) =~= self.local().committed_ops() + self.remote().committed_ops());
        }
        unify_tlcs(self.local_pending_tlcs.get_staging_tlcs(), committed.as_slice())
    }

    pub fn get_tlcs_for_remote(&self) -> (r: Vec<TlcKind>)
        requires
            self.wf(),
        ensures
            views(r@) == self.spec_tlcs_for_remote(),
    {
        let mut committed = clone_ops(self.remote_pending_tlcs.get_committed_tlcs());
        let mut other = clone_ops(self.local_pending_tlcs.get_committed_tlcs());
        committed.append(&mut other);
        proof {
            assert(views(committed@) =~= self.remote().committed_ops() + self.local().committed_ops());
        }
        unify_tlcs(self.remote_pending_tlcs.get_staging_tlcs(), committed.as_slice())
    }

    /// The TLCs of our next commitment (`local_commitment`) or the peer's.
    pub fn get_tlcs_with(&self, local_commitment: bool) -> (r: Vec<TlcKind>)
        requires
            self.wf(),
        ensures
            views(r@) == if local_commitment {
                self.spec_tlcs_for_local()
            } else {
                self.spec_tlcs_for_remote()
            },
    {
        if local_commitment {
            self.get_tlcs_for_local()
        } else {
            self.get_tlcs_for_remote()
        }
    }
}


/// The adds of `s`, as operations.
pub open spec fn as_adds(s: Seq<AddTlcInfo>) -> Seq<TlcKindView> {
    s.map_values(|a: AddTlcInfo| TlcKindView::AddTlc(a@))
}

/// `s` with the preimage of every add of `id` set to `preimage`.
pub open spec fn set_preimage_in(s: Seq<TlcKindView>, id: TLCId, preimage: Option<[u8; 32]>) -> Seq<TlcKindView> {
    s.map_values(
        |op: TlcKindView|
            if op is AddTlc && op.tlc_id() == id {
                TlcKindView::AddTlc(AddTlcView { payment_preimage: preimage, ..op->AddTlc_0 })
            } else {
                op
            },
    )
}

impl TlcState {
    /// The live adds among `tlcs`, the first of each id, in order of first appearance.
    pub fn filter_add_tlcs(tlcs: &[TlcKind]) -> (r: Vec<AddTlcInfo>)
        ensures
            as_adds(r@) == first_live_adds(views(tlcs@)),
    {
        let ghost c = views(tlcs@);
        let mut acc: Vec<TlcKind> = Vec::new();
        let mut out: Vec<AddTlcInfo> = Vec::new();
        let mut i: usize = 0;
        proof {
            assert(c.subrange(0, 0) =~= Seq::<TlcKindView>::empty());
            assert(views(acc@) =~= Seq::<TlcKindView>::empty());
            assert(as_adds(out@) =~= Seq::<TlcKindView>::empty());
        }
        while i < tlcs.len()
            invariant
                i <= tlcs@.len(),
                c == views(tlcs@),
                views(acc@) == first_live_adds(c.subrange(0, i as int)),
                as_adds(out@) == views(acc@),
            decreases tlcs@.len() - i,
        {
            proof {
                assert(c.subrange(0, i + 1).drop_last() =~= c.subrange(0, i as int));
                assert(c.subrange(0, i + 1).last() == tlcs@[i as int]@);
            }
            match &tlcs[i] {
                TlcKind::AddTlc(info) => {
                    if info.removed_at.is_none() && !find_add(&acc, info.tlc_id) {
                        let x = info.clone();
                        let y = info.clone();
                        proof {
                            lemma_views_push(acc@, TlcKind::AddTlc(y));
                            assert(as_adds(out@.push(x)) =~= as_adds(out@).push(TlcKindView::AddTlc(x@)));
                        }
                        acc.push(TlcKind::AddTlc(y));
                        out.push(x);
                    }
                },
                _ => {},
            }
            i = i + 1;
        }
        proof {
            assert(c.subrange(0, c.len() as int) =~= c);
        }
        out
    }

    /// The live committed adds of both sides, ours first, one per id.
    pub fn all_commited_tlcs(&self) -> (r: Vec<AddTlcInfo>)
        requires
            self.wf(),
        ensures
            as_adds(r@) == first_live_adds(self.local().committed_ops() + self.remote().committed_ops()),
    {
        let mut committed = clone_ops(self.local_pending_tlcs.get_committed_tlcs());
        let mut other = clone_ops(self.remote_pending_tlcs.get_committed_tlcs());
        committed.append(&mut other);
        proof {
            assert(views(committed@) =~= self.local().committed_ops() + self.remote().committed_ops());
        }
        Self::filter_add_tlcs(committed.as_slice())
    }

    /// The live adds of both sides, ours first, one per id.
    pub fn all_tlcs(&self) -> (r: Vec<AddTlcInfo>)
        ensures
            as_adds(r@) == first_live_adds(self.all_ops()),
    {
        let all = self.all_tlc_operations();
        Self::filter_add_tlcs(all.as_slice())
    }

    /// Set the preimage of the adds of `id` in the list of its direction.
    pub fn set_payment_preimage(&mut self, id: TLCId, preimage: Option<[u8; 32]>)
        requires
            old(self).wf(),
        ensures
            final(self).wf(),
            final(self).side(id).ops() == set_preimage_in(old(self).side(id).ops(), id, preimage),
            final(self).side(id).committed_len() == old(self).side(id).committed_len(),
            final(self).side(id).next_id() == old(self).side(id).next_id(),
            final(self).side(id.spec_flip()) == old(self).side(id.spec_flip()),
            final(self).retry_queue() == old(self).retry_queue(),
            final(self).spec_waiting_ack() == old(self).spec_waiting_ack(),
            final(self).resolved() == old(self).resolved(),
    {
        if id.is_offered() {
            self.local_pending_tlcs.set_payment_preimage(id, preimage);
        } else {
            self.remote_pending_tlcs.set_payment_preimage(id, preimage);
        }
    }
}

impl PendingTlcs {
    /// Set the preimage of every add of `id`.
    pub fn set_payment_preimage(&mut self, id: TLCId, preimage: Option<[u8; 32]>)
        requires
            old(self).wf(),
        ensures
            final(self).wf(),
            final(self).ops() == set_preimage_in(old(self).ops(), id, preimage),
            final(self).committed_len() == old(self).committed_len(),
            final(self).next_id() == old(self).next_id(),
    {
        let ghost old_ops = self.ops();
        let ghost target = set_preimage_in(old_ops, id, preimage);
        let mut out: Vec<TlcKind> = Vec::new();
        let mut i: usize = 0;
        while i < self.tlcs.len()
            invariant
                i <= self.tlcs@.len(),
                old_ops == self.ops(),
                old_ops.len() == self.tlcs@.len(),
                target == set_preimage_in(old_ops, id, preimage),
                out@.len() == i,
                forall|j: int| 0 <= j < i ==> (#[trigger] out@[j])@ == target[j],
            decreases self.tlcs@.len() - i,
        {
            assert(old_ops[i as int] == self.tlcs@[i as int]@);
            match &self.tlcs[i] {
                TlcKind::AddTlc(info) => {
                    let mut c = info.clone();
                    if info.tlc_id == id {
                        c.payment_preimage = preimage;
                    }
                    out.push(TlcKind::AddTlc(c));
                },
                TlcKind::RemoveTlc(info) => {
                    out.push(TlcKind::RemoveTlc(info.clone()));
                },
            }
            i = i + 1;
        }
        proof {
            assert(views(out@) =~= target);
            let t = target;
            assert forall|i: int, j: int|
                0 <= i < t.len() && 0 <= j < t.len() && i != j implies !(#[trigger] t[i]).same_operation(
                    #[trigger] t[j],
                ) by {
                assert(!old_ops[i].same_operation(old_ops[j]));
            }
        }
        self.tlcs = out;
    }
}


impl TlcState {
    /// Whether our list holds an operation of the same kind on the same TLC.
    pub fn has_local_operation(&self, op: &TlcKind) -> (r: bool)
        ensures
            r == contains_op(self.local().ops(), op@),
    {
        self.local_pending_tlcs.is_tlc_present(op)
    }

    /// Whether the peer's list holds an operation of the same kind on the same TLC.
    pub fn has_remote_operation(&self, op: &TlcKind) -> (r: bool)
        ensures
            r == contains_op(self.remote().ops(), op@),
    {
        self.remote_pending_tlcs.is_tlc_present(op)
    }
}


impl Clone for PendingTlcs {
    fn clone(&self) -> (r: Self)
        ensures
            r.ops() == self.ops(),
            r.committed_len() == self.committed_len(),
            r.next_id() == self.next_id(),
    {
        PendingTlcs {
            tlcs: clone_ops(self.tlcs.as_slice()),
            committed_index: self.committed_index,
            next_tlc_id: self.next_tlc_id,
        }
    }
}

impl Clone for TlcState {
    fn clone(&self) -> (r: Self)
        ensures
            r.local().ops() == self.local().ops(),
            r.local().committed_len() == self.local().committed_len(),
            r.local().next_id() == self.local().next_id(),
            r.remote().ops() == self.remote().ops(),
            r.remote().committed_len() == self.remote().committed_len(),
            r.remote().next_id() == self.remote().next_id(),
            r.retry_queue() == self.retry_queue(),
            r.spec_waiting_ack() == self.spec_waiting_ack(),
            r.resolved() == self.resolved(),
    {
        let mut resolved_tlcs: Vec<(TLCId, CommitmentNumbers, RemoveTlcReason)> = Vec::new();
        let mut i: usize = 0;
        while i < self.resolved_tlcs.len()
            invariant
                i <= self.resolved_tlcs@.len(),
                resolved_views(resolved_tlcs@) == resolved_views(self.resolved_tlcs@.subrange(0, i as int)),
            decreases self.resolved_tlcs@.len() - i,
        {
            let e = &self.resolved_tlcs[i];
            let c = (e.0, e.1, e.2.clone());
            proof {
                assert(self.resolved_tlcs@.subrange(0, i + 1) =~= self.resolved_tlcs@.subrange(0, i as int).push(
                    self.resolved_tlcs@[i as int],
                ));
                assert(resolved_views(resolved_tlcs@.push(c)) =~= resolved_views(resolved_tlcs@).push((c.0, c.1, c.2@)));
                assert(resolved_views(self.resolved_tlcs@.subrange(0, i + 1)) =~= resolved_views(
                    self.resolved_tlcs@.subrange(0, i as int),
                ).push((c.0, c.1, c.2@)));
            }
            resolved_tlcs.push(c);
            i = i + 1;
        }
        proof {
            assert(self.resolved_tlcs@.subrange(0, self.resolved_tlcs@.len() as int) =~= self.resolved_tlcs@);
        }
        TlcState {
            local_pending_tlcs: self.local_pending_tlcs.clone(),
            remote_pending_tlcs: self.remote_pending_tlcs.clone(),
            retryable_remove_tlcs: self.get_pending_remove(),
            waiting_ack: self.waiting_ack,
            resolved_tlcs,
        }
    }
}


impl TlcState {
    /// Our pending list, read only.
    pub fn local_pending(&self) -> (r: &PendingTlcs)
        ensures
            *r == self.local(),
    {
        &self.local_pending_tlcs
    }

    /// The peer's pending list, read only.
    pub fn remote_pending(&self) -> (r: &PendingTlcs)
        ensures
            *r == self.remote(),
    {
        &self.remote_pending_tlcs
    }
}


pub proof fn lemma_drop_entry_contains(q: Seq<RetryableView>, e: RetryableView)
    ensures
        forall|x: RetryableView| #[trigger] drop_entry(q, e).contains(x) <==> (q.contains(x) && x != e),
    decreases q.len(),
{
    if q.len() > 0 {
        let p = q.drop_last();
        lemma_drop_entry_contains(p, e);
        let d = drop_entry(q, e);
        let dp = drop_entry(p, e);
        assert forall|x: RetryableView| #[trigger] d.contains(x) <==> (q.contains(x) && x != e) by {
            if d.contains(x) {
                let i = choose|i: int| 0 <= i < d.len() && d[i] == x;
                if i < dp.len() {
                    assert(d[i] == dp[i]);
                    assert(dp.contains(x));
                    let j = choose|j: int| 0 <= j < p.len() && p[j] == x;
                    assert(q[j] == p[j]);
                } else {
                    assert(q[q.len() - 1] == x);
                }
            }
            if q.contains(x) && x != e {
                let j = choose|j: int| 0 <= j < q.len() && q[j] == x;
                if j < p.len() {
                    assert(p[j] == q[j]);
                    assert(p.contains(x));
                    assert(dp.contains(x));
                    let i = choose|i: int| 0 <= i < dp.len() && dp[i] == x;
                    assert(d[i] == dp[i]);
                } else {
                    assert(d[d.len() - 1] == x);
                }
            }
        }
    }
}


/// Every add of `s` has an id below the next id of its direction.
pub open spec fn adds_below(s: Seq<TlcKindView>, offered_next: u64, received_next: u64) -> bool {
    forall|i: int|
        0 <= i < s.len() && (#[trigger] s[i]) is AddTlc ==> s[i].tlc_id().spec_number() < if s[i].tlc_id() is Offered {
            offered_next
        } else {
            received_next
        }
}

/// Whether one operation respects the bounds of `adds_below`.
pub open spec fn op_below(op: TlcKindView, offered_next: u64, received_next: u64) -> bool {
    op is AddTlc ==> op.tlc_id().spec_number() < if op.tlc_id() is Offered {
        offered_next
    } else {
        received_next
    }
}

impl TlcState {
    /// Every add in both lists has an id below its direction's next id.
    pub open spec fn ids_in_range(&self) -> bool {
        &&& adds_below(self.local().ops(), self.local().next_id(), self.remote().next_id())
        &&& adds_below(self.remote().ops(), self.local().next_id(), self.remote().next_id())
    }
}

pub proof fn lemma_below_push(s: Seq<TlcKindView>, op: TlcKindView, on: u64, rn: u64)
    requires
        adds_below(s, on, rn),
        op_below(op, on, rn),
    ensures
        adds_below(s.push(op), on, rn),
{
    let t = s.push(op);
    assert forall|i: int| 0 <= i < t.len() && (#[trigger] t[i]) is AddTlc implies t[i].tlc_id().spec_number() < if t[i].tlc_id() is Offered {
        on
    } else {
        rn
    } by {
        if i < s.len() {
            assert(t[i] == s[i]);
        }
    }
}

pub proof fn lemma_below_grow(s: Seq<TlcKindView>, on: u64, rn: u64, on2: u64, rn2: u64)
    requires
        adds_below(s, on, rn),
        on <= on2,
        rn <= rn2,
    ensures
        adds_below(s, on2, rn2),
{
}

pub proof fn lemma_below_merge(ops: Seq<TlcKindView>, extra: Seq<TlcKindView>, on: u64, rn: u64)
    requires
        adds_below(ops, on, rn),
        adds_below(extra, on, rn),
    ensures
        adds_below(merge_ops(ops, extra), on, rn),
    decreases extra.len(),
{
    if extra.len() > 0 {
        let p = extra.drop_last();
        assert(adds_below(p, on, rn)) by {
            assert forall|i: int| 0 <= i < p.len() && (#[trigger] p[i]) is AddTlc implies p[i].tlc_id().spec_number()
                < if p[i].tlc_id() is Offered {
                on
            } else {
                rn
            } by {
                assert(p[i] == extra[i]);
            }
        }
        lemma_below_merge(ops, p, on, rn);
        let acc = merge_ops(ops, p);
        if !contains_op(acc, extra.last()) {
            assert(extra[extra.len() - 1] == extra.last());
            lemma_below_push(acc, extra.last(), on, rn);
        }
    }
}

pub proof fn lemma_below_drop_removes(s: Seq<TlcKindView>, id: TLCId, on: u64, rn: u64)
    requires
        adds_below(s, on, rn),
    ensures
        adds_below(drop_removes_of(s, id), on, rn),
    decreases s.len(),
{
    if s.len() > 0 {
        let p = s.drop_last();
        assert(adds_below(p, on, rn)) by {
            assert forall|i: int| 0 <= i < p.len() && (#[trigger] p[i]) is AddTlc implies p[i].tlc_id().spec_number()
                < if p[i].tlc_id() is Offered {
                on
            } else {
                rn
            } by {
                assert(p[i] == s[i]);
            }
        }
        lemma_below_drop_removes(p, id, on, rn);
        if keeps_unless_remove_of(s.last(), id) {
            assert(s[s.len() - 1] == s.last());
            lemma_below_push(drop_removes_of(p, id), s.last(), on, rn);
        }
    }
}

pub proof fn lemma_below_drop_removed_adds(s: Seq<TlcKindView>, on: u64, rn: u64)
    requires
        adds_below(s, on, rn),
    ensures
        adds_below(drop_removed_adds(s), on, rn),
{
    lemma_drop_removed_adds_members(s);
    let d = drop_removed_adds(s);
    assert forall|k: int| 0 <= k < d.len() && (#[trigger] d[k]) is AddTlc implies d[k].tlc_id().spec_number() < if d[k].tlc_id() is Offered {
        on
    } else {
        rn
    } by {
        let j = choose|j: int| 0 <= j < s.len() && s[j] == d[k];
    }
}

pub proof fn lemma_below_mark(s: Seq<TlcKindView>, id: TLCId, at: CommitmentNumbers, reason: RemoveReasonView, on: u64, rn: u64)
    requires
        adds_below(s, on, rn),
    ensures
        adds_below(mark_removed_in(s, id, at, reason), on, rn),
{
    let t = mark_removed_in(s, id, at, reason);
    assert forall|i: int| 0 <= i < t.len() && (#[trigger] t[i]) is AddTlc implies t[i].tlc_id().spec_number() < if t[i].tlc_id() is Offered {
        on
    } else {
        rn
    } by {
        assert(t[i].tlc_id() == s[i].tlc_id());
    }
}

pub proof fn lemma_below_set_preimage(s: Seq<TlcKindView>, id: TLCId, preimage: Option<[u8; 32]>, on: u64, rn: u64)
    requires
        adds_below(s, on, rn),
    ensures
        adds_below(set_preimage_in(s, id, preimage), on, rn),
{
    let t = set_preimage_in(s, id, preimage);
    assert forall|i: int| 0 <= i < t.len() && (#[trigger] t[i]) is AddTlc implies t[i].tlc_id().spec_number() < if t[i].tlc_id() is Offered {
        on
    } else {
        rn
    } by {
        assert(t[i].tlc_id() == s[i].tlc_id());
    }
}

pub proof fn lemma_below_committed(s: Seq<TlcKindView>, n: int, on: u64, rn: u64)
    requires
        adds_below(s, on, rn),
        0 <= n <= s.len(),
    ensures
        adds_below(s.subrange(0, n), on, rn),
{
    let t = s.subrange(0, n);
    assert forall|i: int| 0 <= i < t.len() && (#[trigger] t[i]) is AddTlc implies t[i].tlc_id().spec_number() < if t[i].tlc_id() is Offered {
        on
    } else {
        rn
    } by {
        assert(t[i] == s[i]);
    }
}


/// The views of a list of recorded resolutions.
pub open spec fn resolved_views(s: Seq<(TLCId, CommitmentNumbers, RemoveTlcReason)>) -> Seq<(TLCId, CommitmentNumbers, RemoveReasonView)> {
    s.map_values(|e: (TLCId, CommitmentNumbers, RemoveTlcReason)| (e.0, e.1, e.2@))
}

/// The latest recorded resolution of `id` in `s`.
pub open spec fn last_resolution(s: Seq<(TLCId, CommitmentNumbers, RemoveReasonView)>, id: TLCId) -> Option<(CommitmentNumbers, RemoveReasonView)>
    decreases s.len(),
{
    if s.len() == 0 {
        None
    } else if s.last().0 == id {
        Some((s.last().1, s.last().2))
    } else {
        last_resolution(s.drop_last(), id)
    }
}

impl TlcState {
    /// The latest recorded resolution of `id`: when and why.
    pub fn find_resolution(&self, id: TLCId) -> (r: Option<(CommitmentNumbers, &RemoveTlcReason)>)
        ensures
            match last_resolution(self.resolved(), id) {
                Some((at, reason)) => r is Some && r.unwrap().0 == at && r.unwrap().1@ == reason,
                None => r is None,
            },
    {
        let ghost v = self.resolved();
        let mut i: usize = self.resolved_tlcs.len();
        proof {
            assert(v.subrange(0, i as int) =~= v);
        }
        while i > 0
            invariant
                i <= self.resolved_tlcs@.len(),
                v == self.resolved(),
                v.len() == self.resolved_tlcs@.len(),
                last_resolution(v, id) == last_resolution(v.subrange(0, i as int), id),
            decreases i,
        {
            let e = &self.resolved_tlcs[i - 1];
            proof {
                assert(v.subrange(0, i as int).last() == v[i - 1]);
                assert(v.subrange(0, i as int).drop_last() =~= v.subrange(0, i - 1));
            }
            if e.0 == id {
                return Some((e.1, &e.2));
            }
            i = i - 1;
        }
        None
    }
}


/// Adding a live TLC of a direction whose id is nowhere live raises that
/// direction's total by its amount and its count by one, wherever it is inserted.
pub proof fn lemma_live_insert(a: Seq<TlcKindView>, op: TlcKindView, b: Seq<TlcKindView>, offered: bool)
    requires
        op.is_live_add(),
        !has_live_add(a + b, op.tlc_id()),
    ensures
        live_total(a.push(op) + b, offered) == live_total(a + b, offered) + if (op.tlc_id() is Offered) == offered {
            op->AddTlc_0.amount as nat
        } else {
            0nat
        },
        live_count(a.push(op) + b, offered) == live_count(a + b, offered) + if (op.tlc_id() is Offered) == offered {
            1nat
        } else {
            0nat
        },
    decreases b.len(),
{
    if b.len() == 0 {
        assert(a.push(op) + b =~= a.push(op));
        assert(a + b =~= a);
        assert(a.push(op).drop_last() =~= a);
    } else {
        let bp = b.drop_last();
        let x = b.last();
        assert(!has_live_add(a + bp, op.tlc_id())) by {
            if has_live_add(a + bp, op.tlc_id()) {
                let j = choose|j: int| 0 <= j < (a + bp).len() && (#[trigger] (a + bp)[j]).is_live_add() && (a + bp)[j].tlc_id() == op.tlc_id();
                assert((a + b)[j] == (a + bp)[j]);
            }
        }
        lemma_live_insert(a, op, bp, offered);
        let l = a.push(op) + b;
        let r = a + b;
        assert(l.drop_last() =~= a.push(op) + bp);
        assert(r.drop_last() =~= a + bp);
        assert(l.last() == x && r.last() == x);
        if x.is_live_add() && x.tlc_id() == op.tlc_id() {
            assert(r[r.len() - 1] == x);
        }
        assert(has_live_add(a.push(op) + bp, x.tlc_id()) == (has_live_add(a + bp, x.tlc_id()) || x.tlc_id() == op.tlc_id())) by {
            let with_op = a.push(op) + bp;
            let without_op = a + bp;
            if has_live_add(with_op, x.tlc_id()) {
                let j = choose|j: int| 0 <= j < with_op.len() && (#[trigger] with_op[j]).is_live_add() && with_op[j].tlc_id() == x.tlc_id();
                if j < a.len() {
                    assert(without_op[j] == with_op[j]);
                } else if j > a.len() {
                    assert(without_op[j - 1] == with_op[j]);
                }
            }
            if has_live_add(without_op, x.tlc_id()) {
                let j = choose|j: int| 0 <= j < without_op.len() && (#[trigger] without_op[j]).is_live_add() && without_op[j].tlc_id() == x.tlc_id();
                if j < a.len() {
                    assert(with_op[j] == without_op[j]);
                } else {
                    assert(with_op[j + 1] == without_op[j]);
                }
            }
            if x.tlc_id() == op.tlc_id() {
                assert(with_op[a.len() as int] == op);
            }
        }
    }
}


impl TlcState {
    /// A copy of the resolution record.
    pub fn resolved_entries(&self) -> (r: Vec<(TLCId, CommitmentNumbers, RemoveTlcReason)>)
        ensures
            resolved_views(r@) == self.resolved(),
    {
        let mut out: Vec<(TLCId, CommitmentNumbers, RemoveTlcReason)> = Vec::new();
        let mut i: usize = 0;
        while i < self.resolved_tlcs.len()
            invariant
                i <= self.resolved_tlcs@.len(),
                resolved_views(out@) == resolved_views(self.resolved_tlcs@.subrange(0, i as int)),
            decreases self.resolved_tlcs@.len() - i,
        {
            let e = &self.resolved_tlcs[i];
            let c = (e.0, e.1, e.2.clone());
            proof {
                assert(self.resolved_tlcs@.subrange(0, i + 1) =~= self.resolved_tlcs@.subrange(0, i as int).push(
                    self.resolved_tlcs@[i as int],
                ));
                assert(resolved_views(out@.push(c)) =~= resolved_views(out@).push((c.0, c.1, c.2@)));
                assert(resolved_views(self.resolved_tlcs@.subrange(0, i + 1)) =~= resolved_views(
                    self.resolved_tlcs@.subrange(0, i as int),
                ).push((c.0, c.1, c.2@)));
            }
            out.push(c);
            i = i + 1;
        }
        proof {
            assert(self.resolved_tlcs@.subrange(0, self.resolved_tlcs@.len() as int) =~= self.resolved_tlcs@);
        }
        out
    }
}

} // verus!
