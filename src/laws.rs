use vstd::prelude::*;
use crate::encoding::{entries_bytes, holder_view, htlc_order, of_direction, sorted_by_number, HtlcEntry};
use crate::ledger::{
    first_live_adds, has_add, has_live_add, has_remove, id_set, with_staging_adds, without_removed, TlcState,
};
use crate::ledger::{contains_op, last_resolution};
use crate::state::ChannelActorState;
use crate::tlc::{RemoveReasonView, RemoveTlcView, TLCId, TlcKindView};

verus! {

broadcast use vstd::seq_lib::group_to_multiset_ensures, vstd::multiset::group_multiset_axioms;

/// Every add in `ops` of the direction of `sample` has an id number below `next`.
pub open spec fn ids_below(ops: Seq<TlcKindView>, next: u64, offered: bool) -> bool {
    forall|i: int|
        0 <= i < ops.len() && (#[trigger] ops[i]) is AddTlc && (ops[i].tlc_id() is Offered) == offered
            ==> ops[i].tlc_id().spec_number() < next
}

/// TLC ids are handed out consecutively: when every add of a direction is
/// numbered below that direction's next id, an add numbered with the next
/// id is new to the list, and after it the next id moves on by one with
/// every add still below it.
pub proof fn law_next_tlc_id_is_fresh(ops: Seq<TlcKindView>, next: u64, op: TlcKindView)
    requires
        ids_below(ops, next, op.tlc_id() is Offered),
        op is AddTlc,
        op.tlc_id().spec_number() == next,
        next < u64::MAX,
    ensures
        !has_add(ops, op.tlc_id()),
        ids_below(ops.push(op), (next + 1) as u64, op.tlc_id() is Offered),
{
    let t = ops.push(op);
    if has_add(ops, op.tlc_id()) {
        let i = choose|i: int| 0 <= i < ops.len() && (#[trigger] ops[i]) is AddTlc && ops[i].tlc_id() == op.tlc_id();
        assert(ops[i].tlc_id().spec_number() < next);
    }
    assert forall|i: int|
        0 <= i < t.len() && (#[trigger] t[i]) is AddTlc && (t[i].tlc_id() is Offered) == (op.tlc_id() is Offered)
            implies t[i].tlc_id().spec_number() < next + 1 by {
        if i < ops.len() {
            assert(t[i] == ops[i]);
        }
    }
}

/// A cooperative close pays out the whole funding cell: the two shutdown
/// outputs, each side's capacity less its fee, plus both fees, add up to
/// the channel's total capacity.
pub proof fn law_shutdown_outputs_and_fees_cover_capacity(s: ChannelActorState, local_fee: u64, remote_fee: u64)
    requires
        local_fee <= s.side_capacity(true),
        remote_fee <= s.side_capacity(false),
    ensures
        (s.side_capacity(true) - local_fee) + (s.side_capacity(false) - remote_fee) + local_fee + remote_fee
            == s.total_capacity(),
{
}

/// A revoked commitment's single output goes entirely to the holder of the
/// revocation: the output that the completed revocation signature spends
/// to (see `handle_revoke_and_ack`) pays our shutdown script everything the
/// funding cell holds but the commitment fee, carrying both balances as
/// data when the channel holds a token.
pub proof fn law_revocation_takes_whole_output(s: ChannelActorState, commitment_fee: u64)
    requires
        s.spec_revocation_output(commitment_fee, s.local_shutdown_script@) is Some,
    ensures
        commitment_fee <= s.total_capacity(),
        s.spec_revocation_output(commitment_fee, s.local_shutdown_script@) == crate::cells::spec_output_with_data(
            (s.total_capacity() - commitment_fee) as u64,
            s.local_shutdown_script@,
            crate::cells::opt_seq(s.funding_udt_type_script),
            (s.to_local_amount + s.to_remote_amount) as u128,
        ),
        ((s.total_capacity() - commitment_fee) as u64) + commitment_fee == s.total_capacity(),
{
}

/// No two entries share a TLC id.
pub open spec fn distinct_ids(s: Seq<HtlcEntry>) -> bool {
    forall|i: int, j: int| 0 <= i < s.len() && 0 <= j < s.len() && i != j ==> (#[trigger] s[i]).tlc_id != (#[trigger] s[j]).tlc_id
}

proof fn lemma_filter_count(s: Seq<HtlcEntry>, received: bool, x: HtlcEntry)
    ensures
        of_direction(s, received).to_multiset().count(x) == if (x.tlc_id is Received) == received {
            s.to_multiset().count(x)
        } else {
            0
        },
    decreases s.len(),
{
    let p = |e: HtlcEntry| (e.tlc_id is Received) == received;
    if s.len() == 0 {
        assert(of_direction(s, received) =~= Seq::<HtlcEntry>::empty());
    } else {
        let q = s.drop_last();
        let l = s.last();
        assert(s =~= q.push(l));
        lemma_filter_count(q, received, x);
        q.lemma_filter_push(l, p);
    }
}

proof fn lemma_filter_same_multiset(s1: Seq<HtlcEntry>, s2: Seq<HtlcEntry>, received: bool)
    requires
        s1.to_multiset() == s2.to_multiset(),
    ensures
        of_direction(s1, received).to_multiset() == of_direction(s2, received).to_multiset(),
{
    assert forall|x: HtlcEntry| of_direction(s1, received).to_multiset().count(x) == of_direction(
        s2,
        received,
    ).to_multiset().count(x) by {
        lemma_filter_count(s1, received, x);
        lemma_filter_count(s2, received, x);
    }
    assert(of_direction(s1, received).to_multiset() =~= of_direction(s2, received).to_multiset());
}

/// Two sequences sorted by id number, with the same elements, are equal
/// when no two of those elements share an id number.
proof fn lemma_sorted_unique_by_number(x: Seq<HtlcEntry>, y: Seq<HtlcEntry>)
    requires
        sorted_by_number(x),
        sorted_by_number(y),
        x.to_multiset() == y.to_multiset(),
        forall|e1: HtlcEntry, e2: HtlcEntry|
            x.contains(e1) && x.contains(e2) && e1.tlc_id.spec_number() == e2.tlc_id.spec_number() ==> e1
                == e2,
    ensures
        x == y,
    decreases x.len(),
{
    if x.len() == 0 {
        assert(x.to_multiset().len() == y.to_multiset().len());
        assert(y.len() == 0);
        assert(x =~= y);
    } else {
        x.to_multiset_ensures();
        y.to_multiset_ensures();
        assert(y.len() == x.len());
        let lx = x.last();
        let ly = y.last();
        assert(x.contains(lx)) by {
            assert(x[x.len() - 1] == lx);
        }
        assert(y.contains(ly)) by {
            assert(y[y.len() - 1] == ly);
        }
        assert(y.to_multiset().count(lx) > 0);
        assert(y.contains(lx));
        let j = choose|j: int| 0 <= j < y.len() && y[j] == lx;
        if j < y.len() - 1 {
            assert(y[j].tlc_id.spec_number() <= y[y.len() - 1].tlc_id.spec_number());
        }
        assert(x.to_multiset().count(ly) > 0);
        assert(x.contains(ly));
        let i = choose|i: int| 0 <= i < x.len() && x[i] == ly;
        if i < x.len() - 1 {
            assert(x[i].tlc_id.spec_number() <= x[x.len() - 1].tlc_id.spec_number());
        }
        assert(lx == ly);
        let xd = x.drop_last();
        let yd = y.drop_last();
        assert(x =~= xd.push(lx));
        assert(y =~= yd.push(ly));
        assert(xd.to_multiset() =~= x.to_multiset().remove(lx));
        assert(yd.to_multiset() =~= y.to_multiset().remove(ly));
        assert forall|e1: HtlcEntry, e2: HtlcEntry|
            xd.contains(e1) && xd.contains(e2) && e1.tlc_id.spec_number() == e2.tlc_id.spec_number() implies e1
                == e2 by {
            let a = choose|a: int| 0 <= a < xd.len() && xd[a] == e1;
            let b = choose|b: int| 0 <= b < xd.len() && xd[b] == e2;
            assert(x[a] == xd[a] && x[b] == xd[b]);
            assert(x.contains(e1) && x.contains(e2));
        }
        lemma_sorted_unique_by_number(xd, yd);
    }
}

/// Both peers build the same TLC list for a commitment: when the peer's
/// entries, renamed from its side, are our entries (the same TLC set, with
/// distinct ids), every valid ordering of ours for our commitment equals
/// every valid ordering of the peer's for that same commitment, so the two
/// encodings, and with them the commitment-lock args and their 20-byte TLC
/// digest, are the same.
pub proof fn law_both_sides_order_tlcs_alike(
    ours: Seq<HtlcEntry>,
    theirs: Seq<HtlcEntry>,
    ordered_ours: Seq<HtlcEntry>,
    ordered_theirs: Seq<HtlcEntry>,
)
    requires
        distinct_ids(ours),
        holder_view(theirs, false).to_multiset() == ours.to_multiset(),
        htlc_order(ours, true, ordered_ours),
        htlc_order(theirs, false, ordered_theirs),
    ensures
        ordered_ours == ordered_theirs,
        entries_bytes(ordered_ours) == entries_bytes(ordered_theirs),
        ours.len() == theirs.len(),
{
    let v1 = holder_view(ours, true);
    let v2 = holder_view(theirs, false);
    assert(v1 == ours);
    assert(v2 == theirs.map_values(|e: HtlcEntry| e.spec_flip()));
    assert(v2.len() == theirs.len());
    assert(ours.to_multiset().len() == v2.to_multiset().len());
    assert(ours.len() == v2.len());
    let (a1, b1) = choose|a: Seq<HtlcEntry>, b: Seq<HtlcEntry>|
        ordered_ours == a + b && sorted_by_number(a) && sorted_by_number(b) && a.to_multiset()
            == of_direction(v1, true).to_multiset() && b.to_multiset() == of_direction(v1, false).to_multiset();
    let (a2, b2) = choose|a: Seq<HtlcEntry>, b: Seq<HtlcEntry>|
        ordered_theirs == a + b && sorted_by_number(a) && sorted_by_number(b) && a.to_multiset()
            == of_direction(v2, true).to_multiset() && b.to_multiset() == of_direction(v2, false).to_multiset();
    lemma_filter_same_multiset(v2, ours, true);
    lemma_filter_same_multiset(v2, ours, false);
    assert forall|received: bool, c: Seq<HtlcEntry>, e1: HtlcEntry, e2: HtlcEntry|
        c.to_multiset() == of_direction(ours, received).to_multiset() && c.contains(e1) && c.contains(e2)
            && e1.tlc_id.spec_number() == e2.tlc_id.spec_number() implies e1 == e2 by {
        assert(c.to_multiset().count(e1) > 0 && c.to_multiset().count(e2) > 0);
        lemma_filter_count(ours, received, e1);
        lemma_filter_count(ours, received, e2);
        assert(ours.to_multiset().count(e1) > 0 && ours.to_multiset().count(e2) > 0);
        let i = choose|i: int| 0 <= i < ours.len() && ours[i] == e1;
        let j = choose|j: int| 0 <= j < ours.len() && ours[j] == e2;
        assert(e1.tlc_id == e2.tlc_id);
        if i != j {
            assert(ours[i].tlc_id != ours[j].tlc_id);
        }
    }
    lemma_sorted_unique_by_number(a1, a2);
    lemma_sorted_unique_by_number(b1, b2);
}


proof fn lemma_without_removed_empty(s: Seq<TlcKindView>)
    ensures
        without_removed(s, Seq::<TlcKindView>::empty()) == s,
    decreases s.len(),
{
    if s.len() > 0 {
        lemma_without_removed_empty(s.drop_last());
        assert(!has_remove(Seq::<TlcKindView>::empty(), s.last().tlc_id()));
        assert(s.drop_last().push(s.last()) =~= s);
    }
}

proof fn lemma_first_live_adds_ids(s: Seq<TlcKindView>)
    ensures
        forall|id: TLCId| #[trigger] id_set(first_live_adds(s)).contains(id) <==> has_live_add(s, id),
        forall|id: TLCId| has_add(first_live_adds(s), id) <==> has_live_add(s, id),
    decreases s.len(),
{
    if s.len() > 0 {
        let p = s.drop_last();
        lemma_first_live_adds_ids(p);
        let acc = first_live_adds(p);
        let f = first_live_adds(s);
        lemma_first_live_adds_all_adds(p);
        assert forall|id: TLCId| has_live_add(s, id) <==> (has_live_add(p, id) || (s.last().is_live_add()
            && s.last().tlc_id() == id)) by {
            if has_live_add(s, id) {
                let j = choose|j: int| 0 <= j < s.len() && (#[trigger] s[j]).is_live_add() && s[j].tlc_id() == id;
                if j < p.len() {
                    assert(p[j] == s[j]);
                }
            }
            if has_live_add(p, id) {
                let j = choose|j: int| 0 <= j < p.len() && (#[trigger] p[j]).is_live_add() && p[j].tlc_id() == id;
                assert(s[j] == p[j]);
            }
            if s.last().is_live_add() && s.last().tlc_id() == id {
                assert(s[s.len() - 1] == s.last());
            }
        }
        assert forall|id: TLCId| #[trigger] id_set(f).contains(id) <==> has_live_add(s, id) by {
            if id_set(f).contains(id) {
                let j = choose|j: int| 0 <= j < f.len() && (#[trigger] f[j]).tlc_id() == id;
                if j < acc.len() {
                    assert(f[j] == acc[j]);
                    assert(id_set(acc).contains(id));
                }
            }
            if has_live_add(s, id) {
                if has_live_add(p, id) {
                    assert(id_set(acc).contains(id));
                    let j = choose|j: int| 0 <= j < acc.len() && (#[trigger] acc[j]).tlc_id() == id;
                    assert(f[j] == acc[j]);
                } else {
                    if has_add(acc, id) {
                        assert(has_live_add(p, id));
                    }
                    assert(f[f.len() - 1].tlc_id() == id);
                }
            }
        }
        assert forall|id: TLCId| has_add(f, id) <==> has_live_add(s, id) by {
            if has_add(f, id) {
                let j = choose|j: int| 0 <= j < f.len() && (#[trigger] f[j]) is AddTlc && f[j].tlc_id() == id;
                assert(id_set(f).contains(id));
            }
            if has_live_add(s, id) {
                assert(id_set(f).contains(id));
                let j = choose|j: int| 0 <= j < f.len() && (#[trigger] f[j]).tlc_id() == id;
                lemma_first_live_adds_all_adds(s);
            }
        }
    }
}

proof fn lemma_first_live_adds_all_adds(s: Seq<TlcKindView>)
    ensures
        forall|j: int| 0 <= j < first_live_adds(s).len() ==> (#[trigger] first_live_adds(s)[j]) is AddTlc,
    decreases s.len(),
{
    if s.len() > 0 {
        lemma_first_live_adds_all_adds(s.drop_last());
        let acc = first_live_adds(s.drop_last());
        let f = first_live_adds(s);
        assert forall|j: int| 0 <= j < f.len() implies (#[trigger] f[j]) is AddTlc by {
            if j < acc.len() {
                assert(f[j] == acc[j]);
            }
        }
    }
}

proof fn lemma_has_live_add_swap(a: Seq<TlcKindView>, b: Seq<TlcKindView>, id: TLCId)
    ensures
        has_live_add(a + b, id) == has_live_add(b + a, id),
{
    let ab = a + b;
    let ba = b + a;
    if has_live_add(ab, id) {
        let j = choose|j: int| 0 <= j < ab.len() && (#[trigger] ab[j]).is_live_add() && ab[j].tlc_id() == id;
        if j < a.len() {
            assert(ba[b.len() + j] == ab[j]);
        } else {
            assert(ba[j - a.len()] == ab[j]);
        }
    }
    if has_live_add(ba, id) {
        let j = choose|j: int| 0 <= j < ba.len() && (#[trigger] ba[j]).is_live_add() && ba[j].tlc_id() == id;
        if j < b.len() {
            assert(ab[a.len() + j] == ba[j]);
        } else {
            assert(ab[j - b.len()] == ba[j]);
        }
    }
}

/// Once a full round has committed both sides' operations (nothing is
/// staging on either side), our commitment and the peer's hold the same
/// TLCs: the ids of the live committed adds of both sides.
pub proof fn law_committed_views_agree(t: TlcState)
    requires
        t.wf(),
        t.local().committed_len() == t.local().ops().len(),
        t.remote().committed_len() == t.remote().ops().len(),
    ensures
        id_set(t.spec_tlcs_for_local()) == id_set(t.spec_tlcs_for_remote()),
        forall|id: TLCId| #[trigger] id_set(t.spec_tlcs_for_local()).contains(id) <==> has_live_add(t.all_ops(), id),
{
    let e = Seq::<TlcKindView>::empty();
    assert(t.local().staging_ops() =~= e);
    assert(t.remote().staging_ops() =~= e);
    let cl = t.local().committed_ops() + t.remote().committed_ops();
    let cr = t.remote().committed_ops() + t.local().committed_ops();
    assert(t.local().committed_ops() =~= t.local().ops());
    assert(t.remote().committed_ops() =~= t.remote().ops());
    assert(with_staging_adds(first_live_adds(cl), e) == first_live_adds(cl));
    assert(with_staging_adds(first_live_adds(cr), e) == first_live_adds(cr));
    lemma_without_removed_empty(first_live_adds(cl));
    lemma_without_removed_empty(first_live_adds(cr));
    lemma_first_live_adds_ids(cl);
    lemma_first_live_adds_ids(cr);
    assert forall|id: TLCId| id_set(t.spec_tlcs_for_local()).contains(id) == id_set(t.spec_tlcs_for_remote()).contains(id) by {
        lemma_has_live_add_swap(t.local().committed_ops(), t.remote().committed_ops(), id);
    }
    assert(id_set(t.spec_tlcs_for_local()) =~= id_set(t.spec_tlcs_for_remote()));
}


/// Applying the same `RemoveTlc` twice is detected: once the peer's remove
/// of one of our TLCs is queued (the state after it differs from the one
/// before only by that remove at the end of the peer's list), the same
/// remove is still allowed and applicable but already queued, which is the
/// case the queueing step refuses as `RepeatedProcessing`, leaving every
/// balance as it was.
pub proof fn law_repeated_remove_is_detected(
    before: ChannelActorState,
    after: ChannelActorState,
    channel_id: [u8; 32],
    tlc_id: u64,
    reason: RemoveReasonView,
)
    requires
        before.remove_allowed(false),
        before.removable(TLCId::Offered(tlc_id), reason),
        after.tlc_state.remote().ops() == before.tlc_state.remote().ops().push(
            TlcKindView::RemoveTlc(RemoveTlcView { channel_id, tlc_id: TLCId::Offered(tlc_id), reason }),
        ),
        after.tlc_state.local() == before.tlc_state.local(),
        after.state == before.state,
        after.tlc_state.spec_waiting_ack() == before.tlc_state.spec_waiting_ack(),
        after.to_local_amount == before.to_local_amount,
        after.to_remote_amount == before.to_remote_amount,
    ensures
        after.remove_allowed(false),
        after.removable(TLCId::Offered(tlc_id), reason),
        contains_op(
            after.tlc_state.remote().ops(),
            TlcKindView::RemoveTlc(RemoveTlcView { channel_id, tlc_id: TLCId::Offered(tlc_id), reason }),
        ),
        after.to_local_amount + after.to_remote_amount == before.to_local_amount + before.to_remote_amount,
{
    let op = TlcKindView::RemoveTlc(RemoveTlcView { channel_id, tlc_id: TLCId::Offered(tlc_id), reason });
    let ops = after.tlc_state.remote().ops();
    assert(ops[ops.len() - 1] == op);
    assert(ops[ops.len() - 1].same_operation(op));
}


/// Resolving the same TLC twice for the same reason is refused: after a
/// resolution succeeds at some commitment numbers (the TLC is gone from its
/// list and recorded as resolved then, for that reason), a second attempt
/// at the same numbers meets exactly the case that `remove_tlc_with_reason`
/// answers with `RepeatedProcessing`, changing nothing.
pub proof fn law_repeated_resolution_is_refused(
    after: ChannelActorState,
    tlc_id: TLCId,
    at: crate::tlc::CommitmentNumbers,
    reason: RemoveReasonView,
)
    requires
        !has_add(after.tlc_state.side(tlc_id).ops(), tlc_id),
        after.tlc_state.resolved().len() > 0,
        after.tlc_state.resolved().last() == (tlc_id, at, reason),
        after.commitment_numbers == at,
    ensures
        !has_add(after.tlc_state.side(tlc_id).ops(), tlc_id),
        last_resolution(after.tlc_state.resolved(), tlc_id) == Some((after.commitment_numbers, reason)),
{
}

} // verus!
