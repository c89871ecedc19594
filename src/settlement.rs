use vstd::prelude::*;
use crate::ledger::views;
use crate::tlc::{TLCId, TlcKind, TlcKindView};

verus! {

/// Pending TLC amounts by id; no id occurs twice.
pub type Pending = Seq<(TLCId, u128)>;

pub open spec fn unique_keys(p: Pending) -> bool {
    forall|i: int, j: int| 0 <= i < p.len() && 0 <= j < p.len() && i != j ==> (#[trigger] p[i]).0 != (#[trigger] p[j]).0
}

pub open spec fn has_key(p: Pending, id: TLCId) -> bool {
    exists|i: int| 0 <= i < p.len() && (#[trigger] p[i]).0 == id
}

/// The position of `id` in `p` (meaningful when `has_key(p, id)`).
pub open spec fn key_index(p: Pending, id: TLCId) -> int {
    choose|i: int| 0 <= i < p.len() && (#[trigger] p[i]).0 == id
}

/// `p` with `id` set to `amount`: replaced in place, or added at the end.
pub open spec fn put(p: Pending, id: TLCId, amount: u128) -> Pending {
    if has_key(p, id) {
        p.update(key_index(p, id), (id, amount))
    } else {
        p.push((id, amount))
    }
}

/// `p` without `id`.
pub open spec fn take(p: Pending, id: TLCId) -> Pending {
    if has_key(p, id) {
        p.remove(key_index(p, id))
    } else {
        p
    }
}

/// The live adds of one direction in `s`, by id, a later one replacing an earlier one.
pub open spec fn committed_pending(s: Seq<TlcKindView>, offered: bool) -> Pending
    decreases s.len(),
{
    if s.len() == 0 {
        Seq::empty()
    } else {
        let p = committed_pending(s.drop_last(), offered);
        let l = s.last();
        if l.is_live_add() && (l.tlc_id() is Offered) == offered {
            put(p, l.tlc_id(), l->AddTlc_0.amount)
        } else {
            p
        }
    }
}

/// Replay staging operations over pending amounts: an add sets its
/// amount, a remove of a pending id takes it out and, when it is a
/// fulfill, counts its amount. Gives what is left and the fulfilled total.
pub open spec fn replay(pending: Pending, staging: Seq<TlcKindView>) -> (Pending, nat)
    decreases staging.len(),
{
    if staging.len() == 0 {
        (pending, 0)
    } else {
        let (p, f) = replay(pending, staging.drop_last());
        let l = staging.last();
        match l {
            TlcKindView::AddTlc(a) => (put(p, a.tlc_id, a.amount), f),
            TlcKindView::RemoveTlc(r) => if has_key(p, r.tlc_id) {
                let amount = p[key_index(p, r.tlc_id)].1;
                (take(p, r.tlc_id), f + if r.reason is Fulfill { amount as nat } else { 0nat })
            } else {
                (p, f)
            },
        }
    }
}

proof fn lemma_put_unique(p: Pending, id: TLCId, amount: u128)
    requires
        unique_keys(p),
    ensures
        unique_keys(put(p, id, amount)),
{
    let q = put(p, id, amount);
    if has_key(p, id) {
        let k = key_index(p, id);
        assert forall|i: int, j: int| 0 <= i < q.len() && 0 <= j < q.len() && i != j implies (#[trigger] q[i]).0
            != (#[trigger] q[j]).0 by {
            if i == k {
                assert(p[j].0 != p[k].0);
            } else if j == k {
                assert(p[i].0 != p[k].0);
            }
        }
    } else {
        assert forall|i: int, j: int| 0 <= i < q.len() && 0 <= j < q.len() && i != j implies (#[trigger] q[i]).0
            != (#[trigger] q[j]).0 by {
            if i == p.len() {
                assert(q[j] == p[j]);
            } else if j == p.len() {
                assert(q[i] == p[i]);
            }
        }
    }
}

proof fn lemma_take_unique(p: Pending, id: TLCId)
    requires
        unique_keys(p),
    ensures
        unique_keys(take(p, id)),
{
    if has_key(p, id) {
        let k = key_index(p, id);
        let q = p.remove(k);
        assert forall|i: int, j: int| 0 <= i < q.len() && 0 <= j < q.len() && i != j implies (#[trigger] q[i]).0
            != (#[trigger] q[j]).0 by {
            let a = if i < k { i } else { i + 1 };
            let b = if j < k { j } else { j + 1 };
            assert(q[i] == p[a] && q[j] == p[b]);
        }
    }
}

/// The position of `id` in `p`, if present.
fn find_key(p: &Vec<(TLCId, u128)>, id: TLCId) -> (r: Option<usize>)
    requires
        unique_keys(p@),
    ensures
        r is Some <==> has_key(p@, id),
        r is Some ==> r.unwrap() == key_index(p@, id),
{
    let mut i: usize = 0;
    while i < p.len()
        invariant
            i <= p@.len(),
            unique_keys(p@),
            forall|j: int| 0 <= j < i ==> (#[trigger] p@[j]).0 != id,
        decreases p@.len() - i,
    {
        if p[i].0 == id {
            proof {
                assert(p@[i as int].0 == id);
                assert(has_key(p@, id));
                let k = key_index(p@, id);
                if k != i {
                    assert(p@[k].0 != p@[i as int].0);
                }
            }
            return Some(i);
        }
        i = i + 1;
    }
    None
}

fn put_exec(p: &mut Vec<(TLCId, u128)>, id: TLCId, amount: u128)
    requires
        unique_keys(old(p)@),
    ensures
        final(p)@ == put(old(p)@, id, amount),
        unique_keys(final(p)@),
{
    proof {
        lemma_put_unique(p@, id, amount);
    }
    match find_key(p, id) {
        Some(i) => {
            p.set(i, (id, amount));
        },
        None => {
            p.push((id, amount));
        },
    }
}

/// The amount of the TLCs resolved by fulfills among `staging`, replayed
/// over the live adds of one direction (`offered`) in `committed`; `None`
/// when the total overflows.
pub fn pending_fulfilled_amount(committed: &[TlcKind], staging: &[TlcKind], offered: bool) -> (r: Option<u128>)
    ensures
        ({
            let (_, total) = replay(committed_pending(views(committed@), offered), views(staging@));
            r == if total > u128::MAX { None::<u128> } else { Some(total as u128) }
        }),
{
    let ghost c = views(committed@);
    let mut pending: Vec<(TLCId, u128)> = Vec::new();
    let mut i: usize = 0;
    proof {
        assert(c.subrange(0, 0) =~= Seq::<TlcKindView>::empty());
        assert(pending@ =~= committed_pending(c.subrange(0, 0), offered));
    }
    while i < committed.len()
        invariant
            i <= committed@.len(),
            c == views(committed@),
            pending@ == committed_pending(c.subrange(0, i as int), offered),
            unique_keys(pending@),
        decreases committed@.len() - i,
    {
        proof {
            assert(c.subrange(0, i + 1).drop_last() =~= c.subrange(0, i as int));
            assert(c.subrange(0, i + 1).last() == committed@[i as int]@);
        }
        match &committed[i] {
            TlcKind::AddTlc(info) => {
                if info.removed_at.is_none() && info.tlc_id.is_offered() == offered {
                    put_exec(&mut pending, info.tlc_id, info.amount);
                }
            },
            _ => {},
        }
        i = i + 1;
    }
    proof {
        assert(c.subrange(0, c.len() as int) =~= c);
    }
    let ghost start = pending@;
    let ghost st = views(staging@);
    let mut fulfilled: Option<u128> = Some(0);
    let mut k: usize = 0;
    proof {
        assert(st.subrange(0, 0) =~= Seq::<TlcKindView>::empty());
    }
    while k < staging.len()
        invariant
            k <= staging@.len(),
            st == views(staging@),
            pending@ == replay(start, st.subrange(0, k as int)).0,
            fulfilled == if replay(start, st.subrange(0, k as int)).1 > u128::MAX {
                None::<u128>
            } else {
                Some(replay(start, st.subrange(0, k as int)).1 as u128)
            },
            unique_keys(pending@),
        decreases staging@.len() - k,
    {
        proof {
            assert(st.subrange(0, k + 1).drop_last() =~= st.subrange(0, k as int));
            assert(st.subrange(0, k + 1).last() == staging@[k as int]@);
        }
        match &staging[k] {
            TlcKind::AddTlc(info) => {
                put_exec(&mut pending, info.tlc_id, info.amount);
            },
            TlcKind::RemoveTlc(remove) => {
                match find_key(&pending, remove.tlc_id) {
                    Some(idx) => {
                        let amount = pending[idx].1;
                        proof {
                            lemma_take_unique(pending@, remove.tlc_id);
                        }
                        pending.remove(idx);
                        let is_fulfill = match &remove.reason {
                            crate::tlc::RemoveTlcReason::RemoveTlcFulfill(_) => true,
                            _ => false,
                        };
                        if is_fulfill {
                            fulfilled = match fulfilled {
                                Some(f) => f.checked_add(amount),
                                None => None,
                            };
                        }
                    },
                    None => {},
                }
            },
        }
        k = k + 1;
    }
    proof {
        assert(st.subrange(0, st.len() as int) =~= st);
    }
    fulfilled
}

} // verus!
