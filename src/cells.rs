use vstd::prelude::*;
use ckb_types::packed::{CellOutput, Script, ScriptOpt, Uint64};
use ckb_types::prelude::{Builder, Entity, Pack};
use crate::encoding::{le_bytes, push_bytes, push_int_bytes};

verus! {

/// The serialised cell output of `capacity` under the lock script `lock`
/// (serialised) with the optional type script (serialised); `None` when a
/// script does not decode.
pub uninterp spec fn ckb_cell_output(capacity: u64, lock: Seq<u8>, type_script: Option<Seq<u8>>) -> Option<Seq<u8>>;

/// The view of an optional byte vector.
pub open spec fn opt_seq(v: Option<Vec<u8>>) -> Option<Seq<u8>> {
    match v {
        Some(b) => Some(b@),
        None => None,
    }
}

/// Relies on ckb_types' CellOutput builder (after Script::from_slice) and
/// Entity::as_slice: the serialised output.
#[verifier::external_body]
fn cell_output_bytes(capacity: u64, lock: &[u8], type_script: &Option<Vec<u8>>) -> (r: Option<Vec<u8>>)
    ensures
        opt_seq(r) == ckb_cell_output(capacity, lock@, opt_seq(*type_script)),
{
    let lock = Script::from_slice(lock).ok()?;
    let type_ = match type_script {
        Some(t) => Some(Script::from_slice(t).ok()?),
        None => None,
    };
    let capacity: Uint64 = capacity.pack();
    let type_: ScriptOpt = type_.pack();
    let output = CellOutput::new_builder().capacity(capacity).lock(lock).type_(type_).build();
    Some(output.as_slice().to_vec())
}

/// The serialised `Bytes` field of cell data: the length (4 bytes, low
/// first), then the bytes.
pub open spec fn packed_bytes(data: Seq<u8>) -> Seq<u8> {
    le_bytes(data.len() as u128, 4) + data
}

/// Serialise cell data as a `Bytes` field.
pub fn pack_bytes(data: &[u8]) -> (r: Vec<u8>)
    requires
        data@.len() <= u32::MAX,
    ensures
        r@ == packed_bytes(data@),
{
    let mut out: Vec<u8> = Vec::new();
    push_int_bytes(&mut out, data.len() as u128, 4, false);
    push_bytes(&mut out, data);
    proof {
        assert(out@ =~= packed_bytes(data@));
    }
    out
}

/// A cell output followed by its data, serialised: the output of
/// `capacity` under `lock` (with the token type script when there is one)
/// and, with a token, the token `amount` (16 bytes, low first) as data,
/// else empty data. `None` when a script does not decode.
pub open spec fn spec_output_with_data(
    capacity: u64,
    lock: Seq<u8>,
    udt: Option<Seq<u8>>,
    amount: u128,
) -> Option<Seq<u8>> {
    match ckb_cell_output(capacity, lock, udt) {
        Some(o) => Some(o + packed_bytes(if udt is Some { le_bytes(amount, 16) } else { Seq::empty() })),
        None => None,
    }
}

/// Serialise a cell output with its data (see `spec_output_with_data`).
pub fn output_with_data(capacity: u64, lock: &[u8], udt: &Option<Vec<u8>>, amount: u128) -> (r: Option<Vec<u8>>)
    ensures
        opt_seq(r) == spec_output_with_data(capacity, lock@, opt_seq(*udt), amount),
{
    let mut out = match cell_output_bytes(capacity, lock, udt) {
        Some(o) => o,
        None => {
            return None;
        },
    };
    let mut data: Vec<u8> = Vec::new();
    if udt.is_some() {
        push_int_bytes(&mut data, amount, 16, false);
    }
    proof {
        if udt.is_none() {
            assert(data@ =~= Seq::<u8>::empty());
        } else {
            assert(data@ =~= Seq::<u8>::empty() + le_bytes(amount, 16));
        }
    }
    let packed = pack_bytes(data.as_slice());
    let ghost o = out@;
    push_bytes(&mut out, packed.as_slice());
    proof {
        assert(out@ =~= o + packed_bytes(data@));
    }
    Some(out)
}

} // verus!
