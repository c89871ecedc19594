use vstd::prelude::*;

verus! {

/// A 32-byte hash value (channel ids, payment hashes, preimages).
pub type Hash256 = [u8; 32];

/// The number every commitment counter starts from.
pub const INITIAL_COMMITMENT_NUMBER: u64 = 0;

/// The pair of commitment counters of a channel: `local` numbers the next
/// commitment we produce for the remote's signature, `remote` mirrors it.
#[derive(Copy, Clone, Debug, PartialEq, Eq, Structural)]
pub struct CommitmentNumbers {
    pub local: u64,
    pub remote: u64,
}

impl CommitmentNumbers {
    pub fn new() -> (r: Self)
        ensures
            r.local == INITIAL_COMMITMENT_NUMBER,
            r.remote == INITIAL_COMMITMENT_NUMBER,
    {
        CommitmentNumbers { local: INITIAL_COMMITMENT_NUMBER, remote: INITIAL_COMMITMENT_NUMBER }
    }

    pub fn get_local(&self) -> (r: u64)
        ensures
            r == self.local,
    {
        self.local
    }

    pub fn get_remote(&self) -> (r: u64)
        ensures
            r == self.remote,
    {
        self.remote
    }

    pub fn increment_local(&mut self)
        requires
            old(self).local < u64::MAX,
        ensures
            final(self).local == old(self).local + 1,
            final(self).remote == old(self).remote,
    {
        self.local = self.local + 1;
    }

    pub fn increment_remote(&mut self)
        requires
            old(self).remote < u64::MAX,
        ensures
            final(self).remote == old(self).remote + 1,
            final(self).local == old(self).local,
    {
        self.remote = self.remote + 1;
    }

    /// The same pair seen from the counterparty.
    pub fn flip(&self) -> (r: Self)
        ensures
            r.local == self.remote,
            r.remote == self.local,
    {
        CommitmentNumbers { local: self.remote, remote: self.local }
    }
}

/// A directional TLC id: `Offered` by us, or `Received` from the peer.
/// Ids count from 0 in each direction.
#[derive(Copy, Clone, Debug, PartialEq, Eq, Structural, PartialOrd, Ord, Hash)]
pub enum TLCId {
    Offered(u64),
    Received(u64),
}

impl TLCId {
    pub open spec fn spec_number(self) -> u64 {
        match self {
            TLCId::Offered(n) => n,
            TLCId::Received(n) => n,
        }
    }

    pub open spec fn spec_flip(self) -> TLCId {
        match self {
            TLCId::Offered(n) => TLCId::Received(n),
            TLCId::Received(n) => TLCId::Offered(n),
        }
    }

    pub fn is_offered(&self) -> (r: bool)
        ensures
            r == self is Offered,
    {
        match self {
            TLCId::Offered(_) => true,
            TLCId::Received(_) => false,
        }
    }

    pub fn is_received(&self) -> (r: bool)
        ensures
            r == self is Received,
    {
        !self.is_offered()
    }

    /// The numeric part of the id, whatever its direction.
    pub fn number(&self) -> (r: u64)
        ensures
            r == self.spec_number(),
    {
        match self {
            TLCId::Offered(n) => *n,
            TLCId::Received(n) => *n,
        }
    }

    /// The same TLC as the counterparty names it.
    pub fn flip(&self) -> (r: Self)
        ensures
            r == self.spec_flip(),
    {
        match self {
            TLCId::Offered(n) => TLCId::Received(*n),
            TLCId::Received(n) => TLCId::Offered(*n),
        }
    }

    pub fn flip_mut(&mut self)
        ensures
            *final(self) == old(self).spec_flip(),
    {
        *self = self.flip();
    }
}


/// The hash function under which a TLC's preimage is checked.
#[derive(Copy, Clone, Debug, PartialEq, Eq, Structural)]
pub enum HashAlgorithm {
    CkbHash,
    Sha256,
}

impl HashAlgorithm {
    pub open spec fn spec_code(self) -> u8 {
        match self {
            HashAlgorithm::CkbHash => 0u8,
            HashAlgorithm::Sha256 => 1u8,
        }
    }

    /// The algorithm's code in the commitment-lock encoding.
    pub fn code(&self) -> (r: u8)
        ensures
            r == self.spec_code(),
    {
        match self {
            HashAlgorithm::CkbHash => 0u8,
            HashAlgorithm::Sha256 => 1u8,
        }
    }
}

/// Fulfilling a TLC: the preimage of its payment hash.
#[derive(Copy, Clone, Debug)]
pub struct RemoveTlcFulfill {
    pub payment_preimage: Hash256,
}

/// An onion-encrypted failure, peeled one layer by each upstream hop.
#[derive(Debug)]
pub struct TlcErrPacket {
    pub onion_packet: Vec<u8>,
}

/// Why a TLC is resolved.
#[derive(Debug)]
pub enum RemoveTlcReason {
    RemoveTlcFulfill(RemoveTlcFulfill),
    RemoveTlcFail(TlcErrPacket),
}

/// The mathematical value of a [`RemoveTlcReason`].
pub enum RemoveReasonView {
    Fulfill(Hash256),
    Fail(Seq<u8>),
}

impl View for RemoveTlcReason {
    type V = RemoveReasonView;

    open spec fn view(&self) -> RemoveReasonView {
        match self {
            RemoveTlcReason::RemoveTlcFulfill(f) => RemoveReasonView::Fulfill(f.payment_preimage),
            RemoveTlcReason::RemoveTlcFail(p) => RemoveReasonView::Fail(p.onion_packet@),
        }
    }
}

impl Clone for RemoveTlcReason {
    fn clone(&self) -> (r: Self)
        ensures
            r@ == self@,
    {
        match self {
            RemoveTlcReason::RemoveTlcFulfill(f) => RemoveTlcReason::RemoveTlcFulfill(*f),
            RemoveTlcReason::RemoveTlcFail(p) => {
                let packet = p.onion_packet.clone();
                proof {
                    assert(packet@ =~= p.onion_packet@);
                }
                RemoveTlcReason::RemoveTlcFail(TlcErrPacket { onion_packet: packet })
            },
        }
    }
}

/// Whether two byte strings are equal.
pub fn bytes_equal(a: &[u8], b: &[u8]) -> (r: bool)
    ensures
        r == (a@ == b@),
{
    if a.len() != b.len() {
        return false;
    }
    let mut i: usize = 0;
    while i < a.len()
        invariant
            a@.len() == b@.len(),
            i <= a@.len(),
            forall|j: int| 0 <= j < i ==> a@[j] == b@[j],
        decreases a@.len() - i,
    {
        if a[i] != b[i] {
            return false;
        }
        i = i + 1;
    }
    proof {
        assert(a@ =~= b@);
    }
    true
}

/// Whether two 32-byte hashes are equal.
pub fn hash_equal(a: &Hash256, b: &Hash256) -> (r: bool)
    ensures
        r == (*a == *b),
        r == (a@ == b@),
{
    let r = bytes_equal(a.as_slice(), b.as_slice());
    proof {
        if a@ == b@ {
            vstd::array::axiom_array_ext_equal(*a, *b);
        }
    }
    r
}

impl RemoveTlcReason {
    pub open spec fn spec_is_fulfill(&self) -> bool {
        self is RemoveTlcFulfill
    }

    /// Whether two reasons are the same resolution.
    pub fn same_as(&self, other: &RemoveTlcReason) -> (r: bool)
        ensures
            r == (self@ == other@),
    {
        match (self, other) {
            (RemoveTlcReason::RemoveTlcFulfill(a), RemoveTlcReason::RemoveTlcFulfill(b)) => {
                hash_equal(&a.payment_preimage, &b.payment_preimage)
            },
            (RemoveTlcReason::RemoveTlcFail(a), RemoveTlcReason::RemoveTlcFail(b)) => {
                bytes_equal(a.onion_packet.as_slice(), b.onion_packet.as_slice())
            },
            _ => false,
        }
    }
}


/// A directional in-flight TLC.
#[derive(Debug)]
pub struct AddTlcInfo {
    pub channel_id: Hash256,
    pub tlc_id: TLCId,
    pub amount: u128,
    pub payment_hash: Hash256,
    /// Absolute expiry, in milliseconds.
    pub expiry: u64,
    pub hash_algorithm: HashAlgorithm,
    /// The onion packet for the next hop of a multi-hop payment.
    pub onion_packet: Option<Vec<u8>>,
    /// Secret used to obfuscate errors sent back upstream; zero on inbound TLCs.
    pub shared_secret: Hash256,
    pub created_at: CommitmentNumbers,
    pub removed_at: Option<(CommitmentNumbers, RemoveTlcReason)>,
    pub payment_preimage: Option<Hash256>,
    /// The upstream hop of a forwarded payment.
    pub previous_tlc: Option<(Hash256, TLCId)>,
}

/// The mathematical value of an [`AddTlcInfo`].
pub struct AddTlcView {
    pub channel_id: Hash256,
    pub tlc_id: TLCId,
    pub amount: u128,
    pub payment_hash: Hash256,
    pub expiry: u64,
    pub hash_algorithm: HashAlgorithm,
    pub onion_packet: Option<Seq<u8>>,
    pub shared_secret: Hash256,
    pub created_at: CommitmentNumbers,
    pub removed_at: Option<(CommitmentNumbers, RemoveReasonView)>,
    pub payment_preimage: Option<Hash256>,
    pub previous_tlc: Option<(Hash256, TLCId)>,
}

impl View for AddTlcInfo {
    type V = AddTlcView;

    open spec fn view(&self) -> AddTlcView {
        AddTlcView {
            channel_id: self.channel_id,
            tlc_id: self.tlc_id,
            amount: self.amount,
            payment_hash: self.payment_hash,
            expiry: self.expiry,
            hash_algorithm: self.hash_algorithm,
            onion_packet: match self.onion_packet {
                Some(p) => Some(p@),
                None => None,
            },
            shared_secret: self.shared_secret,
            created_at: self.created_at,
            removed_at: match self.removed_at {
                Some((at, reason)) => Some((at, reason@)),
                None => None,
            },
            payment_preimage: self.payment_preimage,
            previous_tlc: self.previous_tlc,
        }
    }
}

impl Clone for AddTlcInfo {
    fn clone(&self) -> (r: Self)
        ensures
            r@ == self@,
    {
        let onion_packet = match &self.onion_packet {
            Some(p) => {
                let q = p.clone();
                proof {
                    assert(q@ =~= p@);
                }
                Some(q)
            },
            None => None,
        };
        let removed_at = match &self.removed_at {
            Some((at, reason)) => Some((*at, reason.clone())),
            None => None,
        };
        AddTlcInfo {
            channel_id: self.channel_id,
            tlc_id: self.tlc_id,
            amount: self.amount,
            payment_hash: self.payment_hash,
            expiry: self.expiry,
            hash_algorithm: self.hash_algorithm,
            onion_packet,
            shared_secret: self.shared_secret,
            created_at: self.created_at,
            removed_at,
            payment_preimage: self.payment_preimage,
            previous_tlc: self.previous_tlc,
        }
    }
}

/// The `htlc_type` byte of the commitment-lock encoding: the low bit is 0
/// when the TLC is offered, 1 when received; the bits above hold the hash
/// algorithm's code.
pub open spec fn htlc_type_of(tlc_id: TLCId, algorithm: HashAlgorithm) -> u8 {
    (2 * algorithm.spec_code() + (if tlc_id is Offered { 0u8 } else { 1u8 })) as u8
}

impl AddTlcInfo {
    pub fn is_offered(&self) -> (r: bool)
        ensures
            r == self.tlc_id is Offered,
    {
        self.tlc_id.is_offered()
    }

    pub fn is_received(&self) -> (r: bool)
        ensures
            r == self.tlc_id is Received,
    {
        !self.is_offered()
    }

    pub fn get_commitment_numbers(&self) -> (r: CommitmentNumbers)
        ensures
            r == self.created_at,
    {
        self.created_at
    }

    /// Rename the TLC as the counterparty sees it; nothing else changes.
    pub fn flip_mut(&mut self)
        ensures
            final(self)@ == (AddTlcView { tlc_id: old(self).tlc_id.spec_flip(), ..old(self)@ }),
    {
        self.tlc_id.flip_mut();
    }

    /// The value of the `htlc_type` field in the commitment-lock encoding.
    pub fn get_htlc_type(&self) -> (r: u8)
        ensures
            r == htlc_type_of(self.tlc_id, self.hash_algorithm),
    {
        Self::htlc_type_byte(self.tlc_id, self.hash_algorithm)
    }

    /// The `htlc_type` byte of a TLC with this id and hash algorithm.
    pub fn htlc_type_byte(tlc_id: TLCId, hash_algorithm: HashAlgorithm) -> (r: u8)
        ensures
            r == htlc_type_of(tlc_id, hash_algorithm),
    {
        let offered_flag: u8 = if tlc_id.is_offered() {
            0u8
        } else {
            1u8
        };
        2 * hash_algorithm.code() + offered_flag
    }

    /// The first 20 bytes of the payment hash.
    pub fn get_hash(&self) -> (r: [u8; 20])
        ensures
            r@ == self.payment_hash@.subrange(0, 20),
    {
        let mut r = [0u8; 20];
        let mut i: usize = 0;
        while i < 20
            invariant
                i <= 20,
                forall|j: int| 0 <= j < i ==> r@[j] == self.payment_hash@[j],
            decreases 20 - i,
        {
            r[i] = self.payment_hash[i];
            i = i + 1;
        }
        proof {
            assert(r@ =~= self.payment_hash@.subrange(0, 20));
        }
        r
    }
}

/// The resolution of a TLC, as queued in a pending list.
#[derive(Debug)]
pub struct RemoveTlcInfo {
    pub channel_id: Hash256,
    pub tlc_id: TLCId,
    pub reason: RemoveTlcReason,
}

/// The mathematical value of a [`RemoveTlcInfo`].
pub struct RemoveTlcView {
    pub channel_id: Hash256,
    pub tlc_id: TLCId,
    pub reason: RemoveReasonView,
}

impl View for RemoveTlcInfo {
    type V = RemoveTlcView;

    open spec fn view(&self) -> RemoveTlcView {
        RemoveTlcView { channel_id: self.channel_id, tlc_id: self.tlc_id, reason: self.reason@ }
    }
}

impl Clone for RemoveTlcInfo {
    fn clone(&self) -> (r: Self)
        ensures
            r@ == self@,
    {
        RemoveTlcInfo { channel_id: self.channel_id, tlc_id: self.tlc_id, reason: self.reason.clone() }
    }
}

/// One operation of a pending TLC list.
#[derive(Debug)]
pub enum TlcKind {
    AddTlc(AddTlcInfo),
    RemoveTlc(RemoveTlcInfo),
}

/// The mathematical value of a [`TlcKind`].
pub enum TlcKindView {
    AddTlc(AddTlcView),
    RemoveTlc(RemoveTlcView),
}

impl TlcKindView {
    pub open spec fn tlc_id(self) -> TLCId {
        match self {
            TlcKindView::AddTlc(a) => a.tlc_id,
            TlcKindView::RemoveTlc(r) => r.tlc_id,
        }
    }

    /// Whether both are operations of one kind on one TLC.
    pub open spec fn same_operation(self, other: TlcKindView) -> bool {
        &&& (self is AddTlc) == (other is AddTlc)
        &&& self.tlc_id() == other.tlc_id()
    }

    /// An `AddTlc` that has not been marked removed.
    pub open spec fn is_live_add(self) -> bool {
        self is AddTlc && self->AddTlc_0.removed_at is None
    }
}

impl View for TlcKind {
    type V = TlcKindView;

    open spec fn view(&self) -> TlcKindView {
        match self {
            TlcKind::AddTlc(a) => TlcKindView::AddTlc(a@),
            TlcKind::RemoveTlc(r) => TlcKindView::RemoveTlc(r@),
        }
    }
}

impl Clone for TlcKind {
    fn clone(&self) -> (r: Self)
        ensures
            r@ == self@,
    {
        match self {
            TlcKind::AddTlc(a) => TlcKind::AddTlc(a.clone()),
            TlcKind::RemoveTlc(r) => TlcKind::RemoveTlc(r.clone()),
        }
    }
}

impl TlcKind {
    /// A short description of the operation: the id of an add (as
    /// `Offered(1)`), or `RemoveTlc(` and the id and `)` for a remove.
    pub fn log(&self) -> (r: String)
        ensures
            r@ == match self {
                TlcKind::AddTlc(a) => tlc_id_text(a.tlc_id),
                TlcKind::RemoveTlc(rm) => "RemoveTlc("@ + tlc_id_text(rm.tlc_id) + ")"@,
            },
    {
        match self {
            TlcKind::AddTlc(a) => {
                let mut out = String::new();
                push_tlc_id(&mut out, a.tlc_id);
                proof {
                    assert(out@ =~= tlc_id_text(a.tlc_id));
                }
                out
            },
            TlcKind::RemoveTlc(rm) => {
                proof {
                    reveal_strlit("RemoveTlc(");
                    reveal_strlit(")");
                }
                let mut out = String::from_str("RemoveTlc(");
                push_tlc_id(&mut out, rm.tlc_id);
                out.append(")");
                out
            },
        }
    }

    pub fn tlc_id(&self) -> (r: TLCId)
        ensures
            r == self@.tlc_id(),
    {
        match self {
            TlcKind::AddTlc(info) => info.tlc_id,
            TlcKind::RemoveTlc(info) => info.tlc_id,
        }
    }

    pub fn tlc_id_u64(&self) -> (r: u64)
        ensures
            r == self@.tlc_id().spec_number(),
    {
        self.tlc_id().number()
    }

    pub fn is_offered(&self) -> (r: bool)
        ensures
            r == self@.tlc_id() is Offered,
    {
        self.tlc_id().is_offered()
    }

    pub fn is_received(&self) -> (r: bool)
        ensures
            r == self@.tlc_id() is Received,
    {
        !self.is_offered()
    }
}

/// A remove that could not be sent yet and is retried later.
#[derive(Debug)]
pub enum RetryableRemoveTlc {
    RemoveTlc(TLCId, RemoveTlcReason),
    RelayRemoveTlc(Hash256, u64, RemoveTlcReason),
}

/// The mathematical value of a [`RetryableRemoveTlc`].
pub enum RetryableView {
    RemoveTlc(TLCId, RemoveReasonView),
    RelayRemoveTlc(Hash256, u64, RemoveReasonView),
}

impl View for RetryableRemoveTlc {
    type V = RetryableView;

    open spec fn view(&self) -> RetryableView {
        match self {
            RetryableRemoveTlc::RemoveTlc(id, reason) => RetryableView::RemoveTlc(*id, reason@),
            RetryableRemoveTlc::RelayRemoveTlc(c, id, reason) => RetryableView::RelayRemoveTlc(
                *c,
                *id,
                reason@,
            ),
        }
    }
}

impl Clone for RetryableRemoveTlc {
    fn clone(&self) -> (r: Self)
        ensures
            r@ == self@,
    {
        match self {
            RetryableRemoveTlc::RemoveTlc(id, reason) => RetryableRemoveTlc::RemoveTlc(
                *id,
                reason.clone(),
            ),
            RetryableRemoveTlc::RelayRemoveTlc(c, id, reason) => RetryableRemoveTlc::RelayRemoveTlc(
                *c,
                *id,
                reason.clone(),
            ),
        }
    }
}

impl RetryableRemoveTlc {
    /// Whether two queue entries are the same.
    pub fn same_as(&self, other: &RetryableRemoveTlc) -> (r: bool)
        ensures
            r == (self@ == other@),
    {
        match (self, other) {
            (RetryableRemoveTlc::RemoveTlc(i1, r1), RetryableRemoveTlc::RemoveTlc(i2, r2)) => {
                *i1 == *i2 && r1.same_as(r2)
            },
            (
                RetryableRemoveTlc::RelayRemoveTlc(c1, i1, r1),
                RetryableRemoveTlc::RelayRemoveTlc(c2, i2, r2),
            ) => hash_equal(c1, c2) && *i1 == *i2 && r1.same_as(r2),
            _ => false,
        }
    }
}


/// The decimal digit `d` (below ten) as a character.
pub open spec fn digit_char(d: nat) -> char {
    if d == 0 { '0' } else if d == 1 { '1' } else if d == 2 { '2' } else if d == 3 { '3' } else if d == 4 { '4' }
    else if d == 5 { '5' } else if d == 6 { '6' } else if d == 7 { '7' } else if d == 8 { '8' } else { '9' }
}

/// The decimal digits of `n`, most significant first.
pub open spec fn decimal(n: nat) -> Seq<char>
    decreases n,
{
    if n < 10 {
        seq![digit_char(n)]
    } else {
        decimal(n / 10).push(digit_char(n % 10))
    }
}

/// A TLC id as text: `Offered(n)` or `Received(n)`.
pub open spec fn tlc_id_text(id: TLCId) -> Seq<char> {
    match id {
        TLCId::Offered(n) => "Offered("@ + decimal(n as nat) + ")"@,
        TLCId::Received(n) => "Received("@ + decimal(n as nat) + ")"@,
    }
}

fn push_digit(out: &mut String, d: u64)
    requires
        d < 10,
    ensures
        final(out)@ == old(out)@.push(digit_char(d as nat)),
{
    proof {
        reveal_strlit("0");
        reveal_strlit("1");
        reveal_strlit("2");
        reveal_strlit("3");
        reveal_strlit("4");
        reveal_strlit("5");
        reveal_strlit("6");
        reveal_strlit("7");
        reveal_strlit("8");
        reveal_strlit("9");
    }
    let ghost before = out@;
    if d == 0 {
        out.append("0");
    } else if d == 1 {
        out.append("1");
    } else if d == 2 {
        out.append("2");
    } else if d == 3 {
        out.append("3");
    } else if d == 4 {
        out.append("4");
    } else if d == 5 {
        out.append("5");
    } else if d == 6 {
        out.append("6");
    } else if d == 7 {
        out.append("7");
    } else if d == 8 {
        out.append("8");
    } else {
        out.append("9");
    }
    proof {
        assert(out@ =~= before.push(digit_char(d as nat)));
    }
}

/// Append the decimal digits of `n`.
fn push_decimal(out: &mut String, n: u64)
    ensures
        final(out)@ == old(out)@ + decimal(n as nat),
    decreases n,
{
    let ghost before = out@;
    if n >= 10 {
        push_decimal(out, n / 10);
    }
    push_digit(out, n % 10);
    proof {
        if n >= 10 {
            assert(out@ =~= before + decimal(n as nat));
        } else {
            assert(out@ =~= before + decimal(n as nat));
        }
    }
}

/// Append a TLC id as text.
fn push_tlc_id(out: &mut String, id: TLCId)
    ensures
        final(out)@ == old(out)@ + tlc_id_text(id),
{
    let ghost before = out@;
    proof {
        reveal_strlit("Offered(");
        reveal_strlit("Received(");
        reveal_strlit(")");
    }
    match id {
        TLCId::Offered(n) => {
            out.append("Offered(");
            push_decimal(out, n);
            out.append(")");
        },
        TLCId::Received(n) => {
            out.append("Received(");
            push_decimal(out, n);
            out.append(")");
        },
    }
    proof {
        assert(out@ =~= before + tlc_id_text(id));
    }
}

} // verus!
