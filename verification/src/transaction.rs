//! Transaction primitives: the legacy (non-witness) wire format, its
//! serializer and deserializer, and a fluent builder.
//!
//! Element counts and script lengths are framed with the CompactSize varint
//! codec; every fixed-width integer is little-endian.

pub mod sighash;

use crate::error::ParseField;
use crate::error::SdkError;
use crate::script::templates::P2pkhTemplate;
use crate::script::Script;
use crate::util::read_varint;
use crate::util::spec_varint;
use crate::util::spec_varint_read;
use crate::util::write_varint;
use vstd::bytes::*;
use vstd::prelude::*;
use vstd::slice::slice_subrange;
use vstd::slice::slice_to_vec;

verus! {

/// A reference to an output of a prior transaction: a 32-byte transaction
/// hash (an opaque blob, no byte-order interpretation) and an output index.
#[derive(Debug, Default, Clone, PartialEq)]
pub struct OutPoint {
    pub txid: [u8; 32],
    pub vout: u32,
}

/// A transaction input.
#[derive(Debug, Default, Clone, PartialEq)]
pub struct TxIn {
    pub prevout: OutPoint,
    pub script_sig: Vec<u8>,
    pub sequence: u32,
}

/// A transaction output.
#[derive(Debug, Default, Clone, PartialEq)]
pub struct TxOut {
    pub value: u64,
    pub script_pubkey: Vec<u8>,
}

/// A transaction: version, inputs, outputs, locktime.
#[derive(Debug, Default, Clone, PartialEq)]
pub struct Transaction {
    pub version: i32,
    pub vin: Vec<TxIn>,
    pub vout: Vec<TxOut>,
    pub locktime: u32,
}

/// The mathematical model of an `OutPoint`.
pub struct OutPointV {
    pub txid: Seq<u8>,
    pub vout: u32,
}

/// The mathematical model of a `TxIn`.
pub struct TxInV {
    pub prevout: OutPointV,
    pub script_sig: Seq<u8>,
    pub sequence: u32,
}

/// The mathematical model of a `TxOut`.
pub struct TxOutV {
    pub value: u64,
    pub script_pubkey: Seq<u8>,
}

/// The mathematical model of a `Transaction`.
pub struct TxV {
    pub version: i32,
    pub vin: Seq<TxInV>,
    pub vout: Seq<TxOutV>,
    pub locktime: u32,
}

impl View for OutPoint {
    type V = OutPointV;

    open spec fn view(&self) -> OutPointV {
        OutPointV { txid: self.txid@, vout: self.vout }
    }
}

impl View for TxIn {
    type V = TxInV;

    open spec fn view(&self) -> TxInV {
        TxInV { prevout: self.prevout@, script_sig: self.script_sig@, sequence: self.sequence }
    }
}

impl View for TxOut {
    type V = TxOutV;

    open spec fn view(&self) -> TxOutV {
        TxOutV { value: self.value, script_pubkey: self.script_pubkey@ }
    }
}

impl View for Transaction {
    type V = TxV;

    open spec fn view(&self) -> TxV {
        TxV {
            version: self.version,
            vin: self.vin@.map_values(|t: TxIn| t@),
            vout: self.vout@.map_values(|t: TxOut| t@),
            locktime: self.locktime,
        }
    }
}

/// A model transaction that an in-memory `Transaction` can actually hold:
/// 32-byte prevout hashes and representable element counts and script
/// lengths.
pub open spec fn spec_txin_wf(t: TxInV) -> bool {
    t.prevout.txid.len() == 32 && t.script_sig.len() <= u64::MAX
}

pub open spec fn spec_txout_wf(t: TxOutV) -> bool {
    t.script_pubkey.len() <= u64::MAX
}

pub open spec fn spec_tx_wf(t: TxV) -> bool {
    &&& t.vin.len() <= u64::MAX
    &&& t.vout.len() <= u64::MAX
    &&& forall|i: int| 0 <= i < t.vin.len() ==> spec_txin_wf(#[trigger] t.vin[i])
    &&& forall|i: int| 0 <= i < t.vout.len() ==> spec_txout_wf(#[trigger] t.vout[i])
}

/// The two's-complement bit pattern of a version number.
pub open spec fn spec_version_bits(v: i32) -> u32 {
    if v >= 0 {
        v as u32
    } else {
        (v + 0x1_0000_0000) as u32
    }
}

/// The version number denoted by a two's-complement bit pattern.
pub open spec fn spec_bits_version(b: u32) -> i32 {
    if b < 0x8000_0000 {
        b as i32
    } else {
        (b - 0x1_0000_0000) as i32
    }
}

// ---------------------------------------------------------------------------
// Wire-format model: serialization
// ---------------------------------------------------------------------------

pub open spec fn spec_ser_outpoint(p: OutPointV) -> Seq<u8> {
    p.txid + spec_u32_to_le_bytes(p.vout)
}

pub open spec fn spec_ser_txin(t: TxInV) -> Seq<u8> {
    spec_ser_outpoint(t.prevout) + spec_varint(t.script_sig.len() as u64) + t.script_sig
        + spec_u32_to_le_bytes(t.sequence)
}

pub open spec fn spec_ser_txins(s: Seq<TxInV>) -> Seq<u8>
    decreases s.len(),
{
    if s.len() == 0 {
        Seq::empty()
    } else {
        spec_ser_txin(s[0]) + spec_ser_txins(s.drop_first())
    }
}

pub open spec fn spec_ser_txout(t: TxOutV) -> Seq<u8> {
    spec_u64_to_le_bytes(t.value) + spec_varint(t.script_pubkey.len() as u64) + t.script_pubkey
}

pub open spec fn spec_ser_txouts(s: Seq<TxOutV>) -> Seq<u8>
    decreases s.len(),
{
    if s.len() == 0 {
        Seq::empty()
    } else {
        spec_ser_txout(s[0]) + spec_ser_txouts(s.drop_first())
    }
}

/// The full wire encoding of a transaction: version, varint input count,
/// inputs, varint output count, outputs, locktime.
pub open spec fn spec_ser_tx(t: TxV) -> Seq<u8> {
    spec_u32_to_le_bytes(spec_version_bits(t.version)) + spec_varint(t.vin.len() as u64)
        + spec_ser_txins(t.vin) + spec_varint(t.vout.len() as u64) + spec_ser_txouts(t.vout)
        + spec_u32_to_le_bytes(t.locktime)
}

// ---------------------------------------------------------------------------
// Wire-format model: parsing
// ---------------------------------------------------------------------------

/// The input laid out at the front of `b`, whose script-length varint took
/// `c` bytes and declared `slen` script bytes.
pub open spec fn spec_txin_at(b: Seq<u8>, c: int, slen: int) -> TxInV {
    TxInV {
        prevout: OutPointV { txid: b.take(32), vout: spec_u32_from_le_bytes(b.subrange(32, 36)) },
        script_sig: b.subrange(36 + c, 36 + c + slen),
        sequence: spec_u32_from_le_bytes(b.subrange(36 + c + slen, 36 + c + slen + 4)),
    }
}

/// Reading one input from the front of `b`: the input and the bytes
/// consumed, or the field that ran out of data.
pub open spec fn spec_parse_txin(b: Seq<u8>) -> Result<(TxInV, int), ParseField> {
    if b.len() < 32 {
        Err(ParseField::Prevout)
    } else if b.len() < 36 {
        Err(ParseField::Vout)
    } else {
        match spec_varint_read(b.skip(36)) {
            Option::None => Err(ParseField::ScriptLength),
            Option::Some((slen, c)) => {
                if slen as int > b.len() - 36 - c {
                    Err(ParseField::ScriptBytes)
                } else if b.len() - (36 + c + slen as int) < 4 {
                    Err(ParseField::Sequence)
                } else {
                    Ok((spec_txin_at(b, c, slen as int), 36 + c + slen as int + 4))
                }
            },
        }
    }
}

/// Reading `n` inputs in order from the front of `b`.
pub open spec fn spec_parse_txins(b: Seq<u8>, n: nat) -> Result<(Seq<TxInV>, int), ParseField>
    decreases n,
{
    if n == 0 {
        Ok((Seq::empty(), 0))
    } else {
        match spec_parse_txin(b) {
            Err(f) => Err(f),
            Ok((t, c)) => match spec_parse_txins(b.skip(c), (n - 1) as nat) {
                Err(f) => Err(f),
                Ok((ts, c2)) => Ok((seq![t] + ts, c + c2)),
            },
        }
    }
}

/// The output laid out at the front of `b`, whose script-length varint took
/// `c` bytes and declared `slen` script bytes.
pub open spec fn spec_txout_at(b: Seq<u8>, c: int, slen: int) -> TxOutV {
    TxOutV {
        value: spec_u64_from_le_bytes(b.take(8)),
        script_pubkey: b.subrange(8 + c, 8 + c + slen),
    }
}

/// Reading one output from the front of `b`.
pub open spec fn spec_parse_txout(b: Seq<u8>) -> Result<(TxOutV, int), ParseField> {
    if b.len() < 8 {
        Err(ParseField::Value)
    } else {
        match spec_varint_read(b.skip(8)) {
            Option::None => Err(ParseField::ScriptLength),
            Option::Some((slen, c)) => {
                if slen as int > b.len() - 8 - c {
                    Err(ParseField::ScriptBytes)
                } else {
                    Ok((spec_txout_at(b, c, slen as int), 8 + c + slen as int))
                }
            },
        }
    }
}

/// Reading `n` outputs in order from the front of `b`.
pub open spec fn spec_parse_txouts(b: Seq<u8>, n: nat) -> Result<(Seq<TxOutV>, int), ParseField>
    decreases n,
{
    if n == 0 {
        Ok((Seq::empty(), 0))
    } else {
        match spec_parse_txout(b) {
            Err(f) => Err(f),
            Ok((t, c)) => match spec_parse_txouts(b.skip(c), (n - 1) as nat) {
                Err(f) => Err(f),
                Ok((ts, c2)) => Ok((seq![t] + ts, c + c2)),
            },
        }
    }
}

/// Reading the input-count varint and then that many inputs, starting at
/// offset 4: the inputs and the bytes consumed after the version field.
pub open spec fn spec_parse_tx_vin(b: Seq<u8>) -> Result<(Seq<TxInV>, int), ParseField> {
    match spec_varint_read(b.skip(4)) {
        Option::None => Err(ParseField::InputCount),
        Option::Some((nin, c1)) => match spec_parse_txins(b.skip(4 + c1), nin as nat) {
            Err(f) => Err(f),
            Ok((vin, c2)) => Ok((vin, c1 + c2)),
        },
    }
}

/// Reading the output-count varint and then that many outputs, starting at
/// offset `pos`: the outputs and the bytes consumed.
pub open spec fn spec_parse_tx_vout(b: Seq<u8>, pos: int) -> Result<
    (Seq<TxOutV>, int),
    ParseField,
> {
    match spec_varint_read(b.skip(pos)) {
        Option::None => Err(ParseField::OutputCount),
        Option::Some((nout, c3)) => match spec_parse_txouts(b.skip(pos + c3), nout as nat) {
            Err(f) => Err(f),
            Ok((vout, c4)) => Ok((vout, c3 + c4)),
        },
    }
}

/// Reading the four locktime bytes at offset `end`.
pub open spec fn spec_parse_locktime(b: Seq<u8>, end: int) -> Result<u32, ParseField> {
    if b.len() - end < 4 {
        Err(ParseField::Locktime)
    } else {
        Ok(spec_u32_from_le_bytes(b.subrange(end, end + 4)))
    }
}

/// The last stage of parsing: the locktime, then the assembled transaction.
pub open spec fn spec_parse_tx_fin(b: Seq<u8>, vin: Seq<TxInV>, vout: Seq<TxOutV>, end: int) -> Result<
    TxV,
    ParseField,
> {
    match spec_parse_locktime(b, end) {
        Err(f) => Err(f),
        Ok(lt) => Ok(
            TxV {
                version: spec_bits_version(spec_u32_from_le_bytes(b.take(4))),
                vin: vin,
                vout: vout,
                locktime: lt,
            },
        ),
    }
}

/// The outputs and locktime stages, after the inputs end at offset `pos`.
pub open spec fn spec_parse_tx_rest(b: Seq<u8>, vin: Seq<TxInV>, pos: int) -> Result<
    TxV,
    ParseField,
> {
    match spec_parse_tx_vout(b, pos) {
        Err(f) => Err(f),
        Ok((vout, cout)) => spec_parse_tx_fin(b, vin, vout, pos + cout),
    }
}

/// The transaction denoted by a byte buffer, or the field that failed.
/// Trailing bytes beyond the encoded transaction are ignored.
pub open spec fn spec_parse_tx(b: Seq<u8>) -> Result<TxV, ParseField> {
    if b.len() < 4 {
        Err(ParseField::Version)
    } else {
        match spec_parse_tx_vin(b) {
            Err(f) => Err(f),
            Ok((vin, cin)) => spec_parse_tx_rest(b, vin, 4 + cin),
        }
    }
}

// ---------------------------------------------------------------------------
// Serialization
// ---------------------------------------------------------------------------

/// Appending one input to a serialized prefix extends it by that input's
/// encoding.
proof fn lemma_ser_txins_snoc(s: Seq<TxInV>, k: int)
    requires
        0 <= k < s.len(),
    ensures
        spec_ser_txins(s.take(k + 1)) == spec_ser_txins(s.take(k)) + spec_ser_txin(s[k]),
    decreases k,
{
    if k == 0 {
        assert(s.take(1).drop_first() =~= Seq::<TxInV>::empty());
        assert(s.take(0) =~= Seq::<TxInV>::empty());
        assert(spec_ser_txin(s[0]) + Seq::<u8>::empty() =~= spec_ser_txin(s[0]));
        assert(Seq::<u8>::empty() + spec_ser_txin(s[0]) =~= spec_ser_txin(s[0]));
    } else {
        lemma_ser_txins_snoc(s.drop_first(), k - 1);
        assert(s.take(k + 1).drop_first() =~= s.drop_first().take(k));
        assert(s.take(k).drop_first() =~= s.drop_first().take(k - 1));
        assert(s.drop_first()[k - 1] == s[k]);
        assert(spec_ser_txin(s[0]) + (spec_ser_txins(s.drop_first().take(k - 1)) + spec_ser_txin(
            s[k],
        )) =~= (spec_ser_txin(s[0]) + spec_ser_txins(s.drop_first().take(k - 1))) + spec_ser_txin(
            s[k],
        ));
    }
}

/// Appending one output to a serialized prefix extends it by that output's
/// encoding.
proof fn lemma_ser_txouts_snoc(s: Seq<TxOutV>, k: int)
    requires
        0 <= k < s.len(),
    ensures
        spec_ser_txouts(s.take(k + 1)) == spec_ser_txouts(s.take(k)) + spec_ser_txout(s[k]),
    decreases k,
{
    if k == 0 {
        assert(s.take(1).drop_first() =~= Seq::<TxOutV>::empty());
        assert(s.take(0) =~= Seq::<TxOutV>::empty());
        assert(spec_ser_txout(s[0]) + Seq::<u8>::empty() =~= spec_ser_txout(s[0]));
        assert(Seq::<u8>::empty() + spec_ser_txout(s[0]) =~= spec_ser_txout(s[0]));
    } else {
        lemma_ser_txouts_snoc(s.drop_first(), k - 1);
        assert(s.take(k + 1).drop_first() =~= s.drop_first().take(k));
        assert(s.take(k).drop_first() =~= s.drop_first().take(k - 1));
        assert(s.drop_first()[k - 1] == s[k]);
        assert(spec_ser_txout(s[0]) + (spec_ser_txouts(s.drop_first().take(k - 1)) + spec_ser_txout(
            s[k],
        )) =~= (spec_ser_txout(s[0]) + spec_ser_txouts(s.drop_first().take(k - 1)))
            + spec_ser_txout(s[k]));
    }
}

/// Appends the CompactSize encoding of `n` to `buf`.
fn put_varint(buf: &mut Vec<u8>, n: u64)
    ensures
        final(buf)@ == old(buf)@ + spec_varint(n),
{
    write_varint(n, buf);
}

/// The two's-complement bit pattern of a version number.
fn version_bits(v: i32) -> (r: u32)
    ensures
        r == spec_version_bits(v),
{
    if v >= 0 {
        v as u32
    } else {
        ((v as i64) + 0x1_0000_0000i64) as u32
    }
}

/// The version number denoted by a two's-complement bit pattern.
fn bits_version(b: u32) -> (r: i32)
    ensures
        r == spec_bits_version(b),
{
    if b < 0x8000_0000 {
        b as i32
    } else {
        ((b as i64) - 0x1_0000_0000i64) as i32
    }
}

/// Serializes a transaction into the legacy wire format.
#[verifier::loop_isolation(false)]
pub fn serialize(tx: &Transaction) -> (r: Vec<u8>)
    ensures
        r@ == spec_ser_tx(tx@),
{
    let mut buf: Vec<u8> = Vec::new();
    let vb = u32_to_le_bytes(version_bits(tx.version));
    buf.extend_from_slice(vb.as_slice());
    put_varint(&mut buf, tx.vin.len() as u64);
    let ghost head_in = buf@;
    assert(tx@.vin.len() == tx.vin@.len());
    let mut k: usize = 0;
    assert(tx@.vin.take(0) =~= Seq::<TxInV>::empty());
    assert(buf@ =~= head_in + spec_ser_txins(tx@.vin.take(0)));
    while k < tx.vin.len()
        invariant
            k <= tx.vin@.len(),
            buf@ == head_in + spec_ser_txins(tx@.vin.take(k as int)),
        decreases tx.vin@.len() - k,
    {
        let tin = &tx.vin[k];
        assert(tin@ == tx@.vin[k as int]);
        buf.extend_from_slice(tin.prevout.txid.as_slice());
        let ob = u32_to_le_bytes(tin.prevout.vout);
        buf.extend_from_slice(ob.as_slice());
        put_varint(&mut buf, tin.script_sig.len() as u64);
        buf.extend_from_slice(tin.script_sig.as_slice());
        let sb = u32_to_le_bytes(tin.sequence);
        buf.extend_from_slice(sb.as_slice());
        proof {
            lemma_ser_txins_snoc(tx@.vin, k as int);
            assert(buf@ =~= head_in + spec_ser_txins(tx@.vin.take(k as int + 1)));
        }
        k = k + 1;
    }
    assert(tx@.vin.take(tx.vin@.len() as int) =~= tx@.vin);
    put_varint(&mut buf, tx.vout.len() as u64);
    let ghost head_out = buf@;
    let mut k2: usize = 0;
    assert(tx@.vout.take(0) =~= Seq::<TxOutV>::empty());
    assert(buf@ =~= head_out + spec_ser_txouts(tx@.vout.take(0)));
    while k2 < tx.vout.len()
        invariant
            k2 <= tx.vout@.len(),
            buf@ == head_out + spec_ser_txouts(tx@.vout.take(k2 as int)),
        decreases tx.vout@.len() - k2,
    {
        let tout = &tx.vout[k2];
        assert(tout@ == tx@.vout[k2 as int]);
        let valb = u64_to_le_bytes(tout.value);
        buf.extend_from_slice(valb.as_slice());
        put_varint(&mut buf, tout.script_pubkey.len() as u64);
        buf.extend_from_slice(tout.script_pubkey.as_slice());
        proof {
            lemma_ser_txouts_snoc(tx@.vout, k2 as int);
            assert(buf@ =~= head_out + spec_ser_txouts(tx@.vout.take(k2 as int + 1)));
        }
        k2 = k2 + 1;
    }
    assert(tx@.vout.take(tx.vout@.len() as int) =~= tx@.vout);
    let lb = u32_to_le_bytes(tx.locktime);
    buf.extend_from_slice(lb.as_slice());
    assert(buf@ =~= spec_ser_tx(tx@));
    buf
}

// ---------------------------------------------------------------------------
// Deserialization
// ---------------------------------------------------------------------------

/// Reads a varint at `*i`, advancing `*i`; a failure is a parse error tagged
/// with `field`.
fn get_varint(data: &[u8], i: &mut usize, field: ParseField) -> (r: Result<u64, SdkError>)
    requires
        *old(i) <= data@.len(),
    ensures
        match r {
            Ok(v) => spec_varint_read(data@.skip(*old(i) as int)) == Some(
                (v, *final(i) - *old(i)),
            ) && *old(i) < *final(i) <= data@.len(),
            Err(e) => spec_varint_read(data@.skip(*old(i) as int)) is None && e
                == SdkError::ParseError(field) && *final(i) == *old(i),
        },
{
    match read_varint(slice_subrange(data, *i, data.len())) {
        Ok((v, consumed)) => {
            *i = *i + consumed;
            Ok(v)
        },
        Err(_) => Err(SdkError::ParseError(field)),
    }
}

/// Copies the 32-byte hash starting at `i` out of `data`.
fn read_txid(data: &[u8], i: usize) -> (r: [u8; 32])
    requires
        i + 32 <= data@.len(),
    ensures
        r@ == data@.subrange(i as int, i as int + 32),
{
    let n = data.len();
    let mut out = [0u8; 32];
    let mut j: usize = 0;
    while j < 32
        invariant
            j <= 32,
            i + 32 <= n == data@.len(),
            out@.len() == 32,
            forall|t: int| 0 <= t < j ==> out@[t] == data@[i + t],
        decreases 32 - j,
    {
        out[j] = *vstd::slice::slice_index_get(data, i + j);
        j = j + 1;
    }
    assert(out@ =~= data@.subrange(i as int, i as int + 32));
    out
}

/// One input-parsing step: consuming one well-parsed input extends the
/// accumulated inputs and the byte count.
proof fn lemma_parse_txins_step(
    b: Seq<u8>,
    start: int,
    i: int,
    c: int,
    t: TxInV,
    pref: Seq<TxInV>,
    total: nat,
    rem: nat,
)
    requires
        rem >= 1,
        0 <= start <= i,
        0 <= c,
        i + c <= b.len(),
        spec_parse_txin(b.skip(i)) == Ok::<(TxInV, int), ParseField>((t, c)),
        (match spec_parse_txins(b.skip(i), rem) {
            Ok(p) => spec_parse_txins(b.skip(start), total) == Ok::<
                (Seq<TxInV>, int),
                ParseField,
            >((pref + p.0, (i - start) + p.1)),
            Err(f) => spec_parse_txins(b.skip(start), total) == Err::<
                (Seq<TxInV>, int),
                ParseField,
            >(f),
        }),
    ensures
        (match spec_parse_txins(b.skip(i + c), (rem - 1) as nat) {
            Ok(p) => spec_parse_txins(b.skip(start), total) == Ok::<
                (Seq<TxInV>, int),
                ParseField,
            >((pref.push(t) + p.0, (i + c - start) + p.1)),
            Err(f) => spec_parse_txins(b.skip(start), total) == Err::<
                (Seq<TxInV>, int),
                ParseField,
            >(f),
        }),
{
    assert(b.skip(i).skip(c) =~= b.skip(i + c));
    match spec_parse_txins(b.skip(i + c), (rem - 1) as nat) {
        Ok(p) => {
            assert(pref + (seq![t] + p.0) =~= pref.push(t) + p.0);
        },
        Err(_) => {},
    }
}

/// One output-parsing step, as for inputs.
proof fn lemma_parse_txouts_step(
    b: Seq<u8>,
    start: int,
    i: int,
    c: int,
    t: TxOutV,
    pref: Seq<TxOutV>,
    total: nat,
    rem: nat,
)
    requires
        rem >= 1,
        0 <= start <= i,
        0 <= c,
        i + c <= b.len(),
        spec_parse_txout(b.skip(i)) == Ok::<(TxOutV, int), ParseField>((t, c)),
        (match spec_parse_txouts(b.skip(i), rem) {
            Ok(p) => spec_parse_txouts(b.skip(start), total) == Ok::<
                (Seq<TxOutV>, int),
                ParseField,
            >((pref + p.0, (i - start) + p.1)),
            Err(f) => spec_parse_txouts(b.skip(start), total) == Err::<
                (Seq<TxOutV>, int),
                ParseField,
            >(f),
        }),
    ensures
        (match spec_parse_txouts(b.skip(i + c), (rem - 1) as nat) {
            Ok(p) => spec_parse_txouts(b.skip(start), total) == Ok::<
                (Seq<TxOutV>, int),
                ParseField,
            >((pref.push(t) + p.0, (i + c - start) + p.1)),
            Err(f) => spec_parse_txouts(b.skip(start), total) == Err::<
                (Seq<TxOutV>, int),
                ParseField,
            >(f),
        }),
{
    assert(b.skip(i).skip(c) =~= b.skip(i + c));
    match spec_parse_txouts(b.skip(i + c), (rem - 1) as nat) {
        Ok(p) => {
            assert(pref + (seq![t] + p.0) =~= pref.push(t) + p.0);
        },
        Err(_) => {},
    }
}

/// Deserializes a transaction from the legacy wire format, bounds-checking
/// every field and tagging any failure with the field that ran out of data.
/// Trailing bytes beyond the encoded transaction are ignored.
#[verifier::loop_isolation(false)]
#[verifier::rlimit(60)]
pub fn deserialize(data: &[u8]) -> (r: Result<Transaction, SdkError>)
    ensures
        match r {
            Ok(tx) => spec_parse_tx(data@) == Ok::<TxV, ParseField>(tx@),
            Err(e) => e matches SdkError::ParseError(f) && spec_parse_tx(data@) == Err::<
                TxV,
                ParseField,
            >(f),
        },
{
    if data.len() < 4 {
        return Err(SdkError::ParseError(ParseField::Version));
    }
    let vbits = u32_from_le_bytes(slice_subrange(data, 0, 4));
    assert(data@.subrange(0, 4) =~= data@.take(4));
    let version = bits_version(vbits);
    let mut i: usize = 4;
    let vin_len = match get_varint(data, &mut i, ParseField::InputCount) {
        Ok(v) => v,
        Err(e) => {
            return Err(e);
        },
    };
    let ghost c1 = i - 4;
    let ghost start_in = i as int;
    let mut vin: Vec<TxIn> = Vec::new();
    let mut k: u64 = 0;
    proof {
        assert(vin@.map_values(|t: TxIn| t@) =~= Seq::<TxInV>::empty());
        match spec_parse_txins(data@.skip(start_in), vin_len as nat) {
            Ok(p) => {
                assert(Seq::<TxInV>::empty() + p.0 =~= p.0);
            },
            Err(_) => {},
        }
    }
    while k < vin_len
        invariant
            k <= vin_len,
            4 <= start_in <= i <= data@.len(),
            (match spec_parse_txins(data@.skip(i as int), (vin_len - k) as nat) {
                Ok(p) => spec_parse_txins(data@.skip(start_in), vin_len as nat) == Ok::<
                    (Seq<TxInV>, int),
                    ParseField,
                >((vin@.map_values(|t: TxIn| t@) + p.0, (i - start_in) + p.1)),
                Err(f) => spec_parse_txins(data@.skip(start_in), vin_len as nat) == Err::<
                    (Seq<TxInV>, int),
                    ParseField,
                >(f),
            }),
        decreases vin_len - k,
    {
        let ghost i0 = i as int;
        let ghost s = data@.skip(i0);
        let ghost pref = vin@.map_values(|t: TxIn| t@);
        if data.len() - i < 32 {
            return Err(SdkError::ParseError(ParseField::Prevout));
        }
        if data.len() - i < 36 {
            return Err(SdkError::ParseError(ParseField::Vout));
        }
        let txid = read_txid(data, i);
        assert(s.take(32) =~= data@.subrange(i0, i0 + 32));
        let vout = u32_from_le_bytes(slice_subrange(data, i + 32, i + 36));
        assert(s.subrange(32, 36) =~= data@.subrange(i0 + 32, i0 + 36));
        let mut j: usize = i + 36;
        let slen = match get_varint(data, &mut j, ParseField::ScriptLength) {
            Ok(v) => v,
            Err(e) => {
                assert(s.skip(36) =~= data@.skip(i0 + 36));
                return Err(SdkError::ParseError(ParseField::ScriptLength));
            },
        };
        assert(s.skip(36) =~= data@.skip(i0 + 36));
        let ghost c = j - (i0 + 36);
        if slen > (data.len() - j) as u64 {
            return Err(SdkError::ParseError(ParseField::ScriptBytes));
        }
        let slen_us = slen as usize;
        let script_sig = slice_to_vec(slice_subrange(data, j, j + slen_us));
        assert(s.subrange(36 + c, 36 + c + slen as int) =~= data@.subrange(
            j as int,
            j as int + slen as int,
        ));
        if data.len() - (j + slen_us) < 4 {
            return Err(SdkError::ParseError(ParseField::Sequence));
        }
        let sequence = u32_from_le_bytes(slice_subrange(data, j + slen_us, j + slen_us + 4));
        assert(s.subrange(36 + c + slen as int, 36 + c + slen as int + 4) =~= data@.subrange(
            j as int + slen as int,
            j as int + slen as int + 4,
        ));
        let tin = TxIn { prevout: OutPoint { txid, vout }, script_sig, sequence };
        let ghost consumed = 36 + c + slen as int + 4;
        assert(spec_parse_txin(s) == Ok::<(TxInV, int), ParseField>((tin@, consumed)));
        vin.push(tin);
        i = j + slen_us + 4;
        proof {
            assert(vin@.map_values(|t: TxIn| t@) =~= pref.push(tin@));
            lemma_parse_txins_step(
                data@,
                start_in,
                i0,
                consumed,
                tin@,
                pref,
                vin_len as nat,
                (vin_len - k) as nat,
            );
        }
        k = k + 1;
    }
    assert(spec_parse_txins(data@.skip(i as int), 0) == Ok::<(Seq<TxInV>, int), ParseField>(
        (Seq::empty(), 0),
    ));
    let ghost vin_v = vin@.map_values(|t: TxIn| t@);
    assert(vin_v + Seq::<TxInV>::empty() =~= vin_v);
    let ghost c2 = i - start_in;
    let ghost after_in = i as int;
    let vout_len = match get_varint(data, &mut i, ParseField::OutputCount) {
        Ok(v) => v,
        Err(e) => {
            return Err(e);
        },
    };
    let ghost c3 = i - after_in;
    let ghost start_out = i as int;
    let mut vout: Vec<TxOut> = Vec::new();
    let mut k2: u64 = 0;
    proof {
        assert(vout@.map_values(|t: TxOut| t@) =~= Seq::<TxOutV>::empty());
        match spec_parse_txouts(data@.skip(start_out), vout_len as nat) {
            Ok(p) => {
                assert(Seq::<TxOutV>::empty() + p.0 =~= p.0);
            },
            Err(_) => {},
        }
    }
    while k2 < vout_len
        invariant
            k2 <= vout_len,
            4 <= start_out <= i <= data@.len(),
            (match spec_parse_txouts(data@.skip(i as int), (vout_len - k2) as nat) {
                Ok(p) => spec_parse_txouts(data@.skip(start_out), vout_len as nat) == Ok::<
                    (Seq<TxOutV>, int),
                    ParseField,
                >((vout@.map_values(|t: TxOut| t@) + p.0, (i - start_out) + p.1)),
                Err(f) => spec_parse_txouts(data@.skip(start_out), vout_len as nat) == Err::<
                    (Seq<TxOutV>, int),
                    ParseField,
                >(f),
            }),
        decreases vout_len - k2,
    {
        let ghost i0 = i as int;
        let ghost s = data@.skip(i0);
        let ghost pref = vout@.map_values(|t: TxOut| t@);
        if data.len() - i < 8 {
            return Err(SdkError::ParseError(ParseField::Value));
        }
        let value = u64_from_le_bytes(slice_subrange(data, i, i + 8));
        assert(s.take(8) =~= data@.subrange(i0, i0 + 8));
        let mut j: usize = i + 8;
        let slen = match get_varint(data, &mut j, ParseField::ScriptLength) {
            Ok(v) => v,
            Err(e) => {
                assert(s.skip(8) =~= data@.skip(i0 + 8));
                return Err(SdkError::ParseError(ParseField::ScriptLength));
            },
        };
        assert(s.skip(8) =~= data@.skip(i0 + 8));
        let ghost c = j - (i0 + 8);
        if slen > (data.len() - j) as u64 {
            return Err(SdkError::ParseError(ParseField::ScriptBytes));
        }
        let slen_us = slen as usize;
        let script_pubkey = slice_to_vec(slice_subrange(data, j, j + slen_us));
        assert(s.subrange(8 + c, 8 + c + slen as int) =~= data@.subrange(
            j as int,
            j as int + slen as int,
        ));
        let tout = TxOut { value, script_pubkey };
        let ghost consumed = 8 + c + slen as int;
        assert(spec_parse_txout(s) == Ok::<(TxOutV, int), ParseField>((tout@, consumed)));
        vout.push(tout);
        i = j + slen_us;
        proof {
            assert(vout@.map_values(|t: TxOut| t@) =~= pref.push(tout@));
            lemma_parse_txouts_step(
                data@,
                start_out,
                i0,
                consumed,
                tout@,
                pref,
                vout_len as nat,
                (vout_len - k2) as nat,
            );
        }
        k2 = k2 + 1;
    }
    assert(spec_parse_txouts(data@.skip(i as int), 0) == Ok::<(Seq<TxOutV>, int), ParseField>(
        (Seq::empty(), 0),
    ));
    let ghost vout_v = vout@.map_values(|t: TxOut| t@);
    assert(vout_v + Seq::<TxOutV>::empty() =~= vout_v);
    let ghost c4 = i - start_out;
    if data.len() - i < 4 {
        return Err(SdkError::ParseError(ParseField::Locktime));
    }
    let locktime = u32_from_le_bytes(slice_subrange(data, i, i + 4));
    assert(data@.subrange(i as int, i as int + 4) =~= data@.subrange(
        4 + c1 + c2 + c3 + c4,
        4 + c1 + c2 + c3 + c4 + 4,
    ));
    let tx = Transaction { version, vin, vout, locktime };
    assert(tx@.vin == vin_v);
    assert(tx@.vout == vout_v);
    assert(spec_parse_tx(data@) == Ok::<TxV, ParseField>(tx@));
    Ok(tx)
}


// ---------------------------------------------------------------------------
// Round trip
// ---------------------------------------------------------------------------

/// A serialized input parses back to itself, whatever follows it.
proof fn lemma_parse_ser_txin(t: TxInV, rest: Seq<u8>)
    requires
        spec_txin_wf(t),
    ensures
        spec_parse_txin(spec_ser_txin(t) + rest) == Ok::<(TxInV, int), ParseField>(
            (t, spec_ser_txin(t).len() as int),
        ),
{
    let e = spec_ser_txin(t);
    let b = e + rest;
    let slen = t.script_sig.len() as u64;
    let venc = spec_varint(slen);
    let c = venc.len() as int;
    let sb = spec_u32_to_le_bytes(t.sequence);
    lemma_auto_spec_u32_to_from_le_bytes();
    crate::util::lemma_varint_roundtrip(slen, t.script_sig + (sb + rest));
    assert(b.skip(36) =~= venc + (t.script_sig + (sb + rest)));
    assert(e.len() == 36 + c + slen as int + 4);
    assert(b.take(32) =~= t.prevout.txid);
    assert(b.subrange(32, 36) =~= spec_u32_to_le_bytes(t.prevout.vout));
    assert(b.subrange(36 + c, 36 + c + slen as int) =~= t.script_sig);
    assert(b.subrange(36 + c + slen as int, 36 + c + slen as int + 4) =~= sb);
    assert(spec_txin_at(b, c, slen as int) == t);
}

/// A serialized input sequence parses back to itself, whatever follows it.
proof fn lemma_parse_ser_txins(s: Seq<TxInV>, rest: Seq<u8>)
    requires
        forall|i: int| 0 <= i < s.len() ==> spec_txin_wf(#[trigger] s[i]),
    ensures
        spec_parse_txins(spec_ser_txins(s) + rest, s.len()) == Ok::<(Seq<TxInV>, int), ParseField>(
            (s, spec_ser_txins(s).len() as int),
        ),
    decreases s.len(),
{
    if s.len() == 0 {
        assert(spec_ser_txins(s) + rest =~= rest);
        assert(s =~= Seq::<TxInV>::empty());
    } else {
        let e0 = spec_ser_txin(s[0]);
        let tail = spec_ser_txins(s.drop_first());
        let b = spec_ser_txins(s) + rest;
        lemma_parse_ser_txin(s[0], tail + rest);
        assert(b =~= e0 + (tail + rest));
        assert(b.skip(e0.len() as int) =~= tail + rest);
        lemma_parse_ser_txins(s.drop_first(), rest);
        assert(seq![s[0]] + s.drop_first() =~= s);
        assert(spec_ser_txins(s).len() == e0.len() + tail.len());
    }
}

/// A serialized output parses back to itself, whatever follows it.
proof fn lemma_parse_ser_txout(t: TxOutV, rest: Seq<u8>)
    requires
        spec_txout_wf(t),
    ensures
        spec_parse_txout(spec_ser_txout(t) + rest) == Ok::<(TxOutV, int), ParseField>(
            (t, spec_ser_txout(t).len() as int),
        ),
{
    let e = spec_ser_txout(t);
    let b = e + rest;
    let slen = t.script_pubkey.len() as u64;
    let venc = spec_varint(slen);
    let c = venc.len() as int;
    lemma_auto_spec_u64_to_from_le_bytes();
    crate::util::lemma_varint_roundtrip(slen, t.script_pubkey + rest);
    assert(b.skip(8) =~= venc + (t.script_pubkey + rest));
    assert(e.len() == 8 + c + slen as int);
    assert(b.take(8) =~= spec_u64_to_le_bytes(t.value));
    assert(b.subrange(8 + c, 8 + c + slen as int) =~= t.script_pubkey);
    assert(spec_txout_at(b, c, slen as int) == t);
}

/// A serialized output sequence parses back to itself, whatever follows it.
proof fn lemma_parse_ser_txouts(s: Seq<TxOutV>, rest: Seq<u8>)
    requires
        forall|i: int| 0 <= i < s.len() ==> spec_txout_wf(#[trigger] s[i]),
    ensures
        spec_parse_txouts(spec_ser_txouts(s) + rest, s.len()) == Ok::<
            (Seq<TxOutV>, int),
            ParseField,
        >((s, spec_ser_txouts(s).len() as int)),
    decreases s.len(),
{
    if s.len() == 0 {
        assert(spec_ser_txouts(s) + rest =~= rest);
        assert(s =~= Seq::<TxOutV>::empty());
    } else {
        let e0 = spec_ser_txout(s[0]);
        let tail = spec_ser_txouts(s.drop_first());
        let b = spec_ser_txouts(s) + rest;
        lemma_parse_ser_txout(s[0], tail + rest);
        assert(b =~= e0 + (tail + rest));
        assert(b.skip(e0.len() as int) =~= tail + rest);
        lemma_parse_ser_txouts(s.drop_first(), rest);
        assert(seq![s[0]] + s.drop_first() =~= s);
        assert(spec_ser_txouts(s).len() == e0.len() + tail.len());
    }
}

/// The round-trip law: deserializing a serialized transaction reproduces
/// every field exactly, for any transaction an in-memory value can hold.
#[verifier::rlimit(100)]
#[verifier::spinoff_prover]
pub proof fn lemma_tx_roundtrip(t: TxV)
    requires
        spec_tx_wf(t),
    ensures
        spec_parse_tx(spec_ser_tx(t)) == Ok::<TxV, ParseField>(t),
{
    let b = spec_ser_tx(t);
    let vb = spec_u32_to_le_bytes(spec_version_bits(t.version));
    let nin = spec_varint(t.vin.len() as u64);
    let ins = spec_ser_txins(t.vin);
    let nout = spec_varint(t.vout.len() as u64);
    let outs = spec_ser_txouts(t.vout);
    let lb = spec_u32_to_le_bytes(t.locktime);
    let c1 = nin.len() as int;
    let c2 = ins.len() as int;
    let c3 = nout.len() as int;
    let c4 = outs.len() as int;
    lemma_auto_spec_u32_to_from_le_bytes();
    assert(b.take(4) =~= vb);
    assert(spec_bits_version(spec_u32_from_le_bytes(b.take(4))) == t.version);
    assert(b.skip(4) =~= nin + (ins + (nout + (outs + lb))));
    crate::util::lemma_varint_roundtrip(t.vin.len() as u64, ins + (nout + (outs + lb)));
    assert(b.skip(4 + c1) =~= ins + (nout + (outs + lb)));
    lemma_parse_ser_txins(t.vin, nout + (outs + lb));
    assert((t.vin.len() as u64) as nat == t.vin.len());
    assert(spec_parse_tx_vin(b) == Ok::<(Seq<TxInV>, int), ParseField>((t.vin, c1 + c2)));
    assert(b.skip(4 + c1 + c2) =~= nout + (outs + lb));
    crate::util::lemma_varint_roundtrip(t.vout.len() as u64, outs + lb);
    assert(b.skip(4 + c1 + c2 + c3) =~= outs + lb);
    lemma_parse_ser_txouts(t.vout, lb);
    assert((t.vout.len() as u64) as nat == t.vout.len());
    assert(spec_parse_tx_vout(b, 4 + c1 + c2) == Ok::<(Seq<TxOutV>, int), ParseField>(
        (t.vout, c3 + c4),
    ));
    let end = 4 + c1 + c2 + c3 + c4;
    assert(b.len() == end + 4);
    assert(b.subrange(end, end + 4) =~= lb);
    assert(spec_parse_locktime(b, end) == Ok::<u32, ParseField>(t.locktime));
}

pub const SEQUENCE_FINAL: u32 = 0xFFFF_FFFF;

/// Ordered, fluent construction of a transaction; `build` yields the
/// immutable result.  Defaults: version 1, locktime 0, and per-input
/// sequence `SEQUENCE_FINAL`.
#[derive(Debug, Default)]
pub struct TxBuilder {
    tx: Transaction,
}

impl View for TxBuilder {
    type V = TxV;

    closed spec fn view(&self) -> TxV {
        self.tx@
    }
}

impl TxBuilder {
    /// A builder holding an empty transaction with version 1 and locktime 0.
    pub fn new() -> (r: Self)
        ensures
            r@.version == 1,
            r@.vin =~= Seq::<TxInV>::empty(),
            r@.vout =~= Seq::<TxOutV>::empty(),
            r@.locktime == 0,
    {
        let r = TxBuilder {
            tx: Transaction { version: 1, vin: Vec::new(), vout: Vec::new(), locktime: 0 },
        };
        assert(r.tx@.vin =~= Seq::<TxInV>::empty());
        assert(r.tx@.vout =~= Seq::<TxOutV>::empty());
        r
    }

    /// Sets the version.
    pub fn version(self, v: i32) -> (r: Self)
        ensures
            r@ == (TxV { version: v, ..self@ }),
    {
        let mut b = self;
        b.tx.version = v;
        b
    }

    /// Sets the locktime.
    pub fn locktime(self, lt: u32) -> (r: Self)
        ensures
            r@ == (TxV { locktime: lt, ..self@ }),
    {
        let mut b = self;
        b.tx.locktime = lt;
        b
    }

    /// Adds an input with an empty unlocking script and the final sequence
    /// number.
    pub fn input(self, prevout: OutPoint) -> (r: Self)
        ensures
            r@ == (TxV {
                vin: self@.vin.push(
                    TxInV {
                        prevout: prevout@,
                        script_sig: Seq::empty(),
                        sequence: SEQUENCE_FINAL,
                    },
                ),
                ..self@
            }),
    {
        let mut b = self;
        let tin = TxIn { prevout, script_sig: Vec::new(), sequence: SEQUENCE_FINAL };
        assert(tin@.script_sig =~= Seq::<u8>::empty());
        b.tx.vin.push(tin);
        proof {
            assert(b.tx@.vin =~= self.tx@.vin.push(tin@));
        }
        b
    }

    /// Adds an input with an explicit unlocking script and sequence number.
    pub fn input_with(self, prevout: OutPoint, script_sig: Script, sequence: u32) -> (r: Self)
        ensures
            r@ == (TxV {
                vin: self@.vin.push(
                    TxInV { prevout: prevout@, script_sig: script_sig@, sequence: sequence },
                ),
                ..self@
            }),
    {
        let mut b = self;
        let tin = TxIn { prevout, script_sig: script_sig.into_bytes(), sequence };
        b.tx.vin.push(tin);
        proof {
            assert(b.tx@.vin =~= self.tx@.vin.push(tin@));
        }
        b
    }

    /// Adds an output with the given value and locking script.
    pub fn output(self, value: u64, script_pubkey: Script) -> (r: Self)
        ensures
            r@ == (TxV {
                vout: self@.vout.push(
                    TxOutV { value: value, script_pubkey: script_pubkey@ },
                ),
                ..self@
            }),
    {
        let mut b = self;
        let tout = TxOut { value, script_pubkey: script_pubkey.into_bytes() };
        b.tx.vout.push(tout);
        proof {
            assert(b.tx@.vout =~= self.tx@.vout.push(tout@));
        }
        b
    }

    /// Adds a P2PKH output paying the given public-key hash.
    pub fn p2pkh_output(self, value: u64, pubkey_hash20: [u8; 20]) -> (r: Self)
        ensures
            r@ == (TxV {
                vout: self@.vout.push(
                    TxOutV {
                        value: value,
                        script_pubkey: crate::script::templates::spec_p2pkh_locking(
                            pubkey_hash20@,
                        ),
                    },
                ),
                ..self@
            }),
    {
        let spk = P2pkhTemplate::locking_script(pubkey_hash20);
        let mut b = self;
        let tout = TxOut { value, script_pubkey: spk.into_bytes() };
        b.tx.vout.push(tout);
        proof {
            assert(b.tx@.vout =~= self.tx@.vout.push(tout@));
        }
        b
    }

    /// Finishes construction, yielding the immutable transaction.
    pub fn build(self) -> (r: Transaction)
        ensures
            r@ == self@,
    {
        self.tx
    }
}

} // verus!
