//! The script byte-language: push-data encoding and chunk parsing.
//!
//! Push-length thresholds here (direct length, PUSHDATA1/2/4) are deliberately
//! independent of the CompactSize varint scheme used by the transaction codec.

pub mod templates;

use vstd::bytes::*;
use vstd::prelude::*;
use vstd::slice::slice_subrange;
use vstd::slice::slice_to_vec;
use vstd::string::StringExecFns;

verus! {

// Common opcode constants (subset)
pub const OP_0: u8 = 0x00;

pub const OP_DUP: u8 = 0x76;

pub const OP_HASH160: u8 = 0xA9;

pub const OP_EQUALVERIFY: u8 = 0x88;

pub const OP_CHECKSIG: u8 = 0xAC;

pub const OP_DROP: u8 = 0x75;

pub const OP_EQUAL: u8 = 0x87;

pub const OP_SIZE: u8 = 0x82;

pub const OP_SHA256: u8 = 0xA8;

pub const OP_PUSHDATA1: u8 = 0x4C;

pub const OP_PUSHDATA2: u8 = 0x4D;

pub const OP_PUSHDATA4: u8 = 0x4E;

/// An immutable owned script byte sequence, built by chained push operations.
#[derive(Debug, Default, Clone, PartialEq, Eq)]
pub struct Script(pub Vec<u8>);

impl View for Script {
    type V = Seq<u8>;

    open spec fn view(&self) -> Seq<u8> {
        self.0@
    }
}

/// A parsed view over a script: a bare opcode byte or a data push.
#[derive(Debug, Clone, PartialEq, Eq)]
pub enum Chunk {
    Op(u8),
    Push(Vec<u8>),
}

/// The mathematical model of a `Chunk`.
pub enum ChunkV {
    Op(u8),
    Push(Seq<u8>),
}

impl View for Chunk {
    type V = ChunkV;

    open spec fn view(&self) -> ChunkV {
        match self {
            Chunk::Op(op) => ChunkV::Op(*op),
            Chunk::Push(data) => ChunkV::Push(data@),
        }
    }
}

/// The minimal push-data encoding of `data`: a direct length byte below 0x4C,
/// else a PUSHDATA1/2/4 marker with a little-endian length field, followed by
/// the raw bytes.
pub open spec fn spec_push_data(data: Seq<u8>) -> Seq<u8> {
    if data.len() < 0x4C {
        seq![data.len() as u8] + data
    } else if data.len() <= 0xFF {
        seq![OP_PUSHDATA1, data.len() as u8] + data
    } else if data.len() <= 0xFFFF {
        seq![OP_PUSHDATA2] + spec_u16_to_le_bytes(data.len() as u16) + data
    } else {
        seq![OP_PUSHDATA4] + spec_u32_to_le_bytes(data.len() as u32) + data
    }
}

/// The encoding appended by `push_small_int`: one byte for 0 and 1..=16, and
/// a raw one-byte data push for anything larger.
pub open spec fn spec_push_small_int(n: u8) -> Seq<u8> {
    if n == 0 {
        seq![OP_0]
    } else if n <= 16 {
        seq![(0x50 + n) as u8]
    } else {
        spec_push_data(seq![n])
    }
}

/// The chunks denoted by a script, scanning left to right: a byte in
/// 0x01..=0x4B is a direct push of that many following bytes, the PUSHDATA
/// markers read an explicit 1/2/4-byte little-endian length, and any other
/// byte is a bare opcode.  `None` when a length field or payload would exceed
/// the remaining buffer.
pub open spec fn spec_parse_chunks(b: Seq<u8>) -> Option<Seq<ChunkV>>
    decreases b.len(),
{
    if b.len() == 0 {
        Some(Seq::empty())
    } else {
        let op = b[0];
        if 0x01 <= op <= 0x4B {
            let len = op as int;
            if b.len() < 1 + len {
                None
            } else {
                match spec_parse_chunks(b.skip(1 + len)) {
                    Some(rest) => Some(seq![ChunkV::Push(b.subrange(1, 1 + len))] + rest),
                    None => None,
                }
            }
        } else if op == OP_PUSHDATA1 {
            if b.len() < 2 {
                None
            } else {
                let len = b[1] as int;
                if b.len() < 2 + len {
                    None
                } else {
                    match spec_parse_chunks(b.skip(2 + len)) {
                        Some(rest) => Some(seq![ChunkV::Push(b.subrange(2, 2 + len))] + rest),
                        None => None,
                    }
                }
            }
        } else if op == OP_PUSHDATA2 {
            if b.len() < 3 {
                None
            } else {
                let len = spec_u16_from_le_bytes(b.subrange(1, 3)) as int;
                if b.len() < 3 + len {
                    None
                } else {
                    match spec_parse_chunks(b.skip(3 + len)) {
                        Some(rest) => Some(seq![ChunkV::Push(b.subrange(3, 3 + len))] + rest),
                        None => None,
                    }
                }
            }
        } else if op == OP_PUSHDATA4 {
            if b.len() < 5 {
                None
            } else {
                let len = spec_u32_from_le_bytes(b.subrange(1, 5)) as int;
                if b.len() < 5 + len {
                    None
                } else {
                    match spec_parse_chunks(b.skip(5 + len)) {
                        Some(rest) => Some(seq![ChunkV::Push(b.subrange(5, 5 + len))] + rest),
                        None => None,
                    }
                }
            }
        } else {
            match spec_parse_chunks(b.skip(1)) {
                Some(rest) => Some(seq![ChunkV::Op(op)] + rest),
                None => None,
            }
        }
    }
}

/// A byte that is neither a direct push length nor a PUSHDATA marker begins a
/// bare-opcode chunk, whatever follows it.
pub proof fn lemma_parse_op_prefix(op: u8, rest: Seq<u8>)
    requires
        op == 0x00 || op >= 0x4F,
    ensures
        spec_parse_chunks(seq![op] + rest) == (match spec_parse_chunks(rest) {
            Some(cs) => Some(seq![ChunkV::Op(op)] + cs),
            None => None::<Seq<ChunkV>>,
        }),
{
    let b = seq![op] + rest;
    assert(b.skip(1) =~= rest);
}

/// A minimal push-data encoding of non-empty data parses as one push chunk
/// holding exactly that data, whatever follows it.  (Empty data encodes as the
/// single byte 0x00, which parses as the bare opcode 0x00 instead.)
pub proof fn lemma_parse_push_prefix(data: Seq<u8>, rest: Seq<u8>)
    requires
        1 <= data.len() <= 0xFFFF_FFFF,
    ensures
        spec_parse_chunks(spec_push_data(data) + rest) == (match spec_parse_chunks(rest) {
            Some(cs) => Some(seq![ChunkV::Push(data)] + cs),
            None => None::<Seq<ChunkV>>,
        }),
{
    let b = spec_push_data(data) + rest;
    let len = data.len() as int;
    if data.len() < 0x4C {
        assert(b[0] == data.len() as u8);
        assert(b.len() >= 1 + len);
        assert(b.subrange(1, 1 + len) =~= data);
        assert(b.skip(1 + len) =~= rest);
    } else if data.len() <= 0xFF {
        assert(b[0] == OP_PUSHDATA1);
        assert(b[1] == data.len() as u8);
        assert(b[1] as int == len);
        assert(b.subrange(2, 2 + len) =~= data);
        assert(b.skip(2 + len) =~= rest);
    } else if data.len() <= 0xFFFF {
        lemma_auto_spec_u16_to_from_le_bytes();
        assert(b[0] == OP_PUSHDATA2);
        assert(b.subrange(1, 3) =~= spec_u16_to_le_bytes(data.len() as u16));
        assert(spec_u16_from_le_bytes(b.subrange(1, 3)) as int == len);
        assert(b.subrange(3, 3 + len) =~= data);
        assert(b.skip(3 + len) =~= rest);
    } else {
        lemma_auto_spec_u32_to_from_le_bytes();
        assert(b[0] == OP_PUSHDATA4);
        assert(b.subrange(1, 5) =~= spec_u32_to_le_bytes(data.len() as u32));
        assert(spec_u32_from_le_bytes(b.subrange(1, 5)) as int == len);
        assert(b.subrange(5, 5 + len) =~= data);
        assert(b.skip(5 + len) =~= rest);
    }
}

impl Script {
    /// An empty script.
    pub fn new() -> (r: Self)
        ensures
            r@ == Seq::<u8>::empty(),
    {
        Script(Vec::new())
    }

    /// The underlying bytes, consuming the script.
    pub fn into_bytes(self) -> (r: Vec<u8>)
        ensures
            r@ == self@,
    {
        self.0
    }

    /// The underlying bytes, borrowed.
    pub fn as_bytes(&self) -> (r: &[u8])
        ensures
            r@ == self@,
    {
        self.0.as_slice()
    }

    /// Appends one opcode byte.
    pub fn push_opcode(self, op: u8) -> (r: Self)
        ensures
            r@ == self@.push(op),
    {
        let mut v = self.0;
        v.push(op);
        Script(v)
    }

    /// Appends a small integer: 0 becomes OP_0, 1..=16 become one byte
    /// 0x50 + n, and anything larger is pushed as a one-byte data push of the
    /// raw value (not a minimally-encoded script number).
    pub fn push_small_int(self, n: u8) -> (r: Self)
        ensures
            r@ == self@ + spec_push_small_int(n),
    {
        if n == 0 {
            let r = self.push_opcode(OP_0);
            assert(r@ =~= self@ + spec_push_small_int(n));
            r
        } else if n <= 16 {
            let r = self.push_opcode(0x50 + n);
            assert(r@ =~= self@ + spec_push_small_int(n));
            r
        } else {
            let mut one: Vec<u8> = Vec::new();
            one.push(n);
            assert(one@ =~= seq![n]);
            self.push_data(one.as_slice())
        }
    }

    /// Appends the minimal push-data encoding of `data` followed by the raw
    /// bytes.
    pub fn push_data(self, data: &[u8]) -> (r: Self)
        ensures
            r@ == self@ + spec_push_data(data@),
    {
        let mut v = self.0;
        let len = data.len();
        if len < 0x4C {
            v.push(len as u8);
        } else if len <= 0xFF {
            v.push(OP_PUSHDATA1);
            v.push(len as u8);
        } else if len <= 0xFFFF {
            v.push(OP_PUSHDATA2);
            let bytes = u16_to_le_bytes(len as u16);
            v.extend_from_slice(bytes.as_slice());
        } else {
            v.push(OP_PUSHDATA4);
            let bytes = u32_to_le_bytes(len as u32);
            v.extend_from_slice(bytes.as_slice());
        }
        v.extend_from_slice(data);
        assert(v@ =~= self@ + spec_push_data(data@));
        Script(v)
    }

    /// Parses the script into chunks of opcodes and pushed data, failing with
    /// a parse error whenever a declared length field or payload would exceed
    /// the remaining buffer.
    #[verifier::loop_isolation(false)]
    pub fn parse(&self) -> (r: Result<Vec<Chunk>, String>)
        ensures
            match r {
                Ok(chunks) => spec_parse_chunks(self@) == Some(
                    chunks@.map_values(|c: Chunk| c@),
                ),
                Err(_) => spec_parse_chunks(self@) is None,
            },
    {
        let b = &self.0;
        let mut chunks: Vec<Chunk> = Vec::new();
        let mut i: usize = 0;
        proof {
            assert(b@.skip(0) =~= b@);
        }
        while i < b.len()
            invariant
                i <= b@.len(),
                (match spec_parse_chunks(b@.skip(i as int)) {
                    Some(rest) => spec_parse_chunks(b@) == Some(
                        chunks@.map_values(|c: Chunk| c@) + rest,
                    ),
                    None => spec_parse_chunks(b@) is None,
                }),
            decreases b@.len() - i,
        {
            let ghost s = b@.skip(i as int);
            let ghost prefix = chunks@.map_values(|c: Chunk| c@);
            let opcode = b[i];
            assert(s[0] == opcode);
            if 0x01 <= opcode && opcode <= 0x4B {
                let len = opcode as usize;
                if len > b.len() - i - 1 {
                    return Err(String::from_str("push length exceeds script size"));
                }
                let data = slice_to_vec(slice_subrange(b.as_slice(), i + 1, i + 1 + len));
                proof {
                    assert(s.subrange(1, 1 + len as int) =~= data@);
                    assert(s.skip(1 + len as int) =~= b@.skip(i as int + 1 + len as int));
                }
                chunks.push(Chunk::Push(data));
                proof {
                    assert(chunks@.map_values(|c: Chunk| c@) =~= prefix.push(
                        ChunkV::Push(s.subrange(1, 1 + len as int)),
                    ));
                }
                i = i + 1 + len;
                proof {
                    lemma_step(b@, prefix, s, ChunkV::Push(s.subrange(1, 1 + len as int)), i as int);
                }
            } else if opcode == OP_PUSHDATA1 {
                if b.len() - i < 2 {
                    return Err(String::from_str("PUSHDATA1 missing length"));
                }
                let len = b[i + 1] as usize;
                assert(s[1] == b@[i as int + 1]);
                if len > b.len() - i - 2 {
                    return Err(String::from_str("PUSHDATA1 length exceeds script size"));
                }
                let data = slice_to_vec(slice_subrange(b.as_slice(), i + 2, i + 2 + len));
                proof {
                    assert(s.subrange(2, 2 + len as int) =~= data@);
                    assert(s.skip(2 + len as int) =~= b@.skip(i as int + 2 + len as int));
                }
                chunks.push(Chunk::Push(data));
                proof {
                    assert(chunks@.map_values(|c: Chunk| c@) =~= prefix.push(
                        ChunkV::Push(s.subrange(2, 2 + len as int)),
                    ));
                }
                i = i + 2 + len;
                proof {
                    lemma_step(b@, prefix, s, ChunkV::Push(s.subrange(2, 2 + len as int)), i as int);
                }
            } else if opcode == OP_PUSHDATA2 {
                if b.len() - i < 3 {
                    return Err(String::from_str("PUSHDATA2 missing length"));
                }
                let len = u16_from_le_bytes(slice_subrange(b.as_slice(), i + 1, i + 3)) as usize;
                assert(s.subrange(1, 3) =~= b@.subrange(i as int + 1, i as int + 3));
                if len > b.len() - i - 3 {
                    return Err(String::from_str("PUSHDATA2 length exceeds script size"));
                }
                let data = slice_to_vec(slice_subrange(b.as_slice(), i + 3, i + 3 + len));
                proof {
                    assert(s.subrange(3, 3 + len as int) =~= data@);
                    assert(s.skip(3 + len as int) =~= b@.skip(i as int + 3 + len as int));
                }
                chunks.push(Chunk::Push(data));
                proof {
                    assert(chunks@.map_values(|c: Chunk| c@) =~= prefix.push(
                        ChunkV::Push(s.subrange(3, 3 + len as int)),
                    ));
                }
                i = i + 3 + len;
                proof {
                    lemma_step(b@, prefix, s, ChunkV::Push(s.subrange(3, 3 + len as int)), i as int);
                }
            } else if opcode == OP_PUSHDATA4 {
                if b.len() - i < 5 {
                    return Err(String::from_str("PUSHDATA4 missing length"));
                }
                let len32 = u32_from_le_bytes(slice_subrange(b.as_slice(), i + 1, i + 5));
                assert(s.subrange(1, 5) =~= b@.subrange(i as int + 1, i as int + 5));
                let len = len32 as usize;
                if len > b.len() - i - 5 {
                    return Err(String::from_str("PUSHDATA4 length exceeds script size"));
                }
                let data = slice_to_vec(slice_subrange(b.as_slice(), i + 5, i + 5 + len));
                proof {
                    assert(s.subrange(5, 5 + len as int) =~= data@);
                    assert(s.skip(5 + len as int) =~= b@.skip(i as int + 5 + len as int));
                }
                chunks.push(Chunk::Push(data));
                proof {
                    assert(chunks@.map_values(|c: Chunk| c@) =~= prefix.push(
                        ChunkV::Push(s.subrange(5, 5 + len as int)),
                    ));
                }
                i = i + 5 + len;
                proof {
                    lemma_step(b@, prefix, s, ChunkV::Push(s.subrange(5, 5 + len as int)), i as int);
                }
            } else {
                chunks.push(Chunk::Op(opcode));
                proof {
                    assert(s.skip(1) =~= b@.skip(i as int + 1));
                    assert(chunks@.map_values(|c: Chunk| c@) =~= prefix.push(ChunkV::Op(opcode)));
                }
                i = i + 1;
                proof {
                    lemma_step(b@, prefix, s, ChunkV::Op(opcode), i as int);
                }
            }
        }
        assert(b@.skip(i as int) =~= Seq::<u8>::empty());
        Ok(chunks)
    }
}

/// One parsing step: when the suffix at the old position parses to the new
/// chunk followed by whatever the new suffix parses to, the whole-script
/// result extends the accumulated prefix by that chunk.
proof fn lemma_step(b: Seq<u8>, prefix: Seq<ChunkV>, s: Seq<u8>, c: ChunkV, i2: int)
    requires
        0 <= i2 <= b.len(),
        (match spec_parse_chunks(s) {
            Some(rest) => spec_parse_chunks(b) == Some(prefix + rest),
            None => spec_parse_chunks(b) is None,
        }),
        spec_parse_chunks(s) == (match spec_parse_chunks(b.skip(i2)) {
            Some(cs) => Some(seq![c] + cs),
            None => None::<Seq<ChunkV>>,
        }),
    ensures
        (match spec_parse_chunks(b.skip(i2)) {
            Some(rest) => spec_parse_chunks(b) == Some(prefix.push(c) + rest),
            None => spec_parse_chunks(b) is None,
        }),
{
    match spec_parse_chunks(b.skip(i2)) {
        Some(rest) => {
            assert(prefix + (seq![c] + rest) =~= prefix.push(c) + rest);
        },
        None => {},
    }
}

} // verus!
