//! Script templates: fixed compositions of the push primitives into canonical
//! locking and unlocking byte patterns (P2PKH, PushDrop, R-Puzzle-style).

use crate::script::lemma_parse_op_prefix;
use crate::script::lemma_parse_push_prefix;
use crate::script::spec_parse_chunks;
use crate::script::spec_push_data;
use crate::script::spec_push_small_int;
use crate::script::ChunkV;
use crate::script::Script;
use crate::script::OP_CHECKSIG;
use crate::script::OP_DROP;
use crate::script::OP_DUP;
use crate::script::OP_EQUAL;
use crate::script::OP_EQUALVERIFY;
use crate::script::OP_HASH160;
use crate::script::OP_SHA256;
use crate::script::OP_SIZE;
use vstd::prelude::*;

verus! {

/// The canonical P2PKH locking pattern: OP_DUP OP_HASH160 push(hash)
/// OP_EQUALVERIFY OP_CHECKSIG.
pub open spec fn spec_p2pkh_locking(h: Seq<u8>) -> Seq<u8> {
    seq![OP_DUP, OP_HASH160] + spec_push_data(h) + seq![OP_EQUALVERIFY, OP_CHECKSIG]
}

/// The P2PKH unlocking pattern: push(signature) push(public key).
pub open spec fn spec_p2pkh_unlocking(sig: Seq<u8>, pubkey: Seq<u8>) -> Seq<u8> {
    spec_push_data(sig) + spec_push_data(pubkey)
}

/// The PushDrop locking pattern: push(data) OP_DROP.
pub open spec fn spec_push_drop_locking(data: Seq<u8>) -> Seq<u8> {
    spec_push_data(data) + seq![OP_DROP]
}

/// The R-Puzzle digest-lock pattern: OP_SIZE push_small_int(32)
/// OP_EQUALVERIFY OP_SHA256 push(digest) OP_EQUAL.
pub open spec fn spec_r_puzzle_sha256_locking(digest: Seq<u8>) -> Seq<u8> {
    seq![OP_SIZE] + spec_push_small_int(32) + seq![OP_EQUALVERIFY, OP_SHA256] + spec_push_data(
        digest,
    ) + seq![OP_EQUAL]
}

/// Pay-to-public-key-hash script template.
#[derive(Debug, Default, Clone)]
pub struct P2pkhTemplate;

impl P2pkhTemplate {
    /// The locking script for a 20-byte public-key hash.
    pub fn locking_script(pubkey_hash: [u8; 20]) -> (r: Script)
        ensures
            r@ == spec_p2pkh_locking(pubkey_hash@),
    {
        let r = Script::new()
            .push_opcode(OP_DUP)
            .push_opcode(OP_HASH160)
            .push_data(pubkey_hash.as_slice())
            .push_opcode(OP_EQUALVERIFY)
            .push_opcode(OP_CHECKSIG);
        assert(r@ =~= spec_p2pkh_locking(pubkey_hash@));
        r
    }

    /// The unlocking script pushing a signature and a public key.
    pub fn unlocking_script(sig: &[u8], pubkey: &[u8]) -> (r: Script)
        ensures
            r@ == spec_p2pkh_unlocking(sig@, pubkey@),
    {
        let r = Script::new().push_data(sig).push_data(pubkey);
        assert(r@ =~= spec_p2pkh_unlocking(sig@, pubkey@));
        r
    }
}

/// Data-carrier template: push the data, then drop it.
#[derive(Debug, Default, Clone)]
pub struct PushDropTemplate;

impl PushDropTemplate {
    /// The locking script `<data> OP_DROP`.
    pub fn locking_script(data: &[u8]) -> (r: Script)
        ensures
            r@ == spec_push_drop_locking(data@),
    {
        let r = Script::new().push_data(data).push_opcode(OP_DROP);
        assert(r@ =~= spec_push_drop_locking(data@));
        r
    }
}

/// R-Puzzle script template.
#[derive(Debug, Default, Clone)]
pub struct RPuzzleTemplate;

impl RPuzzleTemplate {
    /// Placeholder form: the same pattern as the PushDrop locking script.
    pub fn locking_script(r_value: &[u8]) -> (r: Script)
        ensures
            r@ == spec_push_drop_locking(r_value@),
    {
        let r = Script::new().push_data(r_value).push_opcode(OP_DROP);
        assert(r@ =~= spec_push_drop_locking(r_value@));
        r
    }

    /// Digest-lock form: provide a 32-byte SHA-256 digest; spending must push
    /// a 32-byte preimage.
    pub fn locking_script_sha256(digest32: [u8; 32]) -> (r: Script)
        ensures
            r@ == spec_r_puzzle_sha256_locking(digest32@),
    {
        let r = Script::new()
            .push_opcode(OP_SIZE)
            .push_small_int(32)
            .push_opcode(OP_EQUALVERIFY)
            .push_opcode(OP_SHA256)
            .push_data(digest32.as_slice())
            .push_opcode(OP_EQUAL);
        assert(r@ =~= spec_r_puzzle_sha256_locking(digest32@));
        r
    }

    /// The unlocking script pushes the preimage.
    pub fn unlocking_script_preimage(preimage: &[u8]) -> (r: Script)
        ensures
            r@ == spec_push_data(preimage@),
    {
        Script::new().push_data(preimage)
    }
}

/// Parsing a P2PKH locking script built from a 20-byte hash yields exactly
/// five chunks: opcode DUP, opcode HASH160, a 20-byte push equal to the input
/// hash, opcode EQUALVERIFY, opcode CHECKSIG.
pub proof fn lemma_parse_p2pkh_locking(h: Seq<u8>)
    requires
        h.len() == 20,
    ensures
        spec_parse_chunks(spec_p2pkh_locking(h)) == Some(
            seq![
                ChunkV::Op(OP_DUP),
                ChunkV::Op(OP_HASH160),
                ChunkV::Push(h),
                ChunkV::Op(OP_EQUALVERIFY),
                ChunkV::Op(OP_CHECKSIG),
            ],
        ),
{
    let t4 = Seq::<u8>::empty();
    let t3 = seq![OP_CHECKSIG];
    let t2 = seq![OP_EQUALVERIFY] + t3;
    let t1 = spec_push_data(h) + t2;
    let t0 = seq![OP_HASH160] + t1;
    assert(t3 =~= seq![OP_CHECKSIG] + t4);
    lemma_parse_op_prefix(OP_CHECKSIG, t4);
    lemma_parse_op_prefix(OP_EQUALVERIFY, t3);
    lemma_parse_push_prefix(h, t2);
    lemma_parse_op_prefix(OP_HASH160, t1);
    lemma_parse_op_prefix(OP_DUP, t0);
    assert(spec_p2pkh_locking(h) =~= seq![OP_DUP] + t0);
    assert(spec_parse_chunks(spec_p2pkh_locking(h)) == Some(
        seq![ChunkV::Op(OP_DUP)] + (seq![ChunkV::Op(OP_HASH160)] + (seq![ChunkV::Push(h)] + (seq![
            ChunkV::Op(OP_EQUALVERIFY),
        ] + (seq![ChunkV::Op(OP_CHECKSIG)] + Seq::<ChunkV>::empty())))),
    ));
    assert(seq![ChunkV::Op(OP_DUP)] + (seq![ChunkV::Op(OP_HASH160)] + (seq![ChunkV::Push(h)] + (seq![
        ChunkV::Op(OP_EQUALVERIFY),
    ] + (seq![ChunkV::Op(OP_CHECKSIG)] + Seq::<ChunkV>::empty())))) =~= seq![
        ChunkV::Op(OP_DUP),
        ChunkV::Op(OP_HASH160),
        ChunkV::Push(h),
        ChunkV::Op(OP_EQUALVERIFY),
        ChunkV::Op(OP_CHECKSIG),
    ]);
}

/// Parsing a PushDrop locking script built from non-empty data of a pushable
/// length yields exactly two chunks: a push equal to the data, then opcode
/// DROP.  (Empty data encodes as the single byte 0x00, which parses as a bare
/// opcode instead of a push.)
pub proof fn lemma_parse_push_drop_locking(data: Seq<u8>)
    requires
        1 <= data.len() <= 0xFFFF_FFFF,
    ensures
        spec_parse_chunks(spec_push_drop_locking(data)) == Some(
            seq![ChunkV::Push(data), ChunkV::Op(OP_DROP)],
        ),
{
    let t1 = Seq::<u8>::empty();
    let t0 = seq![OP_DROP];
    assert(t0 =~= seq![OP_DROP] + t1);
    lemma_parse_op_prefix(OP_DROP, t1);
    lemma_parse_push_prefix(data, t0);
    assert(seq![ChunkV::Push(data)] + (seq![ChunkV::Op(OP_DROP)] + Seq::<ChunkV>::empty()) =~= seq![
        ChunkV::Push(data),
        ChunkV::Op(OP_DROP),
    ]);
}

} // verus!
