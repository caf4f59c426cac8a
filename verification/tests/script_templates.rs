use rs_sdk::script::templates::P2pkhTemplate;
use rs_sdk::script::templates::PushDropTemplate;
use rs_sdk::script::templates::RPuzzleTemplate;
use rs_sdk::script::Chunk;
use rs_sdk::script::Script;
use rs_sdk::script::OP_CHECKSIG;
use rs_sdk::script::OP_DROP;
use rs_sdk::script::OP_DUP;
use rs_sdk::script::OP_EQUAL;
use rs_sdk::script::OP_EQUALVERIFY;
use rs_sdk::script::OP_HASH160;
use rs_sdk::script::OP_PUSHDATA1;
use rs_sdk::script::OP_PUSHDATA2;
use rs_sdk::script::OP_PUSHDATA4;
use rs_sdk::script::OP_SHA256;
use rs_sdk::script::OP_SIZE;

#[test]
fn p2pkh_locking_script_encoding() {
    let h20 = [0x11u8; 20];
    let s = P2pkhTemplate::locking_script(h20).into_bytes();
    let mut expected = Vec::new();
    expected.push(OP_DUP);
    expected.push(OP_HASH160);
    expected.push(20u8); // push 20 bytes
    expected.extend_from_slice(&h20);
    expected.push(OP_EQUALVERIFY);
    expected.push(OP_CHECKSIG);
    assert_eq!(s, expected);
}

#[test]
fn p2pkh_unlocking_script_encoding() {
    let sig = vec![0x30, 0x44, 0x02, 0x20, 0xaa, 0xbb, 0xcc]; // fake sig bytes
    let pubkey = vec![0x02, 0x01, 0x02, 0x03]; // fake compressed pubkey
    let s = P2pkhTemplate::unlocking_script(&sig, &pubkey).into_bytes();

    let mut expected = Vec::new();
    // push sig
    expected.push(sig.len() as u8);
    expected.extend_from_slice(&sig);
    // push pubkey
    expected.push(pubkey.len() as u8);
    expected.extend_from_slice(&pubkey);

    assert_eq!(s, expected);
}

#[test]
fn push_drop_locking_script_encoding() {
    let data = vec![1u8, 2, 3, 4, 5];
    let s = PushDropTemplate::locking_script(&data).into_bytes();

    let mut expected = Vec::new();
    expected.push(data.len() as u8);
    expected.extend_from_slice(&data);
    expected.push(OP_DROP);

    assert_eq!(s, expected);
}

#[test]
fn r_puzzle_locking_script_placeholder_encoding() {
    let r = vec![0xAB; 32];
    let s = RPuzzleTemplate::locking_script(&r).into_bytes();

    let mut expected = Vec::new();
    expected.push(r.len() as u8);
    expected.extend_from_slice(&r);
    expected.push(OP_DROP);

    assert_eq!(s, expected);
}

#[test]
fn parse_p2pkh_locking_chunks() {
    let h20 = [0x22u8; 20];
    let script = P2pkhTemplate::locking_script(h20);
    let chunks = script.parse().expect("parse ok");
    assert!(matches!(chunks[0], Chunk::Op(op) if op == OP_DUP));
    assert!(matches!(chunks[1], Chunk::Op(op) if op == OP_HASH160));
    match &chunks[2] {
        Chunk::Push(data) => assert_eq!(data.as_slice(), &h20),
        _ => panic!("expected push"),
    }
    assert!(matches!(chunks[3], Chunk::Op(op) if op == OP_EQUALVERIFY));
    assert!(matches!(chunks[4], Chunk::Op(op) if op == OP_CHECKSIG));
    assert_eq!(chunks.len(), 5);
}

#[test]
fn parse_push_drop_chunks() {
    let data = vec![9u8, 8, 7, 6, 5, 4];
    let script = PushDropTemplate::locking_script(&data);
    let chunks = script.parse().expect("parse ok");
    match &chunks[0] {
        Chunk::Push(d) => assert_eq!(d, &data),
        _ => panic!("expected push"),
    }
    assert!(matches!(chunks[1], Chunk::Op(op) if op == OP_DROP));
    assert_eq!(chunks.len(), 2);
}

#[test]
fn push_data_length_class_boundaries() {
    // length 75: direct one-byte length 0x4B
    let s = Script::new().push_data(&[0u8; 75]).into_bytes();
    assert_eq!(s[0], 0x4B);
    assert_eq!(s.len(), 1 + 75);

    // length 76: PUSHDATA1
    let s = Script::new().push_data(&[0u8; 76]).into_bytes();
    assert_eq!(s[0], OP_PUSHDATA1);
    assert_eq!(s[1], 76);
    assert_eq!(s.len(), 2 + 76);

    // length 255: PUSHDATA1
    let s = Script::new().push_data(&[0u8; 255]).into_bytes();
    assert_eq!(s[0], OP_PUSHDATA1);
    assert_eq!(s[1], 255);
    assert_eq!(s.len(), 2 + 255);

    // length 256: PUSHDATA2
    let s = Script::new().push_data(&[0u8; 256]).into_bytes();
    assert_eq!(s[0], OP_PUSHDATA2);
    assert_eq!(&s[1..3], &[0x00, 0x01]);
    assert_eq!(s.len(), 3 + 256);

    // length 65536: PUSHDATA4
    let s = Script::new().push_data(&vec![0u8; 65536]).into_bytes();
    assert_eq!(s[0], OP_PUSHDATA4);
    assert_eq!(&s[1..5], &[0x00, 0x00, 0x01, 0x00]);
    assert_eq!(s.len(), 5 + 65536);
}

#[test]
fn push_small_int_encoding() {
    assert_eq!(Script::new().push_small_int(0).into_bytes(), vec![0x00]);
    assert_eq!(Script::new().push_small_int(1).into_bytes(), vec![0x51]);
    assert_eq!(Script::new().push_small_int(16).into_bytes(), vec![0x60]);
    // Above 16, the raw value is pushed as one data byte.
    assert_eq!(Script::new().push_small_int(17).into_bytes(), vec![0x01, 17]);
    assert_eq!(Script::new().push_small_int(32).into_bytes(), vec![0x01, 32]);
}

#[test]
fn r_puzzle_sha256_locking_encoding() {
    let digest = [0xCDu8; 32];
    let s = RPuzzleTemplate::locking_script_sha256(digest).into_bytes();
    let mut expected = Vec::new();
    expected.push(OP_SIZE);
    expected.push(0x01); // push_small_int(32) falls back to a one-byte push
    expected.push(32u8);
    expected.push(OP_EQUALVERIFY);
    expected.push(OP_SHA256);
    expected.push(32u8);
    expected.extend_from_slice(&digest);
    expected.push(OP_EQUAL);
    assert_eq!(s, expected);
}

#[test]
fn r_puzzle_unlocking_preimage_encoding() {
    let preimage = [0x5Au8; 32];
    let s = RPuzzleTemplate::unlocking_script_preimage(&preimage).into_bytes();
    let mut expected = vec![32u8];
    expected.extend_from_slice(&preimage);
    assert_eq!(s, expected);
}

#[test]
fn parse_truncated_pushdata_fails() {
    // A script ending immediately after a PUSHDATA2 marker: no length bytes.
    let s = Script::new().push_opcode(OP_PUSHDATA2);
    assert!(s.parse().is_err());
    // A declared direct push longer than the remaining bytes.
    let s = Script(vec![0x05, 0x01, 0x02]);
    assert!(s.parse().is_err());
    // PUSHDATA1 with a length byte but missing payload.
    let s = Script(vec![OP_PUSHDATA1, 0x02, 0xAA]);
    assert!(s.parse().is_err());
    // PUSHDATA4 with a truncated length field.
    let s = Script(vec![OP_PUSHDATA4, 0x01, 0x00]);
    assert!(s.parse().is_err());
}

#[test]
fn parse_empty_and_opcode_scripts() {
    assert_eq!(Script::new().parse().unwrap().len(), 0);
    let chunks = Script(vec![OP_DUP, 0x00, 0xFF]).parse().unwrap();
    assert!(matches!(chunks[0], Chunk::Op(op) if op == OP_DUP));
    assert!(matches!(chunks[1], Chunk::Op(0x00)));
    assert!(matches!(chunks[2], Chunk::Op(0xFF)));
    assert_eq!(chunks.len(), 3);
}
