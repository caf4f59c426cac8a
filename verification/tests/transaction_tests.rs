use rs_sdk::error::ParseField;
use rs_sdk::error::SdkError;
use rs_sdk::script::Script;
use rs_sdk::transaction::deserialize;
use rs_sdk::transaction::serialize;
use rs_sdk::transaction::OutPoint;
use rs_sdk::transaction::TxBuilder;
use rs_sdk::transaction::SEQUENCE_FINAL;

fn sample_tx_bytes() -> Vec<u8> {
    let tx = TxBuilder::new()
        .input(OutPoint { txid: [0u8; 32], vout: 0 })
        .p2pkh_output(5_000_000_000, [0u8; 20])
        .build();
    serialize(&tx)
}

#[test]
fn tx_roundtrip_one_input_one_p2pkh_output() {
    let prevout = OutPoint { txid: [0u8; 32], vout: 0 };
    let tx = TxBuilder::new()
        .input(prevout)
        .p2pkh_output(5_000_000_000, [0u8; 20])
        .build();
    assert_eq!(tx.version, 1);
    assert_eq!(tx.locktime, 0);
    assert_eq!(tx.vin.len(), 1);
    assert_eq!(tx.vin[0].sequence, SEQUENCE_FINAL);
    assert!(tx.vin[0].script_sig.is_empty());
    assert_eq!(tx.vout.len(), 1);
    assert_eq!(tx.vout[0].value, 5_000_000_000);

    let bytes = serialize(&tx);
    let back = deserialize(&bytes).expect("deserialize ok");
    assert_eq!(back, tx);
}

#[test]
fn tx_serialized_layout() {
    let bytes = sample_tx_bytes();
    // version 1, one input: zero txid, vout 0, empty script, final sequence;
    // one output: value 5_000_000_000, 25-byte P2PKH script; locktime 0.
    let mut expected: Vec<u8> = Vec::new();
    expected.extend_from_slice(&[0x01, 0x00, 0x00, 0x00]); // version
    expected.push(0x01); // input count
    expected.extend_from_slice(&[0u8; 32]); // prevout txid
    expected.extend_from_slice(&[0x00, 0x00, 0x00, 0x00]); // vout
    expected.push(0x00); // script length
    expected.extend_from_slice(&[0xFF, 0xFF, 0xFF, 0xFF]); // sequence
    expected.push(0x01); // output count
    expected.extend_from_slice(&5_000_000_000u64.to_le_bytes()); // value
    expected.push(25); // script length
    expected.extend_from_slice(&[0x76, 0xA9, 0x14]); // DUP HASH160 push-20
    expected.extend_from_slice(&[0u8; 20]);
    expected.extend_from_slice(&[0x88, 0xAC]); // EQUALVERIFY CHECKSIG
    expected.extend_from_slice(&[0x00, 0x00, 0x00, 0x00]); // locktime
    assert_eq!(bytes, expected);
}

#[test]
fn tx_roundtrip_negative_version_and_two_inputs() {
    let s1 = Script::new().push_data(&[0xAA, 0xBB]);
    let tx = TxBuilder::new()
        .version(-2)
        .locktime(0xDEAD_BEEF)
        .input(OutPoint { txid: [0x42u8; 32], vout: 7 })
        .input_with(OutPoint { txid: [0x24u8; 32], vout: 1 }, s1, 0x1234_5678)
        .output(1, Script::new())
        .build();
    let bytes = serialize(&tx);
    let back = deserialize(&bytes).expect("deserialize ok");
    assert_eq!(back, tx);
}

#[test]
fn tx_deserialize_ignores_trailing_bytes() {
    let mut bytes = sample_tx_bytes();
    let tx = deserialize(&bytes).unwrap();
    bytes.extend_from_slice(&[0xAB, 0xCD]);
    let tx2 = deserialize(&bytes).unwrap();
    assert_eq!(tx, tx2);
}

fn field_of(err: SdkError) -> ParseField {
    match err {
        SdkError::ParseError(f) => f,
        other => panic!("expected a parse error, got {:?}", other),
    }
}

#[test]
fn tx_truncated_in_locktime_names_the_field() {
    let bytes = sample_tx_bytes();
    let truncated = &bytes[..bytes.len() - 2];
    let err = deserialize(truncated).unwrap_err();
    assert_eq!(field_of(err), ParseField::Locktime);
}

#[test]
fn tx_truncation_points_name_their_fields() {
    let bytes = sample_tx_bytes();
    // Layout: 4 version | 1 input count | 32 txid | 4 vout | 1 script len
    // | 4 sequence | 1 output count | 8 value | 1 script len | 25 script
    // | 4 locktime.
    let err = deserialize(&bytes[..3]).unwrap_err();
    assert_eq!(field_of(err), ParseField::Version);
    let err = deserialize(&bytes[..4]).unwrap_err();
    assert_eq!(field_of(err), ParseField::InputCount);
    let err = deserialize(&bytes[..20]).unwrap_err();
    assert_eq!(field_of(err), ParseField::Prevout);
    let err = deserialize(&bytes[..39]).unwrap_err();
    assert_eq!(field_of(err), ParseField::Vout);
    let err = deserialize(&bytes[..41]).unwrap_err();
    assert_eq!(field_of(err), ParseField::ScriptLength);
    let err = deserialize(&bytes[..44]).unwrap_err();
    assert_eq!(field_of(err), ParseField::Sequence);
    let err = deserialize(&bytes[..46]).unwrap_err();
    assert_eq!(field_of(err), ParseField::OutputCount);
    let err = deserialize(&bytes[..50]).unwrap_err();
    assert_eq!(field_of(err), ParseField::Value);
    let err = deserialize(&bytes[..55]).unwrap_err();
    assert_eq!(field_of(err), ParseField::ScriptLength);
    let err = deserialize(&bytes[..60]).unwrap_err();
    assert_eq!(field_of(err), ParseField::ScriptBytes);
}

#[test]
fn tx_declared_script_longer_than_buffer_fails() {
    let mut bytes = sample_tx_bytes();
    // Input script length byte at offset 41 declares 0 bytes; bump it.
    bytes[41] = 0xF0;
    let err = deserialize(&bytes).unwrap_err();
    assert_eq!(field_of(err), ParseField::ScriptBytes);
}
