use rs_sdk::crypto::hash160;
use rs_sdk::crypto::PrivateKey;
use rs_sdk::error::SdkError;
use rs_sdk::crypto::ripemd160;
use rs_sdk::crypto::sha256;
use rs_sdk::crypto::sha256d;
use rs_sdk::util::hex_encode;

#[test]
fn sha256_known_vector() {
    let d = sha256(b"abc");
    assert_eq!(
        hex_encode(&d.0),
        "ba7816bf8f01cfea414140de5dae2223b00361a396177a9cb410ff61f20015ad"
    );
}

#[test]
fn ripemd160_known_vector() {
    let d = ripemd160(b"abc");
    assert_eq!(hex_encode(&d.0), "8eb208f7e05d987a9b044a8e98c6b087f15a0bfc");
}

#[test]
fn hash160_is_ripemd_of_sha() {
    let data = b"some pubkey bytes";
    let composed = ripemd160(&sha256(data).0);
    assert_eq!(hash160(data).0, composed.0);
}

#[test]
fn sha256d_is_double_sha() {
    let data = b"wire bytes";
    let composed = sha256(&sha256(data).0);
    assert_eq!(sha256d(data), composed.0);
}

#[test]
fn library_version_string() {
    assert_eq!(rs_sdk::version(), "0.1.0");
}

#[test]
fn placeholder_operations_are_unimplemented() {
    assert!(matches!(
        rs_sdk::crypto::generate_keypair(),
        Err(SdkError::NotImplemented(_))
    ));
    assert!(matches!(
        rs_sdk::crypto::sign(&PrivateKey([0u8; 32]), b"m"),
        Err(SdkError::NotImplemented(_))
    ));
    assert!(matches!(
        rs_sdk::address::parse("1abc"),
        Err(SdkError::NotImplemented(_))
    ));
    assert!(matches!(
        rs_sdk::wallet::Wallet::<NoStorage>::new(Default::default(), NoStorage).balance(),
        Err(SdkError::NotImplemented(_))
    ));
}

#[derive(Default)]
struct NoStorage;

impl rs_sdk::storage::Storage for NoStorage {}
