use cosey::{EcdhEsHkdf256PublicKey, Ed25519PublicKey, P256PublicKey};
use cosey::label::Error;
use heapless_bytes::Bytes;

fn test_de_p256(s: &str, data: P256PublicKey) {
    let serialized = hex::decode(s).unwrap();
    let deserialized = P256PublicKey::deserialize(&serialized).unwrap();
    assert_eq!(data, deserialized);
}

#[test]
fn serde_de_p256() {
    let x = Bytes::from_slice(&[0xff; 32]).unwrap();
    let y = Bytes::from_slice(&[0xff; 32]).unwrap();
    let key = P256PublicKey { x, y };
    test_de_p256("a5010203262001215820ffffffffffffffffffffffffffffffffffffffffffffffffffffffffffffffff225820ffffffffffffffffffffffffffffffffffffffffffffffffffffffffffffffff", key);
}

#[test]
fn serde_de_ecdh() {
    let x = Bytes::from_slice(&[0xff; 32]).unwrap();
    let y = Bytes::from_slice(&[0xff; 32]).unwrap();
    let key = EcdhEsHkdf256PublicKey { x, y };
    let serialized = hex::decode("a501020338182001215820ffffffffffffffffffffffffffffffffffffffffffffffffffffffffffffffff225820ffffffffffffffffffffffffffffffffffffffffffffffffffffffffffffffff").unwrap();
    assert_eq!(EcdhEsHkdf256PublicKey::deserialize(&serialized).unwrap(), key);
}

#[test]
fn de_ecdh_order() {
    // crv, x and y come before kty: the canonical order requires kty first,
    // so the record is refused.
    let serialized = hex::decode("a42001215820babc05993673d3d9745712333373cc6da964b4814d0cd666ce97c5ffef8befa522582029ebc161c05e3ba0f702a4cf1df30aca224ae3cf7b9478f4a811726976908ef00102").unwrap();
    assert_eq!(
        EcdhEsHkdf256PublicKey::deserialize(&serialized),
        Err(Error::OutOfOrder)
    );
}

#[test]
fn serde_de_ed25519() {
    let x = Bytes::from_slice(&[0xff; 32]).unwrap();
    let key = Ed25519PublicKey { x };
    let serialized = hex::decode(
        "a4010103272006215820ffffffffffffffffffffffffffffffffffffffffffffffffffffffffffffffff",
    )
    .unwrap();
    assert_eq!(Ed25519PublicKey::deserialize(&serialized).unwrap(), key);
}
