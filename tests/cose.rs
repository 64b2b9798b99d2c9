use cosey::{EcdhEsHkdf256PublicKey, Ed25519PublicKey, P256PublicKey, PublicKey};
use heapless_bytes::Bytes;

fn decode_hex(s: &str) -> Vec<u8> {
    hex::decode(s).unwrap()
}

#[test]
fn cose_de_p256() {
    let x = Bytes::from_slice(&[0xff; 32]).unwrap();
    let y = Bytes::from_slice(&[0xff; 32]).unwrap();
    let key = P256PublicKey { x, y };
    let data = "a5010203262001215820ffffffffffffffffffffffffffffffffffffffffffffffffffffffffffffffff225820ffffffffffffffffffffffffffffffffffffffffffffffffffffffffffffffff";
    let decoded = P256PublicKey::deserialize(&decode_hex(data)).unwrap();
    assert_eq!(decoded, key.clone());
    assert_eq!(PublicKey::P256Key(decoded), PublicKey::P256Key(key.clone()));
    assert_eq!(PublicKey::P256Key(key).serialize(), decode_hex(data));
}

#[test]
fn cose_de_ecdh() {
    let x = Bytes::from_slice(&[0xff; 32]).unwrap();
    let y = Bytes::from_slice(&[0xff; 32]).unwrap();
    let key = EcdhEsHkdf256PublicKey { x, y };
    let data = "a501020338182001215820ffffffffffffffffffffffffffffffffffffffffffffffffffffffffffffffff225820ffffffffffffffffffffffffffffffffffffffffffffffffffffffffffffffff";
    let decoded = EcdhEsHkdf256PublicKey::deserialize(&decode_hex(data)).unwrap();
    assert_eq!(decoded, key.clone());
    assert_eq!(PublicKey::EcdhEsHkdf256Key(decoded), PublicKey::EcdhEsHkdf256Key(key.clone()));
    assert_eq!(PublicKey::EcdhEsHkdf256Key(key).serialize(), decode_hex(data));
}

#[test]
fn cose_de_ed25519() {
    let x = Bytes::from_slice(&[0xff; 32]).unwrap();
    let key = Ed25519PublicKey { x };
    let data =
        "a4010103272006215820ffffffffffffffffffffffffffffffffffffffffffffffffffffffffffffffff";
    let decoded = Ed25519PublicKey::deserialize(&decode_hex(data)).unwrap();
    assert_eq!(decoded, key.clone());
    assert_eq!(PublicKey::Ed25519Key(decoded), PublicKey::Ed25519Key(key.clone()));
    assert_eq!(PublicKey::Ed25519Key(key).serialize(), decode_hex(data));
}
