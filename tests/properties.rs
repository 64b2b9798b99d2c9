use cosey::keys::{
    check_key_constants, EcdhEsHkdf256PublicKey, Ed25519PublicKey, KeyConstants,
    P256PublicKey, PublicKey, PublicKeyConstants, TotpPublicKey,
};
use cosey::label::{Alg, Crv, Error, Field, Kty, Label};
use cosey::raw::{decide, RawEcPublicKey, Step};
use heapless_bytes::Bytes;

fn small(v: i8) -> Vec<u8> {
    if v >= 0 {
        if v < 24 {
            vec![v as u8]
        } else {
            vec![0x18, v as u8]
        }
    } else {
        let n = (-1 - v as i16) as u8;
        if n < 24 {
            vec![0x20 | n]
        } else {
            vec![0x38, n]
        }
    }
}

fn bstr(s: &[u8]) -> Vec<u8> {
    let mut out = if s.len() < 24 {
        vec![0x40 | s.len() as u8]
    } else {
        vec![0x58, s.len() as u8]
    };
    out.extend_from_slice(s);
    out
}

fn entry(label: i8, value: Vec<u8>) -> Vec<u8> {
    let mut out = small(label);
    out.extend(value);
    out
}

fn map(count: u8, entries: &[Vec<u8>]) -> Vec<u8> {
    let mut out = vec![0xa0 | count];
    for e in entries {
        out.extend_from_slice(e);
    }
    out
}

fn p256_entries(x: &[u8], y: &[u8]) -> Vec<Vec<u8>> {
    vec![
        entry(1, small(2)),
        entry(3, small(-7)),
        entry(-1, small(1)),
        entry(-2, bstr(x)),
        entry(-3, bstr(y)),
    ]
}

fn p256(x: &[u8], y: &[u8]) -> P256PublicKey {
    P256PublicKey {
        x: Bytes::from_slice(x).unwrap(),
        y: Bytes::from_slice(y).unwrap(),
    }
}

fn counting(n: usize) -> Vec<u8> {
    (0..n).map(|i| (i * 7 + 3) as u8).collect()
}

fn permutations(n: usize) -> Vec<Vec<usize>> {
    if n == 0 {
        return vec![vec![]];
    }
    let mut all = Vec::new();
    for p in permutations(n - 1) {
        for i in 0..=p.len() {
            let mut q = p.clone();
            q.insert(i, n - 1);
            all.push(q);
        }
    }
    all
}

#[test]
fn p256_fixed_encoding() {
    let key = p256(&[0xff; 32], &[0xff; 32]);
    let mut expected = vec![0xa5, 0x01, 0x02, 0x03, 0x26, 0x20, 0x01, 0x21, 0x58, 0x20];
    expected.extend_from_slice(&[0xff; 32]);
    expected.extend_from_slice(&[0x22, 0x58, 0x20]);
    expected.extend_from_slice(&[0xff; 32]);
    assert_eq!(key.serialize(), expected);
    assert_eq!(P256PublicKey::deserialize(&expected).unwrap(), key);
}

#[test]
fn ed25519_four_entries() {
    let x = counting(32);
    let key = Ed25519PublicKey { x: Bytes::from_slice(&x).unwrap() };
    let expected = map(4, &[entry(1, small(1)), entry(3, small(-8)), entry(-1, small(6)), entry(-2, bstr(&x))]);
    assert_eq!(expected[0], 0xa4);
    assert_eq!(key.serialize(), expected);
    assert_eq!(Ed25519PublicKey::deserialize(&expected).unwrap(), key);
}

#[test]
fn round_trip_every_variant() {
    let patterns: Vec<Vec<u8>> = vec![vec![0; 32], vec![0xff; 32], counting(32), counting(5), vec![]];
    for x in &patterns {
        for y in &patterns {
            let key = p256(x, y);
            assert_eq!(P256PublicKey::deserialize(&key.serialize()).unwrap(), key);
            let key = EcdhEsHkdf256PublicKey {
                x: Bytes::from_slice(x).unwrap(),
                y: Bytes::from_slice(y).unwrap(),
            };
            assert_eq!(EcdhEsHkdf256PublicKey::deserialize(&key.serialize()).unwrap(), key);
        }
        let key = Ed25519PublicKey { x: Bytes::from_slice(x).unwrap() };
        assert_eq!(Ed25519PublicKey::deserialize(&key.serialize()).unwrap(), key);
    }
    let key = TotpPublicKey {};
    assert_eq!(key.serialize(), map(2, &[entry(1, small(4)), entry(3, small(-9))]));
    assert_eq!(TotpPublicKey::deserialize(&key.serialize()).unwrap(), key);
}

#[test]
fn only_canonical_order_decodes() {
    let x = counting(32);
    let y = vec![0x5a; 32];
    let entries = p256_entries(&x, &y);
    for perm in permutations(entries.len()) {
        let fields: Vec<Vec<u8>> = perm.iter().map(|&i| entries[i].clone()).collect();
        let result = P256PublicKey::deserialize(&map(5, &fields));
        let canonical = perm.iter().enumerate().all(|(i, &p)| i == p);
        if canonical {
            assert_eq!(result, Ok(p256(&x, &y)));
        } else {
            assert_eq!(result, Err(Error::OutOfOrder), "order {:?}", perm);
        }
    }
}

#[test]
fn trailing_unknown_entries_are_ignored() {
    let x = counting(32);
    let y = vec![0x11; 32];
    let text = vec![0x66, b'f', b'o', b'o', b'b', b'a', b'r'];
    let mut fields = p256_entries(&x, &y);
    fields.push(entry(42, text.clone()));
    fields.push(entry(24, text));
    assert_eq!(P256PublicKey::deserialize(&map(7, &fields)), Ok(p256(&x, &y)));

    let mut ed = vec![entry(1, small(1)), entry(3, small(-8)), entry(-1, small(6)), entry(-2, bstr(&x))];
    ed.push(entry(-100, vec![0xff, 0xff]));
    let key = Ed25519PublicKey { x: Bytes::from_slice(&x).unwrap() };
    assert_eq!(Ed25519PublicKey::deserialize(&map(5, &ed)), Ok(key));
}

#[test]
fn unknown_label_before_known_ones_ends_the_record() {
    let x = counting(32);
    let mut fields = vec![entry(2, small(0))];
    fields.extend(p256_entries(&x, &x));
    assert_eq!(
        P256PublicKey::deserialize(&map(6, &fields)),
        Err(Error::MissingField(Field::Kty))
    );
}

#[test]
fn alg_is_optional_but_exact() {
    let x = counting(32);
    let y = vec![0x42; 32];
    let mut fields = p256_entries(&x, &y);
    fields.remove(1);
    assert_eq!(P256PublicKey::deserialize(&map(4, &fields)), Ok(p256(&x, &y)));
    for alg in [-8i8, -9, -25] {
        let mut fields = p256_entries(&x, &y);
        fields[1] = entry(3, small(alg));
        assert_eq!(
            P256PublicKey::deserialize(&map(5, &fields)),
            Err(Error::WrongValue(Field::Alg))
        );
    }
    let totp = map(1, &[entry(1, small(4))]);
    assert_eq!(TotpPublicKey::deserialize(&totp), Ok(TotpPublicKey {}));
    // values outside the algorithm table
    for alg in [0i8, -1, 5, 100] {
        let mut fields = p256_entries(&x, &y);
        fields[1] = entry(3, small(alg));
        assert_eq!(P256PublicKey::deserialize(&map(5, &fields)), Err(Error::Malformed));
    }
}

#[test]
fn crv_required_except_without_curve() {
    let x = counting(32);
    let y = vec![0x42; 32];
    let mut fields = p256_entries(&x, &y);
    fields.remove(2);
    assert_eq!(
        P256PublicKey::deserialize(&map(4, &fields)),
        Err(Error::MissingField(Field::Crv))
    );
    let mut fields = p256_entries(&x, &y);
    fields[2] = entry(-1, small(6));
    assert_eq!(
        P256PublicKey::deserialize(&map(5, &fields)),
        Err(Error::WrongValue(Field::Crv))
    );
    let mut fields = p256_entries(&x, &y);
    fields[2] = entry(-1, small(2));
    assert_eq!(P256PublicKey::deserialize(&map(5, &fields)), Err(Error::Malformed));
    let ed = map(3, &[entry(1, small(1)), entry(3, small(-8)), entry(-2, bstr(&x))]);
    assert_eq!(
        Ed25519PublicKey::deserialize(&ed),
        Err(Error::MissingField(Field::Crv))
    );
    let totp = map(2, &[entry(1, small(4)), entry(3, small(-9))]);
    assert_eq!(TotpPublicKey::deserialize(&totp), Ok(TotpPublicKey {}));
    let totp_with_crv = map(3, &[entry(1, small(4)), entry(3, small(-9)), entry(-1, small(1))]);
    assert_eq!(TotpPublicKey::deserialize(&totp_with_crv), Ok(TotpPublicKey {}));
}

#[test]
fn extra_coordinate_is_ignored() {
    let x = counting(32);
    let fields = p256_entries(&x, &[1, 2, 3]);
    let ed = [entry(1, small(1)), entry(3, small(-8)), entry(-1, small(6)), fields[3].clone(), fields[4].clone()];
    let key = Ed25519PublicKey { x: Bytes::from_slice(&x).unwrap() };
    assert_eq!(Ed25519PublicKey::deserialize(&map(5, &ed)), Ok(key));
}

#[test]
fn kty_errors() {
    let x = counting(32);
    let mut fields = p256_entries(&x, &x);
    fields.remove(0);
    assert_eq!(
        P256PublicKey::deserialize(&map(4, &fields)),
        Err(Error::MissingField(Field::Kty))
    );
    let mut fields = p256_entries(&x, &x);
    fields[0] = entry(1, small(1));
    assert_eq!(
        P256PublicKey::deserialize(&map(5, &fields)),
        Err(Error::WrongValue(Field::Kty))
    );
    let mut fields = p256_entries(&x, &x);
    fields[0] = entry(1, small(3));
    assert_eq!(P256PublicKey::deserialize(&map(5, &fields)), Err(Error::Malformed));
}

#[test]
fn missing_coordinates() {
    let x = counting(32);
    let fields = p256_entries(&x, &x);
    assert_eq!(
        P256PublicKey::deserialize(&map(4, &fields[..4])),
        Err(Error::MissingField(Field::Y))
    );
    let without_x = [fields[0].clone(), fields[1].clone(), fields[2].clone(), fields[4].clone()];
    assert_eq!(
        EcdhEsHkdf256PublicKey::deserialize(&map(4, &[
            entry(1, small(2)),
            entry(3, small(-25)),
            entry(-1, small(1)),
            fields[4].clone(),
        ])),
        Err(Error::MissingField(Field::X))
    );
    assert_eq!(
        P256PublicKey::deserialize(&map(4, &without_x)),
        Err(Error::MissingField(Field::X))
    );
}

#[test]
fn duplicate_label_is_out_of_order() {
    let x = counting(32);
    let mut fields = p256_entries(&x, &x);
    fields.insert(1, entry(1, small(2)));
    assert_eq!(P256PublicKey::deserialize(&map(6, &fields)), Err(Error::OutOfOrder));
    let mut fields = p256_entries(&x, &x);
    fields.push(entry(-3, bstr(&x)));
    assert_eq!(P256PublicKey::deserialize(&map(6, &fields)), Err(Error::OutOfOrder));
}

#[test]
fn structural_errors() {
    let key = p256(&[0xff; 32], &[0xff; 32]);
    let bytes = key.serialize();
    assert_eq!(P256PublicKey::deserialize(&bytes[..bytes.len() - 1]), Err(Error::Truncated));
    assert_eq!(P256PublicKey::deserialize(&bytes[..1]), Err(Error::Truncated));
    assert_eq!(P256PublicKey::deserialize(&[]), Err(Error::Truncated));
    // more entries announced than present
    let mut short = bytes.clone();
    short[0] = 0xa6;
    assert_eq!(P256PublicKey::deserialize(&short), Err(Error::Truncated));
    // not a map
    assert_eq!(P256PublicKey::deserialize(&[0x01]), Err(Error::Malformed));
    // a label written longer than needed
    assert_eq!(P256PublicKey::deserialize(&[0xa1, 0x18, 0x01, 0x02]), Err(Error::Malformed));
    // a label beyond the small-integer range
    assert_eq!(P256PublicKey::deserialize(&[0xa1, 0x18, 0xc8, 0x02]), Err(Error::Malformed));
    // a coordinate given as an integer
    let fields = [entry(1, small(2)), entry(3, small(-7)), entry(-1, small(1)), entry(-2, small(5))];
    assert_eq!(P256PublicKey::deserialize(&map(4, &fields)), Err(Error::Malformed));
}

#[test]
fn coordinate_over_capacity() {
    let long = counting(33);
    let fields = p256_entries(&long, &counting(32));
    assert_eq!(P256PublicKey::deserialize(&map(5, &fields)), Err(Error::Capacity));
}

#[test]
fn raw_record_keeps_present_slots_in_order() {
    let x = counting(7);
    let raw = RawEcPublicKey {
        kty: None,
        alg: Some(Alg::EdDsa),
        crv: None,
        x: None,
        y: Some(Bytes::from_slice(&x).unwrap()),
    };
    let bytes = raw.serialize();
    assert_eq!(bytes, map(2, &[entry(3, small(-8)), entry(-3, bstr(&x))]));
    let back = RawEcPublicKey::deserialize(&bytes).unwrap();
    assert_eq!(back.kty, None);
    assert_eq!(back.alg, Some(Alg::EdDsa));
    assert_eq!(back.crv, None);
    assert!(back.x.is_none());
    assert_eq!(back.y.unwrap().as_slice(), &x[..]);
    assert_eq!(RawEcPublicKey::empty().serialize(), vec![0xa0]);
}

#[test]
fn key_constants_check() {
    let c = P256PublicKey::constants();
    assert_eq!(c, KeyConstants { kty: Kty::Ec2, alg: Alg::Es256, crv: Crv::P256 });
    assert_eq!(check_key_constants(Some(Kty::Ec2), None, Some(Crv::P256), c), Ok(()));
    assert_eq!(
        check_key_constants(None, None, Some(Crv::P256), c),
        Err(Error::MissingField(Field::Kty))
    );
    assert_eq!(
        check_key_constants(Some(Kty::Ec2), Some(Alg::EdDsa), Some(Crv::P256), c),
        Err(Error::WrongValue(Field::Alg))
    );
    assert_eq!(
        check_key_constants(Some(Kty::Ec2), None, Some(Crv::X25519), c),
        Err(Error::WrongValue(Field::Crv))
    );
    let t = TotpPublicKey::constants();
    assert_eq!(t.crv, Crv::NoCurve);
    assert_eq!(check_key_constants(Some(Kty::Symmetric), None, None, t), Ok(()));
    assert_eq!(EcdhEsHkdf256PublicKey::constants().alg, Alg::EcdhEsHkdf256);
    assert_eq!(Ed25519PublicKey::constants().crv, Crv::Ed25519);
}

#[test]
fn table_values() {
    assert_eq!(Label::Kty.value(), 1);
    assert_eq!(Label::Alg.value(), 3);
    assert_eq!(Label::CrvOrPk.value(), -1);
    assert_eq!(Label::X.value(), -2);
    assert_eq!(Label::Y.value(), -3);
    assert_eq!(Label::try_from(-3), Some(Label::Y));
    assert_eq!(Label::try_from(2), None);
    assert_eq!(Kty::Symmetric.value(), 4);
    assert_eq!(Kty::try_from(2), Some(Kty::Ec2));
    assert_eq!(Kty::try_from(3), None);
    assert_eq!(Alg::EcdhEsHkdf256.value(), -25);
    assert_eq!(Alg::try_from(-9), Some(Alg::Totp));
    assert_eq!(Crv::Ed25519.value(), 6);
    assert_eq!(Crv::try_from(0), Some(Crv::NoCurve));
    assert_eq!(Crv::try_from(2), None);
}

#[test]
fn public_key_from_variants() {
    let key = p256(&[1; 32], &[2; 32]);
    assert_eq!(PublicKey::from(key.clone()), PublicKey::P256Key(key.clone()));
    assert_eq!(PublicKey::from(key.clone()).serialize(), key.serialize());
    let totp = TotpPublicKey {};
    assert_eq!(PublicKey::from(totp.clone()).serialize(), totp.serialize());
    let ed = Ed25519PublicKey { x: Bytes::from_slice(&[3; 32]).unwrap() };
    assert_eq!(PublicKey::from(ed.clone()), PublicKey::Ed25519Key(ed));
    let raw = RawEcPublicKey::from(key);
    assert_eq!(raw.kty, Some(Kty::Ec2));
    assert_eq!(raw.crv, Some(Crv::P256));
}

#[test]
fn decoder_steps() {
    assert_eq!(decide(0, None), Step::Stop);
    assert_eq!(decide(0, Some(1)), Step::Read(Label::Kty));
    assert_eq!(decide(1, Some(1)), Step::Refuse);
    assert_eq!(decide(1, Some(-1)), Step::Read(Label::CrvOrPk));
    assert_eq!(decide(3, Some(-1)), Step::Refuse);
    assert_eq!(decide(4, Some(-3)), Step::Read(Label::Y));
    assert_eq!(decide(5, Some(-3)), Step::Refuse);
    assert_eq!(decide(5, Some(42)), Step::Stop);
    assert_eq!(decide(0, Some(2)), Step::Stop);
}

#[test]
fn present_labels_in_canonical_order() {
    let key = p256(&[7; 32], &[8; 32]);
    let raw = RawEcPublicKey::from(key);
    assert_eq!(
        raw.present_labels(),
        vec![Label::Kty, Label::Alg, Label::CrvOrPk, Label::X, Label::Y]
    );
    let raw = RawEcPublicKey::from(TotpPublicKey {});
    assert_eq!(raw.present_labels(), vec![Label::Kty, Label::Alg]);
    assert_eq!(RawEcPublicKey::empty().present_labels(), vec![]);
}

#[test]
fn typed_keys_from_records() {
    let x = counting(32);
    let raw = RawEcPublicKey {
        kty: Some(Kty::Okp),
        alg: None,
        crv: Some(Crv::Ed25519),
        x: Some(Bytes::from_slice(&x).unwrap()),
        y: None,
    };
    let key = Ed25519PublicKey::from_raw(raw.clone()).unwrap();
    assert_eq!(key.x.as_slice(), &x[..]);
    assert_eq!(P256PublicKey::from_raw(raw.clone()), Err(Error::WrongValue(Field::Kty)));
    assert_eq!(TotpPublicKey::from_raw(raw), Err(Error::WrongValue(Field::Kty)));
    let raw = RawEcPublicKey {
        kty: Some(Kty::Ec2),
        alg: Some(Alg::EcdhEsHkdf256),
        crv: Some(Crv::P256),
        x: Some(Bytes::from_slice(&x).unwrap()),
        y: None,
    };
    assert_eq!(
        EcdhEsHkdf256PublicKey::from_raw(raw.clone()),
        Err(Error::MissingField(Field::Y))
    );
    assert_eq!(P256PublicKey::from_raw(raw), Err(Error::WrongValue(Field::Alg)));
}
