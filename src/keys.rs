//! The typed key variants. Each fixes a (kty, alg, crv) triple that is not
//! stored but written on encoding and checked on decoding, and carries the
//! coordinates that its shape needs.
use vstd::prelude::*;
use crate::buffer::{copy32, content32};
use crate::label::{Alg, Crv, Error, Field, Kty};
use crate::pqc::{Dilithium2PublicKey, Dilithium3PublicKey, Dilithium5PublicKey};
use crate::raw::{raw_encoding, record_decoding, RawEcPublicKey, RawView, RecordKind};
use heapless_bytes::Bytes;

verus! {

/// The (kty, alg, crv) triple that a key variant requires.
#[derive(Clone, Copy, Debug, PartialEq, Eq, Structural)]
pub struct KeyConstants {
    pub kty: Kty,
    pub alg: Alg,
    pub crv: Crv,
}

/// How the identity fields of a record compare with a variant's triple:
/// kty must be present and equal; alg may be absent but, if present, must be
/// equal; crv must be present and equal unless the variant has no curve.
pub open spec fn constants_check(
    kty: Option<Kty>,
    alg: Option<Alg>,
    crv: Option<Crv>,
    c: KeyConstants,
) -> Result<(), Error> {
    if kty is None {
        Err(Error::MissingField(Field::Kty))
    } else if kty != Some(c.kty) {
        Err(Error::WrongValue(Field::Kty))
    } else if alg is Some && alg != Some(c.alg) {
        Err(Error::WrongValue(Field::Alg))
    } else if c.crv != Crv::NoCurve && crv is None {
        Err(Error::MissingField(Field::Crv))
    } else if c.crv != Crv::NoCurve && crv != Some(c.crv) {
        Err(Error::WrongValue(Field::Crv))
    } else {
        Ok(())
    }
}

/// Checks the identity fields of a record against a variant's triple.
pub fn check_key_constants(
    kty: Option<Kty>,
    alg: Option<Alg>,
    crv: Option<Crv>,
    c: KeyConstants,
) -> (r: Result<(), Error>)
    ensures
        r == constants_check(kty, alg, crv, c),
{
    let kty = match kty {
        Some(k) => k,
        None => return Err(Error::MissingField(Field::Kty)),
    };
    if kty != c.kty {
        return Err(Error::WrongValue(Field::Kty));
    }
    if let Some(alg) = alg {
        if alg != c.alg {
            return Err(Error::WrongValue(Field::Alg));
        }
    }
    if c.crv != Crv::NoCurve {
        let crv = match crv {
            Some(crv) => crv,
            None => return Err(Error::MissingField(Field::Crv)),
        };
        if crv != c.crv {
            return Err(Error::WrongValue(Field::Crv));
        }
    }
    Ok(())
}

/// What a key variant carries besides its triple.
pub enum Shape {
    /// Read from an elliptic-curve record: an x coordinate if `has_x`, a y
    /// coordinate if `has_y`.
    Curve { has_x: bool, has_y: bool },
    /// Read from an opaque-key record: one public key of at most `cap` bytes.
    Opaque { cap: nat },
}

pub open spec fn curve(has_x: bool, has_y: bool) -> Shape {
    Shape::Curve { has_x, has_y }
}

pub open spec fn opaque(cap: nat) -> Shape {
    Shape::Opaque { cap }
}

/// The record that a variant of this shape is read from.
pub open spec fn shape_kind(shape: Shape) -> RecordKind {
    match shape {
        Shape::Curve { .. } => RecordKind::Ec,
        Shape::Opaque { cap } => RecordKind::Opaque { cap },
    }
}

/// The payload of a key, `v`, fits a variant of this shape: each coordinate
/// or key fits its buffer, and what the variant does not carry is empty.
pub open spec fn payload_valid(shape: Shape, v: (Seq<u8>, Seq<u8>)) -> bool {
    match shape {
        Shape::Curve { has_x, has_y } => {
            &&& v.0.len() <= 32
            &&& v.1.len() <= 32
            &&& !has_x ==> v.0 == Seq::<u8>::empty()
            &&& !has_y ==> v.1 == Seq::<u8>::empty()
        },
        Shape::Opaque { cap } => {
            &&& cap < 65536
            &&& v.0.len() <= cap
            &&& v.1 == Seq::<u8>::empty()
        },
    }
}

/// The key that a record stands for, for a variant with triple `c` and the
/// given shape. The payload is the pair of coordinates, or the public key
/// and an empty second part. A coordinate that the variant does not carry is
/// empty in the result, whatever the record holds.
pub open spec fn key_from_raw(r: RawView, c: KeyConstants, shape: Shape) -> Result<
    (Seq<u8>, Seq<u8>),
    Error,
> {
    match constants_check(r.kty, r.alg, r.crv, c) {
        Err(e) => Err(e),
        Ok(_) => match shape {
            Shape::Curve { has_x, has_y } => if has_x && r.x is None {
                Err(Error::MissingField(Field::X))
            } else if has_y && r.y is None {
                Err(Error::MissingField(Field::Y))
            } else {
                Ok(
                    (
                        if has_x { r.x->Some_0 } else { seq![] },
                        if has_y { r.y->Some_0 } else { seq![] },
                    ),
                )
            },
            Shape::Opaque { cap } => if r.pk is None {
                Err(Error::MissingField(Field::Pk))
            } else if r.pk->Some_0.len() > cap {
                Err(Error::Capacity)
            } else {
                Ok((r.pk->Some_0, seq![]))
            },
        },
    }
}

/// What decoding the bytes `b` as such a variant gives.
pub open spec fn key_decoding(b: Seq<u8>, c: KeyConstants, shape: Shape) -> Result<
    (Seq<u8>, Seq<u8>),
    Error,
> {
    match record_decoding(b, shape_kind(shape)) {
        Err(e) => Err(e),
        Ok(r) => key_from_raw(r, c, shape),
    }
}

/// The record of an elliptic-curve key: the triple, with crv left out when
/// the variant has no curve, and the coordinates.
pub open spec fn key_raw(c: KeyConstants, x: Option<Seq<u8>>, y: Option<Seq<u8>>) -> RawView {
    RawView {
        kty: Some(c.kty),
        alg: Some(c.alg),
        crv: if c.crv == Crv::NoCurve { None } else { Some(c.crv) },
        x,
        y,
        pk: None,
    }
}

/// The record of a key of such a variant with payload `v`; a coordinate
/// that the variant does not carry is left out.
pub open spec fn variant_raw(c: KeyConstants, shape: Shape, v: (Seq<u8>, Seq<u8>)) -> RawView {
    match shape {
        Shape::Curve { has_x, has_y } => key_raw(
            c,
            if has_x { Some(v.0) } else { None },
            if has_y { Some(v.1) } else { None },
        ),
        Shape::Opaque { .. } => RawView {
            kty: Some(c.kty),
            alg: Some(c.alg),
            crv: None,
            x: None,
            y: None,
            pk: Some(v.0),
        },
    }
}

/// The canonical encoding of a key of such a variant with payload `v`.
pub open spec fn key_encoding(c: KeyConstants, shape: Shape, v: (Seq<u8>, Seq<u8>)) -> Seq<u8> {
    raw_encoding(variant_raw(c, shape, v))
}

/// The fixed triple of a key variant.
pub trait PublicKeyConstants {
    spec fn spec_constants() -> KeyConstants;

    fn constants() -> (c: KeyConstants)
        ensures
            c == Self::spec_constants(),
    ;
}

/// An ECDSA P-256 public key (kty EC2, alg ES256, crv P-256).
#[derive(Clone, Debug, PartialEq, Eq)]
pub struct P256PublicKey {
    pub x: Bytes<32>,
    pub y: Bytes<32>,
}

impl View for P256PublicKey {
    type V = (Seq<u8>, Seq<u8>);

    open spec fn view(&self) -> (Seq<u8>, Seq<u8>) {
        (content32(self.x), content32(self.y))
    }
}

impl PublicKeyConstants for P256PublicKey {
    open spec fn spec_constants() -> KeyConstants {
        KeyConstants { kty: Kty::Ec2, alg: Alg::Es256, crv: Crv::P256 }
    }

    fn constants() -> (c: KeyConstants) {
        KeyConstants { kty: Kty::Ec2, alg: Alg::Es256, crv: Crv::P256 }
    }
}

impl From<P256PublicKey> for RawEcPublicKey {
    fn from(key: P256PublicKey) -> (r: RawEcPublicKey) {
        let c = P256PublicKey::constants();
        RawEcPublicKey { kty: Some(c.kty), alg: Some(c.alg), crv: Some(c.crv), x: Some(key.x), y: Some(key.y) }
    }
}

impl vstd::std_specs::convert::FromSpecImpl<P256PublicKey> for RawEcPublicKey {
    open spec fn obeys_from_spec() -> bool {
        true
    }

    open spec fn from_spec(key: P256PublicKey) -> RawEcPublicKey {
        RawEcPublicKey { kty: Some(Kty::Ec2), alg: Some(Alg::Es256), crv: Some(Crv::P256), x: Some(key.x), y: Some(key.y) }
    }
}

impl P256PublicKey {
    /// The canonical encoding of a key with coordinates `v`.
    pub open spec fn wire(v: (Seq<u8>, Seq<u8>)) -> Seq<u8> {
        key_encoding(Self::spec_constants(), curve(true, true), v)
    }

    /// What decoding `b` as such a key gives.
    pub open spec fn parse(b: Seq<u8>) -> Result<(Seq<u8>, Seq<u8>), Error> {
        key_decoding(b, Self::spec_constants(), curve(true, true))
    }

    /// The key that a decoded record stands for.
    pub fn from_raw(raw: RawEcPublicKey) -> (r: Result<Self, Error>)
        ensures
            r is Ok <==> key_from_raw(raw@, Self::spec_constants(), curve(true, true)) is Ok,
            r is Ok ==> key_from_raw(raw@, Self::spec_constants(), curve(true, true))->Ok_0 == r->Ok_0@,
            r is Err ==> key_from_raw(raw@, Self::spec_constants(), curve(true, true))->Err_0 == r->Err_0,
    {
        let RawEcPublicKey { kty, alg, crv, x, y } = raw;
        check_key_constants(kty, alg, crv, Self::constants())?;
        let x = match x {
            Some(x) => x,
            None => return Err(Error::MissingField(Field::X)),
        };
        let y = match y {
            Some(y) => y,
            None => return Err(Error::MissingField(Field::Y)),
        };
        Ok(Self { x, y })
    }

    /// Decodes a key of this variant from its COSE_Key map.
    pub fn deserialize(b: &[u8]) -> (r: Result<Self, Error>)
        ensures
            r is Ok <==> Self::parse(b@) is Ok,
            r is Ok ==> Self::parse(b@)->Ok_0 == r->Ok_0@,
            r is Err ==> Self::parse(b@)->Err_0 == r->Err_0,
    {
        let raw = RawEcPublicKey::deserialize(b)?;
        Self::from_raw(raw)
    }

    /// Encodes the key as its canonical COSE_Key map.
    pub fn serialize(&self) -> (r: Vec<u8>)
        ensures
            r@ == Self::wire(self@),
    {
        let key = Self { x: copy32(&self.x), y: copy32(&self.y) };
        RawEcPublicKey::from(key).serialize()
    }
}

/// An ECDH-ES + HKDF-256 key-agreement public key on P-256 (kty EC2).
#[derive(Clone, Debug, PartialEq, Eq)]
pub struct EcdhEsHkdf256PublicKey {
    pub x: Bytes<32>,
    pub y: Bytes<32>,
}

impl View for EcdhEsHkdf256PublicKey {
    type V = (Seq<u8>, Seq<u8>);

    open spec fn view(&self) -> (Seq<u8>, Seq<u8>) {
        (content32(self.x), content32(self.y))
    }
}

impl PublicKeyConstants for EcdhEsHkdf256PublicKey {
    open spec fn spec_constants() -> KeyConstants {
        KeyConstants { kty: Kty::Ec2, alg: Alg::EcdhEsHkdf256, crv: Crv::P256 }
    }

    fn constants() -> (c: KeyConstants) {
        KeyConstants { kty: Kty::Ec2, alg: Alg::EcdhEsHkdf256, crv: Crv::P256 }
    }
}

impl From<EcdhEsHkdf256PublicKey> for RawEcPublicKey {
    fn from(key: EcdhEsHkdf256PublicKey) -> (r: RawEcPublicKey) {
        let c = EcdhEsHkdf256PublicKey::constants();
        RawEcPublicKey { kty: Some(c.kty), alg: Some(c.alg), crv: Some(c.crv), x: Some(key.x), y: Some(key.y) }
    }
}

impl vstd::std_specs::convert::FromSpecImpl<EcdhEsHkdf256PublicKey> for RawEcPublicKey {
    open spec fn obeys_from_spec() -> bool {
        true
    }

    open spec fn from_spec(key: EcdhEsHkdf256PublicKey) -> RawEcPublicKey {
        RawEcPublicKey {
            kty: Some(Kty::Ec2),
            alg: Some(Alg::EcdhEsHkdf256),
            crv: Some(Crv::P256),
            x: Some(key.x),
            y: Some(key.y),
        }
    }
}

impl EcdhEsHkdf256PublicKey {
    /// The canonical encoding of a key with coordinates `v`.
    pub open spec fn wire(v: (Seq<u8>, Seq<u8>)) -> Seq<u8> {
        key_encoding(Self::spec_constants(), curve(true, true), v)
    }

    /// What decoding `b` as such a key gives.
    pub open spec fn parse(b: Seq<u8>) -> Result<(Seq<u8>, Seq<u8>), Error> {
        key_decoding(b, Self::spec_constants(), curve(true, true))
    }

    /// The key that a decoded record stands for.
    pub fn from_raw(raw: RawEcPublicKey) -> (r: Result<Self, Error>)
        ensures
            r is Ok <==> key_from_raw(raw@, Self::spec_constants(), curve(true, true)) is Ok,
            r is Ok ==> key_from_raw(raw@, Self::spec_constants(), curve(true, true))->Ok_0 == r->Ok_0@,
            r is Err ==> key_from_raw(raw@, Self::spec_constants(), curve(true, true))->Err_0 == r->Err_0,
    {
        let RawEcPublicKey { kty, alg, crv, x, y } = raw;
        check_key_constants(kty, alg, crv, Self::constants())?;
        let x = match x {
            Some(x) => x,
            None => return Err(Error::MissingField(Field::X)),
        };
        let y = match y {
            Some(y) => y,
            None => return Err(Error::MissingField(Field::Y)),
        };
        Ok(Self { x, y })
    }

    /// Decodes a key of this variant from its COSE_Key map.
    pub fn deserialize(b: &[u8]) -> (r: Result<Self, Error>)
        ensures
            r is Ok <==> Self::parse(b@) is Ok,
            r is Ok ==> Self::parse(b@)->Ok_0 == r->Ok_0@,
            r is Err ==> Self::parse(b@)->Err_0 == r->Err_0,
    {
        let raw = RawEcPublicKey::deserialize(b)?;
        Self::from_raw(raw)
    }

    /// Encodes the key as its canonical COSE_Key map.
    pub fn serialize(&self) -> (r: Vec<u8>)
        ensures
            r@ == Self::wire(self@),
    {
        let key = Self { x: copy32(&self.x), y: copy32(&self.y) };
        RawEcPublicKey::from(key).serialize()
    }
}

/// An EdDSA public key on Ed25519 (kty OKP): one coordinate, no y.
#[derive(Clone, Debug, PartialEq, Eq)]
pub struct Ed25519PublicKey {
    pub x: Bytes<32>,
}

impl View for Ed25519PublicKey {
    type V = (Seq<u8>, Seq<u8>);

    open spec fn view(&self) -> (Seq<u8>, Seq<u8>) {
        (content32(self.x), seq![])
    }
}

impl PublicKeyConstants for Ed25519PublicKey {
    open spec fn spec_constants() -> KeyConstants {
        KeyConstants { kty: Kty::Okp, alg: Alg::EdDsa, crv: Crv::Ed25519 }
    }

    fn constants() -> (c: KeyConstants) {
        KeyConstants { kty: Kty::Okp, alg: Alg::EdDsa, crv: Crv::Ed25519 }
    }
}

impl From<Ed25519PublicKey> for RawEcPublicKey {
    fn from(key: Ed25519PublicKey) -> (r: RawEcPublicKey) {
        let c = Ed25519PublicKey::constants();
        RawEcPublicKey { kty: Some(c.kty), alg: Some(c.alg), crv: Some(c.crv), x: Some(key.x), y: None }
    }
}

impl vstd::std_specs::convert::FromSpecImpl<Ed25519PublicKey> for RawEcPublicKey {
    open spec fn obeys_from_spec() -> bool {
        true
    }

    open spec fn from_spec(key: Ed25519PublicKey) -> RawEcPublicKey {
        RawEcPublicKey { kty: Some(Kty::Okp), alg: Some(Alg::EdDsa), crv: Some(Crv::Ed25519), x: Some(key.x), y: None }
    }
}

impl Ed25519PublicKey {
    /// The canonical encoding of a key with coordinate `v.0`.
    pub open spec fn wire(v: (Seq<u8>, Seq<u8>)) -> Seq<u8> {
        key_encoding(Self::spec_constants(), curve(true, false), v)
    }

    /// What decoding `b` as such a key gives; a y coordinate is ignored.
    pub open spec fn parse(b: Seq<u8>) -> Result<(Seq<u8>, Seq<u8>), Error> {
        key_decoding(b, Self::spec_constants(), curve(true, false))
    }

    /// The key that a decoded record stands for.
    pub fn from_raw(raw: RawEcPublicKey) -> (r: Result<Self, Error>)
        ensures
            r is Ok <==> key_from_raw(raw@, Self::spec_constants(), curve(true, false)) is Ok,
            r is Ok ==> key_from_raw(raw@, Self::spec_constants(), curve(true, false))->Ok_0 == r->Ok_0@,
            r is Err ==> key_from_raw(raw@, Self::spec_constants(), curve(true, false))->Err_0 == r->Err_0,
    {
        let RawEcPublicKey { kty, alg, crv, x, .. } = raw;
        check_key_constants(kty, alg, crv, Self::constants())?;
        let x = match x {
            Some(x) => x,
            None => return Err(Error::MissingField(Field::X)),
        };
        Ok(Self { x })
    }

    /// Decodes a key of this variant from its COSE_Key map.
    pub fn deserialize(b: &[u8]) -> (r: Result<Self, Error>)
        ensures
            r is Ok <==> Self::parse(b@) is Ok,
            r is Ok ==> Self::parse(b@)->Ok_0 == r->Ok_0@,
            r is Err ==> Self::parse(b@)->Err_0 == r->Err_0,
    {
        let raw = RawEcPublicKey::deserialize(b)?;
        Self::from_raw(raw)
    }

    /// Encodes the key as its canonical COSE_Key map.
    pub fn serialize(&self) -> (r: Vec<u8>)
        ensures
            r@ == Self::wire(self@),
    {
        let key = Self { x: copy32(&self.x) };
        RawEcPublicKey::from(key).serialize()
    }
}

/// The marker key of a TOTP secret (kty Symmetric): no curve, no payload.
#[derive(Clone, Debug, Default, PartialEq, Eq)]
pub struct TotpPublicKey {}

impl View for TotpPublicKey {
    type V = (Seq<u8>, Seq<u8>);

    open spec fn view(&self) -> (Seq<u8>, Seq<u8>) {
        (seq![], seq![])
    }
}

impl PublicKeyConstants for TotpPublicKey {
    open spec fn spec_constants() -> KeyConstants {
        KeyConstants { kty: Kty::Symmetric, alg: Alg::Totp, crv: Crv::NoCurve }
    }

    fn constants() -> (c: KeyConstants) {
        KeyConstants { kty: Kty::Symmetric, alg: Alg::Totp, crv: Crv::NoCurve }
    }
}

impl From<TotpPublicKey> for RawEcPublicKey {
    fn from(key: TotpPublicKey) -> (r: RawEcPublicKey) {
        let c = TotpPublicKey::constants();
        RawEcPublicKey { kty: Some(c.kty), alg: Some(c.alg), crv: None, x: None, y: None }
    }
}

impl vstd::std_specs::convert::FromSpecImpl<TotpPublicKey> for RawEcPublicKey {
    open spec fn obeys_from_spec() -> bool {
        true
    }

    open spec fn from_spec(key: TotpPublicKey) -> RawEcPublicKey {
        RawEcPublicKey { kty: Some(Kty::Symmetric), alg: Some(Alg::Totp), crv: None, x: None, y: None }
    }
}

impl TotpPublicKey {
    pub open spec fn wire(v: (Seq<u8>, Seq<u8>)) -> Seq<u8> {
        key_encoding(Self::spec_constants(), curve(false, false), v)
    }

    /// What decoding `b` as such a key gives; coordinates are ignored.
    pub open spec fn parse(b: Seq<u8>) -> Result<(Seq<u8>, Seq<u8>), Error> {
        key_decoding(b, Self::spec_constants(), curve(false, false))
    }

    /// The key that a decoded record stands for.
    pub fn from_raw(raw: RawEcPublicKey) -> (r: Result<Self, Error>)
        ensures
            r is Ok <==> key_from_raw(raw@, Self::spec_constants(), curve(false, false)) is Ok,
            r is Ok ==> key_from_raw(raw@, Self::spec_constants(), curve(false, false))->Ok_0 == r->Ok_0@,
            r is Err ==> key_from_raw(raw@, Self::spec_constants(), curve(false, false))->Err_0 == r->Err_0,
    {
        let RawEcPublicKey { kty, alg, crv, .. } = raw;
        check_key_constants(kty, alg, crv, Self::constants())?;
        Ok(Self {})
    }

    /// Decodes a key of this variant from its COSE_Key map.
    pub fn deserialize(b: &[u8]) -> (r: Result<Self, Error>)
        ensures
            r is Ok <==> Self::parse(b@) is Ok,
            r is Ok ==> Self::parse(b@)->Ok_0 == r->Ok_0@,
            r is Err ==> Self::parse(b@)->Err_0 == r->Err_0,
    {
        let raw = RawEcPublicKey::deserialize(b)?;
        Self::from_raw(raw)
    }

    /// Encodes the key as its canonical COSE_Key map.
    pub fn serialize(&self) -> (r: Vec<u8>)
        ensures
            r@ == Self::wire(self@),
    {
        RawEcPublicKey::from(Self {}).serialize()
    }
}

/// An X25519 key-agreement public key, carried as its 32 bytes.
#[derive(Clone, Debug, PartialEq, Eq)]
pub struct X25519PublicKey {
    pub pub_key: Bytes<32>,
}

/// Any one of the key variants, as the caller got it.
#[derive(Clone, Debug, PartialEq, Eq)]
pub enum PublicKey {
    P256Key(P256PublicKey),
    EcdhEsHkdf256Key(EcdhEsHkdf256PublicKey),
    Ed25519Key(Ed25519PublicKey),
    TotpKey(TotpPublicKey),
    Dilithium2(Dilithium2PublicKey),
    Dilithium3(Dilithium3PublicKey),
    Dilithium5(Dilithium5PublicKey),
}

impl PublicKey {
    /// The canonical encoding of the key held.
    pub open spec fn wire(&self) -> Seq<u8> {
        match self {
            PublicKey::P256Key(k) => P256PublicKey::wire(k@),
            PublicKey::EcdhEsHkdf256Key(k) => EcdhEsHkdf256PublicKey::wire(k@),
            PublicKey::Ed25519Key(k) => Ed25519PublicKey::wire(k@),
            PublicKey::TotpKey(k) => TotpPublicKey::wire(k@),
            PublicKey::Dilithium2(k) => Dilithium2PublicKey::wire(k@),
            PublicKey::Dilithium3(k) => Dilithium3PublicKey::wire(k@),
            PublicKey::Dilithium5(k) => Dilithium5PublicKey::wire(k@),
        }
    }

    /// Encodes the key as its canonical COSE_Key map.
    pub fn serialize(&self) -> (r: Vec<u8>)
        ensures
            r@ == self.wire(),
    {
        match self {
            PublicKey::P256Key(k) => k.serialize(),
            PublicKey::EcdhEsHkdf256Key(k) => k.serialize(),
            PublicKey::Ed25519Key(k) => k.serialize(),
            PublicKey::TotpKey(k) => k.serialize(),
            PublicKey::Dilithium2(k) => k.serialize(),
            PublicKey::Dilithium3(k) => k.serialize(),
            PublicKey::Dilithium5(k) => k.serialize(),
        }
    }
}

impl From<P256PublicKey> for PublicKey {
    fn from(key: P256PublicKey) -> (r: PublicKey) {
        PublicKey::P256Key(key)
    }
}

impl vstd::std_specs::convert::FromSpecImpl<P256PublicKey> for PublicKey {
    open spec fn obeys_from_spec() -> bool {
        true
    }

    open spec fn from_spec(key: P256PublicKey) -> PublicKey {
        PublicKey::P256Key(key)
    }
}

impl From<EcdhEsHkdf256PublicKey> for PublicKey {
    fn from(key: EcdhEsHkdf256PublicKey) -> (r: PublicKey) {
        PublicKey::EcdhEsHkdf256Key(key)
    }
}

impl vstd::std_specs::convert::FromSpecImpl<EcdhEsHkdf256PublicKey> for PublicKey {
    open spec fn obeys_from_spec() -> bool {
        true
    }

    open spec fn from_spec(key: EcdhEsHkdf256PublicKey) -> PublicKey {
        PublicKey::EcdhEsHkdf256Key(key)
    }
}

impl From<Ed25519PublicKey> for PublicKey {
    fn from(key: Ed25519PublicKey) -> (r: PublicKey) {
        PublicKey::Ed25519Key(key)
    }
}

impl vstd::std_specs::convert::FromSpecImpl<Ed25519PublicKey> for PublicKey {
    open spec fn obeys_from_spec() -> bool {
        true
    }

    open spec fn from_spec(key: Ed25519PublicKey) -> PublicKey {
        PublicKey::Ed25519Key(key)
    }
}

impl From<TotpPublicKey> for PublicKey {
    fn from(key: TotpPublicKey) -> (r: PublicKey) {
        PublicKey::TotpKey(key)
    }
}

impl vstd::std_specs::convert::FromSpecImpl<TotpPublicKey> for PublicKey {
    open spec fn obeys_from_spec() -> bool {
        true
    }

    open spec fn from_spec(key: TotpPublicKey) -> PublicKey {
        PublicKey::TotpKey(key)
    }
}

impl From<Dilithium2PublicKey> for PublicKey {
    fn from(key: Dilithium2PublicKey) -> (r: PublicKey) {
        PublicKey::Dilithium2(key)
    }
}

impl vstd::std_specs::convert::FromSpecImpl<Dilithium2PublicKey> for PublicKey {
    open spec fn obeys_from_spec() -> bool {
        true
    }

    open spec fn from_spec(key: Dilithium2PublicKey) -> PublicKey {
        PublicKey::Dilithium2(key)
    }
}

impl From<Dilithium3PublicKey> for PublicKey {
    fn from(key: Dilithium3PublicKey) -> (r: PublicKey) {
        PublicKey::Dilithium3(key)
    }
}

impl vstd::std_specs::convert::FromSpecImpl<Dilithium3PublicKey> for PublicKey {
    open spec fn obeys_from_spec() -> bool {
        true
    }

    open spec fn from_spec(key: Dilithium3PublicKey) -> PublicKey {
        PublicKey::Dilithium3(key)
    }
}

impl From<Dilithium5PublicKey> for PublicKey {
    fn from(key: Dilithium5PublicKey) -> (r: PublicKey) {
        PublicKey::Dilithium5(key)
    }
}

impl vstd::std_specs::convert::FromSpecImpl<Dilithium5PublicKey> for PublicKey {
    open spec fn obeys_from_spec() -> bool {
        true
    }

    open spec fn from_spec(key: Dilithium5PublicKey) -> PublicKey {
        PublicKey::Dilithium5(key)
    }
}

} // verus!
