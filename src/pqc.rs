//! Post-quantum keys: the opaque-key record, whose crv-or-pk slot holds the
//! public key as a byte string, and the Dilithium key variants read from it.
//! Each variant keeps its key in a buffer of exactly the size that
//! `pqcrypto_dilithium` gives for its security level.
use vstd::prelude::*;
use crate::buffer::{
    bytes1312_as_slice, bytes1312_from_slice, bytes1952_as_slice, bytes1952_from_slice,
    bytes2592_as_slice, bytes2592_from_slice, content1312, content1952, content2592,
};
use crate::cbor::{read_bstr, read_head, read_int, write_head, MAJOR_MAP};
use crate::keys::{
    check_key_constants, key_decoding, key_encoding, key_from_raw, opaque, variant_raw,
    KeyConstants, PublicKeyConstants,
};
use crate::label::{label_rank, Alg, Crv, Error, Field, Kty, Label};
use crate::raw::{
    decide, entries_at, entries_encoding, entry_label, lemma_encoding_step, raw_encoding,
    raw_entries, record_decoding, slot_at, step_of, write_bstr_entry, write_int_entry, Entry,
    RawView, RecordKind, Step,
};
use heapless_bytes::Bytes;

verus! {

/// The size of a Dilithium2 public key.
pub const DILITHIUM2_PK_LEN: usize = 1312;

/// The size of a Dilithium3 public key.
pub const DILITHIUM3_PK_LEN: usize = 1952;

/// The size of a Dilithium5 public key.
pub const DILITHIUM5_PK_LEN: usize = 2592;

/// Relies on `pqcrypto_dilithium::dilithium2::public_key_bytes`: the size of
/// a Dilithium2 public key.
#[verifier::external_body]
fn dilithium2_public_key_bytes() -> (r: usize)
    ensures
        r == DILITHIUM2_PK_LEN,
{
    pqcrypto_dilithium::dilithium2::public_key_bytes()
}

/// Relies on `pqcrypto_dilithium::dilithium3::public_key_bytes`: the size of
/// a Dilithium3 public key.
#[verifier::external_body]
fn dilithium3_public_key_bytes() -> (r: usize)
    ensures
        r == DILITHIUM3_PK_LEN,
{
    pqcrypto_dilithium::dilithium3::public_key_bytes()
}

/// Relies on `pqcrypto_dilithium::dilithium5::public_key_bytes`: the size of
/// a Dilithium5 public key.
#[verifier::external_body]
fn dilithium5_public_key_bytes() -> (r: usize)
    ensures
        r == DILITHIUM5_PK_LEN,
{
    pqcrypto_dilithium::dilithium5::public_key_bytes()
}

/// The step for the next map key in an opaque-key record: as in an
/// elliptic-curve record, but x and y have no slot and are refused.
pub open spec fn opaque_step_of(next: nat, key: Option<i8>) -> Step {
    match step_of(next, key) {
        Step::Read(l) => if label_rank(l) > 2 {
            Step::Refuse
        } else {
            Step::Read(l)
        },
        other => other,
    }
}

/// Decides what to do with the next map key of an opaque-key record.
pub fn decide_opaque(next: u8, key: Option<i8>) -> (r: Step)
    ensures
        r == opaque_step_of(next as nat, key),
{
    match decide(next, key) {
        Step::Read(l) => if l.rank() > 2 {
            Step::Refuse
        } else {
            Step::Read(l)
        },
        other => other,
    }
}

/// A decoded opaque-key record, with every slot that the map holds before
/// its first unknown label.
#[derive(Clone, Debug)]
pub struct RawPqcPublicKey {
    pub kty: Option<Kty>,
    pub alg: Option<Alg>,
    pub pk: Option<Vec<u8>>,
}

impl View for RawPqcPublicKey {
    type V = RawView;

    open spec fn view(&self) -> RawView {
        RawView {
            kty: self.kty,
            alg: self.alg,
            crv: None,
            x: None,
            y: None,
            pk: match self.pk {
                Some(v) => Some(v@),
                None => None,
            },
        }
    }
}

/// Reads the value of kty, alg or pk into its slot; on success, returns
/// where the value ends.
fn read_pqc_slot(b: &[u8], pos: usize, l: Label, raw: &mut RawPqcPublicKey, cap: u16) -> (r: Result<
    usize,
    Error,
>)
    requires
        label_rank(l) <= 2,
    ensures
        r is Ok <==> slot_at(b@, pos as int, l, old(raw)@, RecordKind::Opaque { cap: cap as nat }) is Ok,
        r is Ok ==> slot_at(b@, pos as int, l, old(raw)@, RecordKind::Opaque { cap: cap as nat })->Ok_0
            == (final(raw)@, r->Ok_0 as int),
        r is Ok ==> r->Ok_0 <= b@.len(),
        r is Err ==> slot_at(b@, pos as int, l, old(raw)@, RecordKind::Opaque { cap: cap as nat })->Err_0
            == r->Err_0,
{
    match l {
        Label::Kty => {
            let (v, next) = read_int(b, pos)?;
            match Kty::try_from(v) {
                Some(k) => {
                    raw.kty = Some(k);
                    Ok(next)
                },
                None => Err(Error::Malformed),
            }
        },
        Label::Alg => {
            let (v, next) = read_int(b, pos)?;
            match Alg::try_from(v) {
                Some(a) => {
                    raw.alg = Some(a);
                    Ok(next)
                },
                None => Err(Error::Malformed),
            }
        },
        _ => {
            let (start, end) = read_bstr(b, pos, cap)?;
            let mut pk: Vec<u8> = Vec::new();
            pk.extend_from_slice(&b[start..end]);
            assert(pk@ =~= b@.subrange(start as int, end as int));
            raw.pk = Some(pk);
            Ok(end)
        },
    }
}

impl RawPqcPublicKey {
    pub fn empty() -> (r: RawPqcPublicKey)
        ensures
            r@ == crate::raw::empty_raw(),
    {
        RawPqcPublicKey { kty: None, alg: None, pk: None }
    }

    /// Decodes an opaque-key record whose key has at most `cap` bytes, in
    /// canonical order only.
    pub fn deserialize(b: &[u8], cap: u16) -> (r: Result<RawPqcPublicKey, Error>)
        ensures
            r is Ok <==> record_decoding(b@, RecordKind::Opaque { cap: cap as nat }) is Ok,
            r is Ok ==> record_decoding(b@, RecordKind::Opaque { cap: cap as nat })->Ok_0 == r->Ok_0@,
            r is Err ==> record_decoding(b@, RecordKind::Opaque { cap: cap as nat })->Err_0
                == r->Err_0,
    {
        let ghost kind = RecordKind::Opaque { cap: cap as nat };
        let (major, count, start) = read_head(b, 0)?;
        if major != MAJOR_MAP {
            return Err(Error::Malformed);
        }
        let mut raw = RawPqcPublicKey::empty();
        let mut pos = start;
        let mut remaining: u16 = count;
        let mut next: u8 = 0;
        while remaining > 0
            invariant
                kind == (RecordKind::Opaque { cap: cap as nat }),
                record_decoding(b@, kind) == entries_at(
                    b@,
                    pos as int,
                    remaining as nat,
                    next as nat,
                    raw@,
                    kind,
                ),
                pos <= b@.len(),
                next <= 5,
            decreases remaining,
        {
            let (k, after_key) = read_int(b, pos)?;
            match decide_opaque(next, Some(k)) {
                Step::Stop => return Ok(raw),
                Step::Refuse => return Err(Error::OutOfOrder),
                Step::Read(l) => {
                    pos = read_pqc_slot(b, after_key, l, &mut raw, cap)?;
                    next = l.rank() + 1;
                    remaining = remaining - 1;
                },
            }
        }
        Ok(raw)
    }

    /// Encodes the present slots as a CBOR map, in canonical order.
    pub fn serialize(&self) -> (r: Vec<u8>)
        requires
            self.pk is Some ==> self.pk->Some_0@.len() < 65536,
        ensures
            r@ == raw_encoding(self@),
    {
        let ghost v = self@;
        let mut count: u16 = 0;
        if self.kty.is_some() {
            count = count + 1;
        }
        if self.alg.is_some() {
            count = count + 1;
        }
        if self.pk.is_some() {
            count = count + 1;
        }
        assert(count == raw_entries(v).len());
        let mut out: Vec<u8> = Vec::new();
        write_head(&mut out, MAJOR_MAP, count);
        let ghost head = out@;
        let ghost mut es: Seq<Entry> = seq![];
        assert(out@ =~= head + entries_encoding(es));
        if let Some(k) = self.kty {
            let ghost before = out@;
            write_int_entry(&mut out, Label::Kty, k.value(), Ghost(Entry::Kty(k)));
            proof {
                lemma_encoding_step(head, es, Entry::Kty(k), before, out@);
                es = es.push(Entry::Kty(k));
            }
        }
        if let Some(a) = self.alg {
            let ghost before = out@;
            write_int_entry(&mut out, Label::Alg, a.value(), Ghost(Entry::Alg(a)));
            proof {
                lemma_encoding_step(head, es, Entry::Alg(a), before, out@);
                es = es.push(Entry::Alg(a));
            }
        }
        if let Some(pk) = &self.pk {
            let s = pk.as_slice();
            let ghost before = out@;
            write_bstr_entry(&mut out, Label::CrvOrPk, s, Ghost(Entry::Pk(s@)));
            proof {
                lemma_encoding_step(head, es, Entry::Pk(s@), before, out@);
                es = es.push(Entry::Pk(s@));
            }
        }
        assert(es =~= raw_entries(v));
        out
    }

    /// The labels of the present slots, in canonical order.
    pub fn present_labels(&self) -> (r: Vec<Label>)
        ensures
            r@ == raw_entries(self@).map_values(|e: Entry| entry_label(e)),
    {
        let ghost v = self@;
        let mut out: Vec<Label> = Vec::new();
        let ghost mut es: Seq<Entry> = seq![];
        if let Some(k) = self.kty {
            out.push(Label::Kty);
            proof {
                es = es.push(Entry::Kty(k));
            }
        }
        assert(out@ =~= es.map_values(|e: Entry| entry_label(e)));
        if let Some(a) = self.alg {
            out.push(Label::Alg);
            proof {
                es = es.push(Entry::Alg(a));
            }
        }
        assert(out@ =~= es.map_values(|e: Entry| entry_label(e)));
        if self.pk.is_some() {
            out.push(Label::CrvOrPk);
            proof {
                es = es.push(Entry::Pk(v.pk->Some_0));
            }
        }
        assert(out@ =~= es.map_values(|e: Entry| entry_label(e)));
        assert(es =~= raw_entries(v));
        out
    }
}

/// A Dilithium2 public key (kty PQC, alg Dilithium2, no curve).
#[derive(Clone, Debug, PartialEq, Eq)]
pub struct Dilithium2PublicKey {
    pub pk: Bytes<DILITHIUM2_PK_LEN>,
}

impl View for Dilithium2PublicKey {
    type V = (Seq<u8>, Seq<u8>);

    open spec fn view(&self) -> (Seq<u8>, Seq<u8>) {
        (content1312(self.pk), seq![])
    }
}

impl PublicKeyConstants for Dilithium2PublicKey {
    open spec fn spec_constants() -> KeyConstants {
        KeyConstants { kty: Kty::Pqc, alg: Alg::Dilithium2, crv: Crv::NoCurve }
    }

    fn constants() -> (c: KeyConstants) {
        KeyConstants { kty: Kty::Pqc, alg: Alg::Dilithium2, crv: Crv::NoCurve }
    }
}

impl Dilithium2PublicKey {
    /// The canonical encoding of a key with public key `v.0`.
    pub open spec fn wire(v: (Seq<u8>, Seq<u8>)) -> Seq<u8> {
        key_encoding(Self::spec_constants(), opaque(DILITHIUM2_PK_LEN as nat), v)
    }

    /// What decoding `b` as such a key gives.
    pub open spec fn parse(b: Seq<u8>) -> Result<(Seq<u8>, Seq<u8>), Error> {
        key_decoding(b, Self::spec_constants(), opaque(DILITHIUM2_PK_LEN as nat))
    }

    /// The key that a decoded record stands for.
    pub fn from_raw(raw: RawPqcPublicKey) -> (r: Result<Self, Error>)
        ensures
            r is Ok <==> key_from_raw(raw@, Self::spec_constants(), opaque(DILITHIUM2_PK_LEN as nat)) is Ok,
            r is Ok ==> key_from_raw(raw@, Self::spec_constants(), opaque(DILITHIUM2_PK_LEN as nat))->Ok_0
                == r->Ok_0@,
            r is Err ==> key_from_raw(raw@, Self::spec_constants(), opaque(DILITHIUM2_PK_LEN as nat))->Err_0
                == r->Err_0,
    {
        let RawPqcPublicKey { kty, alg, pk } = raw;
        check_key_constants(kty, alg, None, Self::constants())?;
        let pk = match pk {
            Some(pk) => pk,
            None => return Err(Error::MissingField(Field::Pk)),
        };
        match bytes1312_from_slice(pk.as_slice()) {
            Ok(pk) => Ok(Self { pk }),
            Err(_) => Err(Error::Capacity),
        }
    }

    /// Decodes a key of this variant from its COSE_Key map.
    pub fn deserialize(b: &[u8]) -> (r: Result<Self, Error>)
        ensures
            r is Ok <==> Self::parse(b@) is Ok,
            r is Ok ==> Self::parse(b@)->Ok_0 == r->Ok_0@,
            r is Err ==> Self::parse(b@)->Err_0 == r->Err_0,
    {
        let cap = dilithium2_public_key_bytes();
        let raw = RawPqcPublicKey::deserialize(b, cap as u16)?;
        Self::from_raw(raw)
    }

    /// The record of this key: its triple and its public key.
    pub fn to_raw(&self) -> (r: RawPqcPublicKey)
        ensures
            r@ == variant_raw(Self::spec_constants(), opaque(DILITHIUM2_PK_LEN as nat), self@),
            r.pk is Some ==> r.pk->Some_0@.len() <= DILITHIUM2_PK_LEN,
    {
        let c = Self::constants();
        let mut pk: Vec<u8> = Vec::new();
        let bytes = bytes1312_as_slice(&self.pk);
        pk.extend_from_slice(bytes);
        assert(pk@ =~= bytes@);
        RawPqcPublicKey { kty: Some(c.kty), alg: Some(c.alg), pk: Some(pk) }
    }

    /// Encodes the key as its canonical COSE_Key map.
    pub fn serialize(&self) -> (r: Vec<u8>)
        ensures
            r@ == Self::wire(self@),
    {
        self.to_raw().serialize()
    }
}

/// A Dilithium3 public key (kty PQC, alg Dilithium3, no curve).
#[derive(Clone, Debug, PartialEq, Eq)]
pub struct Dilithium3PublicKey {
    pub pk: Bytes<DILITHIUM3_PK_LEN>,
}

impl View for Dilithium3PublicKey {
    type V = (Seq<u8>, Seq<u8>);

    open spec fn view(&self) -> (Seq<u8>, Seq<u8>) {
        (content1952(self.pk), seq![])
    }
}

impl PublicKeyConstants for Dilithium3PublicKey {
    open spec fn spec_constants() -> KeyConstants {
        KeyConstants { kty: Kty::Pqc, alg: Alg::Dilithium3, crv: Crv::NoCurve }
    }

    fn constants() -> (c: KeyConstants) {
        KeyConstants { kty: Kty::Pqc, alg: Alg::Dilithium3, crv: Crv::NoCurve }
    }
}

impl Dilithium3PublicKey {
    /// The canonical encoding of a key with public key `v.0`.
    pub open spec fn wire(v: (Seq<u8>, Seq<u8>)) -> Seq<u8> {
        key_encoding(Self::spec_constants(), opaque(DILITHIUM3_PK_LEN as nat), v)
    }

    /// What decoding `b` as such a key gives.
    pub open spec fn parse(b: Seq<u8>) -> Result<(Seq<u8>, Seq<u8>), Error> {
        key_decoding(b, Self::spec_constants(), opaque(DILITHIUM3_PK_LEN as nat))
    }

    /// The key that a decoded record stands for.
    pub fn from_raw(raw: RawPqcPublicKey) -> (r: Result<Self, Error>)
        ensures
            r is Ok <==> key_from_raw(raw@, Self::spec_constants(), opaque(DILITHIUM3_PK_LEN as nat)) is Ok,
            r is Ok ==> key_from_raw(raw@, Self::spec_constants(), opaque(DILITHIUM3_PK_LEN as nat))->Ok_0
                == r->Ok_0@,
            r is Err ==> key_from_raw(raw@, Self::spec_constants(), opaque(DILITHIUM3_PK_LEN as nat))->Err_0
                == r->Err_0,
    {
        let RawPqcPublicKey { kty, alg, pk } = raw;
        check_key_constants(kty, alg, None, Self::constants())?;
        let pk = match pk {
            Some(pk) => pk,
            None => return Err(Error::MissingField(Field::Pk)),
        };
        match bytes1952_from_slice(pk.as_slice()) {
            Ok(pk) => Ok(Self { pk }),
            Err(_) => Err(Error::Capacity),
        }
    }

    /// Decodes a key of this variant from its COSE_Key map.
    pub fn deserialize(b: &[u8]) -> (r: Result<Self, Error>)
        ensures
            r is Ok <==> Self::parse(b@) is Ok,
            r is Ok ==> Self::parse(b@)->Ok_0 == r->Ok_0@,
            r is Err ==> Self::parse(b@)->Err_0 == r->Err_0,
    {
        let cap = dilithium3_public_key_bytes();
        let raw = RawPqcPublicKey::deserialize(b, cap as u16)?;
        Self::from_raw(raw)
    }

    /// The record of this key: its triple and its public key.
    pub fn to_raw(&self) -> (r: RawPqcPublicKey)
        ensures
            r@ == variant_raw(Self::spec_constants(), opaque(DILITHIUM3_PK_LEN as nat), self@),
            r.pk is Some ==> r.pk->Some_0@.len() <= DILITHIUM3_PK_LEN,
    {
        let c = Self::constants();
        let mut pk: Vec<u8> = Vec::new();
        let bytes = bytes1952_as_slice(&self.pk);
        pk.extend_from_slice(bytes);
        assert(pk@ =~= bytes@);
        RawPqcPublicKey { kty: Some(c.kty), alg: Some(c.alg), pk: Some(pk) }
    }

    /// Encodes the key as its canonical COSE_Key map.
    pub fn serialize(&self) -> (r: Vec<u8>)
        ensures
            r@ == Self::wire(self@),
    {
        self.to_raw().serialize()
    }
}

/// A Dilithium5 public key (kty PQC, alg Dilithium5, no curve).
#[derive(Clone, Debug, PartialEq, Eq)]
pub struct Dilithium5PublicKey {
    pub pk: Bytes<DILITHIUM5_PK_LEN>,
}

impl View for Dilithium5PublicKey {
    type V = (Seq<u8>, Seq<u8>);

    open spec fn view(&self) -> (Seq<u8>, Seq<u8>) {
        (content2592(self.pk), seq![])
    }
}

impl PublicKeyConstants for Dilithium5PublicKey {
    open spec fn spec_constants() -> KeyConstants {
        KeyConstants { kty: Kty::Pqc, alg: Alg::Dilithium5, crv: Crv::NoCurve }
    }

    fn constants() -> (c: KeyConstants) {
        KeyConstants { kty: Kty::Pqc, alg: Alg::Dilithium5, crv: Crv::NoCurve }
    }
}

impl Dilithium5PublicKey {
    /// The canonical encoding of a key with public key `v.0`.
    pub open spec fn wire(v: (Seq<u8>, Seq<u8>)) -> Seq<u8> {
        key_encoding(Self::spec_constants(), opaque(DILITHIUM5_PK_LEN as nat), v)
    }

    /// What decoding `b` as such a key gives.
    pub open spec fn parse(b: Seq<u8>) -> Result<(Seq<u8>, Seq<u8>), Error> {
        key_decoding(b, Self::spec_constants(), opaque(DILITHIUM5_PK_LEN as nat))
    }

    /// The key that a decoded record stands for.
    pub fn from_raw(raw: RawPqcPublicKey) -> (r: Result<Self, Error>)
        ensures
            r is Ok <==> key_from_raw(raw@, Self::spec_constants(), opaque(DILITHIUM5_PK_LEN as nat)) is Ok,
            r is Ok ==> key_from_raw(raw@, Self::spec_constants(), opaque(DILITHIUM5_PK_LEN as nat))->Ok_0
                == r->Ok_0@,
            r is Err ==> key_from_raw(raw@, Self::spec_constants(), opaque(DILITHIUM5_PK_LEN as nat))->Err_0
                == r->Err_0,
    {
        let RawPqcPublicKey { kty, alg, pk } = raw;
        check_key_constants(kty, alg, None, Self::constants())?;
        let pk = match pk {
            Some(pk) => pk,
            None => return Err(Error::MissingField(Field::Pk)),
        };
        match bytes2592_from_slice(pk.as_slice()) {
            Ok(pk) => Ok(Self { pk }),
            Err(_) => Err(Error::Capacity),
        }
    }

    /// Decodes a key of this variant from its COSE_Key map.
    pub fn deserialize(b: &[u8]) -> (r: Result<Self, Error>)
        ensures
            r is Ok <==> Self::parse(b@) is Ok,
            r is Ok ==> Self::parse(b@)->Ok_0 == r->Ok_0@,
            r is Err ==> Self::parse(b@)->Err_0 == r->Err_0,
    {
        let cap = dilithium5_public_key_bytes();
        let raw = RawPqcPublicKey::deserialize(b, cap as u16)?;
        Self::from_raw(raw)
    }

    /// The record of this key: its triple and its public key.
    pub fn to_raw(&self) -> (r: RawPqcPublicKey)
        ensures
            r@ == variant_raw(Self::spec_constants(), opaque(DILITHIUM5_PK_LEN as nat), self@),
            r.pk is Some ==> r.pk->Some_0@.len() <= DILITHIUM5_PK_LEN,
    {
        let c = Self::constants();
        let mut pk: Vec<u8> = Vec::new();
        let bytes = bytes2592_as_slice(&self.pk);
        pk.extend_from_slice(bytes);
        assert(pk@ =~= bytes@);
        RawPqcPublicKey { kty: Some(c.kty), alg: Some(c.alg), pk: Some(pk) }
    }

    /// Encodes the key as its canonical COSE_Key map.
    pub fn serialize(&self) -> (r: Vec<u8>)
        ensures
            r@ == Self::wire(self@),
    {
        self.to_raw().serialize()
    }
}

} // verus!
