//! What holds of the codec as a whole, over every input.
use vstd::prelude::*;
use crate::cbor::{head_encoding, holds_at, int_encoding, lemma_int_at};
use crate::keys::{
    curve, key_decoding, key_encoding, opaque, payload_valid, shape_kind, variant_raw,
    EcdhEsHkdf256PublicKey, Ed25519PublicKey, KeyConstants, P256PublicKey, PublicKeyConstants,
    Shape, TotpPublicKey,
};
use crate::label::{
    alg_of, crv_of, kty_of, label_of, label_rank, label_value, Alg, Crv, Error, Field, Label,
};
use crate::pqc::{Dilithium2PublicKey, Dilithium3PublicKey, Dilithium5PublicKey};
use crate::raw::{
    apply_entries, empty_raw, entries_at, entries_encoding, entries_valid, entry_rank,
    entry_valid, in_order, label_allowed, lemma_holds_split, lemma_map_decoding,
    lemma_record_entries, map_encoding, rank_after, raw_encoding, raw_entries, record_decoding,
    record_valid, slot_at, Entry, RawView, RecordKind,
};

verus! {

/// The entries `es` in the order that `perm` gives: position `i` holds `es[perm[i]]`.
pub open spec fn permuted(es: Seq<Entry>, perm: Seq<int>) -> Seq<Entry> {
    Seq::new(perm.len(), |i: int| es[perm[i]])
}

/// A variant is well formed: one read from an opaque-key record has no curve.
pub open spec fn variant_valid(c: KeyConstants, shape: Shape) -> bool {
    shape is Opaque ==> c.crv == Crv::NoCurve
}

/// A valid record decodes from its canonical encoding to itself.
pub proof fn lemma_record_round_trip(r: RawView, kind: RecordKind)
    requires
        record_valid(r, kind),
    ensures
        record_decoding(raw_encoding(r), kind) == Ok::<RawView, Error>(r),
{
    let es = raw_entries(r);
    lemma_record_entries(r, kind);
    lemma_map_decoding(es, 0, seq![], kind);
    assert(map_encoding(es) + seq![] =~= map_encoding(es));
}

/// Round trip, for every variant: the canonical encoding of a key decodes to
/// the same key. A variant is given by its triple and its shape; the payload
/// fits the shape.
pub proof fn lemma_key_round_trip(c: KeyConstants, shape: Shape, v: (Seq<u8>, Seq<u8>))
    requires
        variant_valid(c, shape),
        payload_valid(shape, v),
    ensures
        key_decoding(key_encoding(c, shape, v), c, shape) == Ok::<(Seq<u8>, Seq<u8>), Error>(v),
{
    lemma_record_round_trip(variant_raw(c, shape, v), shape_kind(shape));
}

/// A P-256 key decodes from its own encoding.
pub proof fn lemma_p256_round_trip(k: P256PublicKey)
    requires
        k@.0.len() <= 32,
        k@.1.len() <= 32,
    ensures
        P256PublicKey::parse(P256PublicKey::wire(k@)) == Ok::<(Seq<u8>, Seq<u8>), Error>(k@),
{
    lemma_key_round_trip(P256PublicKey::spec_constants(), curve(true, true), k@);
}

/// An ECDH-ES key decodes from its own encoding.
pub proof fn lemma_ecdh_round_trip(k: EcdhEsHkdf256PublicKey)
    requires
        k@.0.len() <= 32,
        k@.1.len() <= 32,
    ensures
        EcdhEsHkdf256PublicKey::parse(EcdhEsHkdf256PublicKey::wire(k@)) == Ok::<
            (Seq<u8>, Seq<u8>),
            Error,
        >(k@),
{
    lemma_key_round_trip(EcdhEsHkdf256PublicKey::spec_constants(), curve(true, true), k@);
}

/// An Ed25519 key decodes from its own encoding.
pub proof fn lemma_ed25519_round_trip(k: Ed25519PublicKey)
    requires
        k@.0.len() <= 32,
    ensures
        Ed25519PublicKey::parse(Ed25519PublicKey::wire(k@)) == Ok::<(Seq<u8>, Seq<u8>), Error>(k@),
{
    lemma_key_round_trip(Ed25519PublicKey::spec_constants(), curve(true, false), k@);
}

/// A TOTP key decodes from its own encoding.
pub proof fn lemma_totp_round_trip(k: TotpPublicKey)
    ensures
        TotpPublicKey::parse(TotpPublicKey::wire(k@)) == Ok::<(Seq<u8>, Seq<u8>), Error>(k@),
{
    lemma_key_round_trip(TotpPublicKey::spec_constants(), curve(false, false), k@);
}

/// A Dilithium2 key decodes from its own encoding.
pub proof fn lemma_dilithium2_round_trip(k: Dilithium2PublicKey)
    requires
        k@.0.len() <= crate::pqc::DILITHIUM2_PK_LEN,
    ensures
        Dilithium2PublicKey::parse(Dilithium2PublicKey::wire(k@)) == Ok::<
            (Seq<u8>, Seq<u8>),
            Error,
        >(k@),
{
    lemma_key_round_trip(
        Dilithium2PublicKey::spec_constants(),
        opaque(crate::pqc::DILITHIUM2_PK_LEN as nat),
        k@,
    );
}

/// A Dilithium3 key decodes from its own encoding.
pub proof fn lemma_dilithium3_round_trip(k: Dilithium3PublicKey)
    requires
        k@.0.len() <= crate::pqc::DILITHIUM3_PK_LEN,
    ensures
        Dilithium3PublicKey::parse(Dilithium3PublicKey::wire(k@)) == Ok::<
            (Seq<u8>, Seq<u8>),
            Error,
        >(k@),
{
    lemma_key_round_trip(
        Dilithium3PublicKey::spec_constants(),
        opaque(crate::pqc::DILITHIUM3_PK_LEN as nat),
        k@,
    );
}

/// A Dilithium5 key decodes from its own encoding.
pub proof fn lemma_dilithium5_round_trip(k: Dilithium5PublicKey)
    requires
        k@.0.len() <= crate::pqc::DILITHIUM5_PK_LEN,
    ensures
        Dilithium5PublicKey::parse(Dilithium5PublicKey::wire(k@)) == Ok::<
            (Seq<u8>, Seq<u8>),
            Error,
        >(k@),
{
    lemma_key_round_trip(
        Dilithium5PublicKey::spec_constants(),
        opaque(crate::pqc::DILITHIUM5_PK_LEN as nat),
        k@,
    );
}

proof fn lemma_increasing_above(p: Seq<int>, k: int)
    requires
        0 <= k < p.len(),
        forall|i: int| 0 <= i < p.len() ==> 0 <= #[trigger] p[i],
        forall|i: int, j: int| 0 <= i < j < p.len() ==> #[trigger] p[i] < #[trigger] p[j],
    ensures
        p[k] >= k,
    decreases k,
{
    if k > 0 {
        lemma_increasing_above(p, k - 1);
        assert(p[k - 1] < p[k]);
    }
}

proof fn lemma_increasing_below(p: Seq<int>, k: int)
    requires
        0 <= k < p.len(),
        forall|i: int| 0 <= i < p.len() ==> #[trigger] p[i] < p.len(),
        forall|i: int, j: int| 0 <= i < j < p.len() ==> #[trigger] p[i] < #[trigger] p[j],
    ensures
        p[k] <= k,
    decreases p.len() - k,
{
    if k < p.len() - 1 {
        lemma_increasing_below(p, k + 1);
        assert(p[k] < p[k + 1]);
    }
}

/// Canonical-order rejection: the entries of a valid record, written in any
/// order other than the canonical one, are refused as out of order, by the
/// record decoder and so by every key variant read from such records.
pub proof fn lemma_only_canonical_order(r: RawView, kind: RecordKind, perm: Seq<int>)
    requires
        record_valid(r, kind),
        perm.len() == raw_entries(r).len(),
        forall|i: int| 0 <= i < perm.len() ==> 0 <= #[trigger] perm[i] < perm.len(),
        forall|i: int, j: int| 0 <= i < j < perm.len() ==> #[trigger] perm[i] != #[trigger] perm[j],
        permuted(raw_entries(r), perm) != raw_entries(r),
    ensures
        record_decoding(map_encoding(permuted(raw_entries(r), perm)), kind) == Err::<
            RawView,
            Error,
        >(Error::OutOfOrder),
        forall|c: KeyConstants, shape: Shape|
            shape_kind(shape) == kind ==> key_decoding(
                map_encoding(permuted(raw_entries(r), perm)),
                c,
                shape,
            ) == Err::<(Seq<u8>, Seq<u8>), Error>(Error::OutOfOrder),
{
    let canon = raw_entries(r);
    let es = permuted(canon, perm);
    lemma_record_entries(r, kind);
    assert(entries_valid(es, kind)) by {
        assert forall|i: int| 0 <= i < es.len() implies entry_valid(#[trigger] es[i], kind) by {
            assert(es[i] == canon[perm[i]]);
        }
    }
    lemma_map_decoding(es, 0, seq![], kind);
    assert(map_encoding(es) + seq![] =~= map_encoding(es));
    if in_order(es, 0) {
        assert forall|i: int, j: int| 0 <= i < j < perm.len() implies #[trigger] perm[i]
            < #[trigger] perm[j] by {
            assert(es[i] == canon[perm[i]] && es[j] == canon[perm[j]]);
            assert(entry_rank(es[i]) < entry_rank(es[j]));
            if perm[j] < perm[i] {
                assert(entry_rank(canon[perm[j]]) < entry_rank(canon[perm[i]]));
            }
        }
        assert forall|i: int| 0 <= i < perm.len() implies #[trigger] perm[i] == i by {
            lemma_increasing_above(perm, i);
            lemma_increasing_below(perm, i);
        }
        assert(es =~= canon);
    }
}

/// Trailing-unknown tolerance: entries that follow a complete canonical
/// record, counted in the map head and starting with an integer label that
/// is not a known one, leave the result unchanged; what follows that label
/// is not read at all.
pub proof fn lemma_trailing_unknown(r: RawView, kind: RecordKind, m: nat, unknown: int, rest: Seq<u8>)
    requires
        record_valid(r, kind),
        m >= 1,
        raw_entries(r).len() + m < 65536,
        -128 <= unknown < 128,
        label_of(unknown) is None,
    ensures
        record_decoding(
            head_encoding(5, raw_entries(r).len() + m) + entries_encoding(raw_entries(r)) + (
            int_encoding(unknown) + rest),
            kind,
        ) == record_decoding(raw_encoding(r), kind),
        record_decoding(raw_encoding(r), kind) == Ok::<RawView, Error>(r),
{
    let es = raw_entries(r);
    let h = head_encoding(5, es.len() + m);
    let tail = int_encoding(unknown) + rest;
    let b = h + entries_encoding(es) + tail;
    lemma_record_entries(r, kind);
    lemma_record_round_trip(r, kind);
    lemma_map_decoding(es, m, tail, kind);
    assert(holds_at(b, 0, b)) by {
        assert(b.subrange(0, b.len() as int) =~= b);
    }
    lemma_holds_split(b, 0, h + entries_encoding(es), tail);
    lemma_holds_split(b, (h + entries_encoding(es)).len() as int, int_encoding(unknown), rest);
    lemma_int_at(b, (h + entries_encoding(es)).len() as int, unknown);
}

/// Whether `v` is a value of the closed table that the field of label `l` takes.
pub open spec fn in_table(l: Label, v: int) -> bool {
    match l {
        Label::Kty => kty_of(v) is Some,
        Label::Alg => alg_of(v) is Some,
        _ => crv_of(v) is Some,
    }
}

/// An identity field whose value lies outside its closed table is refused:
/// after any canonical run of earlier entries, a kty, alg or crv entry with
/// such a value makes the map malformed, whatever follows it. In particular
/// no alg other than the variant's, and no crv other than the variant's,
/// decodes.
pub proof fn lemma_value_outside_table(
    es: Seq<Entry>,
    kind: RecordKind,
    l: Label,
    v: int,
    m: nat,
    rest: Seq<u8>,
)
    requires
        entries_valid(es, kind),
        in_order(es, 0),
        forall|i: int| 0 <= i < es.len() ==> entry_rank(#[trigger] es[i]) < label_rank(l),
        l == Label::Kty || l == Label::Alg || (l == Label::CrvOrPk && kind == RecordKind::Ec),
        -128 <= v < 128,
        !in_table(l, v),
        m >= 1,
        es.len() + m < 65536,
    ensures
        record_decoding(
            head_encoding(5, es.len() + m) + entries_encoding(es) + (int_encoding(label_value(l)) + (
            int_encoding(v) + rest)),
            kind,
        ) == Err::<RawView, Error>(Error::Malformed),
{
    let h = head_encoding(5, es.len() + m);
    let tail = int_encoding(label_value(l)) + (int_encoding(v) + rest);
    let b = h + entries_encoding(es) + tail;
    let p = (h + entries_encoding(es)).len() as int;
    lemma_map_decoding(es, m, tail, kind);
    assert(holds_at(b, 0, b)) by {
        assert(b.subrange(0, b.len() as int) =~= b);
    }
    lemma_holds_split(b, 0, h + entries_encoding(es), tail);
    lemma_holds_split(b, p, int_encoding(label_value(l)), int_encoding(v) + rest);
    let q = p + int_encoding(label_value(l)).len();
    lemma_holds_split(b, q, int_encoding(v), rest);
    if es.len() > 0 {
        assert(entry_rank(es.last()) < label_rank(l));
    }
    let acc = apply_entries(empty_raw(), es);
    lemma_refused_entry(b, p, q, m, rank_after(es, 0), acc, kind, l, v);
}

proof fn lemma_refused_entry(
    b: Seq<u8>,
    p: int,
    q: int,
    m: nat,
    next: nat,
    r: RawView,
    kind: RecordKind,
    l: Label,
    v: int,
)
    requires
        holds_at(b, p, int_encoding(label_value(l))),
        q == p + int_encoding(label_value(l)).len(),
        holds_at(b, q, int_encoding(v)),
        next <= label_rank(l),
        l == Label::Kty || l == Label::Alg || (l == Label::CrvOrPk && kind == RecordKind::Ec),
        -128 <= v < 128,
        !in_table(l, v),
        m >= 1,
    ensures
        entries_at(b, p, m, next, r, kind) == Err::<RawView, Error>(Error::Malformed),
{
    lemma_int_at(b, p, label_value(l));
    lemma_int_at(b, q, v);
    assert(label_of(label_value(l)) == Some(l));
    assert(label_allowed(kind, l));
    assert(slot_at(b, q, l, r, kind) == Err::<(RawView, int), Error>(Error::Malformed));
}

/// Optional alg: a key whose encoding leaves alg out decodes to the same key;
/// one whose alg is another algorithm than the variant's is refused.
pub proof fn lemma_optional_alg(c: KeyConstants, shape: Shape, v: (Seq<u8>, Seq<u8>), alg: Alg)
    requires
        variant_valid(c, shape),
        payload_valid(shape, v),
    ensures
        key_decoding(raw_encoding(RawView { alg: None, ..variant_raw(c, shape, v) }), c, shape)
            == Ok::<(Seq<u8>, Seq<u8>), Error>(v),
        alg != c.alg ==> key_decoding(
            raw_encoding(RawView { alg: Some(alg), ..variant_raw(c, shape, v) }),
            c,
            shape,
        ) == Err::<(Seq<u8>, Seq<u8>), Error>(Error::WrongValue(Field::Alg)),
{
    lemma_record_round_trip(RawView { alg: None, ..variant_raw(c, shape, v) }, shape_kind(shape));
    lemma_record_round_trip(
        RawView { alg: Some(alg), ..variant_raw(c, shape, v) },
        shape_kind(shape),
    );
}

/// Required crv except for the sentinel: a variant without a curve decodes
/// with no crv field; an elliptic-curve variant with a curve is refused when
/// crv is absent or names another curve.
pub proof fn lemma_required_crv(c: KeyConstants, shape: Shape, v: (Seq<u8>, Seq<u8>), crv: Crv)
    requires
        variant_valid(c, shape),
        payload_valid(shape, v),
    ensures
        c.crv == Crv::NoCurve ==> key_decoding(
            raw_encoding(RawView { crv: None, ..variant_raw(c, shape, v) }),
            c,
            shape,
        ) == Ok::<(Seq<u8>, Seq<u8>), Error>(v),
        c.crv != Crv::NoCurve ==> key_decoding(
            raw_encoding(RawView { crv: None, ..variant_raw(c, shape, v) }),
            c,
            shape,
        ) == Err::<(Seq<u8>, Seq<u8>), Error>(Error::MissingField(Field::Crv)),
        c.crv != Crv::NoCurve && crv != c.crv ==> key_decoding(
            raw_encoding(RawView { crv: Some(crv), ..variant_raw(c, shape, v) }),
            c,
            shape,
        ) == Err::<(Seq<u8>, Seq<u8>), Error>(Error::WrongValue(Field::Crv)),
{
    lemma_record_round_trip(RawView { crv: None, ..variant_raw(c, shape, v) }, shape_kind(shape));
    if c.crv != Crv::NoCurve {
        lemma_record_round_trip(
            RawView { crv: Some(crv), ..variant_raw(c, shape, v) },
            shape_kind(shape),
        );
    }
}

} // verus!
