//! The variant-agnostic key record and its canonical map codec.
//!
//! A map is read as one of two records: the elliptic-curve record, whose
//! crv-or-pk slot holds a curve and which has x and y coordinates, or the
//! opaque-key record, whose crv-or-pk slot holds a public key and which has
//! no coordinates.
//!
//! Decoding takes the entries of the map in turn. A known label is accepted
//! only if it comes later in the canonical order (kty, alg, crv or pk, x, y)
//! than every label before it; otherwise the input is refused. The first
//! unknown label ends decoding with success: it and all that follows is left
//! unread. Encoding writes exactly the present slots, in canonical order.
use vstd::prelude::*;
use crate::buffer::{bytes32_as_slice, bytes32_from_slice, content32};
use crate::cbor::{
    bstr_at, bstr_encoding, head_at, head_encoding, holds_at, int_at, int_encoding, lemma_bstr_at,
    lemma_head_at, lemma_int_at, read_bstr, read_head, read_int, write_bstr, write_head,
    write_int, MAJOR_MAP,
};
use crate::label::{
    alg_of, alg_value, crv_of, crv_value, kty_of, kty_value, label_of, label_rank, label_value,
    Alg, Crv, Error, Kty, Label,
};
use heapless_bytes::Bytes;

verus! {

/// The capacity of a coordinate buffer.
pub const COORD_LEN: u16 = 32;

/// Which record a map is read as.
pub enum RecordKind {
    /// The elliptic-curve record: kty, alg, crv, x, y.
    Ec,
    /// The opaque-key record: kty, alg and a public key of at most `cap` bytes.
    Opaque { cap: nat },
}

/// What a record holds: each slot absent or present. The crv-or-pk slot
/// is `crv` in an elliptic-curve record and `pk` in an opaque-key record.
pub struct RawView {
    pub kty: Option<Kty>,
    pub alg: Option<Alg>,
    pub crv: Option<Crv>,
    pub x: Option<Seq<u8>>,
    pub y: Option<Seq<u8>>,
    pub pk: Option<Seq<u8>>,
}

pub open spec fn empty_raw() -> RawView {
    RawView { kty: None, alg: None, crv: None, x: None, y: None, pk: None }
}

/// An elliptic-curve record: every coordinate fits its buffer, and no public key.
pub open spec fn raw_valid(r: RawView) -> bool {
    &&& r.x is Some ==> r.x->Some_0.len() <= COORD_LEN
    &&& r.y is Some ==> r.y->Some_0.len() <= COORD_LEN
    &&& r.pk is None
}

/// A record that a map of the given kind can hold.
pub open spec fn record_valid(r: RawView, kind: RecordKind) -> bool {
    match kind {
        RecordKind::Ec => raw_valid(r),
        RecordKind::Opaque { cap } => {
            &&& cap < 65536
            &&& r.crv is None
            &&& r.x is None
            &&& r.y is None
            &&& r.pk is Some ==> r.pk->Some_0.len() <= cap
        },
    }
}

/// Whether a known label has a slot in a record of the given kind.
pub open spec fn label_allowed(kind: RecordKind, l: Label) -> bool {
    match kind {
        RecordKind::Ec => true,
        RecordKind::Opaque { .. } => label_rank(l) <= 2,
    }
}

/// One known entry of the map, its label given by its kind.
pub enum Entry {
    Kty(Kty),
    Alg(Alg),
    Crv(Crv),
    X(Seq<u8>),
    Y(Seq<u8>),
    Pk(Seq<u8>),
}

pub open spec fn entry_label(e: Entry) -> Label {
    match e {
        Entry::Kty(_) => Label::Kty,
        Entry::Alg(_) => Label::Alg,
        Entry::Crv(_) => Label::CrvOrPk,
        Entry::X(_) => Label::X,
        Entry::Y(_) => Label::Y,
        Entry::Pk(_) => Label::CrvOrPk,
    }
}

pub open spec fn entry_rank(e: Entry) -> nat {
    label_rank(entry_label(e))
}

/// An entry that a map of the given kind can hold.
pub open spec fn entry_valid(e: Entry, kind: RecordKind) -> bool {
    match kind {
        RecordKind::Ec => match e {
            Entry::X(s) => s.len() <= COORD_LEN,
            Entry::Y(s) => s.len() <= COORD_LEN,
            Entry::Pk(_) => false,
            _ => true,
        },
        RecordKind::Opaque { cap } => match e {
            Entry::Kty(_) => true,
            Entry::Alg(_) => true,
            Entry::Pk(s) => s.len() <= cap && cap < 65536,
            _ => false,
        },
    }
}

/// The value of an entry as a CBOR item.
pub open spec fn value_encoding(e: Entry) -> Seq<u8> {
    match e {
        Entry::Kty(k) => int_encoding(kty_value(k)),
        Entry::Alg(a) => int_encoding(alg_value(a)),
        Entry::Crv(c) => int_encoding(crv_value(c)),
        Entry::X(s) => bstr_encoding(s),
        Entry::Y(s) => bstr_encoding(s),
        Entry::Pk(s) => bstr_encoding(s),
    }
}

/// An entry as its label followed by its value.
pub open spec fn entry_encoding(e: Entry) -> Seq<u8> {
    int_encoding(label_value(entry_label(e))) + value_encoding(e)
}

pub open spec fn entries_encoding(es: Seq<Entry>) -> Seq<u8>
    decreases es.len(),
{
    if es.len() == 0 {
        seq![]
    } else {
        entry_encoding(es[0]) + entries_encoding(es.drop_first())
    }
}

/// A map holding the given entries, in the given order.
pub open spec fn map_encoding(es: Seq<Entry>) -> Seq<u8> {
    head_encoding(5, es.len()) + entries_encoding(es)
}

/// The record with one entry put into its slot.
pub open spec fn set_entry(r: RawView, e: Entry) -> RawView {
    match e {
        Entry::Kty(k) => RawView { kty: Some(k), ..r },
        Entry::Alg(a) => RawView { alg: Some(a), ..r },
        Entry::Crv(c) => RawView { crv: Some(c), ..r },
        Entry::X(s) => RawView { x: Some(s), ..r },
        Entry::Y(s) => RawView { y: Some(s), ..r },
        Entry::Pk(s) => RawView { pk: Some(s), ..r },
    }
}

pub open spec fn apply_entries(r: RawView, es: Seq<Entry>) -> RawView
    decreases es.len(),
{
    if es.len() == 0 {
        r
    } else {
        apply_entries(set_entry(r, es[0]), es.drop_first())
    }
}

/// The present slots of a record as entries, in canonical order.
pub open spec fn raw_entries(r: RawView) -> Seq<Entry> {
    let s0 = if r.kty is Some { seq![Entry::Kty(r.kty->Some_0)] } else { seq![] };
    let s1 = if r.alg is Some { s0.push(Entry::Alg(r.alg->Some_0)) } else { s0 };
    let s2 = if r.crv is Some { s1.push(Entry::Crv(r.crv->Some_0)) } else { s1 };
    let sp = if r.pk is Some { s2.push(Entry::Pk(r.pk->Some_0)) } else { s2 };
    let s3 = if r.x is Some { sp.push(Entry::X(r.x->Some_0)) } else { sp };
    if r.y is Some { s3.push(Entry::Y(r.y->Some_0)) } else { s3 }
}

/// The canonical encoding of a record.
pub open spec fn raw_encoding(r: RawView) -> Seq<u8> {
    map_encoding(raw_entries(r))
}

/// Reads the value of a known label into its slot.
pub open spec fn slot_at(b: Seq<u8>, pos: int, l: Label, r: RawView, kind: RecordKind) -> Result<
    (RawView, int),
    Error,
> {
    match l {
        Label::Kty => match int_at(b, pos) {
            Err(e) => Err(e),
            Ok((v, next)) => match kty_of(v) {
                Some(k) => Ok((RawView { kty: Some(k), ..r }, next)),
                None => Err(Error::Malformed),
            },
        },
        Label::Alg => match int_at(b, pos) {
            Err(e) => Err(e),
            Ok((v, next)) => match alg_of(v) {
                Some(a) => Ok((RawView { alg: Some(a), ..r }, next)),
                None => Err(Error::Malformed),
            },
        },
        Label::CrvOrPk => match kind {
            RecordKind::Ec => match int_at(b, pos) {
                Err(e) => Err(e),
                Ok((v, next)) => match crv_of(v) {
                    Some(c) => Ok((RawView { crv: Some(c), ..r }, next)),
                    None => Err(Error::Malformed),
                },
            },
            RecordKind::Opaque { cap } => match bstr_at(b, pos, cap) {
                Err(e) => Err(e),
                Ok((s, next)) => Ok((RawView { pk: Some(s), ..r }, next)),
            },
        },
        Label::X => match kind {
            RecordKind::Ec => match bstr_at(b, pos, COORD_LEN as nat) {
                Err(e) => Err(e),
                Ok((s, next)) => Ok((RawView { x: Some(s), ..r }, next)),
            },
            RecordKind::Opaque { .. } => Err(Error::OutOfOrder),
        },
        Label::Y => match kind {
            RecordKind::Ec => match bstr_at(b, pos, COORD_LEN as nat) {
                Err(e) => Err(e),
                Ok((s, next)) => Ok((RawView { y: Some(s), ..r }, next)),
            },
            RecordKind::Opaque { .. } => Err(Error::OutOfOrder),
        },
    }
}

/// Decodes `remaining` map entries from `pos` on, where `next` is the
/// least canonical rank that a known label may still have. A known label
/// without a slot in this kind of record is refused too.
pub open spec fn entries_at(
    b: Seq<u8>,
    pos: int,
    remaining: nat,
    next: nat,
    r: RawView,
    kind: RecordKind,
) -> Result<RawView, Error>
    decreases remaining,
{
    if remaining == 0 {
        Ok(r)
    } else {
        match int_at(b, pos) {
            Err(e) => Err(e),
            Ok((k, after_key)) => match label_of(k) {
                None => Ok(r),
                Some(l) => if label_rank(l) < next || !label_allowed(kind, l) {
                    Err(Error::OutOfOrder)
                } else {
                    match slot_at(b, after_key, l, r, kind) {
                        Err(e) => Err(e),
                        Ok((r2, after_value)) => entries_at(
                            b,
                            after_value,
                            (remaining - 1) as nat,
                            label_rank(l) + 1,
                            r2,
                            kind,
                        ),
                    }
                },
            },
        }
    }
}

/// What decoding the bytes `b` as a record of the given kind makes of them.
pub open spec fn record_decoding(b: Seq<u8>, kind: RecordKind) -> Result<RawView, Error> {
    match head_at(b, 0) {
        Err(e) => Err(e),
        Ok((major, count, pos)) => if major != 5 {
            Err(Error::Malformed)
        } else {
            entries_at(b, pos, count, 0, empty_raw(), kind)
        },
    }
}

/// What decoding the bytes `b` as an elliptic-curve record makes of them.
pub open spec fn raw_decoding(b: Seq<u8>) -> Result<RawView, Error> {
    record_decoding(b, RecordKind::Ec)
}

pub proof fn lemma_entries_encoding_push(es: Seq<Entry>, e: Entry)
    ensures
        entries_encoding(es.push(e)) == entries_encoding(es) + entry_encoding(e),
    decreases es.len(),
{
    if es.len() == 0 {
        assert(es.push(e).drop_first() =~= es);
        assert(entries_encoding(es.push(e)) =~= entries_encoding(es) + entry_encoding(e));
    } else {
        assert(es.push(e).drop_first() =~= es.drop_first().push(e));
        lemma_entries_encoding_push(es.drop_first(), e);
        assert(entries_encoding(es.push(e)) =~= entries_encoding(es) + entry_encoding(e));
    }
}

pub(crate) proof fn lemma_encoding_step(head: Seq<u8>, es: Seq<Entry>, e: Entry, before: Seq<u8>, after: Seq<u8>)
    requires
        before == head + entries_encoding(es),
        after == before + entry_encoding(e),
    ensures
        after == head + entries_encoding(es.push(e)),
{
    lemma_entries_encoding_push(es, e);
    assert(after =~= head + entries_encoding(es.push(e)));
}

/// Appends an entry whose value is an integer.
pub(crate) fn write_int_entry(out: &mut Vec<u8>, l: Label, v: i8, Ghost(e): Ghost<Entry>)
    requires
        entry_encoding(e) == int_encoding(label_value(l)) + int_encoding(v as int),
    ensures
        final(out)@ == old(out)@ + entry_encoding(e),
{
    write_int(out, l.value());
    write_int(out, v);
    assert(final(out)@ =~= old(out)@ + entry_encoding(e));
}

/// Appends an entry whose value is a byte string.
pub(crate) fn write_bstr_entry(out: &mut Vec<u8>, l: Label, s: &[u8], Ghost(e): Ghost<Entry>)
    requires
        s@.len() < 65536,
        entry_encoding(e) == int_encoding(label_value(l)) + bstr_encoding(s@),
    ensures
        final(out)@ == old(out)@ + entry_encoding(e),
{
    write_int(out, l.value());
    write_bstr(out, s);
    assert(final(out)@ =~= old(out)@ + entry_encoding(e));
}

/// Whether the entries may be read in this order, when no known label of
/// rank below `next` may come any more.
pub open spec fn in_order(es: Seq<Entry>, next: nat) -> bool {
    &&& forall|i: int| 0 <= i < es.len() ==> entry_rank(#[trigger] es[i]) >= next
    &&& forall|i: int, j: int|
        0 <= i < j < es.len() ==> entry_rank(#[trigger] es[i]) < entry_rank(#[trigger] es[j])
}

/// The least rank that a known label may have after the entries.
pub open spec fn rank_after(es: Seq<Entry>, next: nat) -> nat {
    if es.len() == 0 {
        next
    } else {
        entry_rank(es.last()) + 1
    }
}

pub open spec fn entries_valid(es: Seq<Entry>, kind: RecordKind) -> bool {
    forall|i: int| 0 <= i < es.len() ==> entry_valid(#[trigger] es[i], kind)
}

pub proof fn lemma_holds_split(b: Seq<u8>, pos: int, x: Seq<u8>, y: Seq<u8>)
    requires
        holds_at(b, pos, x + y),
    ensures
        holds_at(b, pos, x),
        holds_at(b, pos + x.len(), y),
{
    let xy = x + y;
    assert(b.subrange(pos, pos + x.len()) =~= b.subrange(pos, pos + xy.len()).subrange(0, x.len() as int));
    assert(xy.subrange(0, x.len() as int) =~= x);
    assert(b.subrange(pos + x.len(), pos + xy.len()) =~= b.subrange(pos, pos + xy.len()).subrange(
        x.len() as int,
        xy.len() as int,
    ));
    assert(xy.subrange(x.len() as int, xy.len() as int) =~= y);
}

proof fn lemma_slot_at(b: Seq<u8>, pos: int, e: Entry, r: RawView, kind: RecordKind)
    requires
        entry_valid(e, kind),
        holds_at(b, pos, value_encoding(e)),
    ensures
        slot_at(b, pos, entry_label(e), r, kind) == Ok::<(RawView, int), Error>(
            (set_entry(r, e), pos + value_encoding(e).len()),
        ),
{
    match e {
        Entry::Kty(k) => lemma_int_at(b, pos, kty_value(k)),
        Entry::Alg(a) => lemma_int_at(b, pos, alg_value(a)),
        Entry::Crv(c) => lemma_int_at(b, pos, crv_value(c)),
        Entry::X(s) => lemma_bstr_at(b, pos, s, COORD_LEN as nat),
        Entry::Y(s) => lemma_bstr_at(b, pos, s, COORD_LEN as nat),
        Entry::Pk(s) => {
            let cap = match kind {
                RecordKind::Opaque { cap } => cap,
                RecordKind::Ec => 0,
            };
            lemma_bstr_at(b, pos, s, cap);
        },
    }
}

proof fn lemma_in_order_cons(es: Seq<Entry>, next: nat)
    requires
        es.len() > 0,
    ensures
        in_order(es, next) <==> (entry_rank(es[0]) >= next && in_order(
            es.drop_first(),
            entry_rank(es[0]) + 1,
        )),
{
    let rest = es.drop_first();
    if in_order(es, next) {
        assert forall|i: int| 0 <= i < rest.len() implies entry_rank(#[trigger] rest[i])
            >= entry_rank(es[0]) + 1 by {
            assert(rest[i] == es[i + 1]);
            assert(entry_rank(es[0]) < entry_rank(es[i + 1]));
        }
        assert forall|i: int, j: int| 0 <= i < j < rest.len() implies entry_rank(
            #[trigger] rest[i],
        ) < entry_rank(#[trigger] rest[j]) by {
            assert(rest[i] == es[i + 1] && rest[j] == es[j + 1]);
            assert(entry_rank(es[i + 1]) < entry_rank(es[j + 1]));
        }
    }
    if entry_rank(es[0]) >= next && in_order(rest, entry_rank(es[0]) + 1) {
        assert forall|i: int| 0 <= i < es.len() implies entry_rank(#[trigger] es[i]) >= next by {
            if i > 0 {
                assert(es[i] == rest[i - 1]);
            }
        }
        assert forall|i: int, j: int| 0 <= i < j < es.len() implies entry_rank(#[trigger] es[i])
            < entry_rank(#[trigger] es[j]) by {
            assert(es[j] == rest[j - 1]);
            if i > 0 {
                assert(es[i] == rest[i - 1]);
            }
        }
    }
}

/// Reading known entries in turn: they go into their slots when they are in
/// order, and are refused otherwise.
pub proof fn lemma_entries_at(
    b: Seq<u8>,
    pos: int,
    es: Seq<Entry>,
    m: nat,
    next: nat,
    r: RawView,
    kind: RecordKind,
)
    requires
        entries_valid(es, kind),
        holds_at(b, pos, entries_encoding(es)),
    ensures
        entries_at(b, pos, es.len() + m, next, r, kind) == if in_order(es, next) {
            entries_at(
                b,
                pos + entries_encoding(es).len(),
                m,
                rank_after(es, next),
                apply_entries(r, es),
                kind,
            )
        } else {
            Err(Error::OutOfOrder)
        },
    decreases es.len(),
{
    if es.len() > 0 {
        let e = es[0];
        let rest = es.drop_first();
        let key = int_encoding(label_value(entry_label(e)));
        assert(entry_valid(e, kind));
        lemma_holds_split(b, pos, entry_encoding(e), entries_encoding(rest));
        lemma_holds_split(b, pos, key, value_encoding(e));
        lemma_int_at(b, pos, label_value(entry_label(e)));
        lemma_in_order_cons(es, next);
        if entry_rank(e) >= next {
            lemma_slot_at(b, pos + key.len(), e, r, kind);
            assert(entries_valid(rest, kind)) by {
                assert forall|i: int| 0 <= i < rest.len() implies entry_valid(
                    #[trigger] rest[i],
                    kind,
                ) by {
                    assert(rest[i] == es[i + 1]);
                }
            }
            lemma_entries_at(
                b,
                pos + entry_encoding(e).len(),
                rest,
                m,
                entry_rank(e) + 1,
                set_entry(r, e),
                kind,
            );
            if rest.len() > 0 {
                assert(rest.last() == es.last());
            }
        }
    }
}

pub proof fn lemma_apply_push(r: RawView, es: Seq<Entry>, e: Entry)
    ensures
        apply_entries(r, es.push(e)) == set_entry(apply_entries(r, es), e),
    decreases es.len(),
{
    if es.len() == 0 {
        assert(es.push(e).drop_first() =~= es);
        assert(apply_entries(set_entry(r, e), es) == set_entry(r, e));
    } else {
        assert(es.push(e).drop_first() =~= es.drop_first().push(e));
        assert(es.push(e)[0] == es[0]);
        lemma_apply_push(set_entry(r, es[0]), es.drop_first(), e);
    }
}

proof fn lemma_in_order_push(es: Seq<Entry>, e: Entry, bound: nat, kind: RecordKind)
    requires
        in_order(es, 0),
        entries_valid(es, kind),
        entry_valid(e, kind),
        forall|i: int| 0 <= i < es.len() ==> entry_rank(#[trigger] es[i]) < bound,
        entry_rank(e) >= bound,
    ensures
        in_order(es.push(e), 0),
        entries_valid(es.push(e), kind),
        forall|i: int|
            0 <= i < es.push(e).len() ==> entry_rank(#[trigger] es.push(e)[i]) < entry_rank(e) + 1,
{
    let s = es.push(e);
    assert forall|i: int| 0 <= i < s.len() implies entry_valid(#[trigger] s[i], kind) by {
        if i < es.len() {
            assert(s[i] == es[i]);
        }
    }
    assert forall|i: int, j: int| 0 <= i < j < s.len() implies entry_rank(#[trigger] s[i])
        < entry_rank(#[trigger] s[j]) by {
        assert(s[i] == es[i]);
        if j < es.len() {
            assert(s[j] == es[j]);
        }
    }
    assert forall|i: int| 0 <= i < s.len() implies entry_rank(#[trigger] s[i]) < entry_rank(e) + 1 by {
        if i < es.len() {
            assert(s[i] == es[i]);
        }
    }
}

/// The canonical entries of a valid record are in order, valid, and fill
/// exactly its slots.
pub proof fn lemma_record_entries(r: RawView, kind: RecordKind)
    requires
        record_valid(r, kind),
    ensures
        in_order(raw_entries(r), 0),
        entries_valid(raw_entries(r), kind),
        apply_entries(empty_raw(), raw_entries(r)) == r,
{
    let s = seq![];
    let mut cur: Seq<Entry> = s;
    if r.kty is Some {
        let e = Entry::Kty(r.kty->Some_0);
        lemma_in_order_push(cur, e, 0, kind);
        lemma_apply_push(empty_raw(), cur, e);
        cur = cur.push(e);
    }
    assert forall|i: int| 0 <= i < cur.len() implies entry_rank(#[trigger] cur[i]) < 1 by {}
    if r.alg is Some {
        let e = Entry::Alg(r.alg->Some_0);
        lemma_in_order_push(cur, e, 1, kind);
        lemma_apply_push(empty_raw(), cur, e);
        cur = cur.push(e);
    }
    assert forall|i: int| 0 <= i < cur.len() implies entry_rank(#[trigger] cur[i]) < 2 by {}
    if r.crv is Some {
        let e = Entry::Crv(r.crv->Some_0);
        lemma_in_order_push(cur, e, 2, kind);
        lemma_apply_push(empty_raw(), cur, e);
        cur = cur.push(e);
    }
    if r.pk is Some {
        let e = Entry::Pk(r.pk->Some_0);
        lemma_in_order_push(cur, e, 2, kind);
        lemma_apply_push(empty_raw(), cur, e);
        cur = cur.push(e);
    }
    assert forall|i: int| 0 <= i < cur.len() implies entry_rank(#[trigger] cur[i]) < 3 by {}
    if r.x is Some {
        let e = Entry::X(r.x->Some_0);
        lemma_in_order_push(cur, e, 3, kind);
        lemma_apply_push(empty_raw(), cur, e);
        cur = cur.push(e);
    }
    assert forall|i: int| 0 <= i < cur.len() implies entry_rank(#[trigger] cur[i]) < 4 by {}
    if r.y is Some {
        let e = Entry::Y(r.y->Some_0);
        lemma_in_order_push(cur, e, 4, kind);
        lemma_apply_push(empty_raw(), cur, e);
        cur = cur.push(e);
    }
    assert(cur == raw_entries(r));
}

/// Decoding a map of known entries, counted with `m` more, and followed by `tail`.
pub proof fn lemma_map_decoding(es: Seq<Entry>, m: nat, tail: Seq<u8>, kind: RecordKind)
    requires
        entries_valid(es, kind),
        es.len() + m < 65536,
    ensures
        record_decoding(head_encoding(5, es.len() + m) + entries_encoding(es) + tail, kind) == if in_order(
            es,
            0,
        ) {
            entries_at(
                head_encoding(5, es.len() + m) + entries_encoding(es) + tail,
                (head_encoding(5, es.len() + m).len() as int) + entries_encoding(es).len() as int,
                m,
                rank_after(es, 0),
                apply_entries(empty_raw(), es),
                kind,
            )
        } else {
            Err(Error::OutOfOrder)
        },
{
    let h = head_encoding(5, es.len() + m);
    let b = h + entries_encoding(es) + tail;
    assert(holds_at(b, 0, h + entries_encoding(es) + tail)) by {
        assert(b.subrange(0, b.len() as int) =~= b);
    }
    lemma_holds_split(b, 0, h + entries_encoding(es), tail);
    lemma_holds_split(b, 0, h, entries_encoding(es));
    lemma_head_at(b, 0, 5, es.len() + m);
    lemma_entries_at(b, h.len() as int, es, m, 0, empty_raw(), kind);
}

/// What the decoder does with the next map key.
#[derive(Clone, Copy, Debug, PartialEq, Eq, Structural)]
pub enum Step {
    /// Read the value into the slot of this label.
    Read(Label),
    /// The map has ended, or its next label is unknown: the record is complete.
    Stop,
    /// A known label that repeats or comes too late: refuse the input.
    Refuse,
}

/// The step for the key `key` (`None` at the end of the map), when a known
/// label must have rank `next` or more.
pub open spec fn step_of(next: nat, key: Option<i8>) -> Step {
    match key {
        None => Step::Stop,
        Some(k) => match label_of(k as int) {
            None => Step::Stop,
            Some(l) => if label_rank(l) < next {
                Step::Refuse
            } else {
                Step::Read(l)
            },
        },
    }
}

/// Decides what to do with the next map key.
pub fn decide(next: u8, key: Option<i8>) -> (r: Step)
    ensures
        r == step_of(next as nat, key),
{
    match key {
        None => Step::Stop,
        Some(k) => match Label::try_from(k) {
            None => Step::Stop,
            Some(l) => if l.rank() < next {
                Step::Refuse
            } else {
                Step::Read(l)
            },
        },
    }
}

/// The decoded record, with every slot that the map holds before its first
/// unknown label.
#[derive(Clone, Debug)]
pub struct RawEcPublicKey {
    pub kty: Option<Kty>,
    pub alg: Option<Alg>,
    pub crv: Option<Crv>,
    pub x: Option<Bytes<32>>,
    pub y: Option<Bytes<32>>,
}

pub open spec fn coord_view(c: Option<Bytes<32>>) -> Option<Seq<u8>> {
    match c {
        Some(b) => Some(content32(b)),
        None => None,
    }
}

impl View for RawEcPublicKey {
    type V = RawView;

    open spec fn view(&self) -> RawView {
        RawView {
            kty: self.kty,
            alg: self.alg,
            crv: self.crv,
            x: coord_view(self.x),
            y: coord_view(self.y),
            pk: None,
        }
    }
}

/// Reads the value of a known label into its slot; on success, returns
/// where the value ends.
fn read_slot(b: &[u8], pos: usize, l: Label, raw: &mut RawEcPublicKey) -> (r: Result<usize, Error>)
    ensures
        r is Ok <==> slot_at(b@, pos as int, l, old(raw)@, RecordKind::Ec) is Ok,
        r is Ok ==> slot_at(b@, pos as int, l, old(raw)@, RecordKind::Ec)->Ok_0 == (
            final(raw)@,
            r->Ok_0 as int,
        ),
        r is Ok ==> r->Ok_0 <= b@.len(),
        r is Err ==> slot_at(b@, pos as int, l, old(raw)@, RecordKind::Ec)->Err_0 == r->Err_0,
{
    match l {
        Label::Kty => {
            let (v, next) = read_int(b, pos)?;
            match Kty::try_from(v) {
                Some(k) => {
                    raw.kty = Some(k);
                    Ok(next)
                },
                None => Err(Error::Malformed),
            }
        },
        Label::Alg => {
            let (v, next) = read_int(b, pos)?;
            match Alg::try_from(v) {
                Some(a) => {
                    raw.alg = Some(a);
                    Ok(next)
                },
                None => Err(Error::Malformed),
            }
        },
        Label::CrvOrPk => {
            let (v, next) = read_int(b, pos)?;
            match Crv::try_from(v) {
                Some(c) => {
                    raw.crv = Some(c);
                    Ok(next)
                },
                None => Err(Error::Malformed),
            }
        },
        Label::X => {
            let (start, end) = read_bstr(b, pos, COORD_LEN)?;
            let buf = bytes32_from_slice(&b[start..end]);
            match buf {
                Ok(buf) => {
                    raw.x = Some(buf);
                    Ok(end)
                },
                Err(_) => Err(Error::Capacity),
            }
        },
        Label::Y => {
            let (start, end) = read_bstr(b, pos, COORD_LEN)?;
            let buf = bytes32_from_slice(&b[start..end]);
            match buf {
                Ok(buf) => {
                    raw.y = Some(buf);
                    Ok(end)
                },
                Err(_) => Err(Error::Capacity),
            }
        },
    }
}

impl RawEcPublicKey {
    pub fn empty() -> (r: RawEcPublicKey)
        ensures
            r@ == empty_raw(),
    {
        RawEcPublicKey { kty: None, alg: None, crv: None, x: None, y: None }
    }

    /// Decodes a record from a CBOR map, in canonical order only.
    pub fn deserialize(b: &[u8]) -> (r: Result<RawEcPublicKey, Error>)
        ensures
            r is Ok <==> raw_decoding(b@) is Ok,
            r is Ok ==> raw_decoding(b@)->Ok_0 == r->Ok_0@,
            r is Err ==> raw_decoding(b@)->Err_0 == r->Err_0,
    {
        let (major, count, start) = read_head(b, 0)?;
        if major != MAJOR_MAP {
            return Err(Error::Malformed);
        }
        let mut raw = RawEcPublicKey::empty();
        let mut pos = start;
        let mut remaining: u16 = count;
        let mut next: u8 = 0;
        while remaining > 0
            invariant
                raw_decoding(b@) == entries_at(
                    b@,
                    pos as int,
                    remaining as nat,
                    next as nat,
                    raw@,
                    RecordKind::Ec,
                ),
                pos <= b@.len(),
                next <= 5,
            decreases remaining,
        {
            let (k, after_key) = read_int(b, pos)?;
            match decide(next, Some(k)) {
                Step::Stop => return Ok(raw),
                Step::Refuse => return Err(Error::OutOfOrder),
                Step::Read(l) => {
                    pos = read_slot(b, after_key, l, &mut raw)?;
                    next = l.rank() + 1;
                    remaining = remaining - 1;
                },
            }
        }
        Ok(raw)
    }

    /// Encodes the present slots as a CBOR map, in canonical order.
    pub fn serialize(&self) -> (r: Vec<u8>)
        ensures
            r@ == raw_encoding(self@),
    {
        let ghost v = self@;
        let mut count: u16 = 0;
        if self.kty.is_some() {
            count = count + 1;
        }
        if self.alg.is_some() {
            count = count + 1;
        }
        if self.crv.is_some() {
            count = count + 1;
        }
        if self.x.is_some() {
            count = count + 1;
        }
        if self.y.is_some() {
            count = count + 1;
        }
        assert(count == raw_entries(v).len());
        let mut out: Vec<u8> = Vec::new();
        write_head(&mut out, MAJOR_MAP, count);
        let ghost head = out@;
        let ghost mut es: Seq<Entry> = seq![];
        assert(out@ =~= head + entries_encoding(es));
        if let Some(k) = self.kty {
            let ghost before = out@;
            write_int_entry(&mut out, Label::Kty, k.value(), Ghost(Entry::Kty(k)));
            proof {
                lemma_encoding_step(head, es, Entry::Kty(k), before, out@);
                es = es.push(Entry::Kty(k));
            }
        }
        if let Some(a) = self.alg {
            let ghost before = out@;
            write_int_entry(&mut out, Label::Alg, a.value(), Ghost(Entry::Alg(a)));
            proof {
                lemma_encoding_step(head, es, Entry::Alg(a), before, out@);
                es = es.push(Entry::Alg(a));
            }
        }
        if let Some(c) = self.crv {
            let ghost before = out@;
            write_int_entry(&mut out, Label::CrvOrPk, c.value(), Ghost(Entry::Crv(c)));
            proof {
                lemma_encoding_step(head, es, Entry::Crv(c), before, out@);
                es = es.push(Entry::Crv(c));
            }
        }
        if let Some(x) = &self.x {
            let s = bytes32_as_slice(x);
            let ghost before = out@;
            write_bstr_entry(&mut out, Label::X, s, Ghost(Entry::X(s@)));
            proof {
                lemma_encoding_step(head, es, Entry::X(s@), before, out@);
                es = es.push(Entry::X(s@));
            }
        }
        if let Some(y) = &self.y {
            let s = bytes32_as_slice(y);
            let ghost before = out@;
            write_bstr_entry(&mut out, Label::Y, s, Ghost(Entry::Y(s@)));
            proof {
                lemma_encoding_step(head, es, Entry::Y(s@), before, out@);
                es = es.push(Entry::Y(s@));
            }
        }
        assert(es =~= raw_entries(v));
        out
    }
    /// The labels of the present slots, in canonical order.
    pub fn present_labels(&self) -> (r: Vec<Label>)
        ensures
            r@ == raw_entries(self@).map_values(|e: Entry| entry_label(e)),
    {
        let ghost v = self@;
        let mut out: Vec<Label> = Vec::new();
        let ghost mut es: Seq<Entry> = seq![];
        if let Some(k) = self.kty {
            out.push(Label::Kty);
            proof {
                es = es.push(Entry::Kty(k));
            }
        }
        assert(out@ =~= es.map_values(|e: Entry| entry_label(e)));
        if let Some(a) = self.alg {
            out.push(Label::Alg);
            proof {
                es = es.push(Entry::Alg(a));
            }
        }
        assert(out@ =~= es.map_values(|e: Entry| entry_label(e)));
        if let Some(c) = self.crv {
            out.push(Label::CrvOrPk);
            proof {
                es = es.push(Entry::Crv(c));
            }
        }
        assert(out@ =~= es.map_values(|e: Entry| entry_label(e)));
        if self.x.is_some() {
            out.push(Label::X);
            proof {
                es = es.push(Entry::X(v.x->Some_0));
            }
        }
        assert(out@ =~= es.map_values(|e: Entry| entry_label(e)));
        if self.y.is_some() {
            out.push(Label::Y);
            proof {
                es = es.push(Entry::Y(v.y->Some_0));
            }
        }
        assert(out@ =~= es.map_values(|e: Entry| entry_label(e)));
        assert(es =~= raw_entries(v));
        out
    }
}

} // verus!
