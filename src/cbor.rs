//! The few CBOR items that a key record is made of: a map head, small
//! integers and byte strings, each in its shortest form.
//!
//! An item starts with a head byte: the major type in its top three bits and,
//! in the low five, either the argument itself (below 24) or 24 or 25 to say
//! that one or two bytes of argument follow. Longer arguments, and arguments
//! written longer than needed, are refused.
use vstd::prelude::*;
use crate::label::Error;

verus! {

pub const MAJOR_UNSIGNED: u8 = 0;
pub const MAJOR_NEGATIVE: u8 = 1;
pub const MAJOR_BYTES: u8 = 2;
pub const MAJOR_MAP: u8 = 5;

/// The shortest head with the given major type and argument.
pub open spec fn head_encoding(major: nat, arg: nat) -> Seq<u8> {
    if arg < 24 {
        seq![(major * 32 + arg) as u8]
    } else if arg < 256 {
        seq![(major * 32 + 24) as u8, arg as u8]
    } else {
        seq![(major * 32 + 25) as u8, (arg / 256) as u8, (arg % 256) as u8]
    }
}

/// A small signed integer as a CBOR item.
pub open spec fn int_encoding(v: int) -> Seq<u8> {
    if v >= 0 {
        head_encoding(0, v as nat)
    } else {
        head_encoding(1, (-1 - v) as nat)
    }
}

/// A byte string as a CBOR item.
pub open spec fn bstr_encoding(s: Seq<u8>) -> Seq<u8> {
    head_encoding(2, s.len()) + s
}

/// The head at `pos`: its major type, its argument and where the item goes on.
pub open spec fn head_at(b: Seq<u8>, pos: int) -> Result<(nat, nat, int), Error> {
    if pos < 0 || pos >= b.len() {
        Err(Error::Truncated)
    } else {
        let major = (b[pos] as int / 32) as nat;
        let info = (b[pos] as int % 32) as nat;
        if info < 24 {
            Ok((major, info, pos + 1))
        } else if info == 24 {
            if pos + 1 >= b.len() {
                Err(Error::Truncated)
            } else if b[pos + 1] < 24 {
                Err(Error::Malformed)
            } else {
                Ok((major, b[pos + 1] as nat, pos + 2))
            }
        } else if info == 25 {
            if pos + 2 >= b.len() {
                Err(Error::Truncated)
            } else if b[pos + 1] == 0 {
                Err(Error::Malformed)
            } else {
                Ok((major, (b[pos + 1] as nat) * 256 + b[pos + 2] as nat, pos + 3))
            }
        } else {
            Err(Error::Malformed)
        }
    }
}

/// The integer item at `pos`, which must fit in an `i8`, and where it ends.
pub open spec fn int_at(b: Seq<u8>, pos: int) -> Result<(int, int), Error> {
    match head_at(b, pos) {
        Err(e) => Err(e),
        Ok((major, arg, next)) => {
            if major == 0 && arg <= 127 {
                Ok((arg as int, next))
            } else if major == 1 && arg <= 127 {
                Ok((-1 - arg, next))
            } else {
                Err(Error::Malformed)
            }
        },
    }
}

/// The byte string item at `pos`, for a buffer of `cap` bytes, and where it ends.
pub open spec fn bstr_at(b: Seq<u8>, pos: int, cap: nat) -> Result<(Seq<u8>, int), Error> {
    match head_at(b, pos) {
        Err(e) => Err(e),
        Ok((major, len, next)) => {
            if major != 2 {
                Err(Error::Malformed)
            } else if next + len > b.len() {
                Err(Error::Truncated)
            } else if len > cap {
                Err(Error::Capacity)
            } else {
                Ok((b.subrange(next, next + len), next + len))
            }
        },
    }
}

/// Whether `b` holds `item` at `pos`.
pub open spec fn holds_at(b: Seq<u8>, pos: int, item: Seq<u8>) -> bool {
    &&& 0 <= pos
    &&& pos + item.len() <= b.len()
    &&& b.subrange(pos, pos + item.len()) == item
}

/// A head reads back as what was written.
pub proof fn lemma_head_at(b: Seq<u8>, pos: int, major: nat, arg: nat)
    requires
        major < 8,
        arg < 65536,
        holds_at(b, pos, head_encoding(major, arg)),
    ensures
        head_at(b, pos) == Ok::<(nat, nat, int), Error>(
            (major, arg, pos + head_encoding(major, arg).len()),
        ),
{
    let h = head_encoding(major, arg);
    assert(b[pos] == h[0]) by {
        assert(b.subrange(pos, pos + h.len())[0] == b[pos]);
    }
    if arg < 24 {
        assert((major * 32 + arg) / 32 == major && (major * 32 + arg) % 32 == arg)
            by (nonlinear_arith)
            requires
                arg < 24,
        ;
    } else if arg < 256 {
        assert(b[pos + 1] == h[1]) by {
            assert(b.subrange(pos, pos + h.len())[1] == b[pos + 1]);
        }
        assert((major * 32 + 24) / 32 == major && (major * 32 + 24) % 32 == 24)
            by (nonlinear_arith);
    } else {
        assert(b[pos + 1] == h[1] && b[pos + 2] == h[2]) by {
            assert(b.subrange(pos, pos + h.len())[1] == b[pos + 1]);
            assert(b.subrange(pos, pos + h.len())[2] == b[pos + 2]);
        }
        assert((major * 32 + 25) / 32 == major && (major * 32 + 25) % 32 == 25)
            by (nonlinear_arith);
        assert(arg / 256 >= 1 && arg / 256 < 256 && (arg / 256) * 256 + arg % 256 == arg)
            by (nonlinear_arith)
            requires
                256 <= arg < 65536,
        ;
    }
}

/// An integer reads back as what was written.
pub proof fn lemma_int_at(b: Seq<u8>, pos: int, v: int)
    requires
        -128 <= v < 128,
        holds_at(b, pos, int_encoding(v)),
    ensures
        int_at(b, pos) == Ok::<(int, int), Error>((v, pos + int_encoding(v).len())),
{
    if v >= 0 {
        lemma_head_at(b, pos, 0, v as nat);
    } else {
        lemma_head_at(b, pos, 1, (-1 - v) as nat);
    }
}

/// A byte string reads back as what was written, when it fits the buffer.
pub proof fn lemma_bstr_at(b: Seq<u8>, pos: int, s: Seq<u8>, cap: nat)
    requires
        s.len() <= cap,
        s.len() < 65536,
        holds_at(b, pos, bstr_encoding(s)),
    ensures
        bstr_at(b, pos, cap) == Ok::<(Seq<u8>, int), Error>((s, pos + bstr_encoding(s).len())),
{
    let h = head_encoding(2, s.len());
    let e = bstr_encoding(s);
    assert(b.subrange(pos, pos + h.len()) =~= b.subrange(pos, pos + e.len()).subrange(0, h.len() as int));
    assert(e.subrange(0, h.len() as int) =~= h);
    lemma_head_at(b, pos, 2, s.len());
    let next = pos + h.len();
    assert(b.subrange(next, next + s.len()) =~= b.subrange(pos, pos + e.len()).subrange(h.len() as int, e.len() as int));
    assert(e.subrange(h.len() as int, e.len() as int) =~= s);
}

pub fn read_head(b: &[u8], pos: usize) -> (r: Result<(u8, u16, usize), Error>)
    ensures
        r is Ok <==> head_at(b@, pos as int) is Ok,
        r is Ok ==> head_at(b@, pos as int)->Ok_0 == (
            r->Ok_0.0 as nat,
            r->Ok_0.1 as nat,
            r->Ok_0.2 as int,
        ),
        r is Err ==> head_at(b@, pos as int)->Err_0 == r->Err_0,
        r is Ok ==> r->Ok_0.2 <= b@.len(),
{
    if pos >= b.len() {
        return Err(Error::Truncated);
    }
    let byte = b[pos];
    let major = byte / 32;
    let info = byte % 32;
    if info < 24 {
        Ok((major, info as u16, pos + 1))
    } else if info == 24 {
        if pos + 1 >= b.len() {
            Err(Error::Truncated)
        } else if b[pos + 1] < 24 {
            Err(Error::Malformed)
        } else {
            Ok((major, b[pos + 1] as u16, pos + 2))
        }
    } else if info == 25 {
        if b.len() - pos <= 2 {
            Err(Error::Truncated)
        } else if b[pos + 1] == 0 {
            Err(Error::Malformed)
        } else {
            let hi = b[pos + 1] as u16;
            let lo = b[pos + 2] as u16;
            assert(hi * 256 + lo < 65536) by (nonlinear_arith)
                requires
                    hi < 256,
                    lo < 256,
            ;
            Ok((major, hi * 256 + lo, pos + 3))
        }
    } else {
        Err(Error::Malformed)
    }
}

pub fn read_int(b: &[u8], pos: usize) -> (r: Result<(i8, usize), Error>)
    ensures
        r is Ok <==> int_at(b@, pos as int) is Ok,
        r is Ok ==> int_at(b@, pos as int)->Ok_0 == (r->Ok_0.0 as int, r->Ok_0.1 as int),
        r is Err ==> int_at(b@, pos as int)->Err_0 == r->Err_0,
        r is Ok ==> r->Ok_0.1 <= b@.len(),
{
    let (major, arg, next) = read_head(b, pos)?;
    if major == MAJOR_UNSIGNED && arg <= 127 {
        Ok((arg as i8, next))
    } else if major == MAJOR_NEGATIVE && arg <= 127 {
        Ok(((-1i16 - arg as i16) as i8, next))
    } else {
        Err(Error::Malformed)
    }
}

/// Reads a byte string and hands back where its contents lie in `b`.
pub fn read_bstr(b: &[u8], pos: usize, cap: u16) -> (r: Result<(usize, usize), Error>)
    ensures
        r is Ok <==> bstr_at(b@, pos as int, cap as nat) is Ok,
        r is Ok ==> {
            &&& r->Ok_0.0 <= r->Ok_0.1 <= b@.len()
            &&& bstr_at(b@, pos as int, cap as nat)->Ok_0 == (
                b@.subrange(r->Ok_0.0 as int, r->Ok_0.1 as int),
                r->Ok_0.1 as int,
            )
        },
        r is Err ==> bstr_at(b@, pos as int, cap as nat)->Err_0 == r->Err_0,
{
    let (major, len, next) = read_head(b, pos)?;
    if major != MAJOR_BYTES {
        Err(Error::Malformed)
    } else if len as usize > b.len() - next {
        Err(Error::Truncated)
    } else if len > cap {
        Err(Error::Capacity)
    } else {
        Ok((next, next + len as usize))
    }
}

pub fn write_head(out: &mut Vec<u8>, major: u8, arg: u16)
    requires
        major < 8,
    ensures
        final(out)@ == old(out)@ + head_encoding(major as nat, arg as nat),
{
    if arg < 24 {
        out.push(major * 32 + arg as u8);
    } else if arg < 256 {
        out.push(major * 32 + 24);
        out.push(arg as u8);
    } else {
        out.push(major * 32 + 25);
        out.push((arg / 256) as u8);
        out.push((arg % 256) as u8);
    }
    assert(final(out)@ =~= old(out)@ + head_encoding(major as nat, arg as nat));
}

pub fn write_int(out: &mut Vec<u8>, v: i8)
    ensures
        final(out)@ == old(out)@ + int_encoding(v as int),
{
    if v >= 0 {
        write_head(out, MAJOR_UNSIGNED, v as u16);
    } else {
        write_head(out, MAJOR_NEGATIVE, (-1i16 - v as i16) as u16);
    }
}

pub fn write_bstr(out: &mut Vec<u8>, s: &[u8])
    requires
        s@.len() < 65536,
    ensures
        final(out)@ == old(out)@ + bstr_encoding(s@),
{
    write_head(out, MAJOR_BYTES, s.len() as u16);
    out.extend_from_slice(s);
    assert(final(out)@ =~= old(out)@ + bstr_encoding(s@));
}

} // verus!
