//! The closed tables of the COSE_Key format: map labels, key types,
//! algorithms and curves, each with its fixed integer on the wire.
use vstd::prelude::*;

verus! {

/// A map label that this library reads and writes.
#[derive(Clone, Copy, Debug, PartialEq, Eq, Structural)]
pub enum Label {
    Kty,
    Alg,
    CrvOrPk,
    X,
    Y,
}

/// The integer that stands for a label on the wire.
pub open spec fn label_value(l: Label) -> int {
    match l {
        Label::Kty => 1,
        Label::Alg => 3,
        Label::CrvOrPk => -1,
        Label::X => -2,
        Label::Y => -3,
    }
}

/// The place of a label in the canonical order kty, alg, crv, x, y.
pub open spec fn label_rank(l: Label) -> nat {
    match l {
        Label::Kty => 0,
        Label::Alg => 1,
        Label::CrvOrPk => 2,
        Label::X => 3,
        Label::Y => 4,
    }
}

/// The label that an integer stands for, if it is one of the known ones.
pub open spec fn label_of(v: int) -> Option<Label> {
    if v == 1 {
        Some(Label::Kty)
    } else if v == 3 {
        Some(Label::Alg)
    } else if v == -1 {
        Some(Label::CrvOrPk)
    } else if v == -2 {
        Some(Label::X)
    } else if v == -3 {
        Some(Label::Y)
    } else {
        None
    }
}

impl Label {
    pub fn try_from(v: i8) -> (r: Option<Label>)
        ensures
            r == label_of(v as int),
    {
        match v {
            1 => Some(Label::Kty),
            3 => Some(Label::Alg),
            -1 => Some(Label::CrvOrPk),
            -2 => Some(Label::X),
            -3 => Some(Label::Y),
            _ => None,
        }
    }

    pub fn value(self) -> (r: i8)
        ensures
            r as int == label_value(self),
    {
        match self {
            Label::Kty => 1,
            Label::Alg => 3,
            Label::CrvOrPk => -1,
            Label::X => -2,
            Label::Y => -3,
        }
    }

    pub fn rank(self) -> (r: u8)
        ensures
            r as nat == label_rank(self),
    {
        match self {
            Label::Kty => 0,
            Label::Alg => 1,
            Label::CrvOrPk => 2,
            Label::X => 3,
            Label::Y => 4,
        }
    }
}

/// Key type (`kty`).
#[derive(Clone, Copy, Debug, PartialEq, Eq, Structural)]
pub enum Kty {
    Okp,
    Ec2,
    Symmetric,
    /// Post-quantum keys, carried as one opaque public key.
    Pqc,
}

pub open spec fn kty_value(k: Kty) -> int {
    match k {
        Kty::Okp => 1,
        Kty::Ec2 => 2,
        Kty::Symmetric => 4,
        Kty::Pqc => 7,
    }
}

pub open spec fn kty_of(v: int) -> Option<Kty> {
    if v == 1 {
        Some(Kty::Okp)
    } else if v == 2 {
        Some(Kty::Ec2)
    } else if v == 4 {
        Some(Kty::Symmetric)
    } else if v == 7 {
        Some(Kty::Pqc)
    } else {
        None
    }
}

impl Kty {
    pub fn try_from(v: i8) -> (r: Option<Kty>)
        ensures
            r == kty_of(v as int),
    {
        match v {
            1 => Some(Kty::Okp),
            2 => Some(Kty::Ec2),
            4 => Some(Kty::Symmetric),
            7 => Some(Kty::Pqc),
            _ => None,
        }
    }

    pub fn value(self) -> (r: i8)
        ensures
            r as int == kty_value(self),
    {
        match self {
            Kty::Okp => 1,
            Kty::Ec2 => 2,
            Kty::Symmetric => 4,
            Kty::Pqc => 7,
        }
    }
}

/// Algorithm (`alg`).
#[derive(Clone, Copy, Debug, PartialEq, Eq, Structural)]
pub enum Alg {
    /// ECDSA with SHA-256.
    Es256,
    EdDsa,
    /// An unassigned value, taken for TOTP.
    Totp,
    /// ECDH, ephemeral-static, with HKDF and SHA-256.
    EcdhEsHkdf256,
    /// ML-DSA, formerly Dilithium, at its three security levels.
    Dilithium2,
    Dilithium3,
    Dilithium5,
}

pub open spec fn alg_value(a: Alg) -> int {
    match a {
        Alg::Es256 => -7,
        Alg::EdDsa => -8,
        Alg::Totp => -9,
        Alg::EcdhEsHkdf256 => -25,
        Alg::Dilithium2 => -87,
        Alg::Dilithium3 => -88,
        Alg::Dilithium5 => -89,
    }
}

pub open spec fn alg_of(v: int) -> Option<Alg> {
    if v == -7 {
        Some(Alg::Es256)
    } else if v == -8 {
        Some(Alg::EdDsa)
    } else if v == -9 {
        Some(Alg::Totp)
    } else if v == -25 {
        Some(Alg::EcdhEsHkdf256)
    } else if v == -87 {
        Some(Alg::Dilithium2)
    } else if v == -88 {
        Some(Alg::Dilithium3)
    } else if v == -89 {
        Some(Alg::Dilithium5)
    } else {
        None
    }
}

impl Alg {
    pub fn try_from(v: i8) -> (r: Option<Alg>)
        ensures
            r == alg_of(v as int),
    {
        match v {
            -7 => Some(Alg::Es256),
            -8 => Some(Alg::EdDsa),
            -9 => Some(Alg::Totp),
            -25 => Some(Alg::EcdhEsHkdf256),
            -87 => Some(Alg::Dilithium2),
            -88 => Some(Alg::Dilithium3),
            -89 => Some(Alg::Dilithium5),
            _ => None,
        }
    }

    pub fn value(self) -> (r: i8)
        ensures
            r as int == alg_value(self),
    {
        match self {
            Alg::Es256 => -7,
            Alg::EdDsa => -8,
            Alg::Totp => -9,
            Alg::EcdhEsHkdf256 => -25,
            Alg::Dilithium2 => -87,
            Alg::Dilithium3 => -88,
            Alg::Dilithium5 => -89,
        }
    }
}

/// Curve (`crv`); `NoCurve` marks a key type that has no curve field.
#[derive(Clone, Copy, Debug, PartialEq, Eq, Structural)]
pub enum Crv {
    NoCurve,
    P256,
    X25519,
    Ed25519,
}

pub open spec fn crv_value(c: Crv) -> int {
    match c {
        Crv::NoCurve => 0,
        Crv::P256 => 1,
        Crv::X25519 => 4,
        Crv::Ed25519 => 6,
    }
}

pub open spec fn crv_of(v: int) -> Option<Crv> {
    if v == 0 {
        Some(Crv::NoCurve)
    } else if v == 1 {
        Some(Crv::P256)
    } else if v == 4 {
        Some(Crv::X25519)
    } else if v == 6 {
        Some(Crv::Ed25519)
    } else {
        None
    }
}

impl Crv {
    pub fn try_from(v: i8) -> (r: Option<Crv>)
        ensures
            r == crv_of(v as int),
    {
        match v {
            0 => Some(Crv::NoCurve),
            1 => Some(Crv::P256),
            4 => Some(Crv::X25519),
            6 => Some(Crv::Ed25519),
            _ => None,
        }
    }

    pub fn value(self) -> (r: i8)
        ensures
            r as int == crv_value(self),
    {
        match self {
            Crv::NoCurve => 0,
            Crv::P256 => 1,
            Crv::X25519 => 4,
            Crv::Ed25519 => 6,
        }
    }
}

/// A field of a key record, as named in errors.
#[derive(Clone, Copy, Debug, PartialEq, Eq, Structural)]
pub enum Field {
    Kty,
    Alg,
    Crv,
    X,
    Y,
    Pk,
}

/// Why a record could not be decoded.
#[derive(Clone, Copy, Debug, PartialEq, Eq, Structural)]
pub enum Error {
    /// The input ends inside an item.
    Truncated,
    /// An item has a shape that this format does not allow: another major
    /// type, a non-minimal or unsupported length, an integer out of range,
    /// or a value outside its closed table.
    Malformed,
    /// A known label comes again, or after a label that must follow it.
    OutOfOrder,
    /// A field that the key type needs is absent.
    MissingField(Field),
    /// A field holds another value than the key type fixes.
    WrongValue(Field),
    /// A byte string is longer than the buffer that holds it.
    Capacity,
}

} // verus!
