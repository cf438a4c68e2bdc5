//! The hash primitives the engine consumes, as trusted wrappers: two
//! fixed-length digests and the two extendable-output functions. Each
//! digest is a pure function of its input, so the result of each call is
//! named by an uninterpreted function of the input bytes.
use vstd::prelude::*;

verus! {

pub uninterp spec fn sha3_256_of(m: Seq<u8>) -> Seq<u8>;

pub uninterp spec fn sha3_512_of(m: Seq<u8>) -> Seq<u8>;

pub uninterp spec fn shake128_of(m: Seq<u8>, n: int) -> Seq<u8>;

pub uninterp spec fn shake256_of(m: Seq<u8>, n: int) -> Seq<u8>;

/// Relies on sha3::Sha3_256: a 32-byte digest depending on the input
/// bytes alone.
#[verifier::external_body]
pub(crate) fn sha3_256(m: &Vec<u8>) -> (r: Vec<u8>)
    ensures
        r@ == sha3_256_of(m@),
        r@.len() == 32,
{
    <sha3::Sha3_256 as sha3::digest::Digest>::digest(m.as_slice()).to_vec()
}

/// Relies on sha3::Sha3_512: a 64-byte digest depending on the input
/// bytes alone.
#[verifier::external_body]
pub(crate) fn sha3_512(m: &Vec<u8>) -> (r: Vec<u8>)
    ensures
        r@ == sha3_512_of(m@),
        r@.len() == 64,
{
    <sha3::Sha3_512 as sha3::digest::Digest>::digest(m.as_slice()).to_vec()
}

/// Relies on sha3::Shake128: an extendable output of the requested
/// length, depending on the input bytes alone.
#[verifier::external_body]
pub(crate) fn shake128(m: &Vec<u8>, n: usize) -> (r: Vec<u8>)
    ensures
        r@ == shake128_of(m@, n as int),
        r@.len() == n,
{
    let mut h = sha3::Shake128::default();
    sha3::digest::Update::update(&mut h, m.as_slice());
    let mut reader = sha3::digest::ExtendableOutput::finalize_xof(h);
    let mut out: Vec<u8> = Vec::new();
    out.resize(n, 0u8);
    sha3::digest::XofReader::read(&mut reader, &mut out);
    out
}

/// Relies on sha3::Shake256: an extendable output of the requested
/// length, depending on the input bytes alone.
#[verifier::external_body]
pub(crate) fn shake256(m: &Vec<u8>, n: usize) -> (r: Vec<u8>)
    ensures
        r@ == shake256_of(m@, n as int),
        r@.len() == n,
{
    let mut h = sha3::Shake256::default();
    sha3::digest::Update::update(&mut h, m.as_slice());
    let mut reader = sha3::digest::ExtendableOutput::finalize_xof(h);
    let mut out: Vec<u8> = Vec::new();
    out.resize(n, 0u8);
    sha3::digest::XofReader::read(&mut reader, &mut out);
    out
}

} // verus!
