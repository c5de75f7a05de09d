//! The byte framing of a credential as it travels in a login reply's
//! payload: each of the two tokens is carried length-prefixed, with a
//! four-byte little-endian length, and nothing may trail the second token.

use vstd::prelude::*;

use vstd::bytes::lemma_auto_spec_u32_to_from_le_bytes;
use vstd::bytes::spec_u32_from_le_bytes;
use vstd::bytes::spec_u32_to_le_bytes;
use vstd::bytes::u32_from_le_bytes;
use vstd::bytes::u32_to_le_bytes;
use vstd::slice::slice_subrange;
use vstd::slice::slice_to_vec;

use crate::api::Jwt;

verus! {

/// The encoded form of a credential: both tokens length-prefixed.
pub open spec fn spec_encode_jwt(access: Seq<u8>, refresh: Seq<u8>) -> Seq<u8> {
    spec_u32_to_le_bytes(access.len() as u32) + access + spec_u32_to_le_bytes(refresh.len() as u32)
        + refresh
}

/// What a byte string decodes to: the two tokens, when the lengths line
/// up exactly and nothing trails; nothing otherwise.
pub open spec fn spec_parse_jwt(bytes: Seq<u8>) -> Option<(Seq<u8>, Seq<u8>)> {
    if bytes.len() < 4 {
        None
    } else {
        let alen = spec_u32_from_le_bytes(bytes.subrange(0, 4)) as int;
        if bytes.len() < 8 + alen {
            None
        } else {
            let rlen = spec_u32_from_le_bytes(bytes.subrange(4 + alen, 8 + alen)) as int;
            if bytes.len() != 8 + alen + rlen {
                None
            } else {
                Some((bytes.subrange(4, 4 + alen), bytes.subrange(8 + alen, 8 + alen + rlen)))
            }
        }
    }
}

/// Frame a credential for a login reply's payload.
pub fn encode_jwt(jwt: &Jwt) -> (r: Vec<u8>)
    requires
        jwt.access_jwt@.len() <= 0xffff_ffff,
        jwt.refresh_jwt@.len() <= 0xffff_ffff,
    ensures
        r@ == spec_encode_jwt(jwt.access_jwt@, jwt.refresh_jwt@),
{
    let mut out = u32_to_le_bytes(jwt.access_jwt.len() as u32);
    let mut i: usize = 0;
    while i < jwt.access_jwt.len()
        invariant
            i <= jwt.access_jwt@.len(),
            jwt.access_jwt@.len() <= 0xffff_ffff,
            jwt.refresh_jwt@.len() <= 0xffff_ffff,
            out@ == spec_u32_to_le_bytes(jwt.access_jwt@.len() as u32) + jwt.access_jwt@.take(
                i as int,
            ),
        decreases jwt.access_jwt@.len() - i,
    {
        out.push(jwt.access_jwt[i]);
        i = i + 1;
        proof {
            assert(jwt.access_jwt@.take(i as int) =~= jwt.access_jwt@.take(i - 1).push(
                jwt.access_jwt@[i - 1],
            ));
        }
    }
    proof {
        assert(jwt.access_jwt@.take(jwt.access_jwt@.len() as int) =~= jwt.access_jwt@);
    }
    let mut rlen_bytes = u32_to_le_bytes(jwt.refresh_jwt.len() as u32);
    out.append(&mut rlen_bytes);
    let mut j: usize = 0;
    while j < jwt.refresh_jwt.len()
        invariant
            j <= jwt.refresh_jwt@.len(),
            jwt.access_jwt@.len() <= 0xffff_ffff,
            jwt.refresh_jwt@.len() <= 0xffff_ffff,
            out@ == spec_u32_to_le_bytes(jwt.access_jwt@.len() as u32) + jwt.access_jwt@
                + spec_u32_to_le_bytes(jwt.refresh_jwt@.len() as u32) + jwt.refresh_jwt@.take(
                j as int,
            ),
        decreases jwt.refresh_jwt@.len() - j,
    {
        out.push(jwt.refresh_jwt[j]);
        j = j + 1;
        proof {
            assert(jwt.refresh_jwt@.take(j as int) =~= jwt.refresh_jwt@.take(j - 1).push(
                jwt.refresh_jwt@[j - 1],
            ));
        }
    }
    proof {
        assert(jwt.refresh_jwt@.take(jwt.refresh_jwt@.len() as int) =~= jwt.refresh_jwt@);
    }
    out
}

/// Decode a login reply's payload into a credential; `None` when the
/// framing does not line up.
pub fn parse_jwt(bytes: &Vec<u8>) -> (r: Option<Jwt>)
    ensures
        match r {
            Some(jwt) => spec_parse_jwt(bytes@) == Some((jwt.access_jwt@, jwt.refresh_jwt@)),
            None => spec_parse_jwt(bytes@) is None,
        },
{
    let n = bytes.len();
    if n < 4 {
        return None;
    }
    let s = bytes.as_slice();
    let alen32 = u32_from_le_bytes(slice_subrange(s, 0, 4));
    let alen = alen32 as usize;
    if alen > n - 4 || n - 4 - alen < 4 {
        return None;
    }
    let rlen32 = u32_from_le_bytes(slice_subrange(s, 4 + alen, 8 + alen));
    let rlen = rlen32 as usize;
    if rlen != n - 8 - alen {
        return None;
    }
    let access_jwt = slice_to_vec(slice_subrange(s, 4, 4 + alen));
    let refresh_jwt = slice_to_vec(slice_subrange(s, 8 + alen, 8 + alen + rlen));
    Some(Jwt { access_jwt, refresh_jwt })
}

/// Decoding inverts framing: a credential comes back out of its encoded
/// form exactly.
pub proof fn lemma_jwt_round_trip(access: Seq<u8>, refresh: Seq<u8>)
    requires
        access.len() <= 0xffff_ffff,
        refresh.len() <= 0xffff_ffff,
    ensures
        spec_parse_jwt(spec_encode_jwt(access, refresh)) == Some((access, refresh)),
{
    lemma_auto_spec_u32_to_from_le_bytes();
    let enc = spec_encode_jwt(access, refresh);
    let alen = access.len() as int;
    let rlen = refresh.len() as int;
    assert(enc.len() == 8 + alen + rlen);
    assert(enc.subrange(0, 4) =~= spec_u32_to_le_bytes(access.len() as u32));
    assert(spec_u32_from_le_bytes(enc.subrange(0, 4)) == access.len() as u32);
    assert(enc.subrange(4 + alen, 8 + alen) =~= spec_u32_to_le_bytes(refresh.len() as u32));
    assert(spec_u32_from_le_bytes(enc.subrange(4 + alen, 8 + alen)) == refresh.len() as u32);
    assert(enc.subrange(4, 4 + alen) =~= access);
    assert(enc.subrange(8 + alen, 8 + alen + rlen) =~= refresh);
}

} // verus!
