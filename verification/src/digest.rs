//! SHA-256 digests, hexadecimal rendering and the credential fingerprint of ChatGPT tokens.

use sha2::Digest as _;
use vstd::bytes::{spec_u64_to_le_bytes, u64_to_le_bytes};
use vstd::prelude::*;

use crate::types::AuthData;

verus! {

/// Name for the SHA-256 digest that the `sha2` crate computes of some bytes.
pub uninterp spec fn spec_sha256(data: Seq<u8>) -> Seq<u8>;

/// `sha2::Sha256::digest`. The digest is named; its documented length, 32 bytes, is stated.
#[verifier::external_body]
pub fn sha256(data: &[u8]) -> (r: Vec<u8>)
    ensures
        r@ == spec_sha256(data@),
        r@.len() == 32,
{
    sha2::Sha256::digest(data).to_vec()
}

pub open spec fn spec_hex_digit(n: int) -> char {
    if n < 10 {
        ((('0' as int) + n) as u32) as char
    } else {
        ((('a' as int) + n - 10) as u32) as char
    }
}

/// Lowercase hexadecimal rendering, two digits per byte.
pub open spec fn spec_hex(bytes: Seq<u8>) -> Seq<char> {
    Seq::new(
        2 * bytes.len(),
        |i: int|
            if i % 2 == 0 {
                spec_hex_digit((bytes[i / 2] / 16) as int)
            } else {
                spec_hex_digit((bytes[i / 2] % 16) as int)
            },
    )
}

fn hex_digit(n: u8) -> (c: char)
    requires
        n < 16,
    ensures
        c == spec_hex_digit(n as int),
{
    if n < 10 {
        ((48 + n) as u8) as char
    } else {
        ((87 + n) as u8) as char
    }
}

pub fn hex(bytes: &[u8]) -> (r: String)
    ensures
        r@ == spec_hex(bytes@),
{
    let mut out: Vec<char> = Vec::new();
    let mut i: usize = 0;
    while i < bytes.len()
        invariant
            i <= bytes.len(),
            out@ == spec_hex(bytes@.subrange(0, i as int)),
        decreases bytes.len() - i,
    {
        let b = bytes[i];
        out.push(hex_digit(b / 16));
        out.push(hex_digit(b % 16));
        i += 1;
        assert(out@ =~= spec_hex(bytes@.subrange(0, i as int)));
    }
    assert(bytes@.subrange(0, bytes.len() as int) =~= bytes@);
    crate::text::string_from_chars(out.as_slice())
}

pub fn append_bytes(out: &mut Vec<u8>, data: &[u8])
    ensures
        final(out)@ == old(out)@ + data@,
{
    let mut i: usize = 0;
    while i < data.len()
        invariant
            i <= data.len(),
            out@ == old(out)@ + data@.subrange(0, i as int),
        decreases data.len() - i,
    {
        out.push(data[i]);
        i += 1;
        assert(out@ =~= old(out)@ + data@.subrange(0, i as int));
    }
    assert(data@.subrange(0, data.len() as int) =~= data@);
}

/// A length-prefixed field: the byte length as 8 little-endian bytes, then the UTF-8 bytes.
pub open spec fn spec_field(s: Seq<char>) -> Seq<u8> {
    spec_u64_to_le_bytes(vstd::utf8::encode_utf8(s).len() as u64) + vstd::utf8::encode_utf8(s)
}

/// An optional field: a `0` byte, or a `1` byte and the field.
pub open spec fn spec_opt_field(s: Option<Seq<char>>) -> Seq<u8> {
    match s {
        Some(v) => seq![1u8] + spec_field(v),
        None => seq![0u8],
    }
}

fn push_field(out: &mut Vec<u8>, s: &str)
    ensures
        final(out)@ == old(out)@ + spec_field(s@),
{
    let b = s.as_bytes();
    let n = b.len() as u64;
    let len = u64_to_le_bytes(n);
    append_bytes(out, len.as_slice());
    append_bytes(out, b);
    assert(final(out)@ =~= old(out)@ + spec_field(s@));
}

fn push_opt_field(out: &mut Vec<u8>, s: &Option<String>)
    ensures
        final(out)@ == old(out)@ + spec_opt_field(crate::types::opt_view(*s)),
{
    match s {
        Some(v) => {
            out.push(1u8);
            push_field(out, v.as_str());
            assert(final(out)@ =~= old(out)@ + spec_opt_field(crate::types::opt_view(*s)));
        },
        None => {
            out.push(0u8);
            assert(final(out)@ =~= old(out)@ + spec_opt_field(crate::types::opt_view(*s)));
        },
    }
}

/// The bytes a ChatGPT credential bundle is fingerprinted from.
pub open spec fn spec_chatgpt_credential_bytes(
    id_token: Seq<char>,
    access_token: Seq<char>,
    refresh_token: Seq<char>,
    account_id: Option<Seq<char>>,
    last_refresh: Option<Seq<char>>,
) -> Seq<u8> {
    spec_field(id_token) + spec_field(access_token) + spec_field(refresh_token) + spec_opt_field(
        account_id,
    ) + spec_opt_field(last_refresh)
}

/// The fingerprint of a ChatGPT credential bundle: hex of SHA-256 of its framed fields.
pub open spec fn spec_chatgpt_fingerprint(
    id_token: Seq<char>,
    access_token: Seq<char>,
    refresh_token: Seq<char>,
    account_id: Option<Seq<char>>,
    last_refresh: Option<Seq<char>>,
) -> Seq<char> {
    spec_hex(
        spec_sha256(
            spec_chatgpt_credential_bytes(
                id_token,
                access_token,
                refresh_token,
                account_id,
                last_refresh,
            ),
        ),
    )
}

/// The fingerprint of credentials; `None` for an API key.
pub open spec fn spec_credential_fingerprint(data: AuthData) -> Option<Seq<char>> {
    match data {
        AuthData::ChatGPT { id_token, access_token, refresh_token, account_id, last_refresh } => Some(
            spec_chatgpt_fingerprint(
                id_token@,
                access_token@,
                refresh_token@,
                crate::types::opt_view(account_id),
                crate::types::opt_view(last_refresh),
            ),
        ),
        AuthData::ApiKey { .. } => None,
    }
}

/// Fingerprint of ChatGPT credentials; `None` for an API key.
pub fn chatgpt_auth_data_fingerprint(data: &AuthData) -> (r: Option<String>)
    ensures
        crate::types::opt_view(r) == spec_credential_fingerprint(*data),
{
    match data {
        AuthData::ChatGPT { id_token, access_token, refresh_token, account_id, last_refresh } => {
            let mut bytes: Vec<u8> = Vec::new();
            push_field(&mut bytes, id_token.as_str());
            push_field(&mut bytes, access_token.as_str());
            push_field(&mut bytes, refresh_token.as_str());
            push_opt_field(&mut bytes, account_id);
            push_opt_field(&mut bytes, last_refresh);
            assert(bytes@ =~= spec_chatgpt_credential_bytes(
                id_token@,
                access_token@,
                refresh_token@,
                crate::types::opt_view(*account_id),
                crate::types::opt_view(*last_refresh),
            ));
            let digest = sha256(bytes.as_slice());
            Some(hex(digest.as_slice()))
        },
        AuthData::ApiKey { .. } => None,
    }
}

} // verus!
