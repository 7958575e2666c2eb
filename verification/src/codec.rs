//! Byte-level wire codec primitives.
//!
//! Every protocol value is laid out as a flat byte sequence: little-endian
//! integers, strings as a `u64` byte-length prefix followed by UTF-8 bytes,
//! enums as a one-byte tag followed by the payload. Each primitive comes as
//! a pair: a specification-level encoder over sequences and a decoder over a
//! sequence and a cursor, with an executable function proved against each,
//! and a lemma that decoding after encoding yields the value back.

use vstd::prelude::*;
use vstd::bytes::*;
use vstd::utf8::{encode_utf8, decode_utf8, valid_utf8};
use vstd::slice::{slice_subrange, slice_to_vec};
use vstd::string::StringSliceAdditionalSpecFns;
use crate::{Connection, HostAddr, NetAddr};

verus! {

broadcast use vstd::utf8::encode_utf8_valid_utf8, vstd::utf8::encode_utf8_decode_utf8;

// ---------------------------------------------------------------------------
// Specification-level encoders
// ---------------------------------------------------------------------------

pub open spec fn enc_u8(v: u8) -> Seq<u8> {
    seq![v]
}

pub open spec fn enc_u16(v: u16) -> Seq<u8> {
    spec_u16_to_le_bytes(v)
}

pub open spec fn enc_u32(v: u32) -> Seq<u8> {
    spec_u32_to_le_bytes(v)
}

pub open spec fn enc_u64(v: u64) -> Seq<u8> {
    spec_u64_to_le_bytes(v)
}

pub open spec fn enc_u128(v: u128) -> Seq<u8> {
    spec_u128_to_le_bytes(v)
}

/// A string is well formed for the wire when its UTF-8 form fits a `u64`
/// length prefix; every string an executable program can hold satisfies this.
pub open spec fn str_fits(s: Seq<char>) -> bool {
    encode_utf8(s).len() <= u64::MAX
}

pub open spec fn enc_str(s: Seq<char>) -> Seq<u8> {
    enc_u64(encode_utf8(s).len() as u64) + encode_utf8(s)
}

// ---------------------------------------------------------------------------
// Specification-level decoders: (bytes, cursor) -> Option<(value, cursor')>
// ---------------------------------------------------------------------------

pub open spec fn dec_u8(b: Seq<u8>, i: int) -> Option<(u8, int)> {
    if 0 <= i && i + 1 <= b.len() {
        Some((b[i], i + 1))
    } else {
        None
    }
}

pub open spec fn dec_u16(b: Seq<u8>, i: int) -> Option<(u16, int)> {
    if 0 <= i && i + 2 <= b.len() {
        Some((spec_u16_from_le_bytes(b.subrange(i, i + 2)), i + 2))
    } else {
        None
    }
}

pub open spec fn dec_u32(b: Seq<u8>, i: int) -> Option<(u32, int)> {
    if 0 <= i && i + 4 <= b.len() {
        Some((spec_u32_from_le_bytes(b.subrange(i, i + 4)), i + 4))
    } else {
        None
    }
}

pub open spec fn dec_u64(b: Seq<u8>, i: int) -> Option<(u64, int)> {
    if 0 <= i && i + 8 <= b.len() {
        Some((spec_u64_from_le_bytes(b.subrange(i, i + 8)), i + 8))
    } else {
        None
    }
}

pub open spec fn dec_u128(b: Seq<u8>, i: int) -> Option<(u128, int)> {
    if 0 <= i && i + 16 <= b.len() {
        Some((spec_u128_from_le_bytes(b.subrange(i, i + 16)), i + 16))
    } else {
        None
    }
}

pub open spec fn dec_str(b: Seq<u8>, i: int) -> Option<(Seq<char>, int)> {
    match dec_u64(b, i) {
        None => None,
        Some((n, j)) => {
            if j + n <= b.len() && valid_utf8(b.subrange(j, j + n)) {
                Some((decode_utf8(b.subrange(j, j + n)), j + n))
            } else {
                None
            }
        },
    }
}

// ---------------------------------------------------------------------------
// Round-trip lemmas: decoding at the position where a value was encoded
// yields that value and moves the cursor past it.
// ---------------------------------------------------------------------------

pub proof fn lemma_dec_u8(pre: Seq<u8>, v: u8, suf: Seq<u8>)
    ensures
        dec_u8(pre + enc_u8(v) + suf, pre.len() as int)
            == Some((v, pre.len() + enc_u8(v).len() as int)),
{
    let b = pre + enc_u8(v) + suf;
    assert(b[pre.len() as int] == v);
}

pub proof fn lemma_dec_u16(pre: Seq<u8>, v: u16, suf: Seq<u8>)
    ensures
        dec_u16(pre + enc_u16(v) + suf, pre.len() as int)
            == Some((v, pre.len() + enc_u16(v).len() as int)),
{
    lemma_auto_spec_u16_to_from_le_bytes();
    let b = pre + enc_u16(v) + suf;
    assert(b.subrange(pre.len() as int, pre.len() + 2int) =~= enc_u16(v));
}

pub proof fn lemma_dec_u32(pre: Seq<u8>, v: u32, suf: Seq<u8>)
    ensures
        dec_u32(pre + enc_u32(v) + suf, pre.len() as int)
            == Some((v, pre.len() + enc_u32(v).len() as int)),
{
    lemma_auto_spec_u32_to_from_le_bytes();
    let b = pre + enc_u32(v) + suf;
    assert(b.subrange(pre.len() as int, pre.len() + 4int) =~= enc_u32(v));
}

pub proof fn lemma_dec_u64(pre: Seq<u8>, v: u64, suf: Seq<u8>)
    ensures
        dec_u64(pre + enc_u64(v) + suf, pre.len() as int)
            == Some((v, pre.len() + enc_u64(v).len() as int)),
{
    lemma_auto_spec_u64_to_from_le_bytes();
    let b = pre + enc_u64(v) + suf;
    assert(b.subrange(pre.len() as int, pre.len() + 8int) =~= enc_u64(v));
}

pub proof fn lemma_dec_u128(pre: Seq<u8>, v: u128, suf: Seq<u8>)
    ensures
        dec_u128(pre + enc_u128(v) + suf, pre.len() as int)
            == Some((v, pre.len() + enc_u128(v).len() as int)),
{
    lemma_auto_spec_u128_to_from_le_bytes();
    let b = pre + enc_u128(v) + suf;
    assert(b.subrange(pre.len() as int, pre.len() + 16int) =~= enc_u128(v));
}

pub proof fn lemma_dec_str(pre: Seq<u8>, s: Seq<char>, suf: Seq<u8>)
    requires
        str_fits(s),
    ensures
        dec_str(pre + enc_str(s) + suf, pre.len() as int)
            == Some((s, pre.len() + enc_str(s).len() as int)),
{
    let utf8 = encode_utf8(s);
    let n = utf8.len() as u64;
    let b = pre + enc_str(s) + suf;
    assert(pre + enc_str(s) + suf =~= pre + enc_u64(n) + (utf8 + suf));
    lemma_dec_u64(pre, n, utf8 + suf);
    let j = pre.len() + enc_u64(n).len();
    assert(b.subrange(j as int, j + n as int) =~= utf8);
    assert(decode_utf8(utf8) == s);
}

// ---------------------------------------------------------------------------
// Executable encoders, appending to an output buffer
// ---------------------------------------------------------------------------

pub fn put_u8(out: &mut Vec<u8>, v: u8)
    ensures
        final(out)@ == old(out)@ + enc_u8(v),
{
    out.push(v);
}

pub fn put_u16(out: &mut Vec<u8>, v: u16)
    ensures
        final(out)@ == old(out)@ + enc_u16(v),
{
    let mut bs = u16_to_le_bytes(v);
    out.append(&mut bs);
}

pub fn put_u32(out: &mut Vec<u8>, v: u32)
    ensures
        final(out)@ == old(out)@ + enc_u32(v),
{
    let mut bs = u32_to_le_bytes(v);
    out.append(&mut bs);
}

pub fn put_u64(out: &mut Vec<u8>, v: u64)
    ensures
        final(out)@ == old(out)@ + enc_u64(v),
{
    let mut bs = u64_to_le_bytes(v);
    out.append(&mut bs);
}

pub fn put_u128(out: &mut Vec<u8>, v: u128)
    ensures
        final(out)@ == old(out)@ + enc_u128(v),
{
    let mut bs = u128_to_le_bytes(v);
    out.append(&mut bs);
}

pub fn put_str(out: &mut Vec<u8>, s: &str)
    ensures
        final(out)@ == old(out)@ + enc_str(s@),
        str_fits(s@),
{
    let mut bs = slice_to_vec(s.as_bytes());
    let n = bs.len();
    put_u64(out, n as u64);
    out.append(&mut bs);
}

// ---------------------------------------------------------------------------
// Executable decoders
// ---------------------------------------------------------------------------

pub fn get_u8(b: &[u8], pos: usize) -> (r: Option<(u8, usize)>)
    ensures
        dec_u8(b@, pos as int) matches Some((v, j)) ==> r == Some((v, j as usize)),
        dec_u8(b@, pos as int) is None ==> r is None,
{
    if pos < b.len() {
        Some((*vstd::slice::slice_index_get(b, pos), pos + 1))
    } else {
        None
    }
}

pub fn get_u16(b: &[u8], pos: usize) -> (r: Option<(u16, usize)>)
    ensures
        dec_u16(b@, pos as int) matches Some((v, j)) ==> r == Some((v, j as usize)),
        dec_u16(b@, pos as int) is None ==> r is None,
{
    if pos <= b.len() && b.len() - pos >= 2 {
        let v = u16_from_le_bytes(slice_subrange(b, pos, pos + 2));
        Some((v, pos + 2))
    } else {
        None
    }
}

pub fn get_u32(b: &[u8], pos: usize) -> (r: Option<(u32, usize)>)
    ensures
        dec_u32(b@, pos as int) matches Some((v, j)) ==> r == Some((v, j as usize)),
        dec_u32(b@, pos as int) is None ==> r is None,
{
    if pos <= b.len() && b.len() - pos >= 4 {
        let v = u32_from_le_bytes(slice_subrange(b, pos, pos + 4));
        Some((v, pos + 4))
    } else {
        None
    }
}

pub fn get_u64(b: &[u8], pos: usize) -> (r: Option<(u64, usize)>)
    ensures
        dec_u64(b@, pos as int) matches Some((v, j)) ==> r == Some((v, j as usize)),
        dec_u64(b@, pos as int) is None ==> r is None,
{
    if pos <= b.len() && b.len() - pos >= 8 {
        let v = u64_from_le_bytes(slice_subrange(b, pos, pos + 8));
        Some((v, pos + 8))
    } else {
        None
    }
}

pub fn get_u128(b: &[u8], pos: usize) -> (r: Option<(u128, usize)>)
    ensures
        dec_u128(b@, pos as int) matches Some((v, j)) ==> r == Some((v, j as usize)),
        dec_u128(b@, pos as int) is None ==> r is None,
{
    if pos <= b.len() && b.len() - pos >= 16 {
        let v = u128_from_le_bytes(slice_subrange(b, pos, pos + 16));
        Some((v, pos + 16))
    } else {
        None
    }
}

/// Relies on `core::str::from_utf8`: yields the string slice whose UTF-8
/// bytes are exactly the input, and fails exactly on input that is not
/// valid UTF-8.
#[verifier::external_body]
fn bytes_to_str(v: &[u8]) -> (r: Option<&str>)
    ensures
        r matches Some(s) ==> s.spec_bytes() == v@ && valid_utf8(v@),
        r is None ==> !valid_utf8(v@),
{
    core::str::from_utf8(v).ok()
}

pub fn get_str(b: &[u8], pos: usize) -> (r: Option<(String, usize)>)
    ensures
        dec_str(b@, pos as int) matches Some((v, j))
            ==> r matches Some((rs, rj)) && rs@ == v && rj == j && str_fits(rs@),
        dec_str(b@, pos as int) is None ==> r is None,
{
    broadcast use vstd::utf8::decode_utf8_encode_utf8;

    match get_u64(b, pos) {
        None => None,
        Some((n, j)) => {
            if n <= (b.len() - j) as u64 {
                let sub = slice_subrange(b, j, j + n as usize);
                match bytes_to_str(sub) {
                    None => None,
                    Some(s) => {
                        let owned = s.to_owned();
                        proof {
                            assert(encode_utf8(s@) == sub@);
                            assert(decode_utf8(sub@) == s@);
                        }
                        Some((owned, j + n as usize))
                    },
                }
            } else {
                None
            }
        },
    }
}



/// Every string a program holds has a UTF-8 form no longer than the
/// address space, so it fits the wire's 64-bit length prefix.
pub fn check_str_fits(s: &str)
    ensures
        str_fits(s@),
{
    let bs = s.as_bytes();
    proof {
        lemma_slice_len_bound(bs);
    }
}

// ---------------------------------------------------------------------------
// Shared protocol values: addresses, connection identities, leaderboard rows
// ---------------------------------------------------------------------------

pub open spec fn enc_host(h: HostAddr) -> Seq<u8> {
    match h {
        HostAddr::V4(ip) => enc_u8(0) + enc_u32(ip),
        HostAddr::V6(ip) => enc_u8(1) + enc_u128(ip),
    }
}

pub open spec fn dec_host(b: Seq<u8>, i: int) -> Option<(HostAddr, int)> {
    match dec_u8(b, i) {
        None => None,
        Some((t, j)) => {
            if t == 0 {
                match dec_u32(b, j) {
                    None => None,
                    Some((ip, k)) => Some((HostAddr::V4(ip), k)),
                }
            } else if t == 1 {
                match dec_u128(b, j) {
                    None => None,
                    Some((ip, k)) => Some((HostAddr::V6(ip), k)),
                }
            } else {
                None
            }
        },
    }
}

pub open spec fn enc_addr(a: NetAddr) -> Seq<u8> {
    enc_host(a.host) + enc_u16(a.port)
}

pub open spec fn dec_addr(b: Seq<u8>, i: int) -> Option<(NetAddr, int)> {
    match dec_host(b, i) {
        None => None,
        Some((h, j)) => match dec_u16(b, j) {
            None => None,
            Some((p, k)) => Some((NetAddr { host: h, port: p }, k)),
        },
    }
}

pub open spec fn enc_conn(c: Connection) -> Seq<u8> {
    match c {
        Connection::Udp(a) => enc_u8(0) + enc_addr(a),
        Connection::Tcp(a) => enc_u8(1) + enc_addr(a),
    }
}

pub open spec fn dec_conn(b: Seq<u8>, i: int) -> Option<(Connection, int)> {
    match dec_u8(b, i) {
        None => None,
        Some((t, j)) => {
            if t == 0 {
                match dec_addr(b, j) {
                    None => None,
                    Some((a, k)) => Some((Connection::Udp(a), k)),
                }
            } else if t == 1 {
                match dec_addr(b, j) {
                    None => None,
                    Some((a, k)) => Some((Connection::Tcp(a), k)),
                }
            } else {
                None
            }
        },
    }
}

pub proof fn lemma_dec_host(pre: Seq<u8>, h: HostAddr, suf: Seq<u8>)
    ensures
        dec_host(pre + enc_host(h) + suf, pre.len() as int)
            == Some((h, pre.len() + enc_host(h).len() as int)),
{
    match h {
        HostAddr::V4(ip) => {
            assert(pre + enc_host(h) + suf =~= pre + enc_u8(0) + (enc_u32(ip) + suf));
            lemma_dec_u8(pre, 0, enc_u32(ip) + suf);
            assert(pre + enc_u8(0) + (enc_u32(ip) + suf)
                =~= (pre + enc_u8(0)) + enc_u32(ip) + suf);
            lemma_dec_u32(pre + enc_u8(0), ip, suf);
        },
        HostAddr::V6(ip) => {
            assert(pre + enc_host(h) + suf =~= pre + enc_u8(1) + (enc_u128(ip) + suf));
            lemma_dec_u8(pre, 1, enc_u128(ip) + suf);
            assert(pre + enc_u8(1) + (enc_u128(ip) + suf)
                =~= (pre + enc_u8(1)) + enc_u128(ip) + suf);
            lemma_dec_u128(pre + enc_u8(1), ip, suf);
        },
    }
}

pub proof fn lemma_dec_addr(pre: Seq<u8>, a: NetAddr, suf: Seq<u8>)
    ensures
        dec_addr(pre + enc_addr(a) + suf, pre.len() as int)
            == Some((a, pre.len() + enc_addr(a).len() as int)),
{
    assert(pre + enc_addr(a) + suf =~= pre + enc_host(a.host) + (enc_u16(a.port) + suf));
    lemma_dec_host(pre, a.host, enc_u16(a.port) + suf);
    assert(pre + enc_host(a.host) + (enc_u16(a.port) + suf)
        =~= (pre + enc_host(a.host)) + enc_u16(a.port) + suf);
    lemma_dec_u16(pre + enc_host(a.host), a.port, suf);
}

pub proof fn lemma_dec_conn(pre: Seq<u8>, c: Connection, suf: Seq<u8>)
    ensures
        dec_conn(pre + enc_conn(c) + suf, pre.len() as int)
            == Some((c, pre.len() + enc_conn(c).len() as int)),
{
    match c {
        Connection::Udp(a) => {
            assert(pre + enc_conn(c) + suf =~= pre + enc_u8(0) + (enc_addr(a) + suf));
            lemma_dec_u8(pre, 0, enc_addr(a) + suf);
            assert(pre + enc_u8(0) + (enc_addr(a) + suf)
                =~= (pre + enc_u8(0)) + enc_addr(a) + suf);
            lemma_dec_addr(pre + enc_u8(0), a, suf);
        },
        Connection::Tcp(a) => {
            assert(pre + enc_conn(c) + suf =~= pre + enc_u8(1) + (enc_addr(a) + suf));
            lemma_dec_u8(pre, 1, enc_addr(a) + suf);
            assert(pre + enc_u8(1) + (enc_addr(a) + suf)
                =~= (pre + enc_u8(1)) + enc_addr(a) + suf);
            lemma_dec_addr(pre + enc_u8(1), a, suf);
        },
    }
}

pub fn put_host(out: &mut Vec<u8>, h: HostAddr)
    ensures
        final(out)@ == old(out)@ + enc_host(h),
{
    match h {
        HostAddr::V4(ip) => {
            put_u8(out, 0);
            put_u32(out, ip);
        },
        HostAddr::V6(ip) => {
            put_u8(out, 1);
            put_u128(out, ip);
        },
    }
}

pub fn put_addr(out: &mut Vec<u8>, a: NetAddr)
    ensures
        final(out)@ == old(out)@ + enc_addr(a),
{
    put_host(out, a.host);
    put_u16(out, a.port);
}

pub fn put_conn(out: &mut Vec<u8>, c: Connection)
    ensures
        final(out)@ == old(out)@ + enc_conn(c),
{
    match c {
        Connection::Udp(a) => {
            put_u8(out, 0);
            put_addr(out, a);
        },
        Connection::Tcp(a) => {
            put_u8(out, 1);
            put_addr(out, a);
        },
    }
}



/// The length of any slice fits in `usize`.
pub proof fn lemma_slice_len_bound<T>(b: &[T])
    ensures
        b@.len() <= usize::MAX,
{
    assert(vstd::slice::spec_slice_len(b) == b@.len());
}

/// Lifts a specification decoder result to the executable cursor type.
pub open spec fn cursor<T>(d: Option<(T, int)>) -> Option<(T, usize)> {
    match d {
        Some((v, j)) => Some((v, j as usize)),
        None => None,
    }
}

pub fn get_host(b: &[u8], pos: usize) -> (r: Option<(HostAddr, usize)>)
    ensures
        r == cursor(dec_host(b@, pos as int)),
{
    proof { lemma_slice_len_bound(b); }
    match get_u8(b, pos) {
        None => None,
        Some((t, j)) => {
            if t == 0 {
                match get_u32(b, j) {
                    None => None,
                    Some((ip, k)) => Some((HostAddr::V4(ip), k)),
                }
            } else if t == 1 {
                match get_u128(b, j) {
                    None => None,
                    Some((ip, k)) => Some((HostAddr::V6(ip), k)),
                }
            } else {
                None
            }
        },
    }
}

pub fn get_addr(b: &[u8], pos: usize) -> (r: Option<(NetAddr, usize)>)
    ensures
        r == cursor(dec_addr(b@, pos as int)),
{
    proof { lemma_slice_len_bound(b); }
    match get_host(b, pos) {
        None => None,
        Some((h, j)) => match get_u16(b, j) {
            None => None,
            Some((p, k)) => Some((NetAddr { host: h, port: p }, k)),
        },
    }
}

pub fn get_conn(b: &[u8], pos: usize) -> (r: Option<(Connection, usize)>)
    ensures
        r == cursor(dec_conn(b@, pos as int)),
{
    proof { lemma_slice_len_bound(b); }
    match get_u8(b, pos) {
        None => None,
        Some((t, j)) => {
            if t == 0 {
                match get_addr(b, j) {
                    None => None,
                    Some((a, k)) => Some((Connection::Udp(a), k)),
                }
            } else if t == 1 {
                match get_addr(b, j) {
                    None => None,
                    Some((a, k)) => Some((Connection::Tcp(a), k)),
                }
            } else {
                None
            }
        },
    }
}


pub open spec fn enc_entry(e: crate::LeaderboardEntryV) -> Seq<u8> {
    enc_u64(e.score) + enc_str(e.user)
}

pub open spec fn dec_entry(b: Seq<u8>, i: int) -> Option<(crate::LeaderboardEntryV, int)> {
    match dec_u64(b, i) {
        None => None,
        Some((score, j)) => match dec_str(b, j) {
            None => None,
            Some((user, k)) => Some((crate::LeaderboardEntryV { score, user }, k)),
        },
    }
}

pub proof fn lemma_dec_entry(pre: Seq<u8>, e: crate::LeaderboardEntryV, suf: Seq<u8>)
    requires
        str_fits(e.user),
    ensures
        dec_entry(pre + enc_entry(e) + suf, pre.len() as int)
            == Some((e, pre.len() + enc_entry(e).len() as int)),
{
    assert(pre + enc_entry(e) + suf =~= pre + enc_u64(e.score) + (enc_str(e.user) + suf));
    lemma_dec_u64(pre, e.score, enc_str(e.user) + suf);
    assert(pre + enc_u64(e.score) + (enc_str(e.user) + suf)
        =~= (pre + enc_u64(e.score)) + enc_str(e.user) + suf);
    lemma_dec_str(pre + enc_u64(e.score), e.user, suf);
}

pub fn put_entry(out: &mut Vec<u8>, e: &crate::LeaderboardEntry)
    ensures
        final(out)@ == old(out)@ + enc_entry(e@),
        str_fits(e@.user),
{
    put_u64(out, e.score);
    put_str(out, e.user.as_str());
}

pub fn get_entry(b: &[u8], pos: usize) -> (r: Option<(crate::LeaderboardEntry, usize)>)
    ensures
        dec_entry(b@, pos as int) matches Some((v, j))
            ==> r matches Some((re, rj)) && re@ == v && rj == j && str_fits(re@.user),
        dec_entry(b@, pos as int) is None ==> r is None,
{
    proof { lemma_slice_len_bound(b); }
    match get_u64(b, pos) {
        None => None,
        Some((score, j)) => match get_str(b, j) {
            None => None,
            Some((user, k)) => Some((crate::LeaderboardEntry { score, user }, k)),
        },
    }
}

} // verus!
