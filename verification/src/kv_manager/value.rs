//! The stable binary format for stored share bundles: every field is
//! length-prefixed, integers are little-endian, and readers reject
//! records whose embedded invariants are violated.

use vstd::prelude::*;

use crate::gg20::types::{party_info_wf, PartyInfo, PartyInfoV, TofndInfo};

verus! {

/// The eight little-endian bytes of a 64-bit integer.
#[verifier::opaque]
pub open spec fn u64_le(x: u64) -> Seq<u8> {
    seq![
        (x & 0xff) as u8,
        ((x >> 8) & 0xff) as u8,
        ((x >> 16) & 0xff) as u8,
        ((x >> 24) & 0xff) as u8,
        ((x >> 32) & 0xff) as u8,
        ((x >> 40) & 0xff) as u8,
        ((x >> 48) & 0xff) as u8,
        ((x >> 56) & 0xff) as u8,
    ]
}

/// The 64-bit integer read from eight little-endian bytes.
#[verifier::opaque]
pub open spec fn u64_of_le(s: Seq<u8>) -> u64
    recommends
        s.len() == 8,
{
    ((s[0] as u64) | ((s[1] as u64) << 8) | ((s[2] as u64) << 16) | ((s[3] as u64) << 24) | (
    (s[4] as u64) << 32) | ((s[5] as u64) << 40) | ((s[6] as u64) << 48) | ((s[7] as u64) << 56))
        as u64
}

pub proof fn lemma_u64_le_len(x: u64)
    ensures
        u64_le(x).len() == 8,
{
    reveal(u64_le);
}

pub proof fn lemma_u32_le_len(x: u32)
    ensures
        u32_le(x).len() == 4,
{
    reveal(u32_le);
}

pub proof fn lemma_u64_le_round_trip(x: u64)
    ensures
        u64_of_le(u64_le(x)) == x,
{
    reveal(u64_le);
    reveal(u64_of_le);
    let b0 = (x & 0xff) as u8;
    let b1 = ((x >> 8) & 0xff) as u8;
    let b2 = ((x >> 16) & 0xff) as u8;
    let b3 = ((x >> 24) & 0xff) as u8;
    let b4 = ((x >> 32) & 0xff) as u8;
    let b5 = ((x >> 40) & 0xff) as u8;
    let b6 = ((x >> 48) & 0xff) as u8;
    let b7 = ((x >> 56) & 0xff) as u8;
    assert(((b0 as u64) | ((b1 as u64) << 8) | ((b2 as u64) << 16) | ((b3 as u64) << 24) | ((
    b4 as u64) << 32) | ((b5 as u64) << 40) | ((b6 as u64) << 48) | ((b7 as u64) << 56)) == x)
        by (bit_vector)
        requires
            b0 == (x & 0xff) as u8,
            b1 == ((x >> 8) & 0xff) as u8,
            b2 == ((x >> 16) & 0xff) as u8,
            b3 == ((x >> 24) & 0xff) as u8,
            b4 == ((x >> 32) & 0xff) as u8,
            b5 == ((x >> 40) & 0xff) as u8,
            b6 == ((x >> 48) & 0xff) as u8,
            b7 == ((x >> 56) & 0xff) as u8,
    ;
}

/// The four little-endian bytes of a 32-bit integer.
#[verifier::opaque]
pub open spec fn u32_le(x: u32) -> Seq<u8> {
    seq![
        (x & 0xff) as u8,
        ((x >> 8) & 0xff) as u8,
        ((x >> 16) & 0xff) as u8,
        ((x >> 24) & 0xff) as u8,
    ]
}

/// The 32-bit integer read from four little-endian bytes.
#[verifier::opaque]
pub open spec fn u32_of_le(s: Seq<u8>) -> u32
    recommends
        s.len() == 4,
{
    ((s[0] as u32) | ((s[1] as u32) << 8) | ((s[2] as u32) << 16) | ((s[3] as u32) << 24)) as u32
}

pub proof fn lemma_u32_le_round_trip(x: u32)
    ensures
        u32_of_le(u32_le(x)) == x,
{
    reveal(u32_le);
    reveal(u32_of_le);
    let b0 = (x & 0xff) as u8;
    let b1 = ((x >> 8) & 0xff) as u8;
    let b2 = ((x >> 16) & 0xff) as u8;
    let b3 = ((x >> 24) & 0xff) as u8;
    assert(((b0 as u32) | ((b1 as u32) << 8) | ((b2 as u32) << 16) | ((b3 as u32) << 24)) == x)
        by (bit_vector)
        requires
            b0 == (x & 0xff) as u8,
            b1 == ((x >> 8) & 0xff) as u8,
            b2 == ((x >> 16) & 0xff) as u8,
            b3 == ((x >> 24) & 0xff) as u8,
    ;
}

fn push_u64_le(out: &mut Vec<u8>, x: u64)
    ensures
        final(out)@ == old(out)@ + u64_le(x),
{
    out.push((x & 0xff) as u8);
    out.push(((x >> 8) & 0xff) as u8);
    out.push(((x >> 16) & 0xff) as u8);
    out.push(((x >> 24) & 0xff) as u8);
    out.push(((x >> 32) & 0xff) as u8);
    out.push(((x >> 40) & 0xff) as u8);
    out.push(((x >> 48) & 0xff) as u8);
    out.push(((x >> 56) & 0xff) as u8);
    proof {
        reveal(u64_le);
        assert(out@ =~= old(out)@ + u64_le(x));
    }
}

pub(crate) fn push_u32_le(out: &mut Vec<u8>, x: u32)
    ensures
        final(out)@ == old(out)@ + u32_le(x),
{
    out.push((x & 0xff) as u8);
    out.push(((x >> 8) & 0xff) as u8);
    out.push(((x >> 16) & 0xff) as u8);
    out.push(((x >> 24) & 0xff) as u8);
    proof {
        reveal(u32_le);
        assert(out@ =~= old(out)@ + u32_le(x));
    }
}

/// Read eight little-endian bytes at `pos`.
pub open spec fn parse_u64(b: Seq<u8>, pos: int) -> Option<(u64, int)> {
    if 0 <= pos && pos + 8 <= b.len() {
        Some((u64_of_le(b.subrange(pos, pos + 8)), pos + 8))
    } else {
        None
    }
}

/// Read four little-endian bytes at `pos`.
pub open spec fn parse_u32(b: Seq<u8>, pos: int) -> Option<(u32, int)> {
    if 0 <= pos && pos + 4 <= b.len() {
        Some((u32_of_le(b.subrange(pos, pos + 4)), pos + 4))
    } else {
        None
    }
}

fn read_u64_le(b: &Vec<u8>, pos: usize) -> (r: Option<(u64, usize)>)
    ensures
        match r {
            Some((x, p)) => parse_u64(b@, pos as int) == Some((x, p as int)),
            None => parse_u64(b@, pos as int) is None,
        },
{
    if b.len() < 8 || pos > b.len() - 8 {
        return None;
    }
    let x = (b[pos] as u64) | ((b[pos + 1] as u64) << 8u64) | ((b[pos + 2] as u64) << 16u64) | ((b[
        pos + 3] as u64) << 24u64) | ((b[pos + 4] as u64) << 32u64) | ((b[pos + 5] as u64)
        << 40u64) | ((b[pos + 6] as u64) << 48u64) | ((b[pos + 7] as u64) << 56u64);
    proof {
        reveal(u64_of_le);
        let s = b@.subrange(pos as int, pos as int + 8);
        assert(s[0] == b@[pos as int]);
        assert(s[1] == b@[pos as int + 1]);
        assert(s[2] == b@[pos as int + 2]);
        assert(s[3] == b@[pos as int + 3]);
        assert(s[4] == b@[pos as int + 4]);
        assert(s[5] == b@[pos as int + 5]);
        assert(s[6] == b@[pos as int + 6]);
        assert(s[7] == b@[pos as int + 7]);
    }
    Some((x, pos + 8))
}

/// A length-prefixed byte blob.
pub open spec fn lp_bytes(v: Seq<u8>) -> Seq<u8> {
    u64_le(v.len() as u64) + v
}

/// A list of length-prefixed byte blobs, in order.
pub open spec fn enc_blob_list(s: Seq<Seq<u8>>) -> Seq<u8>
    decreases s.len(),
{
    if s.len() == 0 {
        Seq::empty()
    } else {
        lp_bytes(s.first()) + enc_blob_list(s.drop_first())
    }
}

/// A list of 32-bit little-endian integers, in order.
pub open spec fn enc_u32_list(s: Seq<u32>) -> Seq<u8>
    decreases s.len(),
{
    if s.len() == 0 {
        Seq::empty()
    } else {
        u32_le(s.first()) + enc_u32_list(s.drop_first())
    }
}

proof fn lemma_enc_blob_list_push(s: Seq<Seq<u8>>, v: Seq<u8>)
    ensures
        enc_blob_list(s.push(v)) == enc_blob_list(s) + lp_bytes(v),
    decreases s.len(),
{
    if s.len() == 0 {
        assert(s.push(v).first() == v);
        assert(s.push(v).drop_first() =~= Seq::<Seq<u8>>::empty());
        assert(enc_blob_list(Seq::<Seq<u8>>::empty()) == Seq::<u8>::empty());
        assert(enc_blob_list(s.push(v)) =~= enc_blob_list(s) + lp_bytes(v));
    } else {
        assert(s.push(v).first() == s.first());
        assert(s.push(v).drop_first() =~= s.drop_first().push(v));
        lemma_enc_blob_list_push(s.drop_first(), v);
        assert(enc_blob_list(s.push(v)) =~= enc_blob_list(s) + lp_bytes(v));
    }
}

proof fn lemma_enc_u32_list_push(s: Seq<u32>, x: u32)
    ensures
        enc_u32_list(s.push(x)) == enc_u32_list(s) + u32_le(x),
    decreases s.len(),
{
    if s.len() == 0 {
        assert(s.push(x).first() == x);
        assert(s.push(x).drop_first() =~= Seq::<u32>::empty());
        assert(enc_u32_list(Seq::<u32>::empty()) == Seq::<u8>::empty());
        assert(enc_u32_list(s.push(x)) =~= enc_u32_list(s) + u32_le(x));
    } else {
        assert(s.push(x).first() == s.first());
        assert(s.push(x).drop_first() =~= s.drop_first().push(x));
        lemma_enc_u32_list_push(s.drop_first(), x);
        assert(enc_u32_list(s.push(x)) =~= enc_u32_list(s) + u32_le(x));
    }
}

/// Read one length-prefixed blob at `pos`.
pub open spec fn parse_lp(b: Seq<u8>, pos: int) -> Option<(Seq<u8>, int)> {
    match parse_u64(b, pos) {
        None => None,
        Some((n, p)) => if p + n <= b.len() {
            Some((b.subrange(p, p + n), p + n))
        } else {
            None
        },
    }
}

/// Read `n` length-prefixed blobs starting at `pos`.
pub open spec fn parse_blob_list(b: Seq<u8>, pos: int, n: nat) -> Option<(Seq<Seq<u8>>, int)>
    decreases n,
{
    if n == 0 {
        Some((Seq::empty(), pos))
    } else {
        match parse_lp(b, pos) {
            None => None,
            Some((v, p)) => match parse_blob_list(b, p, (n - 1) as nat) {
                None => None,
                Some((s, p2)) => Some((seq![v] + s, p2)),
            },
        }
    }
}

/// Read `n` 32-bit integers starting at `pos`.
pub open spec fn parse_u32_list(b: Seq<u8>, pos: int, n: nat) -> Option<(Seq<u32>, int)>
    decreases n,
{
    if n == 0 {
        Some((Seq::empty(), pos))
    } else {
        match parse_u32(b, pos) {
            None => None,
            Some((x, p)) => match parse_u32_list(b, p, (n - 1) as nat) {
                None => None,
                Some((s, p2)) => Some((seq![x] + s, p2)),
            },
        }
    }
}

fn read_u32_le(b: &Vec<u8>, pos: usize) -> (r: Option<(u32, usize)>)
    ensures
        match r {
            Some((x, p)) => parse_u32(b@, pos as int) == Some((x, p as int)),
            None => parse_u32(b@, pos as int) is None,
        },
{
    if b.len() < 4 || pos > b.len() - 4 {
        return None;
    }
    let x = (b[pos] as u32) | ((b[pos + 1] as u32) << 8u32) | ((b[pos + 2] as u32) << 16u32) | ((b[
        pos + 3] as u32) << 24u32);
    proof {
        reveal(u32_of_le);
        let s = b@.subrange(pos as int, pos as int + 4);
        assert(s[0] == b@[pos as int]);
        assert(s[1] == b@[pos as int + 1]);
        assert(s[2] == b@[pos as int + 2]);
        assert(s[3] == b@[pos as int + 3]);
    }
    Some((x, pos + 4))
}

proof fn lemma_parse_u64_at(prefix: Seq<u8>, x: u64, suffix: Seq<u8>)
    ensures
        parse_u64(prefix + u64_le(x) + suffix, prefix.len() as int) == Some(
            (x, prefix.len() + 8 as int),
        ),
{
    let b = prefix + u64_le(x) + suffix;
    lemma_u64_le_len(x);
    assert(b.subrange(prefix.len() as int, prefix.len() as int + 8) =~= u64_le(x));
    lemma_u64_le_round_trip(x);
}

proof fn lemma_parse_u32_at(prefix: Seq<u8>, x: u32, suffix: Seq<u8>)
    ensures
        parse_u32(prefix + u32_le(x) + suffix, prefix.len() as int) == Some(
            (x, prefix.len() + 4 as int),
        ),
{
    let b = prefix + u32_le(x) + suffix;
    lemma_u32_le_len(x);
    assert(b.subrange(prefix.len() as int, prefix.len() as int + 4) =~= u32_le(x));
    lemma_u32_le_round_trip(x);
}

proof fn lemma_parse_lp_at(prefix: Seq<u8>, v: Seq<u8>, suffix: Seq<u8>)
    requires
        v.len() <= u64::MAX,
    ensures
        parse_lp(prefix + lp_bytes(v) + suffix, prefix.len() as int) == Some(
            (v, (prefix.len() + 8 + v.len()) as int),
        ),
{
    let b = prefix + lp_bytes(v) + suffix;
    let n = v.len() as u64;
    lemma_u64_le_len(n);
    assert(b =~= prefix + u64_le(n) + (v + suffix));
    lemma_parse_u64_at(prefix, n, v + suffix);
    let p = prefix.len() + 8 as int;
    assert(p + n <= b.len());
    assert(b.subrange(p, p + n) =~= v);
}

#[verifier::rlimit(100)]
proof fn lemma_parse_blob_list_at(prefix: Seq<u8>, s: Seq<Seq<u8>>, suffix: Seq<u8>)
    requires
        forall|i: int| 0 <= i < s.len() ==> #[trigger] s[i].len() <= u64::MAX,
    ensures
        parse_blob_list(prefix + enc_blob_list(s) + suffix, prefix.len() as int, s.len()) == Some(
            (s, (prefix.len() + enc_blob_list(s).len()) as int),
        ),
    decreases s.len(),
{
    let b = prefix + enc_blob_list(s) + suffix;
    if s.len() == 0 {
        assert(enc_blob_list(s) =~= Seq::<u8>::empty());
        assert(s =~= Seq::<Seq<u8>>::empty());
        assert(parse_blob_list(b, prefix.len() as int, 0) == Some(
            (Seq::<Seq<u8>>::empty(), prefix.len() as int),
        ));
    } else {
        let v = s.first();
        let rest = s.drop_first();
        assert(enc_blob_list(s) == lp_bytes(v) + enc_blob_list(rest));
        assert(b =~= prefix + lp_bytes(v) + (enc_blob_list(rest) + suffix));
        lemma_parse_lp_at(prefix, v, enc_blob_list(rest) + suffix);
        lemma_u64_le_len(v.len() as u64);
        let p2 = prefix.len() + 8 + v.len();
        let prefix2 = prefix + lp_bytes(v);
        assert(prefix2.len() == p2);
        assert(forall|i: int| 0 <= i < rest.len() ==> #[trigger] rest[i].len() <= u64::MAX);
        assert(b =~= prefix2 + enc_blob_list(rest) + suffix);
        lemma_parse_blob_list_at(prefix2, rest, suffix);
        assert(seq![v] + rest =~= s);
        assert(p2 + enc_blob_list(rest).len() == prefix.len() + enc_blob_list(s).len());
    }
}

proof fn lemma_parse_u32_list_at(prefix: Seq<u8>, s: Seq<u32>, suffix: Seq<u8>)
    ensures
        parse_u32_list(prefix + enc_u32_list(s) + suffix, prefix.len() as int, s.len()) == Some(
            (s, (prefix.len() + enc_u32_list(s).len()) as int),
        ),
    decreases s.len(),
{
    let b = prefix + enc_u32_list(s) + suffix;
    if s.len() == 0 {
        assert(enc_u32_list(s) =~= Seq::<u8>::empty());
        assert(s =~= Seq::<u32>::empty());
        assert(parse_u32_list(b, prefix.len() as int, 0) == Some(
            (Seq::<u32>::empty(), prefix.len() as int),
        ));
    } else {
        let x = s.first();
        let rest = s.drop_first();
        assert(enc_u32_list(s) == u32_le(x) + enc_u32_list(rest));
        lemma_u32_le_len(x);
        assert(b =~= prefix + u32_le(x) + (enc_u32_list(rest) + suffix));
        lemma_parse_u32_at(prefix, x, enc_u32_list(rest) + suffix);
        let prefix2 = prefix + u32_le(x);
        assert(b =~= prefix2 + enc_u32_list(rest) + suffix);
        lemma_parse_u32_list_at(prefix2, rest, suffix);
        assert(seq![x] + rest =~= s);
        assert(prefix2.len() + enc_u32_list(rest).len() == prefix.len() + enc_u32_list(s).len());
    }
}

fn append_bytes(out: &mut Vec<u8>, v: &Vec<u8>)
    ensures
        final(out)@ == old(out)@ + v@,
{
    let n = v.len();
    let mut i: usize = 0;
    while i < n
        invariant
            n == v@.len(),
            0 <= i <= n,
            out@ =~= old(out)@ + v@.subrange(0, i as int),
        decreases n - i,
    {
        out.push(v[i]);
        proof {
            assert(out@ =~= old(out)@ + v@.subrange(0, i + 1));
        }
        i += 1;
    }
    proof {
        assert(out@ =~= old(out)@ + v@);
    }
}

fn copy_range(b: &Vec<u8>, start: usize, end: usize) -> (r: Vec<u8>)
    requires
        start <= end <= b@.len(),
    ensures
        r@ == b@.subrange(start as int, end as int),
{
    let mut r: Vec<u8> = Vec::new();
    let mut i: usize = start;
    while i < end
        invariant
            start <= i <= end <= b@.len(),
            r@ =~= b@.subrange(start as int, i as int),
        decreases end - i,
    {
        r.push(b[i]);
        proof {
            assert(r@ =~= b@.subrange(start as int, i + 1));
        }
        i += 1;
    }
    proof {
        assert(r@ =~= b@.subrange(start as int, end as int));
    }
    r
}

/// Write the count of `list` and then each entry, length-prefixed.
fn write_blob_list(out: &mut Vec<u8>, list: &Vec<Vec<u8>>)
    ensures
        final(out)@ == old(out)@ + u64_le(list@.len() as u64) + enc_blob_list(list.deep_view()),
{
    let n = list.len();
    push_u64_le(out, n as u64);
    let ghost base = out@;
    let ghost dv = list.deep_view();
    let mut i: usize = 0;
    while i < n
        invariant
            n == list@.len(),
            dv == list.deep_view(),
            dv.len() == n,
            0 <= i <= n,
            out@ == base + enc_blob_list(dv.subrange(0, i as int)),
        decreases n - i,
    {
        let ghost before = out@;
        push_u64_le(out, list[i].len() as u64);
        append_bytes(out, &list[i]);
        proof {
            assert(dv[i as int] == list@[i as int]@);
            assert(out@ =~= before + lp_bytes(dv[i as int]));
            assert(dv.subrange(0, i + 1) =~= dv.subrange(0, i as int).push(dv[i as int]));
            lemma_enc_blob_list_push(dv.subrange(0, i as int), dv[i as int]);
            assert(out@ =~= base + enc_blob_list(dv.subrange(0, i + 1)));
        }
        i += 1;
    }
    proof {
        assert(dv.subrange(0, n as int) =~= dv);
        assert(out@ =~= old(out)@ + u64_le(list@.len() as u64) + enc_blob_list(dv));
    }
}

/// Write the count of `list` and then each integer, little-endian.
fn write_u32_list(out: &mut Vec<u8>, list: &Vec<u32>)
    ensures
        final(out)@ == old(out)@ + u64_le(list@.len() as u64) + enc_u32_list(list@),
{
    let n = list.len();
    push_u64_le(out, n as u64);
    let ghost base = out@;
    let mut i: usize = 0;
    while i < n
        invariant
            n == list@.len(),
            0 <= i <= n,
            out@ == base + enc_u32_list(list@.subrange(0, i as int)),
        decreases n - i,
    {
        let ghost before = out@;
        push_u32_le(out, list[i]);
        proof {
            assert(list@.subrange(0, i + 1) =~= list@.subrange(0, i as int).push(
                list@[i as int],
            ));
            lemma_enc_u32_list_push(list@.subrange(0, i as int), list@[i as int]);
            assert(out@ =~= base + enc_u32_list(list@.subrange(0, i + 1)));
        }
        i += 1;
    }
    proof {
        assert(list@.subrange(0, n as int) =~= list@);
        assert(out@ =~= old(out)@ + u64_le(list@.len() as u64) + enc_u32_list(list@));
    }
}

fn read_blob(b: &Vec<u8>, pos: usize) -> (r: Option<(Vec<u8>, usize)>)
    ensures
        match r {
            Some((v, p)) => parse_lp(b@, pos as int) == Some((v@, p as int)),
            None => parse_lp(b@, pos as int) is None,
        },
{
    match read_u64_le(b, pos) {
        None => None,
        Some((n, p)) => {
            if n <= (b.len() - p) as u64 {
                let n_us = n as usize;
                let v = copy_range(b, p, p + n_us);
                Some((v, p + n_us))
            } else {
                None
            }
        },
    }
}

fn read_blob_list(b: &Vec<u8>, pos: usize, n: u64) -> (r: Option<(Vec<Vec<u8>>, usize)>)
    ensures
        match r {
            Some((v, p)) => parse_blob_list(b@, pos as int, n as nat) == Some(
                (v.deep_view(), p as int),
            ),
            None => parse_blob_list(b@, pos as int, n as nat) is None,
        },
{
    let mut acc: Vec<Vec<u8>> = Vec::new();
    let mut cur: usize = pos;
    let mut i: u64 = 0;
    while i < n
        invariant
            0 <= i <= n,
            match parse_blob_list(b@, cur as int, (n - i) as nat) {
                None => parse_blob_list(b@, pos as int, n as nat) is None,
                Some((s, p)) => parse_blob_list(b@, pos as int, n as nat) == Some(
                    (acc.deep_view() + s, p),
                ),
            },
        decreases n - i,
    {
        match read_blob(b, cur) {
            None => {
                proof {
                    assert(parse_blob_list(b@, cur as int, (n - i) as nat) is None);
                }
                return None;
            },
            Some((v, p)) => {
                proof {
                    assert(parse_blob_list(b@, cur as int, (n - i) as nat) == (
                    match parse_blob_list(b@, p as int, (n - i - 1) as nat) {
                        None => None,
                        Some((s, p2)) => Some((seq![v@] + s, p2)),
                    }));
                }
                let ghost old_dv = acc.deep_view();
                let ghost v_view = v@;
                acc.push(v);
                proof {
                    assert(acc.deep_view() =~~= old_dv.push(v_view));
                    if parse_blob_list(b@, p as int, (n - i - 1) as nat) is Some {
                        let (s2, p2) = parse_blob_list(b@, p as int, (n - i - 1) as nat)->Some_0;
                        assert(old_dv + (seq![v_view] + s2) =~= old_dv.push(v_view) + s2);
                    }
                }
                cur = p;
                i = i + 1;
            },
        }
    }
    proof {
        assert(parse_blob_list(b@, cur as int, 0) == Some(
            (Seq::<Seq<u8>>::empty(), cur as int),
        ));
        assert(acc.deep_view() + Seq::<Seq<u8>>::empty() =~= acc.deep_view());
    }
    Some((acc, cur))
}

fn read_u32_list(b: &Vec<u8>, pos: usize, n: u64) -> (r: Option<(Vec<u32>, usize)>)
    ensures
        match r {
            Some((v, p)) => parse_u32_list(b@, pos as int, n as nat) == Some((v@, p as int)),
            None => parse_u32_list(b@, pos as int, n as nat) is None,
        },
{
    let mut acc: Vec<u32> = Vec::new();
    let mut cur: usize = pos;
    let mut i: u64 = 0;
    while i < n
        invariant
            0 <= i <= n,
            match parse_u32_list(b@, cur as int, (n - i) as nat) {
                None => parse_u32_list(b@, pos as int, n as nat) is None,
                Some((s, p)) => parse_u32_list(b@, pos as int, n as nat) == Some((acc@ + s, p)),
            },
        decreases n - i,
    {
        match read_u32_le(b, cur) {
            None => {
                proof {
                    assert(parse_u32_list(b@, cur as int, (n - i) as nat) is None);
                }
                return None;
            },
            Some((x, p)) => {
                proof {
                    assert(parse_u32_list(b@, cur as int, (n - i) as nat) == (
                    match parse_u32_list(b@, p as int, (n - i - 1) as nat) {
                        None => None,
                        Some((s, p2)) => Some((seq![x] + s, p2)),
                    }));
                    if parse_u32_list(b@, p as int, (n - i - 1) as nat) is Some {
                        let (s2, p2) = parse_u32_list(b@, p as int, (n - i - 1) as nat)->Some_0;
                        assert(acc@ + (seq![x] + s2) =~= acc@.push(x) + s2);
                    }
                }
                acc.push(x);
                cur = p;
                i = i + 1;
            },
        }
    }
    proof {
        assert(parse_u32_list(b@, cur as int, 0) == Some((Seq::<u32>::empty(), cur as int)));
        assert(acc@ + Seq::<u32>::empty() =~= acc@);
    }
    Some((acc, cur))
}

/// Machine-size bounds that any share bundle held in memory meets.
pub open spec fn party_info_bounded(p: PartyInfoV) -> bool {
    &&& p.shares.len() <= u64::MAX
    &&& p.party_uids.len() <= u64::MAX
    &&& p.share_counts.len() <= u64::MAX
    &&& 0 <= p.index <= u64::MAX
    &&& forall|i: int| 0 <= i < p.shares.len() ==> #[trigger] p.shares[i].len() <= u64::MAX
    &&& forall|i: int|
        0 <= i < p.party_uids.len() ==> #[trigger] p.party_uids[i].len() <= u64::MAX
}

/// The encoded form of a share bundle: the share list, the roster and
/// the index, each field length-prefixed.
pub open spec fn spec_encode_party_info(p: PartyInfoV) -> Seq<u8> {
    u64_le(p.shares.len() as u64) + enc_blob_list(p.shares) + u64_le(p.party_uids.len() as u64)
        + enc_blob_list(p.party_uids) + u64_le(p.share_counts.len() as u64) + enc_u32_list(
        p.share_counts,
    ) + u64_le(p.index as u64)
}

/// The share bundle read back from encoded bytes; `None` for malformed
/// bytes, trailing bytes, or a bundle whose embedded invariants fail.
pub open spec fn spec_decode_party_info(b: Seq<u8>) -> Option<PartyInfoV> {
    match parse_u64(b, 0) {
        None => None,
        Some((ns, p1)) => match parse_blob_list(b, p1, ns as nat) {
            None => None,
            Some((shares, p2)) => match parse_u64(b, p2) {
                None => None,
                Some((nu, p3)) => match parse_blob_list(b, p3, nu as nat) {
                    None => None,
                    Some((uids, p4)) => match parse_u64(b, p4) {
                        None => None,
                        Some((nc, p5)) => match parse_u32_list(b, p5, nc as nat) {
                            None => None,
                            Some((counts, p6)) => match parse_u64(b, p6) {
                                None => None,
                                Some((idx, p7)) => if p7 == b.len() {
                                    let p = PartyInfoV {
                                        shares,
                                        party_uids: uids,
                                        share_counts: counts,
                                        index: idx as int,
                                    };
                                    if party_info_wf(p) {
                                        Some(p)
                                    } else {
                                        None
                                    }
                                } else {
                                    None
                                },
                            },
                        },
                    },
                },
            },
        },
    }
}

/// Readers reject any record whose embedded invariants are violated:
/// whatever decodes was a well-formed bundle.
pub proof fn lemma_decode_gives_wf(b: Seq<u8>)
    ensures
        spec_decode_party_info(b) matches Some(p) ==> party_info_wf(p),
{
}

/// Serialize a share bundle into the stable binary format.
pub fn encode_party_info(p: &PartyInfo) -> (r: Vec<u8>)
    ensures
        r@ == spec_encode_party_info(p@),
{
    let mut out: Vec<u8> = Vec::new();
    write_blob_list(&mut out, &p.shares);
    write_blob_list(&mut out, &p.tofnd.party_uids);
    write_u32_list(&mut out, &p.tofnd.share_counts);
    push_u64_le(&mut out, p.tofnd.index as u64);
    proof {
        assert(out@ =~= spec_encode_party_info(p@));
    }
    out
}

/// Whether a share bundle meets its embedded invariants.
pub fn validate_party_info(p: &PartyInfo) -> (r: bool)
    ensures
        r == party_info_wf(p@),
{
    let n = p.tofnd.party_uids.len();
    if n == 0 {
        return false;
    }
    if p.tofnd.share_counts.len() != n {
        return false;
    }
    if p.tofnd.index >= n {
        return false;
    }
    let mut i: usize = 0;
    while i < n
        invariant
            n == p.tofnd.share_counts@.len(),
            0 <= i <= n,
            forall|j: int| 0 <= j < i ==> #[trigger] p.tofnd.share_counts@[j] > 0,
        decreases n - i,
    {
        if p.tofnd.share_counts[i] == 0 {
            return false;
        }
        i += 1;
    }
    if (p.shares.len() as u64) != (p.tofnd.share_counts[p.tofnd.index] as u64) {
        return false;
    }
    true
}

/// Deserialize a share bundle from the stable binary format, rejecting
/// malformed bytes and bundles whose embedded invariants fail.
pub fn decode_party_info(b: &Vec<u8>) -> (r: Option<PartyInfo>)
    ensures
        (r is Some) == (spec_decode_party_info(b@) is Some),
        r matches Some(p) ==> spec_decode_party_info(b@) == Some(p@),
{
    let (ns, p1) = match read_u64_le(b, 0) {
        None => {
            return None;
        },
        Some(v) => v,
    };
    let (shares, p2) = match read_blob_list(b, p1, ns) {
        None => {
            return None;
        },
        Some(v) => v,
    };
    let (nu, p3) = match read_u64_le(b, p2) {
        None => {
            return None;
        },
        Some(v) => v,
    };
    let (uids, p4) = match read_blob_list(b, p3, nu) {
        None => {
            return None;
        },
        Some(v) => v,
    };
    let (nc, p5) = match read_u64_le(b, p4) {
        None => {
            return None;
        },
        Some(v) => v,
    };
    let (counts, p6) = match read_u32_list(b, p5, nc) {
        None => {
            return None;
        },
        Some(v) => v,
    };
    let (idx, p7) = match read_u64_le(b, p6) {
        None => {
            return None;
        },
        Some(v) => v,
    };
    if p7 != b.len() {
        return None;
    }
    if idx >= (uids.len() as u64) {
        return None;
    }
    let pi = PartyInfo {
        shares,
        tofnd: TofndInfo { party_uids: uids, share_counts: counts, index: idx as usize },
    };
    if validate_party_info(&pi) {
        Some(pi)
    } else {
        None
    }
}

/// Round trip: every well-formed share bundle decodes from its own
/// encoding unchanged.
#[verifier::rlimit(100)]
pub proof fn lemma_party_info_round_trip(p: PartyInfoV)
    requires
        party_info_wf(p),
        party_info_bounded(p),
    ensures
        spec_decode_party_info(spec_encode_party_info(p)) == Some(p),
{
    let b = spec_encode_party_info(p);
    let ns = p.shares.len() as u64;
    let nu = p.party_uids.len() as u64;
    let nc = p.share_counts.len() as u64;
    let e1 = u64_le(ns);
    let e2 = enc_blob_list(p.shares);
    let e3 = u64_le(nu);
    let e4 = enc_blob_list(p.party_uids);
    let e5 = u64_le(nc);
    let e6 = enc_u32_list(p.share_counts);
    let e7 = u64_le(p.index as u64);
    lemma_u64_le_len(ns);
    lemma_u64_le_len(nu);
    lemma_u64_le_len(nc);
    lemma_u64_le_len(p.index as u64);

    assert(b =~= Seq::<u8>::empty() + e1 + (e2 + e3 + e4 + e5 + e6 + e7));
    lemma_parse_u64_at(Seq::<u8>::empty(), ns, e2 + e3 + e4 + e5 + e6 + e7);
    assert(parse_u64(b, 0) == Some((ns, 8 as int)));

    assert(b =~= e1 + e2 + (e3 + e4 + e5 + e6 + e7));
    lemma_parse_blob_list_at(e1, p.shares, e3 + e4 + e5 + e6 + e7);
    let p2 = 8 + e2.len() as int;
    assert(parse_blob_list(b, 8 as int, ns as nat) == Some((p.shares, p2)));

    assert(b =~= (e1 + e2) + e3 + (e4 + e5 + e6 + e7));
    lemma_parse_u64_at(e1 + e2, nu, e4 + e5 + e6 + e7);
    let p3 = p2 + 8;
    assert(parse_u64(b, p2) == Some((nu, p3)));

    assert(b =~= (e1 + e2 + e3) + e4 + (e5 + e6 + e7));
    lemma_parse_blob_list_at(e1 + e2 + e3, p.party_uids, e5 + e6 + e7);
    let p4 = p3 + e4.len() as int;
    assert(parse_blob_list(b, p3, nu as nat) == Some((p.party_uids, p4)));

    assert(b =~= (e1 + e2 + e3 + e4) + e5 + (e6 + e7));
    lemma_parse_u64_at(e1 + e2 + e3 + e4, nc, e6 + e7);
    let p5 = p4 + 8;
    assert(parse_u64(b, p4) == Some((nc, p5)));

    assert(b =~= (e1 + e2 + e3 + e4 + e5) + e6 + e7);
    lemma_parse_u32_list_at(e1 + e2 + e3 + e4 + e5, p.share_counts, e7);
    let p6 = p5 + e6.len() as int;
    assert(parse_u32_list(b, p5, nc as nat) == Some((p.share_counts, p6)));

    assert(b =~= (e1 + e2 + e3 + e4 + e5 + e6) + e7 + Seq::<u8>::empty());
    lemma_parse_u64_at(e1 + e2 + e3 + e4 + e5 + e6, p.index as u64, Seq::<u8>::empty());
    let p7 = p6 + 8;
    assert(parse_u64(b, p6) == Some((p.index as u64, p7)));

    assert(p7 == b.len());
    let decoded = PartyInfoV {
        shares: p.shares,
        party_uids: p.party_uids,
        share_counts: p.share_counts,
        index: (p.index as u64) as int,
    };
    assert(decoded == p);
}

} // verus!
