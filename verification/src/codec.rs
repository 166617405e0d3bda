use vstd::prelude::*;
use crate::state::{Identity, Poll, PollView, Vote, VoteView, IDENTITY_LENGTH};

verus! {

// ============================================================ spec encoders
//
// The persisted records use a fixed, self-describing layout: a one-byte
// flag, length-prefixed byte strings and sequences (32-bit little-endian
// length, then the items), and fixed-width little-endian integers.

pub open spec fn bool_byte(b: bool) -> u8 {
    if b {
        1u8
    } else {
        0u8
    }
}

pub open spec fn u32_le(n: u32) -> Seq<u8> {
    seq![
        (n & 0xff) as u8,
        ((n >> 8) & 0xff) as u8,
        ((n >> 16) & 0xff) as u8,
        ((n >> 24) & 0xff) as u8,
    ]
}

pub open spec fn u64_le(n: u64) -> Seq<u8> {
    seq![
        (n & 0xff) as u8,
        ((n >> 8) & 0xff) as u8,
        ((n >> 16) & 0xff) as u8,
        ((n >> 24) & 0xff) as u8,
        ((n >> 32) & 0xff) as u8,
        ((n >> 40) & 0xff) as u8,
        ((n >> 48) & 0xff) as u8,
        ((n >> 56) & 0xff) as u8,
    ]
}

pub open spec fn i64_le(n: i64) -> Seq<u8> {
    u64_le(n as u64)
}

/// A length-prefixed byte string.
pub open spec fn bytes_enc(s: Seq<u8>) -> Seq<u8> {
    u32_le(s.len() as u32) + s
}

/// The items of a sequence of byte strings, each length-prefixed.
pub open spec fn options_enc(ss: Seq<Seq<u8>>) -> Seq<u8>
    decreases ss.len(),
{
    if ss.len() == 0 {
        Seq::empty()
    } else {
        bytes_enc(ss[0]) + options_enc(ss.subrange(1, ss.len() as int))
    }
}

/// The items of a sequence of 32-bit counters.
pub open spec fn counts_enc(vs: Seq<u32>) -> Seq<u8>
    decreases vs.len(),
{
    if vs.len() == 0 {
        Seq::empty()
    } else {
        u32_le(vs[0]) + counts_enc(vs.subrange(1, vs.len() as int))
    }
}

/// The byte image of a poll record.
pub open spec fn spec_encode_poll(p: PollView) -> Seq<u8> {
    seq![bool_byte(p.is_initialized)] + bytes_enc(p.title) + u32_le(p.options.len() as u32)
        + options_enc(p.options) + p.authority + i64_le(p.start_time) + i64_le(p.end_time)
        + u32_le(p.vote_counts.len() as u32) + counts_enc(p.vote_counts)
}

/// The byte image of a vote record.
pub open spec fn spec_encode_vote(v: VoteView) -> Seq<u8> {
    seq![bool_byte(v.is_initialized)] + v.voter + v.poll + u32_le(v.option_index)
}

// ============================================================ spec decoders
//
// Each reader takes the buffer and a position and yields the decoded value
// with the position after it, or nothing if the buffer does not match the
// expected shape there. Trailing bytes after a record are ignored, because
// records sit at the front of a fixed-size allocation.

pub open spec fn u32_of_le(b0: u8, b1: u8, b2: u8, b3: u8) -> u32 {
    (b0 as u32) | ((b1 as u32) << 8) | ((b2 as u32) << 16) | ((b3 as u32) << 24)
}

pub open spec fn u64_of_le(b0: u8, b1: u8, b2: u8, b3: u8, b4: u8, b5: u8, b6: u8, b7: u8) -> u64 {
    (b0 as u64) | ((b1 as u64) << 8) | ((b2 as u64) << 16) | ((b3 as u64) << 24) | ((b4
        as u64) << 32) | ((b5 as u64) << 40) | ((b6 as u64) << 48) | ((b7 as u64) << 56)
}

pub open spec fn rd_bool(d: Seq<u8>, i: int) -> Option<(bool, int)> {
    if 0 <= i && i + 1 <= d.len() {
        if d[i] == 1u8 {
            Some((true, i + 1))
        } else if d[i] == 0u8 {
            Some((false, i + 1))
        } else {
            None
        }
    } else {
        None
    }
}

pub open spec fn rd_u32(d: Seq<u8>, i: int) -> Option<(u32, int)> {
    if 0 <= i && i + 4 <= d.len() {
        Some((u32_of_le(d[i], d[i + 1], d[i + 2], d[i + 3]), i + 4))
    } else {
        None
    }
}

pub open spec fn rd_i64(d: Seq<u8>, i: int) -> Option<(i64, int)> {
    if 0 <= i && i + 8 <= d.len() {
        Some(
            (
                u64_of_le(
                    d[i],
                    d[i + 1],
                    d[i + 2],
                    d[i + 3],
                    d[i + 4],
                    d[i + 5],
                    d[i + 6],
                    d[i + 7],
                ) as i64,
                i + 8,
            ),
        )
    } else {
        None
    }
}

pub open spec fn rd_exact(d: Seq<u8>, i: int, n: int) -> Option<(Seq<u8>, int)> {
    if 0 <= i && 0 <= n && i + n <= d.len() {
        Some((d.subrange(i, i + n), i + n))
    } else {
        None
    }
}

/// A length-prefixed byte string.
pub open spec fn rd_bytes(d: Seq<u8>, i: int) -> Option<(Seq<u8>, int)> {
    match rd_u32(d, i) {
        Some((n, j)) => rd_exact(d, j, n as int),
        None => None,
    }
}

/// `n` length-prefixed byte strings in a row.
pub open spec fn rd_options(d: Seq<u8>, i: int, n: nat) -> Option<(Seq<Seq<u8>>, int)>
    decreases n,
{
    if n == 0 {
        Some((Seq::empty(), i))
    } else {
        match rd_bytes(d, i) {
            Some((s, j)) => match rd_options(d, j, (n - 1) as nat) {
                Some((ss, k)) => Some((seq![s] + ss, k)),
                None => None,
            },
            None => None,
        }
    }
}

/// `n` 32-bit counters in a row.
pub open spec fn rd_counts(d: Seq<u8>, i: int, n: nat) -> Option<(Seq<u32>, int)>
    decreases n,
{
    if n == 0 {
        Some((Seq::empty(), i))
    } else {
        match rd_u32(d, i) {
            Some((v, j)) => match rd_counts(d, j, (n - 1) as nat) {
                Some((vs, k)) => Some((seq![v] + vs, k)),
                None => None,
            },
            None => None,
        }
    }
}

/// A poll record read from the front of a buffer, with the position after
/// it.
pub open spec fn spec_decode_poll_at(d: Seq<u8>) -> Option<(PollView, int)> {
    match rd_bool(d, 0) {
        Some((init, i1)) => match rd_bytes(d, i1) {
            Some((title, i2)) => match rd_u32(d, i2) {
                Some((nopt, i3)) => match rd_options(d, i3, nopt as nat) {
                    Some((options, i4)) => match rd_exact(d, i4, IDENTITY_LENGTH as int) {
                        Some((authority, i5)) => match rd_i64(d, i5) {
                            Some((start_time, i6)) => match rd_i64(d, i6) {
                                Some((end_time, i7)) => match rd_u32(d, i7) {
                                    Some((nc, i8)) => match rd_counts(d, i8, nc as nat) {
                                        Some((vote_counts, i9)) => Some(
                                            (
                                                PollView {
                                                    is_initialized: init,
                                                    title,
                                                    options,
                                                    authority,
                                                    start_time,
                                                    end_time,
                                                    vote_counts,
                                                },
                                                i9,
                                            ),
                                        ),
                                        None => None,
                                    },
                                    None => None,
                                },
                                None => None,
                            },
                            None => None,
                        },
                        None => None,
                    },
                    None => None,
                },
                None => None,
            },
            None => None,
        },
        None => None,
    }
}

/// The poll record at the front of a buffer, if the buffer matches the
/// expected shape there.
pub open spec fn spec_decode_poll(d: Seq<u8>) -> Option<PollView> {
    match spec_decode_poll_at(d) {
        Some((p, _)) => Some(p),
        None => None,
    }
}

/// A vote record read from the front of a buffer, with the position after
/// it.
pub open spec fn spec_decode_vote_at(d: Seq<u8>) -> Option<(VoteView, int)> {
    match rd_bool(d, 0) {
        Some((init, i1)) => match rd_exact(d, i1, IDENTITY_LENGTH as int) {
            Some((voter, i2)) => match rd_exact(d, i2, IDENTITY_LENGTH as int) {
                Some((poll, i3)) => match rd_u32(d, i3) {
                    Some((option_index, i4)) => Some(
                        (VoteView { is_initialized: init, voter, poll, option_index }, i4),
                    ),
                    None => None,
                },
                None => None,
            },
            None => None,
        },
        None => None,
    }
}

/// The vote record at the front of a buffer, if the buffer matches the
/// expected shape there.
pub open spec fn spec_decode_vote(d: Seq<u8>) -> Option<VoteView> {
    match spec_decode_vote_at(d) {
        Some((v, _)) => Some(v),
        None => None,
    }
}

// ===================================================== round-trip lemmas

proof fn lemma_u32_le_values(n: u32)
    ensures
        u32_of_le(
            (n & 0xff) as u8,
            ((n >> 8) & 0xff) as u8,
            ((n >> 16) & 0xff) as u8,
            ((n >> 24) & 0xff) as u8,
        ) == n,
{
    assert(((n & 0xff) as u8 as u32) | ((((n >> 8) & 0xff) as u8 as u32) << 8) | ((((n >> 16)
        & 0xff) as u8 as u32) << 16) | ((((n >> 24) & 0xff) as u8 as u32) << 24) == n)
        by (bit_vector);
}

proof fn lemma_u64_le_values(n: u64)
    ensures
        u64_of_le(
            (n & 0xff) as u8,
            ((n >> 8) & 0xff) as u8,
            ((n >> 16) & 0xff) as u8,
            ((n >> 24) & 0xff) as u8,
            ((n >> 32) & 0xff) as u8,
            ((n >> 40) & 0xff) as u8,
            ((n >> 48) & 0xff) as u8,
            ((n >> 56) & 0xff) as u8,
        ) == n,
{
    assert(((n & 0xff) as u8 as u64) | ((((n >> 8) & 0xff) as u8 as u64) << 8) | ((((n >> 16)
        & 0xff) as u8 as u64) << 16) | ((((n >> 24) & 0xff) as u8 as u64) << 24) | ((((n >> 32)
        & 0xff) as u8 as u64) << 32) | ((((n >> 40) & 0xff) as u8 as u64) << 40) | ((((n >> 48)
        & 0xff) as u8 as u64) << 48) | ((((n >> 56) & 0xff) as u8 as u64) << 56) == n)
        by (bit_vector);
}

/// Reading a 32-bit integer where its encoding sits yields it back.
pub(crate) proof fn lemma_rd_u32_at(d: Seq<u8>, i: int, n: u32)
    requires
        0 <= i,
        i + 4 <= d.len(),
        d.subrange(i, i + 4) == u32_le(n),
    ensures
        rd_u32(d, i) == Some((n, i + 4)),
{
    assert(d[i] == u32_le(n)[0]);
    assert(d[i + 1] == u32_le(n)[1]);
    assert(d[i + 2] == u32_le(n)[2]);
    assert(d[i + 3] == u32_le(n)[3]);
    lemma_u32_le_values(n);
}

/// Reading a 64-bit integer where its encoding sits yields it back.
pub(crate) proof fn lemma_rd_i64_at(d: Seq<u8>, i: int, n: i64)
    requires
        0 <= i,
        i + 8 <= d.len(),
        d.subrange(i, i + 8) == i64_le(n),
    ensures
        rd_i64(d, i) == Some((n, i + 8)),
{
    let u = n as u64;
    assert(d[i] == u64_le(u)[0]);
    assert(d[i + 1] == u64_le(u)[1]);
    assert(d[i + 2] == u64_le(u)[2]);
    assert(d[i + 3] == u64_le(u)[3]);
    assert(d[i + 4] == u64_le(u)[4]);
    assert(d[i + 5] == u64_le(u)[5]);
    assert(d[i + 6] == u64_le(u)[6]);
    assert(d[i + 7] == u64_le(u)[7]);
    lemma_u64_le_values(u);
    assert(n as u64 as i64 == n) by (bit_vector);
}

/// Reading a length-prefixed byte string where its encoding sits yields it
/// back.
pub(crate) proof fn lemma_rd_bytes_at(d: Seq<u8>, i: int, s: Seq<u8>)
    requires
        0 <= i,
        s.len() <= u32::MAX,
        i + 4 + s.len() <= d.len(),
        d.subrange(i, i + 4 + s.len()) == bytes_enc(s),
    ensures
        rd_bytes(d, i) == Some((s, i + 4 + s.len())),
{
    let n = s.len() as u32;
    assert(d.subrange(i, i + 4) =~= u32_le(n));
    lemma_rd_u32_at(d, i, n);
    assert forall|j: int| 0 <= j < s.len() implies d.subrange(i + 4, i + 4 + s.len())[j] == s[j] by {
        assert(d.subrange(i, i + 4 + s.len())[4 + j] == bytes_enc(s)[4 + j]);
    }
    assert(d.subrange(i + 4, i + 4 + s.len()) =~= s);
}

/// Reading `ss.len()` length-prefixed byte strings where their encoding
/// sits yields them back.
pub(crate) proof fn lemma_rd_options_at(d: Seq<u8>, i: int, ss: Seq<Seq<u8>>)
    requires
        0 <= i,
        i + options_enc(ss).len() <= d.len(),
        forall|k: int| 0 <= k < ss.len() ==> ss[k].len() <= u32::MAX,
        d.subrange(i, i + options_enc(ss).len()) == options_enc(ss),
    ensures
        rd_options(d, i, ss.len()) == Some((ss, i + options_enc(ss).len())),
    decreases ss.len(),
{
    if ss.len() == 0 {
        assert(ss =~= Seq::<Seq<u8>>::empty());
    } else {
        let s0 = ss[0];
        let tail = ss.subrange(1, ss.len() as int);
        let e0 = bytes_enc(s0);
        let etail = options_enc(tail);
        assert(options_enc(ss) == e0 + etail);
        assert(e0.len() == 4 + s0.len());
        assert forall|j: int| 0 <= j < e0.len() implies d.subrange(i, i + e0.len())[j] == e0[j] by {
            assert(d.subrange(i, i + options_enc(ss).len())[j] == options_enc(ss)[j]);
        }
        assert(d.subrange(i, i + e0.len()) =~= e0);
        lemma_rd_bytes_at(d, i, s0);
        assert forall|j: int| 0 <= j < etail.len() implies d.subrange(
            i + e0.len(),
            i + e0.len() + etail.len(),
        )[j] == etail[j] by {
            assert(d.subrange(i, i + options_enc(ss).len())[e0.len() + j] == options_enc(ss)[
                e0.len() + j]);
        }
        assert(d.subrange(i + e0.len(), i + e0.len() + etail.len()) =~= etail);
        lemma_rd_options_at(d, i + e0.len(), tail);
        assert(seq![s0] + tail =~= ss);
    }
}

/// Reading `vs.len()` counters where their encoding sits yields them back.
proof fn lemma_rd_counts_at(d: Seq<u8>, i: int, vs: Seq<u32>)
    requires
        0 <= i,
        i + counts_enc(vs).len() <= d.len(),
        d.subrange(i, i + counts_enc(vs).len()) == counts_enc(vs),
    ensures
        rd_counts(d, i, vs.len()) == Some((vs, i + counts_enc(vs).len())),
    decreases vs.len(),
{
    if vs.len() == 0 {
        assert(vs =~= Seq::<u32>::empty());
    } else {
        let v0 = vs[0];
        let tail = vs.subrange(1, vs.len() as int);
        let e0 = u32_le(v0);
        let etail = counts_enc(tail);
        assert(counts_enc(vs) == e0 + etail);
        assert forall|j: int| 0 <= j < 4 implies d.subrange(i, i + 4)[j] == e0[j] by {
            assert(d.subrange(i, i + counts_enc(vs).len())[j] == counts_enc(vs)[j]);
        }
        assert(d.subrange(i, i + 4) =~= e0);
        lemma_rd_u32_at(d, i, v0);
        assert forall|j: int| 0 <= j < etail.len() implies d.subrange(
            i + 4,
            i + 4 + etail.len(),
        )[j] == etail[j] by {
            assert(d.subrange(i, i + counts_enc(vs).len())[4 + j] == counts_enc(vs)[4 + j]);
        }
        assert(d.subrange(i + 4, i + 4 + etail.len()) =~= etail);
        lemma_rd_counts_at(d, i + 4, tail);
        assert(seq![v0] + tail =~= vs);
    }
}

/// The middle segment of a three-part concatenation is recovered by
/// `subrange` at its offset.
pub(crate) proof fn lemma_mid(a: Seq<u8>, b: Seq<u8>, c: Seq<u8>, d: Seq<u8>)
    requires
        d == a + b + c,
    ensures
        d.subrange(a.len() as int, (a.len() + b.len()) as int) == b,
{
    assert(d.subrange(a.len() as int, (a.len() + b.len()) as int) =~= b);
}

/// Decoding an encoded poll record, with anything at all after it, yields
/// the record back and stops right after it.
#[verifier::rlimit(80)]
pub proof fn lemma_poll_roundtrip(p: PollView, rest: Seq<u8>)
    requires
        p.encodable(),
    ensures
        spec_decode_poll_at(spec_encode_poll(p) + rest) == Some(
            (p, spec_encode_poll(p).len() as int),
        ),
        spec_decode_poll(spec_encode_poll(p) + rest) == Some(p),
{
    let e1 = seq![bool_byte(p.is_initialized)];
    let e2 = bytes_enc(p.title);
    let e3 = u32_le(p.options.len() as u32);
    let e4 = options_enc(p.options);
    let e5 = p.authority;
    let e6 = i64_le(p.start_time);
    let e7 = i64_le(p.end_time);
    let e8 = u32_le(p.vote_counts.len() as u32);
    let e9 = counts_enc(p.vote_counts);
    let pre2 = e1 + e2;
    let pre3 = pre2 + e3;
    let pre4 = pre3 + e4;
    let pre5 = pre4 + e5;
    let pre6 = pre5 + e6;
    let pre7 = pre6 + e7;
    let pre8 = pre7 + e8;
    let pre9 = pre8 + e9;
    let d = spec_encode_poll(p) + rest;
    assert(spec_encode_poll(p) == pre9);
    // Peel the components off the back, reassociating one step at a time.
    lemma_mid(pre8, e9, rest, d);
    assert(pre8 + e9 + rest =~= pre8 + (e9 + rest));
    let s9 = e9 + rest;
    lemma_mid(pre7, e8, s9, d);
    assert(pre7 + e8 + s9 =~= pre7 + (e8 + s9));
    let s8 = e8 + s9;
    lemma_mid(pre6, e7, s8, d);
    assert(pre6 + e7 + s8 =~= pre6 + (e7 + s8));
    let s7 = e7 + s8;
    lemma_mid(pre5, e6, s7, d);
    assert(pre5 + e6 + s7 =~= pre5 + (e6 + s7));
    let s6 = e6 + s7;
    lemma_mid(pre4, e5, s6, d);
    assert(pre4 + e5 + s6 =~= pre4 + (e5 + s6));
    let s5 = e5 + s6;
    lemma_mid(pre3, e4, s5, d);
    assert(pre3 + e4 + s5 =~= pre3 + (e4 + s5));
    let s4 = e4 + s5;
    lemma_mid(pre2, e3, s4, d);
    assert(pre2 + e3 + s4 =~= pre2 + (e3 + s4));
    let s3 = e3 + s4;
    lemma_mid(e1, e2, s3, d);
    assert(e1 + e2 + s3 =~= e1 + (e2 + s3));
    // Offsets of each component.
    let i1 = 1int;
    let i2 = i1 + e2.len();
    let i3 = i2 + 4;
    let i4 = i3 + e4.len();
    let i5 = i4 + IDENTITY_LENGTH as int;
    let i6 = i5 + 8;
    let i7 = i6 + 8;
    let i8 = i7 + 4;
    let i9 = i8 + e9.len();
    assert(e2.len() == 4 + p.title.len());
    assert(pre2.len() == i2 && pre3.len() == i3 && pre4.len() == i4 && pre5.len() == i5
        && pre6.len() == i6 && pre7.len() == i7 && pre8.len() == i8 && pre9.len() == i9);
    // Read each component back.
    assert(d[0] == e1[0]);
    assert(rd_bool(d, 0) == Some((p.is_initialized, i1)));
    lemma_rd_bytes_at(d, i1, p.title);
    lemma_rd_u32_at(d, i2, p.options.len() as u32);
    lemma_rd_options_at(d, i3, p.options);
    assert(rd_exact(d, i4, IDENTITY_LENGTH as int) == Some((p.authority, i5)));
    lemma_rd_i64_at(d, i5, p.start_time);
    lemma_rd_i64_at(d, i6, p.end_time);
    lemma_rd_u32_at(d, i7, p.vote_counts.len() as u32);
    lemma_rd_counts_at(d, i8, p.vote_counts);
    assert((p.options.len() as u32) as nat == p.options.len());
    assert((p.vote_counts.len() as u32) as nat == p.vote_counts.len());
    assert(spec_decode_poll_at(d) == Some((p, i9)));
}

/// Decoding an encoded vote record, with anything at all after it, yields
/// the record back and stops right after it.
pub proof fn lemma_vote_roundtrip(v: VoteView, rest: Seq<u8>)
    requires
        v.wf(),
    ensures
        spec_decode_vote_at(spec_encode_vote(v) + rest) == Some(
            (v, spec_encode_vote(v).len() as int),
        ),
        spec_decode_vote(spec_encode_vote(v) + rest) == Some(v),
{
    let d = spec_encode_vote(v) + rest;
    let i1 = 1int;
    let i2 = i1 + IDENTITY_LENGTH as int;
    let i3 = i2 + IDENTITY_LENGTH as int;
    let i4 = i3 + 4;
    assert(spec_encode_vote(v).len() == i4);
    assert(d[0] == bool_byte(v.is_initialized));
    assert(rd_bool(d, 0) == Some((v.is_initialized, i1)));
    assert(d.subrange(i1, i2) =~= v.voter);
    assert(d.subrange(i2, i3) =~= v.poll);
    assert(d.subrange(i3, i3 + 4) =~= u32_le(v.option_index));
    lemma_rd_u32_at(d, i3, v.option_index);
}

// ======================================================== snoc lemmas

/// Appending one option to a list appends its encoding.
pub proof fn lemma_options_enc_snoc(ss: Seq<Seq<u8>>, x: Seq<u8>)
    ensures
        options_enc(ss.push(x)) == options_enc(ss) + bytes_enc(x),
    decreases ss.len(),
{
    if ss.len() == 0 {
        assert(ss.push(x)[0] == x);
        assert(ss.push(x).subrange(1, 1) =~= Seq::<Seq<u8>>::empty());
        assert(options_enc(ss.push(x)) == bytes_enc(x) + options_enc(
            Seq::<Seq<u8>>::empty()));
        assert(bytes_enc(x) + Seq::<u8>::empty() =~= bytes_enc(x));
        assert(Seq::<u8>::empty() + bytes_enc(x) =~= bytes_enc(x));
        assert(options_enc(ss.push(x)) == options_enc(ss) + bytes_enc(x));
    } else {
        let t = ss.subrange(1, ss.len() as int);
        assert(ss.push(x).subrange(1, ss.push(x).len() as int) =~= t.push(x));
        lemma_options_enc_snoc(t, x);
        assert(ss.push(x)[0] == ss[0]);
        assert(options_enc(ss.push(x)) == bytes_enc(ss[0]) + (options_enc(t) + bytes_enc(x)));
        assert(bytes_enc(ss[0]) + (options_enc(t) + bytes_enc(x)) =~= (bytes_enc(ss[0])
            + options_enc(t)) + bytes_enc(x));
        assert(options_enc(ss) == bytes_enc(ss[0]) + options_enc(t));
    }
}

/// Appending one counter to a list appends its encoding.
pub proof fn lemma_counts_enc_snoc(vs: Seq<u32>, x: u32)
    ensures
        counts_enc(vs.push(x)) == counts_enc(vs) + u32_le(x),
    decreases vs.len(),
{
    if vs.len() == 0 {
        assert(vs.push(x)[0] == x);
        assert(vs.push(x).subrange(1, 1) =~= Seq::<u32>::empty());
        assert(counts_enc(vs.push(x)) == u32_le(x) + counts_enc(Seq::<u32>::empty()));
        assert(u32_le(x) + Seq::<u8>::empty() =~= u32_le(x));
        assert(Seq::<u8>::empty() + u32_le(x) =~= u32_le(x));
        assert(counts_enc(vs.push(x)) == counts_enc(vs) + u32_le(x));
    } else {
        let t = vs.subrange(1, vs.len() as int);
        assert(vs.push(x).subrange(1, vs.push(x).len() as int) =~= t.push(x));
        lemma_counts_enc_snoc(t, x);
        assert(vs.push(x)[0] == vs[0]);
        assert(counts_enc(vs.push(x)) == u32_le(vs[0]) + (counts_enc(t) + u32_le(x)));
        assert(u32_le(vs[0]) + (counts_enc(t) + u32_le(x)) =~= (u32_le(vs[0]) + counts_enc(t))
            + u32_le(x));
        assert(counts_enc(vs) == u32_le(vs[0]) + counts_enc(t));
    }
}

// ======================================================== exec encoders

pub(crate) fn push_u32_le(out: &mut Vec<u8>, n: u32)
    ensures
        final(out)@ == old(out)@ + u32_le(n),
{
    out.push((n & 0xff) as u8);
    out.push(((n >> 8) & 0xff) as u8);
    out.push(((n >> 16) & 0xff) as u8);
    out.push(((n >> 24) & 0xff) as u8);
    proof {
        assert(out@ =~= old(out)@ + u32_le(n));
    }
}

pub(crate) fn push_i64_le(out: &mut Vec<u8>, n: i64)
    ensures
        final(out)@ == old(out)@ + i64_le(n),
{
    let u = n as u64;
    out.push((u & 0xff) as u8);
    out.push(((u >> 8) & 0xff) as u8);
    out.push(((u >> 16) & 0xff) as u8);
    out.push(((u >> 24) & 0xff) as u8);
    out.push(((u >> 32) & 0xff) as u8);
    out.push(((u >> 40) & 0xff) as u8);
    out.push(((u >> 48) & 0xff) as u8);
    out.push(((u >> 56) & 0xff) as u8);
    proof {
        assert(out@ =~= old(out)@ + i64_le(n));
    }
}

pub(crate) fn push_all(out: &mut Vec<u8>, a: &Vec<u8>)
    ensures
        final(out)@ == old(out)@ + a@,
{
    let mut i: usize = 0;
    while i < a.len()
        invariant
            i <= a.len(),
            out@ == old(out)@ + a@.subrange(0, i as int),
        decreases a@.len() - i,
    {
        out.push(a[i]);
        proof {
            assert(old(out)@ + a@.subrange(0, i as int) + seq![a@[i as int]] =~= old(out)@
                + a@.subrange(0, i + 1));
        }
        i += 1;
    }
    proof {
        assert(a@.subrange(0, a@.len() as int) =~= a@);
    }
}

pub(crate) fn push_bytes_enc(out: &mut Vec<u8>, s: &Vec<u8>)
    requires
        s@.len() <= u32::MAX,
    ensures
        final(out)@ == old(out)@ + bytes_enc(s@),
{
    push_u32_le(out, s.len() as u32);
    push_all(out, s);
    proof {
        assert(old(out)@ + u32_le(s@.len() as u32) + s@ =~= old(out)@ + bytes_enc(s@));
    }
}

/// Append the encodings of a list of options, in order.
pub(crate) fn push_options(out: &mut Vec<u8>, options: &Vec<Vec<u8>>)
    requires
        forall|i: int|
            0 <= i < options.deep_view().len() ==> options.deep_view()[i].len() <= u32::MAX,
    ensures
        final(out)@ == old(out)@ + options_enc(options.deep_view()),
{
    let ghost pre = out@;
    let ghost all = options.deep_view();
    let mut i: usize = 0;
    while i < options.len()
        invariant
            i <= options@.len(),
            all == options.deep_view(),
            forall|k: int| 0 <= k < all.len() ==> all[k].len() <= u32::MAX,
            out@ == pre + options_enc(all.subrange(0, i as int)),
        decreases options@.len() - i,
    {
        proof {
            assert(all[i as int] == options@[i as int]@);
            assert(all[i as int].len() <= u32::MAX);
        }
        push_bytes_enc(out, &options[i]);
        proof {
            lemma_options_enc_snoc(all.subrange(0, i as int), all[i as int]);
            assert(all.subrange(0, i + 1) =~= all.subrange(0, i as int).push(all[i as int]));
            assert(pre + options_enc(all.subrange(0, i as int)) + bytes_enc(all[i as int]) =~= pre
                + options_enc(all.subrange(0, i + 1)));
        }
        i += 1;
    }
    proof {
        assert(all.subrange(0, all.len() as int) =~= all);
    }
}

/// The byte image of a poll record, as persisted at the front of its
/// fixed-size allocation.
pub fn encode_poll(p: &Poll) -> (r: Vec<u8>)
    requires
        p@.encodable(),
    ensures
        r@ == spec_encode_poll(p@),
{
    let mut out: Vec<u8> = Vec::new();
    out.push(if p.is_initialized { 1u8 } else { 0u8 });
    proof {
        assert(out@ =~= seq![bool_byte(p@.is_initialized)]);
    }
    push_bytes_enc(&mut out, &p.title);
    push_u32_le(&mut out, p.options.len() as u32);
    push_options(&mut out, &p.options);
    push_all(&mut out, &p.authority.bytes);
    push_i64_le(&mut out, p.start_time);
    push_i64_le(&mut out, p.end_time);
    push_u32_le(&mut out, p.vote_counts.len() as u32);
    let ghost pre8 = out@;
    let mut k: usize = 0;
    while k < p.vote_counts.len()
        invariant
            k <= p.vote_counts@.len(),
            p@.vote_counts == p.vote_counts@,
            out@ == pre8 + counts_enc(p@.vote_counts.subrange(0, k as int)),
        decreases p.vote_counts@.len() - k,
    {
        push_u32_le(&mut out, p.vote_counts[k]);
        proof {
            lemma_counts_enc_snoc(p@.vote_counts.subrange(0, k as int), p@.vote_counts[k as int]);
            assert(p@.vote_counts.subrange(0, k + 1) =~= p@.vote_counts.subrange(0, k as int).push(
                p@.vote_counts[k as int]));
            assert(pre8 + counts_enc(p@.vote_counts.subrange(0, k as int)) + u32_le(
                p@.vote_counts[k as int]) =~= pre8 + counts_enc(p@.vote_counts.subrange(0, k + 1)));
        }
        k += 1;
    }
    proof {
        assert(p@.vote_counts.subrange(0, p@.vote_counts.len() as int) =~= p@.vote_counts);
        assert(out@ =~= spec_encode_poll(p@));
    }
    out
}

/// The byte image of a vote record, as persisted at the front of its
/// fixed-size allocation.
pub fn encode_vote(v: &Vote) -> (r: Vec<u8>)
    requires
        v@.wf(),
    ensures
        r@ == spec_encode_vote(v@),
{
    let mut out: Vec<u8> = Vec::new();
    out.push(if v.is_initialized { 1u8 } else { 0u8 });
    push_all(&mut out, &v.voter.bytes);
    push_all(&mut out, &v.poll.bytes);
    push_u32_le(&mut out, v.option_index);
    proof {
        assert(out@ =~= spec_encode_vote(v@));
    }
    out
}

// ======================================================== exec decoders

pub(crate) fn read_bool(d: &Vec<u8>, i: usize) -> (r: Option<(bool, usize)>)
    ensures
        match r {
            Some(v) => rd_bool(d@, i as int) == Some((v.0, v.1 as int)),
            None => rd_bool(d@, i as int) is None,
        },
{
    if i < d.len() {
        let b = d[i];
        if b == 1 {
            Some((true, i + 1))
        } else if b == 0 {
            Some((false, i + 1))
        } else {
            None
        }
    } else {
        None
    }
}

pub(crate) fn read_u32(d: &Vec<u8>, i: usize) -> (r: Option<(u32, usize)>)
    ensures
        match r {
            Some(v) => rd_u32(d@, i as int) == Some((v.0, v.1 as int)),
            None => rd_u32(d@, i as int) is None,
        },
{
    if d.len() >= 4 && i <= d.len() - 4 {
        let n = (d[i] as u32) | ((d[i + 1] as u32) << 8) | ((d[i + 2] as u32) << 16) | ((d[i + 3]
            as u32) << 24);
        Some((n, i + 4))
    } else {
        None
    }
}

pub(crate) fn read_i64(d: &Vec<u8>, i: usize) -> (r: Option<(i64, usize)>)
    ensures
        match r {
            Some(v) => rd_i64(d@, i as int) == Some((v.0, v.1 as int)),
            None => rd_i64(d@, i as int) is None,
        },
{
    if d.len() >= 8 && i <= d.len() - 8 {
        let n = (d[i] as u64) | ((d[i + 1] as u64) << 8) | ((d[i + 2] as u64) << 16) | ((d[i + 3]
            as u64) << 24) | ((d[i + 4] as u64) << 32) | ((d[i + 5] as u64) << 40) | ((d[i + 6]
            as u64) << 48) | ((d[i + 7] as u64) << 56);
        Some((n as i64, i + 8))
    } else {
        None
    }
}

pub(crate) fn read_exact(d: &Vec<u8>, i: usize, n: usize) -> (r: Option<(Vec<u8>, usize)>)
    ensures
        match r {
            Some(v) => rd_exact(d@, i as int, n as int) == Some((v.0@, v.1 as int)),
            None => rd_exact(d@, i as int, n as int) is None,
        },
{
    if n <= d.len() && i <= d.len() - n {
        let mut v: Vec<u8> = Vec::new();
        let mut k: usize = 0;
        while k < n
            invariant
                k <= n,
                i + n <= d@.len(),
                d@.len() <= usize::MAX,
                v@ == d@.subrange(i as int, i + k),
            decreases n - k,
        {
            v.push(d[i + k]);
            proof {
                assert(v@ =~= d@.subrange(i as int, i + k + 1));
            }
            k += 1;
        }
        Some((v, i + n))
    } else {
        None
    }
}

pub(crate) fn read_bytes(d: &Vec<u8>, i: usize) -> (r: Option<(Vec<u8>, usize)>)
    ensures
        match r {
            Some(v) => rd_bytes(d@, i as int) == Some((v.0@, v.1 as int)),
            None => rd_bytes(d@, i as int) is None,
        },
{
    match read_u32(d, i) {
        Some((n, j)) => read_exact(d, j, n as usize),
        None => None,
    }
}

pub(crate) fn read_options(d: &Vec<u8>, i: usize, n: u32) -> (r: Option<(Vec<Vec<u8>>, usize)>)
    ensures
        match r {
            Some(v) => rd_options(d@, i as int, n as nat) == Some((v.0.deep_view(), v.1 as int)),
            None => rd_options(d@, i as int, n as nat) is None,
        },
    decreases n,
{
    if n == 0 {
        let v: Vec<Vec<u8>> = Vec::new();
        proof {
            assert(v.deep_view() =~= Seq::<Seq<u8>>::empty());
        }
        Some((v, i))
    } else {
        match read_bytes(d, i) {
            Some((s, j)) => match read_options(d, j, n - 1) {
                Some((ss, k)) => {
                    let ghost tail_seq = ss@;
                    let ghost tail_view = ss.deep_view();
                    let mut ss = ss;
                    ss.insert(0, s);
                    proof {
                        assert(tail_seq.insert(0, s) =~= seq![s] + tail_seq);
                        assert(ss@ == seq![s] + tail_seq);
                        assert forall|j: int| 0 <= j < ss.deep_view().len() implies ss.deep_view()[
                            j] == (seq![s@] + tail_view)[j] by {
                            if j == 0 {
                                assert(ss@[0] == s);
                            } else {
                                assert(ss@[j] == tail_seq[j - 1]);
                                assert(tail_view[j - 1] == tail_seq[j - 1].deep_view());
                            }
                        }
                        assert(ss.deep_view() =~= seq![s@] + tail_view);
                    }
                    Some((ss, k))
                },
                None => None,
            },
            None => None,
        }
    }
}

pub(crate) fn read_counts(d: &Vec<u8>, i: usize, n: u32) -> (r: Option<(Vec<u32>, usize)>)
    ensures
        match r {
            Some(v) => rd_counts(d@, i as int, n as nat) == Some((v.0@, v.1 as int)),
            None => rd_counts(d@, i as int, n as nat) is None,
        },
    decreases n,
{
    if n == 0 {
        let v: Vec<u32> = Vec::new();
        proof {
            assert(v@ =~= Seq::<u32>::empty());
        }
        Some((v, i))
    } else {
        match read_u32(d, i) {
            Some((x, j)) => match read_counts(d, j, n - 1) {
                Some((vs, k)) => {
                    let ghost tail_seq = vs@;
                    let mut vs = vs;
                    vs.insert(0, x);
                    proof {
                        assert(tail_seq.insert(0, x) =~= seq![x] + tail_seq);
                        assert(vs@ =~= seq![x] + tail_seq);
                    }
                    Some((vs, k))
                },
                None => None,
            },
            None => None,
        }
    }
}

/// The poll record at the front of a buffer; fails exactly where the
/// buffer does not match the expected shape.
pub fn decode_poll(d: &Vec<u8>) -> (r: Option<Poll>)
    ensures
        match r {
            Some(p) => spec_decode_poll(d@) == Some(p@),
            None => spec_decode_poll(d@) is None,
        },
{
    match read_bool(d, 0) {
        Some((init, i1)) => match read_bytes(d, i1) {
            Some((title, i2)) => match read_u32(d, i2) {
                Some((nopt, i3)) => match read_options(d, i3, nopt) {
                    Some((options, i4)) => match read_exact(d, i4, IDENTITY_LENGTH) {
                        Some((authority, i5)) => match read_i64(d, i5) {
                            Some((start_time, i6)) => match read_i64(d, i6) {
                                Some((end_time, i7)) => match read_u32(d, i7) {
                                    Some((nc, i8)) => match read_counts(d, i8, nc) {
                                        Some((vote_counts, _i9)) => {
                                            let p = Poll {
                                                is_initialized: init,
                                                title,
                                                options,
                                                authority: Identity { bytes: authority },
                                                start_time,
                                                end_time,
                                                vote_counts,
                                            };
                                            Some(p)
                                        },
                                        None => None,
                                    },
                                    None => None,
                                },
                                None => None,
                            },
                            None => None,
                        },
                        None => None,
                    },
                    None => None,
                },
                None => None,
            },
            None => None,
        },
        None => None,
    }
}

/// The vote record at the front of a buffer; fails exactly where the
/// buffer does not match the expected shape.
pub fn decode_vote(d: &Vec<u8>) -> (r: Option<Vote>)
    ensures
        match r {
            Some(v) => spec_decode_vote(d@) == Some(v@),
            None => spec_decode_vote(d@) is None,
        },
{
    match read_bool(d, 0) {
        Some((init, i1)) => match read_exact(d, i1, IDENTITY_LENGTH) {
            Some((voter, i2)) => match read_exact(d, i2, IDENTITY_LENGTH) {
                Some((poll, i3)) => match read_u32(d, i3) {
                    Some((option_index, _i4)) => Some(
                        Vote {
                            is_initialized: init,
                            voter: Identity { bytes: voter },
                            poll: Identity { bytes: poll },
                            option_index,
                        },
                    ),
                    None => None,
                },
                None => None,
            },
            None => None,
        },
        None => None,
    }
}

/// Every option list a read yields has the announced count, and each item
/// fits a 32-bit length prefix.
proof fn lemma_rd_options_shape(d: Seq<u8>, i: int, n: nat)
    ensures
        rd_options(d, i, n) matches Some(v) ==> v.0.len() == n && forall|k: int|
            0 <= k < v.0.len() ==> (#[trigger] v.0[k]).len() <= u32::MAX,
    decreases n,
{
    if n != 0 {
        match rd_bytes(d, i) {
            Some((s, j)) => {
                lemma_rd_options_shape(d, j, (n - 1) as nat);
            },
            None => {},
        }
    }
}

/// Every counter list a read yields has the announced count.
proof fn lemma_rd_counts_shape(d: Seq<u8>, i: int, n: nat)
    ensures
        rd_counts(d, i, n) matches Some(v) ==> v.0.len() == n,
    decreases n,
{
    if n != 0 {
        match rd_u32(d, i) {
            Some((x, j)) => {
                lemma_rd_counts_shape(d, j, (n - 1) as nat);
            },
            None => {},
        }
    }
}

/// Whatever poll a buffer decodes to can be encoded again: its lengths fit
/// the length prefixes they were read from.
pub proof fn lemma_decoded_poll_encodable(d: Seq<u8>)
    ensures
        spec_decode_poll(d) matches Some(p) ==> p.encodable(),
{
    match rd_bool(d, 0) {
        Some((init, i1)) => match rd_bytes(d, i1) {
            Some((title, i2)) => match rd_u32(d, i2) {
                Some((nopt, i3)) => {
                    lemma_rd_options_shape(d, i3, nopt as nat);
                    match rd_options(d, i3, nopt as nat) {
                        Some((options, i4)) => match rd_exact(d, i4, IDENTITY_LENGTH as int) {
                            Some((authority, i5)) => match rd_i64(d, i5) {
                                Some((st, i6)) => match rd_i64(d, i6) {
                                    Some((et, i7)) => match rd_u32(d, i7) {
                                        Some((nc, i8)) => {
                                            lemma_rd_counts_shape(d, i8, nc as nat);
                                        },
                                        None => {},
                                    },
                                    None => {},
                                },
                                None => {},
                            },
                            None => {},
                        },
                        None => {},
                    }
                },
                None => {},
            },
            None => {},
        },
        None => {},
    }
}

} // verus!
