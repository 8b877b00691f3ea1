//! Compact binary serialization of deferred computation plans and
//! expression trees.
//!
//! A plan crosses the boundary as a single self-describing binary blob in a
//! generic structured encoding: every node is a tagged item — an integer, a
//! byte or text string, or an ordered sequence of sub-items — with a compact
//! variable-width header. The blob carries no explicit version tag; whether
//! compatibility is negotiated out of band is left open, so a blob that
//! fails to decode is reported as a distinct version-skew-flavored error
//! rather than a generic parse failure.
use vstd::prelude::*;

use crate::error::BridgeError;
use crate::error::BridgeErrorV;

verus! {


/// Mathematical view of a [`PlanTerm`].
#[verifier::ext_equal]
pub enum PlanTermV {
    UInt(u64),
    NInt(u64),
    Bytes(Seq<u8>),
    Text(Seq<u8>),
    Array(Seq<PlanTermV>),
    Bool(bool),
    Null,
}

/// One node of a serialized plan or expression tree.
#[derive(Debug, PartialEq)]
pub enum PlanTerm {
    /// A non-negative integer.
    UInt(u64),
    /// A negative integer; the payload `n` stands for `-(1 + n)`.
    NInt(u64),
    /// A raw byte string.
    Bytes(Vec<u8>),
    /// A text string, carried as its UTF-8 bytes.
    Text(Vec<u8>),
    /// An ordered sequence of sub-terms.
    Array(Vec<PlanTerm>),
    /// A boolean.
    Bool(bool),
    /// The null item.
    Null,
}

/// View of a sequence of plan terms, elementwise.
pub open spec fn plans_view(s: Seq<PlanTerm>) -> Seq<PlanTermV>
    decreases s,
{
    if s.len() == 0 {
        Seq::empty()
    } else {
        plans_view(s.drop_last()).push(plan_view(s[s.len() - 1]))
    }
}

/// View of one plan term.
pub open spec fn plan_view(t: PlanTerm) -> PlanTermV
    decreases t,
{
    match t {
        PlanTerm::UInt(n) => PlanTermV::UInt(n),
        PlanTerm::NInt(n) => PlanTermV::NInt(n),
        PlanTerm::Bytes(b) => PlanTermV::Bytes(b@),
        PlanTerm::Text(b) => PlanTermV::Text(b@),
        PlanTerm::Array(ts) => PlanTermV::Array(plans_view(ts@)),
        PlanTerm::Bool(b) => PlanTermV::Bool(b),
        PlanTerm::Null => PlanTermV::Null,
    }
}

impl View for PlanTerm {
    type V = PlanTermV;

    open spec fn view(&self) -> PlanTermV {
        plan_view(*self)
    }
}

/// Elementwise description of the plan sequence view.
pub proof fn lemma_plans_view_index(s: Seq<PlanTerm>, i: int)
    requires
        0 <= i < s.len(),
    ensures
        plans_view(s).len() == s.len(),
        plans_view(s)[i] == plan_view(s[i]),
    decreases s,
{
    lemma_plans_view_len(s);
    if i < s.len() - 1 {
        lemma_plans_view_index(s.drop_last(), i);
    }
}

/// The plan sequence view has the same length.
pub proof fn lemma_plans_view_len(s: Seq<PlanTerm>)
    ensures
        plans_view(s).len() == s.len(),
    decreases s,
{
    if s.len() > 0 {
        lemma_plans_view_len(s.drop_last());
    }
}

/// The compact header of one item: the three tag bits joined with the item's
/// count (its value, payload length or element count), in the shortest of
/// the fixed widths that the encoder emits.
pub open spec fn enc_head(major: u64, n: u64) -> Seq<u8> {
    if n < 24 {
        seq![((major << 5) | n) as u8]
    } else if n <= 0xff {
        seq![((major << 5) | 24) as u8, (n & 0xff) as u8]
    } else if n <= 0xffff {
        seq![((major << 5) | 25) as u8, ((n >> 8) & 0xff) as u8, (n & 0xff) as u8]
    } else if n <= 0xffff_ffff {
        seq![
            ((major << 5) | 26) as u8,
            ((n >> 24) & 0xff) as u8,
            ((n >> 16) & 0xff) as u8,
            ((n >> 8) & 0xff) as u8,
            (n & 0xff) as u8,
        ]
    } else {
        seq![
            ((major << 5) | 27) as u8,
            ((n >> 56) & 0xff) as u8,
            ((n >> 48) & 0xff) as u8,
            ((n >> 40) & 0xff) as u8,
            ((n >> 32) & 0xff) as u8,
            ((n >> 24) & 0xff) as u8,
            ((n >> 16) & 0xff) as u8,
            ((n >> 8) & 0xff) as u8,
            (n & 0xff) as u8,
        ]
    }
}

/// The encoding of a sequence of terms, in order.
pub open spec fn enc_list(ts: Seq<PlanTermV>) -> Seq<u8>
    decreases ts,
{
    if ts.len() == 0 {
        Seq::empty()
    } else {
        enc(ts[0]) + enc_list(ts.drop_first())
    }
}

/// The encoding of one term: its header followed by its payload.
pub open spec fn enc(t: PlanTermV) -> Seq<u8>
    decreases t,
{
    match t {
        PlanTermV::UInt(n) => enc_head(0, n),
        PlanTermV::NInt(n) => enc_head(1, n),
        PlanTermV::Bytes(b) => enc_head(2, b.len() as u64) + b,
        PlanTermV::Text(b) => enc_head(3, b.len() as u64) + b,
        PlanTermV::Array(ts) => enc_head(4, ts.len() as u64) + enc_list(ts),
        PlanTermV::Bool(b) => if b {
            seq![0xf5u8]
        } else {
            seq![0xf4u8]
        },
        PlanTermV::Null => seq![0xf6u8],
    }
}

/// Whether a term's payload lengths all fit the widest header width, so
/// that its encoding is faithful. Every term built from in-memory vectors
/// satisfies this.
pub open spec fn wf_plan(t: PlanTermV) -> bool
    decreases t,
{
    match t {
        PlanTermV::Bytes(b) => b.len() <= 0xffff_ffff_ffff_ffff,
        PlanTermV::Text(b) => b.len() <= 0xffff_ffff_ffff_ffff,
        PlanTermV::Array(ts) => ts.len() <= 0xffff_ffff_ffff_ffff && wf_plans(ts),
        _ => true,
    }
}

/// Whether every term of a sequence is well-formed.
pub open spec fn wf_plans(ts: Seq<PlanTermV>) -> bool
    decreases ts,
{
    if ts.len() == 0 {
        true
    } else {
        wf_plan(ts[0]) && wf_plans(ts.drop_first())
    }
}

/// Read one item header: the tag, the count and how many bytes the header
/// occupies. Fails on a truncated header and on the reserved widths.
pub open spec fn parse_head(s: Seq<u8>) -> Option<(u64, u64, int)> {
    if s.len() < 1 {
        None
    } else {
        let b0 = s[0] as u64;
        let major = b0 >> 5;
        let addl = b0 & 0x1f;
        if addl < 24 {
            Some((major, addl, 1))
        } else if addl == 24 {
            if s.len() >= 2 {
                Some((major, s[1] as u64, 2))
            } else {
                None
            }
        } else if addl == 25 {
            if s.len() >= 3 {
                Some((major, ((s[1] as u64) << 8) | (s[2] as u64), 3))
            } else {
                None
            }
        } else if addl == 26 {
            if s.len() >= 5 {
                Some(
                    (
                        major,
                        ((s[1] as u64) << 24) | ((s[2] as u64) << 16) | ((s[3] as u64) << 8) | (
                        s[4] as u64),
                        5,
                    ),
                )
            } else {
                None
            }
        } else if addl == 27 {
            if s.len() >= 9 {
                Some(
                    (
                        major,
                        ((s[1] as u64) << 56) | ((s[2] as u64) << 48) | ((s[3] as u64) << 40) | (
                        (s[4] as u64) << 32) | ((s[5] as u64) << 24) | ((s[6] as u64) << 16) | (
                        (s[7] as u64) << 8) | (s[8] as u64),
                        9,
                    ),
                )
            } else {
                None
            }
        } else {
            None
        }
    }
}

/// Read one term from the front of the input: the term and how many bytes
/// it occupies. `None` on any malformed, truncated or unsupported input.
pub open spec fn parse(s: Seq<u8>) -> Option<(PlanTermV, int)>
    decreases s.len(), 0int,
{
    match parse_head(s) {
        None => None,
        Some((major, n, hc)) => if 1 <= hc <= s.len() {
            if major == 0 {
                Some((PlanTermV::UInt(n), hc))
            } else if major == 1 {
                Some((PlanTermV::NInt(n), hc))
            } else if major == 2 || major == 3 {
                if n as int <= s.len() - hc {
                    let end = hc + n as int;
                    if major == 2 {
                        Some((PlanTermV::Bytes(s.subrange(hc, end)), end))
                    } else {
                        Some((PlanTermV::Text(s.subrange(hc, end)), end))
                    }
                } else {
                    None
                }
            } else if major == 4 {
                match parse_list(s.skip(hc), n) {
                    None => None,
                    Some((ts, u)) => Some((PlanTermV::Array(ts), hc + u)),
                }
            } else if major == 7 && hc == 1 && n == 20 {
                Some((PlanTermV::Bool(false), 1))
            } else if major == 7 && hc == 1 && n == 21 {
                Some((PlanTermV::Bool(true), 1))
            } else if major == 7 && hc == 1 && n == 22 {
                Some((PlanTermV::Null, 1))
            } else {
                None
            }
        } else {
            None
        },
    }
}

/// Read `n` consecutive terms from the front of the input.
pub open spec fn parse_list(s: Seq<u8>, n: u64) -> Option<(Seq<PlanTermV>, int)>
    decreases s.len(), 1int + n,
{
    if n == 0 {
        Some((Seq::empty(), 0))
    } else {
        match parse(s) {
            None => None,
            Some((t, u)) => if 1 <= u <= s.len() {
                match parse_list(s.skip(u), (n - 1) as u64) {
                    None => None,
                    Some((ts, us)) => Some((Seq::empty().push(t) + ts, u + us)),
                }
            } else {
                None
            },
        }
    }
}



/// Every emitted encoding is at least one byte long.
proof fn lemma_enc_len_pos(t: PlanTermV)
    ensures
        enc(t).len() >= 1,
{
}

/// Parsing an emitted header yields the tag, the count and the header
/// width, whatever follows.
proof fn lemma_parse_head_enc(major: u64, n: u64, rest: Seq<u8>)
    requires
        major <= 5,
    ensures
        parse_head(enc_head(major, n) + rest) == Some(
            (major, n, enc_head(major, n).len() as int),
        ),
        1 <= enc_head(major, n).len() <= 9,
{
    let h = enc_head(major, n);
    let s = h + rest;
    if n < 24 {
        let c = (major << 5) | n;
        assert(c <= 0xff && ((c as u8) as u64) == c && c >> 5 == major && c & 0x1f == n && n
            < 24) by (bit_vector)
            requires
                major <= 5,
                n < 24,
                c == (major << 5) | n,
        ;
        assert(s[0] == h[0]);
    } else if n <= 0xff {
        let c = (major << 5) | 24;
        assert(c <= 0xff && ((c as u8) as u64) == c && c >> 5 == major && c & 0x1f == 24 && (((n
            & 0xff) as u8) as u64) == n) by (bit_vector)
            requires
                major <= 5,
                24 <= n <= 0xff,
                c == (major << 5) | 24,
        ;
        assert(s[0] == h[0]);
        assert(s[1] == h[1]);
    } else if n <= 0xffff {
        let c = (major << 5) | 25;
        let b1 = (n >> 8) & 0xff;
        let b2 = n & 0xff;
        assert(c <= 0xff && ((c as u8) as u64) == c && c >> 5 == major && c & 0x1f == 25 && ((b1
            as u8) as u64) == b1 && ((b2 as u8) as u64) == b2 && ((b1 << 8) | b2) == n) by (
        bit_vector)
            requires
                major <= 5,
                n <= 0xffff,
                c == (major << 5) | 25,
                b1 == (n >> 8) & 0xff,
                b2 == n & 0xff,
        ;
        assert(s[0] == h[0]);
        assert(s[1] == h[1]);
        assert(s[2] == h[2]);
    } else if n <= 0xffff_ffff {
        let c = (major << 5) | 26;
        let b1 = (n >> 24) & 0xff;
        let b2 = (n >> 16) & 0xff;
        let b3 = (n >> 8) & 0xff;
        let b4 = n & 0xff;
        assert(c <= 0xff && ((c as u8) as u64) == c && c >> 5 == major && c & 0x1f == 26 && ((b1
            as u8) as u64) == b1 && ((b2 as u8) as u64) == b2 && ((b3 as u8) as u64) == b3 && ((
        b4 as u8) as u64) == b4 && ((b1 << 24) | (b2 << 16) | (b3 << 8) | b4) == n) by (
        bit_vector)
            requires
                major <= 5,
                n <= 0xffff_ffff,
                c == (major << 5) | 26,
                b1 == (n >> 24) & 0xff,
                b2 == (n >> 16) & 0xff,
                b3 == (n >> 8) & 0xff,
                b4 == n & 0xff,
        ;
        assert(s[0] == h[0]);
        assert(s[1] == h[1]);
        assert(s[2] == h[2]);
        assert(s[3] == h[3]);
        assert(s[4] == h[4]);
    } else {
        let c = (major << 5) | 27;
        let b1 = (n >> 56) & 0xff;
        let b2 = (n >> 48) & 0xff;
        let b3 = (n >> 40) & 0xff;
        let b4 = (n >> 32) & 0xff;
        let b5 = (n >> 24) & 0xff;
        let b6 = (n >> 16) & 0xff;
        let b7 = (n >> 8) & 0xff;
        let b8 = n & 0xff;
        assert(c <= 0xff && ((c as u8) as u64) == c && c >> 5 == major && c & 0x1f == 27 && ((b1
            as u8) as u64) == b1 && ((b2 as u8) as u64) == b2 && ((b3 as u8) as u64) == b3 && ((
        b4 as u8) as u64) == b4 && ((b5 as u8) as u64) == b5 && ((b6 as u8) as u64) == b6 && ((
        b7 as u8) as u64) == b7 && ((b8 as u8) as u64) == b8 && ((b1 << 56) | (b2 << 48) | (b3
            << 40) | (b4 << 32) | (b5 << 24) | (b6 << 16) | (b7 << 8) | b8) == n) by (bit_vector)
            requires
                major <= 5,
                n > 0xffff_ffff,
                c == (major << 5) | 27,
                b1 == (n >> 56) & 0xff,
                b2 == (n >> 48) & 0xff,
                b3 == (n >> 40) & 0xff,
                b4 == (n >> 32) & 0xff,
                b5 == (n >> 24) & 0xff,
                b6 == (n >> 16) & 0xff,
                b7 == (n >> 8) & 0xff,
                b8 == n & 0xff,
        ;
        assert(s[0] == h[0]);
        assert(s[1] == h[1]);
        assert(s[2] == h[2]);
        assert(s[3] == h[3]);
        assert(s[4] == h[4]);
        assert(s[5] == h[5]);
        assert(s[6] == h[6]);
        assert(s[7] == h[7]);
        assert(s[8] == h[8]);
    }
}

/// Parsing an emitted term restores it exactly and consumes exactly its
/// encoding, whatever follows.
#[verifier::rlimit(100)]
pub proof fn lemma_parse_enc(t: PlanTermV, rest: Seq<u8>)
    requires
        wf_plan(t),
    ensures
        parse(enc(t) + rest) == Some((t, enc(t).len() as int)),
    decreases t,
{
    let s = enc(t) + rest;
    match t {
        PlanTermV::UInt(n) => {
            lemma_parse_head_enc(0, n, rest);
        },
        PlanTermV::NInt(n) => {
            lemma_parse_head_enc(1, n, rest);
        },
        PlanTermV::Bytes(b) => {
            let h = enc_head(2, b.len() as u64);
            lemma_parse_head_enc(2, b.len() as u64, b + rest);
            assert(s =~= h + (b + rest));
            assert(s.subrange(h.len() as int, h.len() + b.len() as int) =~= b);
        },
        PlanTermV::Text(b) => {
            let h = enc_head(3, b.len() as u64);
            lemma_parse_head_enc(3, b.len() as u64, b + rest);
            assert(s =~= h + (b + rest));
            assert(s.subrange(h.len() as int, h.len() + b.len() as int) =~= b);
        },
        PlanTermV::Array(ts) => {
            let h = enc_head(4, ts.len() as u64);
            lemma_parse_head_enc(4, ts.len() as u64, enc_list(ts) + rest);
            assert(s =~= h + (enc_list(ts) + rest));
            lemma_parse_list_enc(ts, rest);
            assert(s.skip(h.len() as int) =~= enc_list(ts) + rest);
        },
        PlanTermV::Bool(b) => {
            assert(0xf4u64 >> 5 == 7 && 0xf4u64 & 0x1f == 20 && 0xf5u64 >> 5 == 7 && 0xf5u64
                & 0x1f == 21) by (bit_vector);
            assert(s[0] == enc(t)[0]);
        },
        PlanTermV::Null => {
            assert(0xf6u64 >> 5 == 7 && 0xf6u64 & 0x1f == 22) by (bit_vector);
            assert(s[0] == enc(t)[0]);
        },
    }
}

/// Parsing an emitted term sequence restores it exactly.
pub proof fn lemma_parse_list_enc(ts: Seq<PlanTermV>, rest: Seq<u8>)
    requires
        wf_plans(ts),
        ts.len() <= 0xffff_ffff_ffff_ffff,
    ensures
        parse_list(enc_list(ts) + rest, ts.len() as u64) == Some(
            (ts, enc_list(ts).len() as int),
        ),
    decreases ts,
{
    let s = enc_list(ts) + rest;
    if ts.len() == 0 {
        assert(enc_list(ts) =~= Seq::<u8>::empty());
    } else {
        let e0 = enc(ts[0]);
        lemma_enc_len_pos(ts[0]);
        assert(s =~= e0 + (enc_list(ts.drop_first()) + rest));
        lemma_parse_enc(ts[0], enc_list(ts.drop_first()) + rest);
        assert(s.skip(e0.len() as int) =~= enc_list(ts.drop_first()) + rest);
        lemma_parse_list_enc(ts.drop_first(), rest);
        assert(Seq::empty().push(ts[0]) + ts.drop_first() =~= ts);
    }
}

/// Parsing the whole encoding of a well-formed term restores it exactly.
pub proof fn lemma_plan_round_trip(t: PlanTermV)
    requires
        wf_plan(t),
    ensures
        parse(enc(t)) == Some((t, enc(t).len() as int)),
{
    lemma_parse_enc(t, Seq::empty());
    assert(enc(t) + Seq::<u8>::empty() =~= enc(t));
}

/// A sequence is well-formed when each of its terms is.
proof fn lemma_wf_plans_all(vs: Seq<PlanTermV>)
    requires
        forall|i: int| 0 <= i < vs.len() ==> wf_plan(#[trigger] vs[i]),
    ensures
        wf_plans(vs),
    decreases vs,
{
    if vs.len() > 0 {
        assert(forall|i: int|
            0 <= i < vs.drop_first().len() ==> #[trigger] vs.drop_first()[i] == vs[i + 1]);
        lemma_wf_plans_all(vs.drop_first());
    }
}

/// The view of every in-memory term is well-formed: vector lengths always
/// fit the widest header width.
pub proof fn lemma_plan_wf(t: PlanTerm)
    ensures
        wf_plan(plan_view(t)),
    decreases t,
{
    match t {
        PlanTerm::Array(ts) => {
            assert forall|i: int| 0 <= i < plans_view(ts@).len() implies wf_plan(
                #[trigger] plans_view(ts@)[i],
            ) by {
                lemma_plans_view_len(ts@);
                lemma_plans_view_index(ts@, i);
                assert(decreases_to!(t => t->Array_0));
                assert(t->Array_0 == ts);
                assert(decreases_to!(ts => ts@));
                assert(decreases_to!(ts@ => ts@[i]));
                lemma_plan_wf(ts@[i]);
            }
            lemma_plans_view_len(ts@);
            lemma_wf_plans_all(plans_view(ts@));
            assert(ts@.len() == ts.len());
        },
        PlanTerm::Bytes(b) => {
            assert(b@.len() == b.len());
        },
        PlanTerm::Text(b) => {
            assert(b@.len() == b.len());
        },
        _ => {},
    }
}

/// Append one byte sequence to the output.
fn push_bytes(out: &mut Vec<u8>, b: &Vec<u8>)
    ensures
        final(out)@ == old(out)@ + b@,
{
    let mut j: usize = 0;
    proof {
        assert(out@ =~= out@ + b@.take(0));
    }
    while j < b.len()
        invariant
            j <= b.len(),
            out@ == old(out)@ + b@.take(j as int),
        decreases b.len() - j,
    {
        out.push(b[j]);
        proof {
            assert(old(out)@ + b@.take(j + 1) =~= (old(out)@ + b@.take(j as int)).push(
                b@[j as int],
            ));
        }
        j = j + 1;
    }
    proof {
        assert(b@.take(b@.len() as int) =~= b@);
    }
}

/// Append the compact header of one item.
fn push_head(out: &mut Vec<u8>, major: u8, n: u64)
    ensures
        final(out)@ == old(out)@ + enc_head(major as u64, n),
{
    let mj = major as u64;
    if n < 24 {
        out.push(((mj << 5) | n) as u8);
        proof {
            assert(old(out)@ + enc_head(mj, n) =~= old(out)@.push((((mj << 5) | n) as u8)));
        }
    } else if n <= 0xff {
        out.push(((mj << 5) | 24) as u8);
        out.push((n & 0xff) as u8);
        proof {
            assert(old(out)@ + enc_head(mj, n) =~= old(out)@.push((((mj << 5) | 24) as u8)).push(
                ((n & 0xff) as u8),
            ));
        }
    } else if n <= 0xffff {
        out.push(((mj << 5) | 25) as u8);
        out.push(((n >> 8) & 0xff) as u8);
        out.push((n & 0xff) as u8);
        proof {
            assert(old(out)@ + enc_head(mj, n) =~= old(out)@.push((((mj << 5) | 25) as u8)).push(
                (((n >> 8) & 0xff) as u8),
            ).push(((n & 0xff) as u8)));
        }
    } else if n <= 0xffff_ffff {
        out.push(((mj << 5) | 26) as u8);
        out.push(((n >> 24) & 0xff) as u8);
        out.push(((n >> 16) & 0xff) as u8);
        out.push(((n >> 8) & 0xff) as u8);
        out.push((n & 0xff) as u8);
        proof {
            assert(old(out)@ + enc_head(mj, n) =~= old(out)@.push((((mj << 5) | 26) as u8)).push(
                (((n >> 24) & 0xff) as u8),
            ).push((((n >> 16) & 0xff) as u8)).push((((n >> 8) & 0xff) as u8)).push(
                ((n & 0xff) as u8),
            ));
        }
    } else {
        out.push(((mj << 5) | 27) as u8);
        out.push(((n >> 56) & 0xff) as u8);
        out.push(((n >> 48) & 0xff) as u8);
        out.push(((n >> 40) & 0xff) as u8);
        out.push(((n >> 32) & 0xff) as u8);
        out.push(((n >> 24) & 0xff) as u8);
        out.push(((n >> 16) & 0xff) as u8);
        out.push(((n >> 8) & 0xff) as u8);
        out.push((n & 0xff) as u8);
        proof {
            assert(old(out)@ + enc_head(mj, n) =~= old(out)@.push((((mj << 5) | 27) as u8)).push(
                (((n >> 56) & 0xff) as u8),
            ).push((((n >> 48) & 0xff) as u8)).push((((n >> 40) & 0xff) as u8)).push(
                (((n >> 32) & 0xff) as u8),
            ).push((((n >> 24) & 0xff) as u8)).push((((n >> 16) & 0xff) as u8)).push(
                (((n >> 8) & 0xff) as u8),
            ).push(((n & 0xff) as u8)));
        }
    }
}

/// Appending one more term extends the sequence encoding at the right.
proof fn lemma_enc_list_push(vs: Seq<PlanTermV>, v: PlanTermV)
    ensures
        enc_list(vs.push(v)) == enc_list(vs) + enc(v),
    decreases vs,
{
    if vs.len() == 0 {
        assert(vs.push(v).drop_first() =~= Seq::<PlanTermV>::empty());
        assert(vs.push(v).len() == 1);
        assert((vs.push(v))[0] == v);
        assert(enc_list(Seq::<PlanTermV>::empty()) =~= Seq::<u8>::empty());
        assert(enc_list(vs.push(v)) =~= enc(v));
        assert(enc_list(vs) + enc(v) =~= enc(v));
    } else {
        assert(vs.push(v).drop_first() =~= vs.drop_first().push(v));
        assert((vs.push(v))[0] == vs[0]);
        lemma_enc_list_push(vs.drop_first(), v);
        assert(enc_list(vs.push(v)) =~= enc_list(vs) + enc(v));
    }
}

/// Serialize one term, appending its encoding to the output.
#[verifier::loop_isolation(false)]
pub fn encode_plan_into(t: &PlanTerm, out: &mut Vec<u8>)
    ensures
        final(out)@ == old(out)@ + enc(t@),
    decreases *t,
{
    match t {
        PlanTerm::UInt(n) => push_head(out, 0, *n),
        PlanTerm::NInt(n) => push_head(out, 1, *n),
        PlanTerm::Bytes(b) => {
            push_head(out, 2, b.len() as u64);
            push_bytes(out, b);
            proof {
                assert(out@ =~= old(out)@ + enc(t@));
            }
        },
        PlanTerm::Text(b) => {
            push_head(out, 3, b.len() as u64);
            push_bytes(out, b);
            proof {
                assert(out@ =~= old(out)@ + enc(t@));
            }
        },
        PlanTerm::Array(ts) => {
            push_head(out, 4, ts.len() as u64);
            let ghost base = out@;
            let mut i: usize = 0;
            proof {
                assert(plans_view(ts@.take(0)) =~= Seq::<PlanTermV>::empty());
                assert(out@ =~= base + enc_list(plans_view(ts@.take(0))));
            }
            while i < ts.len()
                invariant
                    i <= ts.len(),
                    t == PlanTerm::Array(*ts),
                    out@ == base + enc_list(plans_view(ts@.take(i as int))),
                decreases ts.len() - i,
            {
                proof {
                    assert(decreases_to!(*t => t->Array_0));
                    assert(t->Array_0 == *ts);
                    assert(decreases_to!(*ts => ts@));
                    assert(decreases_to!(ts@ => ts@[i as int]));
                }
                encode_plan_into(&ts[i], out);
                proof {
                    let prev = plans_view(ts@.take(i as int));
                    let cur = plans_view(ts@.take(i + 1));
                    assert(ts@.take(i + 1).drop_last() =~= ts@.take(i as int));
                    lemma_plans_view_len(ts@.take(i + 1));
                    assert(ts@.take(i + 1)[i as int] == ts@[i as int]);
                    assert(cur == prev.push(plan_view(ts@[i as int])));
                    lemma_enc_list_push(prev, plan_view(ts@[i as int]));
                    assert(out@ =~= base + enc_list(cur));
                }
                i = i + 1;
            }
            proof {
                assert(ts@.take(ts@.len() as int) =~= ts@);
                lemma_plans_view_len(ts@);
                assert(t@ == PlanTermV::Array(plans_view(ts@)));
                assert(enc(t@) == enc_head(4, plans_view(ts@).len() as u64) + enc_list(
                    plans_view(ts@),
                ));
                assert(out@ =~= old(out)@ + enc(t@));
            }
        },
        PlanTerm::Bool(b) => {
            if *b {
                out.push(0xf5);
            } else {
                out.push(0xf4);
            }
            proof {
                assert(out@ =~= old(out)@ + enc(t@));
            }
        },
        PlanTerm::Null => {
            out.push(0xf6);
            proof {
                assert(out@ =~= old(out)@ + enc(t@));
            }
        },
    }
}

/// Serialize one plan or expression tree into a fresh binary blob.
pub fn encode_plan(t: &PlanTerm) -> (r: Vec<u8>)
    ensures
        r@ == enc(t@),
{
    let mut out: Vec<u8> = Vec::new();
    encode_plan_into(t, &mut out);
    proof {
        assert(Seq::<u8>::empty() + enc(t@) =~= enc(t@));
    }
    out
}

/// Read one item header at the given offset.
fn read_head(bytes: &Vec<u8>, pos: usize) -> (r: Option<(u64, u64, usize)>)
    requires
        pos <= bytes@.len(),
    ensures
        match r {
            Some(h) => parse_head(bytes@.skip(pos as int)) == Some((h.0, h.1, h.2 as int)) && 1
                <= h.2 && pos + h.2 <= bytes@.len(),
            None => parse_head(bytes@.skip(pos as int)) is None,
        },
{
    let ghost s = bytes@.skip(pos as int);
    let len = bytes.len();
    proof {
        assert(s.len() == bytes@.len() - pos);
    }
    if pos >= len {
        return None;
    }
    proof {
        assert(s[0] == bytes@[pos as int]);
    }
    let b0 = bytes[pos] as u64;
    let major = b0 >> 5;
    let addl = b0 & 0x1f;
    if addl < 24 {
        Some((major, addl, 1))
    } else if addl == 24 {
        if len - pos >= 2 {
            proof {
                assert(s[1] == bytes@[pos + 1]);
            }
            Some((major, bytes[pos + 1] as u64, 2))
        } else {
            None
        }
    } else if addl == 25 {
        if len - pos >= 3 {
            proof {
                assert(s[1] == bytes@[pos + 1]);
                assert(s[2] == bytes@[pos + 2]);
            }
            let n = ((bytes[pos + 1] as u64) << 8) | (bytes[pos + 2] as u64);
            Some((major, n, 3))
        } else {
            None
        }
    } else if addl == 26 {
        if len - pos >= 5 {
            proof {
                assert(s[1] == bytes@[pos + 1]);
                assert(s[2] == bytes@[pos + 2]);
                assert(s[3] == bytes@[pos + 3]);
                assert(s[4] == bytes@[pos + 4]);
            }
            let n = ((bytes[pos + 1] as u64) << 24) | ((bytes[pos + 2] as u64) << 16) | ((bytes[pos
                + 3] as u64) << 8) | (bytes[pos + 4] as u64);
            Some((major, n, 5))
        } else {
            None
        }
    } else if addl == 27 {
        if len - pos >= 9 {
            proof {
                assert(s[1] == bytes@[pos + 1]);
                assert(s[2] == bytes@[pos + 2]);
                assert(s[3] == bytes@[pos + 3]);
                assert(s[4] == bytes@[pos + 4]);
                assert(s[5] == bytes@[pos + 5]);
                assert(s[6] == bytes@[pos + 6]);
                assert(s[7] == bytes@[pos + 7]);
                assert(s[8] == bytes@[pos + 8]);
            }
            let n = ((bytes[pos + 1] as u64) << 56) | ((bytes[pos + 2] as u64) << 48) | ((bytes[pos
                + 3] as u64) << 40) | ((bytes[pos + 4] as u64) << 32) | ((bytes[pos + 5] as u64)
                << 24) | ((bytes[pos + 6] as u64) << 16) | ((bytes[pos + 7] as u64) << 8) | (
            bytes[pos + 8] as u64);
            Some((major, n, 9))
        } else {
            None
        }
    } else {
        None
    }
}

/// A cons of a term onto a sequence, seen through the view.
proof fn lemma_plans_view_cons(t: PlanTerm, s: Seq<PlanTerm>)
    ensures
        plans_view(Seq::empty().push(t) + s) =~= Seq::empty().push(plan_view(t)) + plans_view(s),
    decreases s,
{
    let c = Seq::empty().push(t) + s;
    if s.len() == 0 {
        assert(c.drop_last() =~= Seq::<PlanTerm>::empty());
        assert(c[c.len() - 1] == t);
        assert(plans_view(Seq::<PlanTerm>::empty()) =~= Seq::<PlanTermV>::empty());
    } else {
        assert(c.drop_last() =~= Seq::empty().push(t) + s.drop_last());
        assert(c[c.len() - 1] == s[s.len() - 1]);
        lemma_plans_view_cons(t, s.drop_last());
        lemma_plans_view_len(s);
    }
}

/// Read one term at the given offset; on failure the error is the distinct
/// plan-deserialize condition.
#[verifier::loop_isolation(false)]
fn read_term(bytes: &Vec<u8>, pos: usize) -> (r: Result<(PlanTerm, usize), BridgeError>)
    requires
        pos <= bytes@.len(),
    ensures
        match r {
            Ok(p) => parse(bytes@.skip(pos as int)) == Some((p.0@, p.1 - pos)) && pos < p.1
                <= bytes@.len(),
            Err(e) => parse(bytes@.skip(pos as int)) is None && e@ is PlanDecode,
        },
    decreases bytes@.len() - pos, 0int,
{
    let ghost s = bytes@.skip(pos as int);
    proof {
        assert(s.len() == bytes@.len() - pos);
    }
    let len = bytes.len();
    match read_head(bytes, pos) {
        None => Err(BridgeError::PlanDecode { offset: pos }),
        Some((major, n, hc)) => {
            if major == 0 {
                Ok((PlanTerm::UInt(n), pos + hc))
            } else if major == 1 {
                Ok((PlanTerm::NInt(n), pos + hc))
            } else if major == 2 || major == 3 {
                let avail = (len - (pos + hc)) as u64;
                if n > avail {
                    return Err(BridgeError::PlanDecode { offset: pos });
                }
                let count = n as usize;
                let start = pos + hc;
                let mut payload: Vec<u8> = Vec::new();
                let mut j: usize = 0;
                proof {
                    assert(payload@ =~= bytes@.subrange(start as int, start as int));
                }
                while j < count
                    invariant
                        j <= count,
                        payload@ == bytes@.subrange(start as int, start + j),
                    decreases count - j,
                {
                    payload.push(bytes[start + j]);
                    proof {
                        assert(bytes@.subrange(start as int, start + j + 1) =~= bytes@.subrange(
                            start as int,
                            start + j,
                        ).push(bytes@[start + j]));
                    }
                    j = j + 1;
                }
                proof {
                    assert(s.subrange(hc as int, hc + n as int) =~= bytes@.subrange(
                        start as int,
                        start + count,
                    ));
                }
                if major == 2 {
                    Ok((PlanTerm::Bytes(payload), start + count))
                } else {
                    Ok((PlanTerm::Text(payload), start + count))
                }
            } else if major == 4 {
                proof {
                    assert(s.skip(hc as int) =~= bytes@.skip(pos + hc));
                }
                match read_list(bytes, pos + hc, n) {
                    Ok((ts, end)) => Ok((PlanTerm::Array(ts), end)),
                    Err(e) => Err(e),
                }
            } else if major == 7 && hc == 1 && n == 20 {
                Ok((PlanTerm::Bool(false), pos + 1))
            } else if major == 7 && hc == 1 && n == 21 {
                Ok((PlanTerm::Bool(true), pos + 1))
            } else if major == 7 && hc == 1 && n == 22 {
                Ok((PlanTerm::Null, pos + 1))
            } else {
                Err(BridgeError::PlanDecode { offset: pos })
            }
        },
    }
}

/// Read `n` consecutive terms starting at the given offset.
fn read_list(bytes: &Vec<u8>, pos: usize, n: u64) -> (r: Result<
    (Vec<PlanTerm>, usize),
    BridgeError,
>)
    requires
        pos <= bytes@.len(),
    ensures
        match r {
            Ok(p) => parse_list(bytes@.skip(pos as int), n) == Some((plans_view(p.0@), p.1 - pos))
                && pos <= p.1 <= bytes@.len(),
            Err(e) => parse_list(bytes@.skip(pos as int), n) is None && e@ is PlanDecode,
        },
    decreases bytes@.len() - pos, 1int + n,
{
    let ghost s = bytes@.skip(pos as int);
    proof {
        assert(s.len() == bytes@.len() - pos);
    }
    if n == 0 {
        proof {
            assert(plans_view(Seq::<PlanTerm>::empty()) =~= Seq::<PlanTermV>::empty());
        }
        return Ok((Vec::new(), pos));
    }
    match read_term(bytes, pos) {
        Err(e) => Err(e),
        Ok((t, m)) => {
            proof {
                assert(s.skip((m - pos) as int) =~= bytes@.skip(m as int));
            }
            match read_list(bytes, m, (n - 1) as u64) {
                Err(e) => Err(e),
                Ok((ts, end)) => {
                    let mut ts = ts;
                    let ghost pre = ts@;
                    ts.insert(0, t);
                    proof {
                        assert(ts@ =~= Seq::empty().push(t) + pre);
                        lemma_plans_view_cons(t, pre);
                    }
                    Ok((ts, end))
                },
            }
        },
    }
}

/// Deserialize a plan or expression blob. The whole input must be exactly
/// one term; anything else — a truncated or corrupted blob, an unsupported
/// item, trailing bytes — fails with the distinct version-skew-flavored
/// deserialize error, never a silent partial read.
pub fn decode_plan(bytes: &Vec<u8>) -> (r: Result<PlanTerm, BridgeError>)
    ensures
        match r {
            Ok(t) => parse(bytes@) == Some((t@, bytes@.len() as int)),
            Err(e) => e@ is PlanDecode && (parse(bytes@) is None || parse(bytes@)->Some_0.1
                != bytes@.len()),
        },
{
    proof {
        assert(bytes@.skip(0) =~= bytes@);
    }
    match read_term(bytes, 0) {
        Err(e) => Err(e),
        Ok((t, end)) => {
            if end == bytes.len() {
                Ok(t)
            } else {
                Err(BridgeError::PlanDecode { offset: end })
            }
        },
    }
}

} // verus!
