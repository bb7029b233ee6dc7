//! Capability sets: recognizing enabled capabilities in the
//! whitespace-separated token list a client sends.

use vstd::prelude::*;
use crate::bstr::{bytes_eq, starts_with, sub_vec};
use crate::lit::{
    lit_agent_prefix, lit_agent_prefix_vec, lit_multi_ack, lit_multi_ack_detailed,
    lit_multi_ack_detailed_vec, lit_multi_ack_vec, lit_no_done, lit_no_done_vec, lit_ofs_delta,
    lit_ofs_delta_vec, lit_report_status, lit_report_status_vec, lit_side_band,
    lit_side_band_64k, lit_side_band_64k_vec, lit_side_band_vec, lit_thin_pack,
    lit_thin_pack_vec,
};

verus! {

/// A protocol capability a client may enable.
#[derive(Clone, Debug, PartialEq, Eq)]
pub enum Capability {
    MultiAck,
    MultiAckDetailed,
    SideBand,
    SideBand64k,
    OfsDelta,
    ReportStatus,
    NoDone,
    ThinPack,
    Agent(Vec<u8>),
}

/// Mathematical image of a [`Capability`].
pub enum CapabilityV {
    MultiAck,
    MultiAckDetailed,
    SideBand,
    SideBand64k,
    OfsDelta,
    ReportStatus,
    NoDone,
    ThinPack,
    Agent(Seq<u8>),
}

impl View for Capability {
    type V = CapabilityV;

    open spec fn view(&self) -> CapabilityV {
        match self {
            Capability::MultiAck => CapabilityV::MultiAck,
            Capability::MultiAckDetailed => CapabilityV::MultiAckDetailed,
            Capability::SideBand => CapabilityV::SideBand,
            Capability::SideBand64k => CapabilityV::SideBand64k,
            Capability::OfsDelta => CapabilityV::OfsDelta,
            Capability::ReportStatus => CapabilityV::ReportStatus,
            Capability::NoDone => CapabilityV::NoDone,
            Capability::ThinPack => CapabilityV::ThinPack,
            Capability::Agent(v) => CapabilityV::Agent(v@),
        }
    }
}

/// The views of a capability list.
pub open spec fn caps_views(s: Seq<Capability>) -> Seq<CapabilityV> {
    s.map_values(|c: Capability| c@)
}

/// Token separators: ASCII whitespace, and the NUL that sets a
/// capability tail apart from the line it rides on.
pub open spec fn is_ws(b: u8) -> bool {
    b == 32 || b == 9 || b == 10 || b == 13 || b == 0
}

/// Length of the maximal non-whitespace run at the front of `b`.
pub open spec fn token_end(b: Seq<u8>) -> int
    decreases b.len(),
{
    if b.len() == 0 {
        0
    } else if is_ws(b[0]) {
        0
    } else {
        1 + token_end(b.skip(1))
    }
}

/// `token_end` stays within the sequence.
pub proof fn lemma_token_end_bounds(b: Seq<u8>)
    ensures
        0 <= token_end(b) <= b.len(),
    decreases b.len(),
{
    if b.len() > 0 && !is_ws(b[0]) {
        lemma_token_end_bounds(b.skip(1));
    }
}

/// `token_end` of a suffix is determined by a non-whitespace run that ends
/// at the sequence's end or at a whitespace byte.
pub proof fn lemma_token_end_at(b: Seq<u8>, i: int, k: int)
    requires
        0 <= i <= k <= b.len(),
        forall|j: int| i <= j < k ==> !is_ws(#[trigger] b[j]),
        k < b.len() ==> is_ws(b[k]),
    ensures
        token_end(b.skip(i)) == k - i,
    decreases k - i,
{
    if i == k {
        if k < b.len() {
            assert(b.skip(i)[0] == b[k]);
        }
    } else {
        assert(b.skip(i)[0] == b[i]);
        lemma_token_end_at(b, i + 1, k);
        assert(b.skip(i).skip(1) =~= b.skip(i + 1));
    }
}

/// The whitespace-separated tokens of `b`, in order.
pub open spec fn split_tokens(b: Seq<u8>) -> Seq<Seq<u8>>
    decreases b.len(),
    via split_tokens_decreases
{
    if b.len() == 0 {
        seq![]
    } else if is_ws(b[0]) {
        split_tokens(b.skip(1))
    } else {
        seq![b.take(token_end(b))] + split_tokens(b.skip(token_end(b)))
    }
}

#[via_fn]
proof fn split_tokens_decreases(b: Seq<u8>) {
    if b.len() > 0 && !is_ws(b[0]) {
        lemma_token_end_bounds(b.skip(1));
    }
}

/// The capability a single token names, if any; an `agent=` token carries
/// its value. Unknown tokens decode to nothing.
pub open spec fn cap_of_token(t: Seq<u8>) -> Option<CapabilityV> {
    if t == lit_multi_ack_detailed() {
        Some(CapabilityV::MultiAckDetailed)
    } else if t == lit_multi_ack() {
        Some(CapabilityV::MultiAck)
    } else if t == lit_side_band_64k() {
        Some(CapabilityV::SideBand64k)
    } else if t == lit_side_band() {
        Some(CapabilityV::SideBand)
    } else if t == lit_ofs_delta() {
        Some(CapabilityV::OfsDelta)
    } else if t == lit_report_status() {
        Some(CapabilityV::ReportStatus)
    } else if t == lit_no_done() {
        Some(CapabilityV::NoDone)
    } else if t == lit_thin_pack() {
        Some(CapabilityV::ThinPack)
    } else if t.len() >= lit_agent_prefix().len() && t.take(lit_agent_prefix().len() as int)
        == lit_agent_prefix() {
        Some(CapabilityV::Agent(t.skip(lit_agent_prefix().len() as int)))
    } else {
        None
    }
}

/// The capabilities a token list enables, unknown tokens dropped.
pub open spec fn caps_of_tokens(ts: Seq<Seq<u8>>) -> Seq<CapabilityV>
    decreases ts.len(),
{
    if ts.len() == 0 {
        seq![]
    } else {
        match cap_of_token(ts[0]) {
            Some(c) => seq![c] + caps_of_tokens(ts.skip(1)),
            None => caps_of_tokens(ts.skip(1)),
        }
    }
}

/// The capabilities a raw capability string enables.
pub open spec fn caps_of_bytes(b: Seq<u8>) -> Seq<CapabilityV> {
    caps_of_tokens(split_tokens(b))
}

/// Decodes one capability token.
pub fn parse_capability(t: &[u8]) -> (r: Option<Capability>)
    ensures
        match r {
            Some(c) => cap_of_token(t@) == Some(c@),
            None => cap_of_token(t@) == None::<CapabilityV>,
        },
{
    let v = lit_multi_ack_detailed_vec();
    if bytes_eq(t, v.as_slice()) {
        return Some(Capability::MultiAckDetailed);
    }
    let v = lit_multi_ack_vec();
    if bytes_eq(t, v.as_slice()) {
        return Some(Capability::MultiAck);
    }
    let v = lit_side_band_64k_vec();
    if bytes_eq(t, v.as_slice()) {
        return Some(Capability::SideBand64k);
    }
    let v = lit_side_band_vec();
    if bytes_eq(t, v.as_slice()) {
        return Some(Capability::SideBand);
    }
    let v = lit_ofs_delta_vec();
    if bytes_eq(t, v.as_slice()) {
        return Some(Capability::OfsDelta);
    }
    let v = lit_report_status_vec();
    if bytes_eq(t, v.as_slice()) {
        return Some(Capability::ReportStatus);
    }
    let v = lit_no_done_vec();
    if bytes_eq(t, v.as_slice()) {
        return Some(Capability::NoDone);
    }
    let v = lit_thin_pack_vec();
    if bytes_eq(t, v.as_slice()) {
        return Some(Capability::ThinPack);
    }
    let p = lit_agent_prefix_vec();
    if starts_with(t, p.as_slice()) {
        let value = sub_vec(t, p.len(), t.len());
        return Some(Capability::Agent(value));
    }
    None
}

/// Appends to `caps` every capability the byte string `b` enables, in
/// order, dropping unknown tokens.
pub fn parse_caps_into(caps: &mut Vec<Capability>, b: &[u8])
    ensures
        caps_views(final(caps)@) == caps_views(old(caps)@) + caps_of_bytes(b@),
{
    let ghost total = caps_views(old(caps)@) + caps_of_bytes(b@);
    proof {
        assert(b@.skip(0) =~= b@);
    }
    let mut i: usize = 0;
    while i < b.len()
        invariant
            i <= b@.len(),
            caps_views(caps@) + caps_of_tokens(split_tokens(b@.skip(i as int))) == total,
        decreases b@.len() - i,
    {
        if is_ws_byte(b[i]) {
            proof {
                assert(b@.skip(i as int)[0] == b@[i as int]);
                assert(b@.skip(i as int).skip(1) =~= b@.skip(i + 1));
            }
            i = i + 1;
        } else {
            let mut j: usize = i + 1;
            while j < b.len() && !is_ws_byte(b[j])
                invariant
                    i < j <= b@.len(),
                    forall|m: int| i <= m < j ==> !is_ws(#[trigger] b@[m]),
                decreases b@.len() - j,
            {
                j = j + 1;
            }
            let ghost s = b@.skip(i as int);
            let ghost tok = b@.subrange(i as int, j as int);
            let ghost rest = caps_of_tokens(split_tokens(b@.skip(j as int)));
            proof {
                assert(s[0] == b@[i as int]);
                lemma_token_end_at(b@, i as int, j as int);
                assert(s.take(j - i) =~= tok);
                assert(s.skip(j - i) =~= b@.skip(j as int));
                assert(split_tokens(s) == seq![tok] + split_tokens(b@.skip(j as int)));
                assert((seq![tok] + split_tokens(b@.skip(j as int)))[0] == tok);
                assert((seq![tok] + split_tokens(b@.skip(j as int))).skip(1) =~= split_tokens(
                    b@.skip(j as int),
                ));
            }
            let token = sub_vec(b, i, j);
            let ghost pre = caps_views(caps@);
            match parse_capability(token.as_slice()) {
                Some(c) => {
                    let ghost cv = c@;
                    proof {
                        assert(caps_of_tokens(split_tokens(s)) == seq![cv] + rest);
                    }
                    caps.push(c);
                    proof {
                        assert(caps_views(caps@) =~= pre + seq![cv]);
                        assert((pre + seq![cv]) + rest =~= pre + (seq![cv] + rest));
                    }
                },
                None => {
                    proof {
                        assert(caps_of_tokens(split_tokens(s)) == rest);
                    }
                },
            }
            i = j;
        }
    }
    proof {
        assert(b@.skip(b@.len() as int) =~= Seq::<u8>::empty());
        assert(caps_views(caps@) + Seq::<CapabilityV>::empty() =~= caps_views(caps@));
    }
}

/// The views of a token list.
pub open spec fn token_views(s: Seq<Vec<u8>>) -> Seq<Seq<u8>> {
    s.map_values(|v: Vec<u8>| v@)
}

/// Splits `b` into its whitespace-separated tokens, in order.
pub fn tokenize(b: &[u8]) -> (r: Vec<Vec<u8>>)
    ensures
        token_views(r@) == split_tokens(b@),
{
    let mut out: Vec<Vec<u8>> = Vec::new();
    proof {
        assert(b@.skip(0) =~= b@);
    }
    let mut i: usize = 0;
    while i < b.len()
        invariant
            i <= b@.len(),
            token_views(out@) + split_tokens(b@.skip(i as int)) == split_tokens(b@),
        decreases b@.len() - i,
    {
        if is_ws_byte(b[i]) {
            proof {
                assert(b@.skip(i as int)[0] == b@[i as int]);
                assert(b@.skip(i as int).skip(1) =~= b@.skip(i + 1));
            }
            i = i + 1;
        } else {
            let mut j: usize = i + 1;
            while j < b.len() && !is_ws_byte(b[j])
                invariant
                    i < j <= b@.len(),
                    forall|m: int| i <= m < j ==> !is_ws(#[trigger] b@[m]),
                decreases b@.len() - j,
            {
                j = j + 1;
            }
            let ghost s = b@.skip(i as int);
            let ghost tok = b@.subrange(i as int, j as int);
            proof {
                assert(s[0] == b@[i as int]);
                lemma_token_end_at(b@, i as int, j as int);
                assert(s.take(j - i) =~= tok);
                assert(s.skip(j - i) =~= b@.skip(j as int));
                assert(split_tokens(s) == seq![tok] + split_tokens(b@.skip(j as int)));
            }
            let token = sub_vec(b, i, j);
            let ghost pre = token_views(out@);
            out.push(token);
            proof {
                assert(token_views(out@) =~= pre + seq![tok]);
                assert((pre + seq![tok]) + split_tokens(b@.skip(j as int)) =~= pre + (seq![tok]
                    + split_tokens(b@.skip(j as int))));
            }
            i = j;
        }
    }
    proof {
        assert(b@.skip(b@.len() as int) =~= Seq::<u8>::empty());
        assert(token_views(out@) + Seq::<Seq<u8>>::empty() =~= token_views(out@));
    }
    out
}

/// Appends to `caps` every capability named by the tokens from index
/// `from` on, in order, dropping unknown tokens.
pub fn parse_caps_tokens_into(caps: &mut Vec<Capability>, ts: &Vec<Vec<u8>>, from: usize)
    requires
        from <= ts@.len(),
    ensures
        caps_views(final(caps)@) == caps_views(old(caps)@) + caps_of_tokens(
            token_views(ts@).skip(from as int),
        ),
{
    let ghost views = token_views(ts@);
    let mut k: usize = from;
    while k < ts.len()
        invariant
            from <= k <= ts@.len(),
            views == token_views(ts@),
            caps_views(caps@) + caps_of_tokens(views.skip(k as int)) == caps_views(old(caps)@)
                + caps_of_tokens(views.skip(from as int)),
        decreases ts@.len() - k,
    {
        proof {
            assert(views.skip(k as int)[0] == views[k as int]);
            assert(views.skip(k as int).skip(1) =~= views.skip(k + 1));
            assert(views[k as int] == ts@[k as int]@);
        }
        let ghost pre = caps_views(caps@);
        let ghost rest = caps_of_tokens(views.skip(k + 1));
        match parse_capability(ts[k].as_slice()) {
            Some(c) => {
                let ghost cv = c@;
                caps.push(c);
                proof {
                    assert(caps_views(caps@) =~= pre + seq![cv]);
                    assert((pre + seq![cv]) + rest =~= pre + (seq![cv] + rest));
                }
            },
            None => {},
        }
        k = k + 1;
    }
    proof {
        assert(views.skip(views.len() as int) =~= Seq::<Seq<u8>>::empty());
        assert(caps_views(caps@) + caps_of_tokens(Seq::<Seq<u8>>::empty()) =~= caps_views(caps@));
    }
}

/// Tests a byte for token-separating whitespace.
pub fn is_ws_byte(b: u8) -> (r: bool)
    ensures
        r == is_ws(b),
{
    b == 32 || b == 9 || b == 10 || b == 13 || b == 0
}

/// True when the list enables `side-band` or `side-band-64k`.
pub open spec fn spec_has_side_band(caps: Seq<CapabilityV>) -> bool {
    exists|i: int|
        0 <= i < caps.len() && (#[trigger] caps[i] == CapabilityV::SideBand || caps[i]
            == CapabilityV::SideBand64k)
}

/// Returns whether the capability list enables a side-band mode.
pub fn has_side_band(caps: &Vec<Capability>) -> (r: bool)
    ensures
        r == spec_has_side_band(caps_views(caps@)),
{
    let mut i: usize = 0;
    while i < caps.len()
        invariant
            i <= caps@.len(),
            forall|j: int|
                0 <= j < i ==> !(#[trigger] caps_views(caps@)[j] == CapabilityV::SideBand
                    || caps_views(caps@)[j] == CapabilityV::SideBand64k),
        decreases caps@.len() - i,
    {
        match &caps[i] {
            Capability::SideBand => {
                proof {
                    assert(caps_views(caps@)[i as int] == CapabilityV::SideBand);
                }
                return true;
            },
            Capability::SideBand64k => {
                proof {
                    assert(caps_views(caps@)[i as int] == CapabilityV::SideBand64k);
                }
                return true;
            },
            _ => {},
        }
        proof {
            assert(caps_views(caps@)[i as int] == caps@[i as int]@);
        }
        i = i + 1;
    }
    false
}

} // verus!
