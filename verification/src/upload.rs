//! The upload-pack negotiator: parsing `want`/`have`/`done` lines and
//! computing the ACK/NAK reply and the pack request.

use vstd::prelude::*;
use crate::buf::{bytes_mut_new, bytes_mut_view, bytes_to_vec, bytes_view};
use crate::bstr::{bytes_eq, push_all};
use crate::caps::{
    caps_of_tokens, caps_views, split_tokens, token_views, tokenize, Capability, CapabilityV,
};
use crate::lit::{
    lit_ack_last_suffix, lit_ack_last_suffix_vec, lit_ack_prefix, lit_ack_prefix_vec,
    lit_common_suffix, lit_common_suffix_vec, lit_done, lit_done_vec, lit_have, lit_have_vec,
    lit_nak, lit_nak_vec, lit_ready_suffix, lit_ready_suffix_vec, lit_want, lit_want_vec,
};
use crate::pkt::{add_flush_pkt, add_pkt_line, flush_marker, pkt_line_of, spec_read_pkt_line,
    MAX_PKT_PAYLOAD};
use crate::smart::SmartProtocol;
use crate::types::ProtocolError;
use vstd::string::StringExecFns;

verus! {

/// What the pack codec is asked to produce: a full pack of the wants, or
/// an incremental pack between the haves and the wants.
pub enum PackRequest {
    Full(Vec<Vec<u8>>),
    Incremental(Vec<Vec<u8>>, Vec<Vec<u8>>),
}

/// The `want` and `have` hashes an upload-pack request carries, in order,
/// up to the first flush, empty line, `done`, or the buffer's end; `None`
/// when a pkt-line is malformed. Lines with an unknown verb are ignored.
pub open spec fn spec_upload_request(b: Seq<u8>) -> Option<(Seq<Seq<u8>>, Seq<Seq<u8>>)>
    decreases b.len(),
{
    match spec_read_pkt_line(b) {
        Err(_) => None,
        Ok(np) => if np.0 == 0 || np.1.len() == 0 {
            Some((seq![], seq![]))
        } else if !(4 < np.0 <= b.len()) {
            // never taken: a non-empty payload forces this; the guard keeps
            // the recursion visibly well-founded
            None
        } else {
            let ts = split_tokens(np.1);
            if ts.len() >= 1 && ts[0] == lit_done() {
                Some((seq![], seq![]))
            } else {
                match spec_upload_request(b.skip(np.0)) {
                    None => None,
                    Some(wh) => if ts.len() >= 2 && ts[0] == lit_want() {
                        Some((seq![ts[1]] + wh.0, wh.1))
                    } else if ts.len() >= 2 && ts[0] == lit_have() {
                        Some((wh.0, seq![ts[1]] + wh.1))
                    } else {
                        Some(wh)
                    },
                }
            }
        },
    }
}

/// The capability tail of the first `want` line: every token after the
/// hash. Lines before it leave the set untouched.
pub open spec fn first_want_caps(b: Seq<u8>) -> Seq<CapabilityV>
    decreases b.len(),
{
    match spec_read_pkt_line(b) {
        Err(_) => seq![],
        Ok(np) => if np.0 == 0 || np.1.len() == 0 {
            seq![]
        } else if !(4 < np.0 <= b.len()) {
            seq![]
        } else {
            let ts = split_tokens(np.1);
            if ts.len() >= 1 && ts[0] == lit_done() {
                seq![]
            } else if ts.len() >= 2 && ts[0] == lit_want() {
                caps_of_tokens(ts.skip(2))
            } else {
                first_want_caps(b.skip(np.0))
            }
        },
    }
}

impl SmartProtocol {
    /// Parses the pkt-lines of an upload-pack request into the `want` and
    /// `have` lists, in order; the first `want` line's capability tail
    /// populates the session capability set. Fails with a repository error
    /// when no service type was set; on that or a malformed pkt-line the
    /// session is left unchanged.
    pub fn parse_upload_pack_request(&mut self, upload_request: bytes::Bytes) -> (r: Result<
        (Vec<Vec<u8>>, Vec<Vec<u8>>),
        ProtocolError,
    >)
        ensures
            match r {
                Ok(wh) => old(self).service_type is Some && (spec_upload_request(
                    bytes_view(upload_request),
                ) matches Some(spec_wh) && token_views(wh.0@) == spec_wh.0 && token_views(wh.1@)
                    == spec_wh.1) && caps_views(final(self).capabilities@) == caps_views(
                    old(self).capabilities@,
                ) + first_want_caps(bytes_view(upload_request)),
                Err(e) => *final(self) == *old(self) && (if old(self).service_type is None {
                    e is RepositoryError
                } else {
                    spec_upload_request(bytes_view(upload_request)) is None && e is InvalidRequest
                }),
            },
            final(self).transport_protocol == old(self).transport_protocol,
            final(self).service_type == old(self).service_type,
            final(self).side_bind == old(self).side_bind,
            final(self).command_list == old(self).command_list,
    {
        if self.get_service_type().is_none() {
            return Err(ProtocolError::RepositoryError(String::from_str("service type not set")));
        }
        let ghost b0 = bytes_view(upload_request);
        let mut buf = upload_request;
        let mut wants: Vec<Vec<u8>> = Vec::new();
        let mut haves: Vec<Vec<u8>> = Vec::new();
        let mut new_caps: Vec<Capability> = Vec::new();
        let mut read_first: bool = false;
        loop
            invariant_except_break
                old(self).service_type is Some,
                b0 == bytes_view(upload_request),
                spec_upload_request(b0) == (match spec_upload_request(bytes_view(buf)) {
                    None => None::<(Seq<Seq<u8>>, Seq<Seq<u8>>)>,
                    Some(wh) => Some(
                        (token_views(wants@) + wh.0, token_views(haves@) + wh.1),
                    ),
                }),
                !read_first ==> new_caps@ == Seq::<Capability>::empty() && first_want_caps(b0)
                    == first_want_caps(bytes_view(buf)),
                read_first ==> caps_views(new_caps@) == first_want_caps(b0),
                *self == *old(self),
            ensures
                old(self).service_type is Some,
                b0 == bytes_view(upload_request),
                (spec_upload_request(b0) matches Some(wh) && token_views(wants@) == wh.0
                    && token_views(haves@) == wh.1),
                caps_views(new_caps@) == first_want_caps(b0),
                *self == *old(self),
            decreases bytes_view(buf).len(),
        {
            let ghost b_pre = bytes_view(buf);
            match crate::pkt::read_pkt_line(&mut buf) {
                Err(e) => {
                    proof {
                        assert(spec_upload_request(b_pre) is None);
                        assert(spec_upload_request(b0) is None);
                    }
                    return Err(e);
                },
                Ok((n, payload)) => {
                    if n == 0 {
                        proof {
                            assert(spec_upload_request(b_pre) == Some((
                                Seq::<Seq<u8>>::empty(),
                                Seq::<Seq<u8>>::empty(),
                            )));
                            assert(token_views(wants@) + Seq::<Seq<u8>>::empty() =~= token_views(
                                wants@,
                            ));
                            assert(token_views(haves@) + Seq::<Seq<u8>>::empty() =~= token_views(
                                haves@,
                            ));
                            if !read_first {
                                assert(caps_views(new_caps@) =~= first_want_caps(b0));
                            }
                        }
                        break ;
                    }
                    let pv = bytes_to_vec(&payload);
                    if pv.len() == 0 {
                        proof {
                            assert(spec_upload_request(b_pre) == Some((
                                Seq::<Seq<u8>>::empty(),
                                Seq::<Seq<u8>>::empty(),
                            )));
                            assert(token_views(wants@) + Seq::<Seq<u8>>::empty() =~= token_views(
                                wants@,
                            ));
                            assert(token_views(haves@) + Seq::<Seq<u8>>::empty() =~= token_views(
                                haves@,
                            ));
                            if !read_first {
                                assert(caps_views(new_caps@) =~= first_want_caps(b0));
                            }
                        }
                        break ;
                    }
                    proof {
                        assert(4 < n <= b_pre.len());
                    }
                    let mut ts = tokenize(pv.as_slice());
                    let ghost tsv = token_views(ts@);
                    let ghost rest = spec_upload_request(bytes_view(buf));
                    if ts.len() >= 1 {
                        proof {
                            assert(tsv[0] == ts@[0]@);
                        }
                        let d = lit_done_vec();
                        if bytes_eq(ts[0].as_slice(), d.as_slice()) {
                            proof {
                                assert(spec_upload_request(b_pre) == Some((
                                Seq::<Seq<u8>>::empty(),
                                Seq::<Seq<u8>>::empty(),
                            )));
                            assert(token_views(wants@) + Seq::<Seq<u8>>::empty() =~= token_views(
                                wants@,
                            ));
                            assert(token_views(haves@) + Seq::<Seq<u8>>::empty() =~= token_views(
                                haves@,
                            ));
                                if !read_first {
                                    assert(caps_views(new_caps@) =~= first_want_caps(b0));
                                }
                            }
                            break ;
                        }
                        let w = lit_want_vec();
                        let h = lit_have_vec();
                        if ts.len() >= 2 && bytes_eq(ts[0].as_slice(), w.as_slice()) {
                            proof {
                                assert(tsv[1] == ts@[1]@);
                            }
                            if !read_first {
                                crate::caps::parse_caps_tokens_into(&mut new_caps, &ts, 2);
                                read_first = true;
                                proof {
                                    assert(caps_views(new_caps@) =~= first_want_caps(b0));
                                }
                            }
                            let ghost pre = token_views(wants@);
                            let hash = ts.remove(1);
                            wants.push(hash);
                            proof {
                                assert(token_views(wants@) =~= pre + seq![tsv[1]]);
                                if let Some(wh) = rest {
                                    assert((pre + seq![tsv[1]]) + wh.0 =~= pre + (seq![tsv[1]]
                                        + wh.0));
                                }
                            }
                        } else if ts.len() >= 2 && bytes_eq(ts[0].as_slice(), h.as_slice()) {
                            proof {
                                assert(tsv[1] == ts@[1]@);
                            }
                            let ghost pre = token_views(haves@);
                            let hash = ts.remove(1);
                            haves.push(hash);
                            proof {
                                assert(token_views(haves@) =~= pre + seq![tsv[1]]);
                                if let Some(wh) = rest {
                                    assert((pre + seq![tsv[1]]) + wh.1 =~= pre + (seq![tsv[1]]
                                        + wh.1));
                                }
                            }
                        }
                    }
                },
            }
        }
        let ghost old_caps = caps_views(self.capabilities@);
        self.capabilities.append(&mut new_caps);
        proof {
            assert(caps_views(self.capabilities@) =~= old_caps + first_want_caps(b0));
        }
        Ok((wants, haves))
    }
}

/// The `ACK <hash> common` status-report line.
pub open spec fn ack_common_line(h: Seq<u8>) -> Seq<u8> {
    lit_ack_prefix() + h + lit_common_suffix()
}

/// The `ACK <hash> ready` line.
pub open spec fn ack_ready_line(h: Seq<u8>) -> Seq<u8> {
    lit_ack_prefix() + h + lit_ready_suffix()
}

/// The closing `ACK <hash> ` line (trailing space before the newline).
pub open spec fn ack_last_line(h: Seq<u8>) -> Seq<u8> {
    lit_ack_prefix() + h + lit_ack_last_suffix()
}

/// One framed `ACK <hash> common` line for each have the repository
/// holds, in order.
pub open spec fn ack_commons(hs: Seq<Seq<u8>>, present: Seq<bool>) -> Seq<u8>
    decreases hs.len(),
{
    if hs.len() == 0 {
        Seq::empty()
    } else {
        (if present[0] {
            pkt_line_of(ack_common_line(hs[0]))
        } else {
            Seq::<u8>::empty()
        }) + ack_commons(hs.skip(1), present.skip(1))
    }
}

/// The hash of the earliest have the repository holds, if any.
pub open spec fn first_present_hash(hs: Seq<Seq<u8>>, present: Seq<bool>) -> Option<Seq<u8>>
    decreases hs.len(),
{
    if hs.len() == 0 {
        None
    } else if present[0] {
        Some(hs[0])
    } else {
        first_present_hash(hs.skip(1), present.skip(1))
    }
}

/// Extending the lists by one element appends at most one common line.
proof fn lemma_ack_commons_snoc(hs: Seq<Seq<u8>>, present: Seq<bool>, h: Seq<u8>, p: bool)
    requires
        hs.len() == present.len(),
    ensures
        ack_commons(hs.push(h), present.push(p)) == ack_commons(hs, present) + (if p {
            pkt_line_of(ack_common_line(h))
        } else {
            Seq::<u8>::empty()
        }),
    decreases hs.len(),
{
    if hs.len() == 0 {
        assert(hs.push(h)[0] == h);
        assert(present.push(p)[0] == p);
        assert(hs.push(h).skip(1) =~= Seq::<Seq<u8>>::empty());
        assert(present.push(p).skip(1) =~= Seq::<bool>::empty());
        assert(ack_commons(hs.push(h), present.push(p)) == (if p {
            pkt_line_of(ack_common_line(h))
        } else {
            Seq::<u8>::empty()
        }) + ack_commons(Seq::<Seq<u8>>::empty(), Seq::<bool>::empty()));
        if p {
            assert(pkt_line_of(ack_common_line(h)) + Seq::<u8>::empty() =~= pkt_line_of(
                ack_common_line(h),
            ));
            assert(Seq::<u8>::empty() + pkt_line_of(ack_common_line(h)) =~= pkt_line_of(
                ack_common_line(h),
            ));
        } else {
            assert(Seq::<u8>::empty() + Seq::<u8>::empty() =~= Seq::<u8>::empty());
        }
    } else {
        assert(hs.push(h)[0] == hs[0]);
        assert(present.push(p)[0] == present[0]);
        assert(hs.push(h).skip(1) =~= hs.skip(1).push(h));
        assert(present.push(p).skip(1) =~= present.skip(1).push(p));
        lemma_ack_commons_snoc(hs.skip(1), present.skip(1), h, p);
        let head = if present[0] {
            pkt_line_of(ack_common_line(hs[0]))
        } else {
            Seq::<u8>::empty()
        };
        let tailp = if p {
            pkt_line_of(ack_common_line(h))
        } else {
            Seq::<u8>::empty()
        };
        assert(head + (ack_commons(hs.skip(1), present.skip(1)) + tailp) =~= (head + ack_commons(
            hs.skip(1),
            present.skip(1),
        )) + tailp);
    }
}

/// The earliest present have is unchanged by extending the lists, unless
/// none was present yet.
proof fn lemma_first_present_snoc(hs: Seq<Seq<u8>>, present: Seq<bool>, h: Seq<u8>, p: bool)
    requires
        hs.len() == present.len(),
    ensures
        first_present_hash(hs.push(h), present.push(p)) == (match first_present_hash(
            hs,
            present,
        ) {
            Some(f) => Some(f),
            None => if p {
                Some(h)
            } else {
                None::<Seq<u8>>
            },
        }),
    decreases hs.len(),
{
    if hs.len() == 0 {
        assert(hs.push(h)[0] == h);
        assert(present.push(p)[0] == p);
        assert(hs.push(h).skip(1) =~= Seq::<Seq<u8>>::empty());
        assert(present.push(p).skip(1) =~= Seq::<bool>::empty());
        if p {
            assert(first_present_hash(hs.push(h), present.push(p)) == Some(h));
        } else {
            assert(first_present_hash(hs.push(h), present.push(p))
                == first_present_hash(Seq::<Seq<u8>>::empty(), Seq::<bool>::empty()));
        }
    } else {
        assert(hs.push(h)[0] == hs[0]);
        assert(present.push(p)[0] == present[0]);
        assert(hs.push(h).skip(1) =~= hs.skip(1).push(h));
        assert(present.push(p).skip(1) =~= present.skip(1).push(p));
        lemma_first_present_snoc(hs.skip(1), present.skip(1), h, p);
        if present[0] {
            assert(first_present_hash(hs.push(h), present.push(p)) == Some(hs[0]));
            assert(first_present_hash(hs, present) == Some(hs[0]));
        } else {
            assert(first_present_hash(hs.push(h), present.push(p)) == first_present_hash(
                hs.skip(1).push(h),
                present.skip(1).push(p),
            ));
            assert(first_present_hash(hs, present) == first_present_hash(
                hs.skip(1),
                present.skip(1),
            ));
        }
    }
}

/// Runs the single-round negotiation over the parsed `wants` and `haves`,
/// given for each have whether the repository holds it. With no common
/// have the reply is exactly one `NAK` pkt-line and a full pack is
/// requested; otherwise the reply is one `ACK <h> common` line per
/// present have, then `ACK <h> ready`, a flush marker and `ACK <h> `
/// for the earliest common have `h`, and an incremental pack is
/// requested.
pub fn negotiate_upload_pack(wants: Vec<Vec<u8>>, haves: Vec<Vec<u8>>, present: &Vec<bool>) -> (r:
    (PackRequest, bytes::BytesMut))
    requires
        present@.len() == haves@.len(),
        forall|i: int|
            0 <= i < haves@.len() ==> (#[trigger] haves@[i])@.len() + 12 <= MAX_PKT_PAYLOAD,
    ensures
        ({
            let hs = token_views(haves@);
            match first_present_hash(hs, present@) {
                None => (r.0 matches PackRequest::Full(w) && token_views(w@) == token_views(
                    wants@,
                )) && bytes_mut_view(r.1) == pkt_line_of(lit_nak()),
                Some(h) => (r.0 matches PackRequest::Incremental(w, hv) && token_views(w@)
                    == token_views(wants@) && token_views(hv@) == hs) && bytes_mut_view(r.1)
                    == ack_commons(hs, present@) + pkt_line_of(ack_ready_line(h))
                    + flush_marker() + pkt_line_of(ack_last_line(h)),
            }
        }),
{
    let ghost hs = token_views(haves@);
    let mut protocol_buf = bytes_mut_new();
    let mut last_common: Option<Vec<u8>> = None;
    let mut i: usize = 0;
    while i < haves.len()
        invariant
            i <= haves@.len(),
            present@.len() == haves@.len(),
            hs == token_views(haves@),
            forall|k: int|
                0 <= k < haves@.len() ==> (#[trigger] haves@[k])@.len() + 12 <= MAX_PKT_PAYLOAD,
            bytes_mut_view(protocol_buf) == ack_commons(hs.take(i as int), present@.take(i as int)),
            (match last_common {
                Some(h) => first_present_hash(hs.take(i as int), present@.take(i as int)) == Some(
                    h@,
                ),
                None => first_present_hash(hs.take(i as int), present@.take(i as int))
                    is None,
            }),
        decreases haves@.len() - i,
    {
        proof {
            assert(hs.take(i + 1) =~= hs.take(i as int).push(hs[i as int]));
            assert(present@.take(i + 1) =~= present@.take(i as int).push(present@[i as int]));
            lemma_ack_commons_snoc(hs.take(i as int), present@.take(i as int), hs[i as int],
                present@[i as int]);
            lemma_first_present_snoc(hs.take(i as int), present@.take(i as int), hs[i as int],
                present@[i as int]);
            assert(hs[i as int] == haves@[i as int]@);
        }
        if present[i] {
            let mut line = lit_ack_prefix_vec();
            push_all(&mut line, haves[i].as_slice());
            let suffix = lit_common_suffix_vec();
            push_all(&mut line, suffix.as_slice());
            proof {
                assert(line@ =~= ack_common_line(hs[i as int]));
            }
            add_pkt_line(&mut protocol_buf, &line);
            if last_common.is_none() {
                let mut hash: Vec<u8> = Vec::new();
                push_all(&mut hash, haves[i].as_slice());
                proof {
                    assert(Seq::<u8>::empty() + haves@[i as int]@ =~= haves@[i as int]@);
                }
                last_common = Some(hash);
            }
        } else {
            proof {
                assert(bytes_mut_view(protocol_buf) + Seq::<u8>::empty() =~= bytes_mut_view(
                    protocol_buf,
                ));
            }
        }
        i = i + 1;
    }
    proof {
        assert(hs.take(hs.len() as int) =~= hs);
        assert(present@.take(present@.len() as int) =~= present@);
    }
    match last_common {
        None => {
            let nak = lit_nak_vec();
            add_pkt_line(&mut protocol_buf, &nak);
            proof {
                lemma_no_present_no_commons(hs, present@);
                assert(Seq::<u8>::empty() + pkt_line_of(lit_nak()) =~= pkt_line_of(lit_nak()));
            }
            (PackRequest::Full(wants), protocol_buf)
        },
        Some(h) => {
            let mut line = lit_ack_prefix_vec();
            push_all(&mut line, h.as_slice());
            let suffix = lit_ready_suffix_vec();
            push_all(&mut line, suffix.as_slice());
            proof {
                assert(first_present_hash(hs, present@) == Some(h@));
                lemma_first_present_len(hs, present@);
                let w = choose|k: int| 0 <= k < hs.len() && hs[k] == h@;
                assert(hs[w] == haves@[w]@);
                assert(h@.len() + 12 <= MAX_PKT_PAYLOAD);
                assert(line@ =~= ack_ready_line(h@));
            }
            add_pkt_line(&mut protocol_buf, &line);
            add_flush_pkt(&mut protocol_buf);
            let mut last = lit_ack_prefix_vec();
            push_all(&mut last, h.as_slice());
            let suffix = lit_ack_last_suffix_vec();
            push_all(&mut last, suffix.as_slice());
            proof {
                assert(last@ =~= ack_last_line(h@));
            }
            add_pkt_line(&mut protocol_buf, &last);
            (PackRequest::Incremental(wants, haves), protocol_buf)
        },
    }
}

/// With no common have there are no `ACK common` lines at all.
proof fn lemma_no_present_no_commons(hs: Seq<Seq<u8>>, present: Seq<bool>)
    requires
        hs.len() == present.len(),
        first_present_hash(hs, present) is None,
    ensures
        ack_commons(hs, present) == Seq::<u8>::empty(),
    decreases hs.len(),
{
    if hs.len() > 0 {
        assert(!present[0]);
        lemma_no_present_no_commons(hs.skip(1), present.skip(1));
        assert(Seq::<u8>::empty() + Seq::<u8>::empty() =~= Seq::<u8>::empty());
    }
}

/// The earliest present have is one of the haves, so it obeys their
/// length bound.
proof fn lemma_first_present_len(hs: Seq<Seq<u8>>, present: Seq<bool>)
    requires
        hs.len() == present.len(),
    ensures
        match first_present_hash(hs, present) {
            Some(h) => exists|i: int| 0 <= i < hs.len() && hs[i] == h,
            None => true,
        },
    decreases hs.len(),
{
    if hs.len() > 0 && !present[0] {
        lemma_first_present_len(hs.skip(1), present.skip(1));
        if let Some(h) = first_present_hash(hs.skip(1), present.skip(1)) {
            let i = choose|i: int| 0 <= i < hs.skip(1).len() && hs.skip(1)[i] == h;
            assert(hs[i + 1] == h);
        }
    }
}

} // verus!
