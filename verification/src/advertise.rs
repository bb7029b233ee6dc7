//! The `info/refs` advertisement: the capability-carrying first line, one
//! line per ref, and the transport wrapping.

use vstd::prelude::*;
use crate::buf::{bytes_mut_new, bytes_mut_view};
use crate::bstr::{bytes_eq, ends_with, push_all, sub_vec};
use crate::lit::{
    lit_caps_sentinel, lit_caps_sentinel_vec, lit_head_name, lit_head_name_vec, lit_lf,
    lit_main_suffix, lit_main_suffix_vec, lit_master_suffix, lit_master_suffix_vec, lit_nul,
    lit_service_prefix, lit_service_prefix_vec, lit_sp,
};
use crate::pkt::{add_flush_pkt, add_pkt_line, flush_marker, pkt_cat, pkt_line_of,
    MAX_PKT_PAYLOAD};
use crate::smart::SmartProtocol;
use crate::types::{
    is_object_id, zero_id, zero_id_seq, GitRef, GitRefV, ProtocolError, ServiceType,
    TransportProtocol,
};
use vstd::string::StringExecFns;

verus! {

/// The views of a ref list.
pub open spec fn ref_views(s: Seq<GitRef>) -> Seq<GitRefV> {
    s.map_values(|r: GitRef| r@)
}

/// The hash of the first entry with exactly the given name, if any.
pub open spec fn first_hash_named(refs: Seq<GitRefV>, name: Seq<u8>) -> Option<Seq<u8>>
    decreases refs.len(),
{
    if refs.len() == 0 {
        None
    } else if refs[0].name == name {
        Some(refs[0].hash)
    } else {
        first_hash_named(refs.skip(1), name)
    }
}

/// The hash of the first entry whose name ends with the given suffix, if
/// any.
pub open spec fn first_hash_ending(refs: Seq<GitRefV>, suffix: Seq<u8>) -> Option<Seq<u8>>
    decreases refs.len(),
{
    if refs.len() == 0 {
        None
    } else if refs[0].name.len() >= suffix.len() && refs[0].name.skip(
        refs[0].name.len() - suffix.len(),
    ) == suffix {
        Some(refs[0].hash)
    } else {
        first_hash_ending(refs.skip(1), suffix)
    }
}

/// The HEAD hash of the advertisement, in priority order: the entry named
/// `HEAD`, else the first ref ending in `/main`, else the first ending in
/// `/master`, else the zero id.
pub open spec fn head_hash_of(refs: Seq<GitRefV>) -> Seq<u8> {
    match first_hash_named(refs, lit_head_name()) {
        Some(h) => h,
        None => match first_hash_ending(refs, lit_main_suffix()) {
            Some(h) => h,
            None => match first_hash_ending(refs, lit_master_suffix()) {
                Some(h) => h,
                None => zero_id_seq(),
            },
        },
    }
}

/// Returns a copy of the hash of the first entry with the given name.
fn find_hash_named(refs: &Vec<GitRef>, name: &Vec<u8>) -> (r: Option<Vec<u8>>)
    ensures
        match r {
            Some(h) => first_hash_named(ref_views(refs@), name@) == Some(h@),
            None => first_hash_named(ref_views(refs@), name@) is None,
        },
{
    let ghost rv = ref_views(refs@);
    proof {
        assert(rv.skip(0) =~= rv);
    }
    let mut i: usize = 0;
    while i < refs.len()
        invariant
            i <= refs@.len(),
            rv == ref_views(refs@),
            first_hash_named(rv, name@) == first_hash_named(rv.skip(i as int), name@),
        decreases refs@.len() - i,
    {
        proof {
            assert(rv.skip(i as int)[0] == rv[i as int]);
            assert(rv[i as int] == refs@[i as int]@);
        }
        if bytes_eq(refs[i].name.as_slice(), name.as_slice()) {
            let h = sub_vec(refs[i].hash.as_slice(), 0, refs[i].hash.len());
            proof {
                assert(h@ =~= rv[i as int].hash);
            }
            return Some(h);
        }
        proof {
            assert(rv.skip(i as int).skip(1) =~= rv.skip(i + 1));
        }
        i = i + 1;
    }
    proof {
        assert(rv.skip(rv.len() as int) =~= Seq::<GitRefV>::empty());
    }
    None
}

/// Returns a copy of the hash of the first entry whose name ends with the
/// given suffix.
fn find_hash_ending(refs: &Vec<GitRef>, suffix: &Vec<u8>) -> (r: Option<Vec<u8>>)
    ensures
        match r {
            Some(h) => first_hash_ending(ref_views(refs@), suffix@) == Some(h@),
            None => first_hash_ending(ref_views(refs@), suffix@) is None,
        },
{
    let ghost rv = ref_views(refs@);
    proof {
        assert(rv.skip(0) =~= rv);
    }
    let mut i: usize = 0;
    while i < refs.len()
        invariant
            i <= refs@.len(),
            rv == ref_views(refs@),
            first_hash_ending(rv, suffix@) == first_hash_ending(rv.skip(i as int), suffix@),
        decreases refs@.len() - i,
    {
        proof {
            assert(rv.skip(i as int)[0] == rv[i as int]);
            assert(rv[i as int] == refs@[i as int]@);
        }
        if ends_with(refs[i].name.as_slice(), suffix.as_slice()) {
            let h = sub_vec(refs[i].hash.as_slice(), 0, refs[i].hash.len());
            proof {
                assert(h@ =~= rv[i as int].hash);
            }
            return Some(h);
        }
        proof {
            assert(rv.skip(i as int).skip(1) =~= rv.skip(i + 1));
        }
        i = i + 1;
    }
    proof {
        assert(rv.skip(rv.len() as int) =~= Seq::<GitRefV>::empty());
    }
    None
}

/// The first advertisement line: HEAD hash, the name `HEAD` (or the
/// sentinel `capabilities^{}` for an empty repository), then the
/// capability list behind a NUL.
pub open spec fn adv_first_line(head: Seq<u8>, caps: Seq<u8>) -> Seq<u8> {
    head + lit_sp() + (if head == zero_id_seq() {
        lit_caps_sentinel()
    } else {
        lit_head_name()
    }) + lit_nul() + caps + lit_lf()
}

/// One plain ref line: hash, space, name, newline.
pub open spec fn adv_ref_line(r: GitRefV) -> Seq<u8> {
    r.hash + lit_sp() + r.name + lit_lf()
}

/// All pkt-line payloads of the advertisement, in order.
pub open spec fn adv_lines(refs: Seq<GitRefV>, caps: Seq<u8>) -> Seq<Seq<u8>> {
    seq![adv_first_line(head_hash_of(refs), caps)] + refs.map_values(|r: GitRefV| adv_ref_line(r))
}

/// The `# service=<name>` header line of the HTTP wrapping.
pub open spec fn service_header(s: ServiceType) -> Seq<u8> {
    lit_service_prefix() + s.spec_name() + lit_lf()
}

/// The transport wrapping: over HTTP a framed service header and a flush
/// marker come first; either way the framed lines end with a flush marker.
pub open spec fn spec_smart_reply(t: TransportProtocol, s: ServiceType, lines: Seq<Seq<u8>>) -> Seq<
    u8,
> {
    if t is Http {
        pkt_line_of(service_header(s)) + flush_marker() + pkt_cat(lines) + flush_marker()
    } else {
        pkt_cat(lines) + flush_marker()
    }
}

/// Every hash in the list is a well-formed object id.
pub open spec fn hashes_ok(refs: Seq<GitRefV>) -> bool {
    forall|i: int| 0 <= i < refs.len() ==> is_object_id((#[trigger] refs[i]).hash)
}

/// A hash selected by name is one of the list's hashes.
proof fn lemma_first_hash_named_ok(refs: Seq<GitRefV>, name: Seq<u8>)
    requires
        hashes_ok(refs),
    ensures
        match first_hash_named(refs, name) {
            Some(h) => is_object_id(h),
            None => true,
        },
    decreases refs.len(),
{
    if refs.len() > 0 && refs[0].name != name {
        assert(hashes_ok(refs.skip(1)));
        lemma_first_hash_named_ok(refs.skip(1), name);
    }
}

/// A hash selected by name suffix is one of the list's hashes.
proof fn lemma_first_hash_ending_ok(refs: Seq<GitRefV>, suffix: Seq<u8>)
    requires
        hashes_ok(refs),
    ensures
        match first_hash_ending(refs, suffix) {
            Some(h) => is_object_id(h),
            None => true,
        },
    decreases refs.len(),
{
    if refs.len() > 0 {
        assert(hashes_ok(refs.skip(1)));
        lemma_first_hash_ending_ok(refs.skip(1), suffix);
    }
}

/// The HEAD hash is an object id whenever every listed hash is one.
proof fn lemma_head_hash_ok(refs: Seq<GitRefV>)
    requires
        hashes_ok(refs),
    ensures
        is_object_id(head_hash_of(refs)),
{
    lemma_first_hash_named_ok(refs, lit_head_name());
    lemma_first_hash_ending_ok(refs, lit_main_suffix());
    lemma_first_hash_ending_ok(refs, lit_master_suffix());
    assert forall|i: int| 0 <= i < 40 implies crate::pkt::is_hex_digit(
        #[trigger] zero_id_seq()[i],
    ) by {
        assert(zero_id_seq()[i] == 48u8);
    }
}

impl SmartProtocol {
    /// Builds the `info/refs` advertisement from the repository's ref
    /// list: the capability list for the chosen service (the caller
    /// supplies the service-specific and common lists), one line per ref,
    /// wrapped for the session's transport. Fails with a repository error
    /// when no service type was set.
    pub fn git_info_refs(
        &self,
        refs: &Vec<GitRef>,
        upload_caps: &Vec<u8>,
        receive_caps: &Vec<u8>,
        common_caps: &Vec<u8>,
    ) -> (r: Result<bytes::BytesMut, ProtocolError>)
        requires
            hashes_ok(ref_views(refs@)),
            forall|i: int|
                0 <= i < refs@.len() ==> (#[trigger] refs@[i])@.name.len() + 42
                    <= MAX_PKT_PAYLOAD,
            upload_caps@.len() + common_caps@.len() + 58 <= MAX_PKT_PAYLOAD,
            receive_caps@.len() + common_caps@.len() + 58 <= MAX_PKT_PAYLOAD,
        ensures
            match r {
                Ok(buf) => (self.service_type matches Some(st) && bytes_mut_view(buf)
                    == spec_smart_reply(
                    self.transport_protocol,
                    st,
                    adv_lines(
                        ref_views(refs@),
                        (if st is UploadPack {
                            upload_caps@
                        } else {
                            receive_caps@
                        }) + common_caps@,
                    ),
                )),
                Err(e) => self.service_type is None && e is RepositoryError,
            },
    {
        let st = match self.get_service_type() {
            Some(st) => st,
            None => {
                return Err(ProtocolError::RepositoryError(String::from_str(
                    "service type not set",
                )));
            },
        };
        let ghost rv = ref_views(refs@);

        // Pick the HEAD hash in priority order: the entry named HEAD,
        // else the first ref ending in /main, else /master, else the
        // zero id.
        let head_lit = lit_head_name_vec();
        let main_lit = lit_main_suffix_vec();
        let master_lit = lit_master_suffix_vec();
        let head: Vec<u8> = match find_hash_named(refs, &head_lit) {
            Some(h) => h,
            None => match find_hash_ending(refs, &main_lit) {
                Some(h) => h,
                None => match find_hash_ending(refs, &master_lit) {
                    Some(h) => h,
                    None => zero_id(),
                },
            },
        };
        proof {
            assert(head@ == head_hash_of(rv));
            lemma_head_hash_ok(rv);
        }

        // The capability list for the chosen service.
        let mut cap_list: Vec<u8> = Vec::new();
        match st {
            ServiceType::UploadPack => push_all(&mut cap_list, upload_caps.as_slice()),
            ServiceType::ReceivePack => push_all(&mut cap_list, receive_caps.as_slice()),
        }
        push_all(&mut cap_list, common_caps.as_slice());
        let ghost caps = cap_list@;
        proof {
            assert(Seq::<u8>::empty() + upload_caps@ =~= upload_caps@);
            assert(Seq::<u8>::empty() + receive_caps@ =~= receive_caps@);
        }

        // First line: HEAD hash, name, NUL, capability list.
        let mut first: Vec<u8> = Vec::new();
        push_all(&mut first, head.as_slice());
        first.push(32);
        let z = zero_id();
        if bytes_eq(head.as_slice(), z.as_slice()) {
            let s = lit_caps_sentinel_vec();
            push_all(&mut first, s.as_slice());
        } else {
            let s = lit_head_name_vec();
            push_all(&mut first, s.as_slice());
        }
        first.push(0);
        push_all(&mut first, cap_list.as_slice());
        first.push(10);
        proof {
            assert(first@ =~= adv_first_line(head@, caps));
        }

        // Frame the lines.
        let mut buf = bytes_mut_new();
        if matches!(self.transport_protocol, TransportProtocol::Http) {
            let mut header = lit_service_prefix_vec();
            let name = st.name_bytes();
            push_all(&mut header, name.as_slice());
            header.push(10);
            proof {
                assert(header@ =~= service_header(st));
            }
            add_pkt_line(&mut buf, &header);
            add_flush_pkt(&mut buf);
            proof {
                assert(Seq::<u8>::empty() + pkt_line_of(service_header(st)) =~= pkt_line_of(
                    service_header(st),
                ));
            }
        }
        let ghost wrap = bytes_mut_view(buf);
        add_pkt_line(&mut buf, &first);
        proof {
            let s0 = seq![adv_first_line(head@, caps)];
            assert(s0[0] == adv_first_line(head@, caps));
            assert(s0.skip(1) =~= Seq::<Seq<u8>>::empty());
            assert(pkt_cat(s0) == pkt_line_of(s0[0]) + pkt_cat(Seq::<Seq<u8>>::empty()));
            assert(pkt_line_of(s0[0]) + Seq::<u8>::empty() =~= pkt_line_of(s0[0]));
            assert(s0 =~= seq![adv_first_line(head_hash_of(rv), caps)] + rv.take(0).map_values(
                |r: GitRefV| adv_ref_line(r),
            ));
        }
        let mut k: usize = 0;
        while k < refs.len()
            invariant
                k <= refs@.len(),
                rv == ref_views(refs@),
                forall|j: int|
                    0 <= j < refs@.len() ==> (#[trigger] refs@[j])@.name.len() + 42
                        <= MAX_PKT_PAYLOAD,
                hashes_ok(rv),
                bytes_mut_view(buf) == wrap + pkt_cat(
                    seq![adv_first_line(head_hash_of(rv), caps)] + rv.take(k as int).map_values(
                        |r: GitRefV| adv_ref_line(r),
                    ),
                ),
            decreases refs@.len() - k,
        {
            proof {
                assert(rv[k as int] == refs@[k as int]@);
                assert(is_object_id(rv[k as int].hash));
            }
            let mut line: Vec<u8> = Vec::new();
            push_all(&mut line, refs[k].hash.as_slice());
            line.push(32);
            push_all(&mut line, refs[k].name.as_slice());
            line.push(10);
            proof {
                assert(line@ =~= adv_ref_line(rv[k as int]));
            }
            add_pkt_line(&mut buf, &line);
            proof {
                let prev = seq![adv_first_line(head_hash_of(rv), caps)] + rv.take(
                    k as int,
                ).map_values(|r: GitRefV| adv_ref_line(r));
                crate::pkt::lemma_pkt_cat_snoc(prev, adv_ref_line(rv[k as int]));
                assert(seq![adv_first_line(head_hash_of(rv), caps)] + rv.take(k + 1).map_values(
                    |r: GitRefV| adv_ref_line(r),
                ) =~= prev.push(adv_ref_line(rv[k as int])));
            }
            k = k + 1;
        }
        add_flush_pkt(&mut buf);
        proof {
            assert(rv.take(rv.len() as int) =~= rv);
            assert(seq![adv_first_line(head_hash_of(rv), caps)] + rv.map_values(
                |r: GitRefV| adv_ref_line(r),
            ) =~= adv_lines(rv, caps));
            if self.transport_protocol is Http {
                assert(bytes_mut_view(buf) =~= pkt_line_of(service_header(st)) + flush_marker()
                    + pkt_cat(adv_lines(rv, caps)) + flush_marker());
            } else {
                assert(wrap =~= Seq::<u8>::empty());
                assert(bytes_mut_view(buf) =~= pkt_cat(adv_lines(rv, caps)) + flush_marker());
            }
        }
        Ok(buf)
    }
}

/// A ref line's shape: forty hash bytes, a space, the name, a newline.
proof fn lemma_adv_ref_line_extract(r: GitRefV)
    requires
        is_object_id(r.hash),
    ensures
        adv_ref_line(r).len() == r.name.len() + 42,
        adv_ref_line(r).take(40) == r.hash,
        adv_ref_line(r).subrange(41, r.name.len() + 41 as int) == r.name,
{
    assert(adv_ref_line(r).take(40) =~= r.hash);
    assert(adv_ref_line(r).subrange(41, r.name.len() + 41 as int) =~= r.name);
}

/// Law: parsing the advertisement's ref section and stripping the
/// capability tail of its first line reproduces the input ref list in
/// order: line `i + 1` carries `refs[i]`'s hash in its first forty bytes
/// and `refs[i]`'s name between the following space and the newline.
#[verifier::rlimit(100)]
pub proof fn lemma_advertisement_round_trip(refs: Seq<GitRefV>, caps: Seq<u8>)
    requires
        hashes_ok(refs),
        forall|i: int| 0 <= i < refs.len() ==> (#[trigger] refs[i]).name.len() + 42
            <= MAX_PKT_PAYLOAD,
        caps.len() + 58 <= MAX_PKT_PAYLOAD,
    ensures
        crate::pkt::spec_parse_lines(pkt_cat(adv_lines(refs, caps)) + flush_marker()) == Some(
            adv_lines(refs, caps),
        ),
        adv_lines(refs, caps).len() == refs.len() + 1,
        forall|i: int|
            0 <= i < refs.len() ==> (#[trigger] adv_lines(refs, caps)[i + 1]).take(40)
                == refs[i].hash && adv_lines(refs, caps)[i + 1].subrange(
                41,
                refs[i].name.len() + 41 as int,
            ) == refs[i].name,
{
    let lines = adv_lines(refs, caps);
    lemma_head_hash_ok(refs);
    assert forall|i: int| 0 <= i < lines.len() implies 0 < (#[trigger] lines[i]).len()
        <= MAX_PKT_PAYLOAD by {
        if i == 0 {
            assert(lines[0] == adv_first_line(head_hash_of(refs), caps));
        } else {
            assert(lines[i] == refs.map_values(|r: GitRefV| adv_ref_line(r))[i - 1]);
            assert(lines[i] == adv_ref_line(refs[i - 1]));
            lemma_adv_ref_line_extract(refs[i - 1]);
        }
    }
    crate::pkt::lemma_parse_pkt_lines_closed(lines);
    assert forall|i: int| 0 <= i < refs.len() implies (#[trigger] lines[i + 1]).take(40)
        == refs[i].hash && lines[i + 1].subrange(41, refs[i].name.len() + 41 as int)
        == refs[i].name by {
        assert(lines[i + 1] == refs.map_values(|r: GitRefV| adv_ref_line(r))[i]);
        assert(lines[i + 1] == adv_ref_line(refs[i]));
        lemma_adv_ref_line_extract(refs[i]);
    }
}

} // verus!
