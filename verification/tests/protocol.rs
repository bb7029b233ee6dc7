use bytes::Bytes;
use smart_protocol::caps::Capability;
use smart_protocol::pkt::{add_pkt_line_string, read_pkt_line};
use smart_protocol::smart::SmartProtocol;
use smart_protocol::types::{
    zero_id, ProtocolError, RefCommand, RefTypeEnum, ServiceType, TransportProtocol,
};
use smart_protocol::upload::{negotiate_upload_pack, PackRequest};

fn bv(s: &str) -> Vec<u8> {
    s.as_bytes().to_vec()
}

fn read_line(buf: &mut Bytes) -> (usize, Vec<u8>) {
    let (n, payload) = read_pkt_line(buf).expect("well-formed pkt-line");
    (n, payload.to_vec())
}

#[test]
fn test_receive_pack_stream_status_report() {
    let mut smart = SmartProtocol::new(TransportProtocol::Http);
    let commit_id = "1111111111111111111111111111111111111111";
    smart
        .command_list
        .push(RefCommand::new(zero_id(), bv(commit_id), bv("refs/heads/main")));

    smart.mark_default_branch(false);
    smart.record_update_results(vec![None]);
    let report = smart.build_status_report();

    let mut out = report.freeze();
    let (_c1, l1) = read_line(&mut out);
    assert_eq!(String::from_utf8(l1).unwrap(), "unpack ok\n");

    let (_c2, l2) = read_line(&mut out);
    assert_eq!(String::from_utf8(l2).unwrap(), "ok refs/heads/main\n");

    let (c3, l3) = read_line(&mut out);
    assert_eq!(c3, 4);
    assert!(l3.is_empty());
}

#[test]
fn pkt_line_round_trip() {
    let mut buf = bytes::BytesMut::new();
    add_pkt_line_string(&mut buf, String::from("hello"));
    let mut b = buf.freeze();
    assert_eq!(&b[..], b"0009hello");
    let (n, payload) = read_line(&mut b);
    assert_eq!(n, 9);
    assert_eq!(payload, b"hello".to_vec());
    assert!(b.is_empty());
}

#[test]
fn read_pkt_line_terminals() {
    let mut empty = Bytes::new();
    let (n, p) = read_line(&mut empty);
    assert_eq!((n, p.len()), (0, 0));

    let mut flush = Bytes::from_static(b"0000rest");
    let (n, p) = read_line(&mut flush);
    assert_eq!((n, p.len()), (4, 0));
    assert_eq!(&flush[..], b"rest");
}

#[test]
fn read_pkt_line_malformed() {
    for bad in [&b"zzzz"[..], &b"00"[..], &b"0002"[..], &b"0008ab"[..]] {
        let mut b = Bytes::copy_from_slice(bad);
        let r = read_pkt_line(&mut b);
        assert!(r.is_err(), "{:?} should be malformed", bad);
        assert_eq!(&b[..], bad, "buffer unchanged on error");
    }
}

#[test]
fn side_band_wraps_with_band_one() {
    let mut smart = SmartProtocol::new(TransportProtocol::Http);
    smart.parse_capabilities("side-band-64k ofs-delta");
    let mut chunk = bytes::BytesMut::new();
    chunk.extend_from_slice(b"PACKdata");
    let out = smart.build_side_band_format(chunk, 8);
    let mut b = out.freeze();
    let (n, payload) = read_line(&mut b);
    assert_eq!(n, 13);
    assert_eq!(payload[0], 1);
    assert_eq!(&payload[1..], b"PACKdata");
}

#[test]
fn side_band_inactive_passes_through() {
    let smart = SmartProtocol::new(TransportProtocol::Http);
    let mut chunk = bytes::BytesMut::new();
    chunk.extend_from_slice(b"PACKdata");
    let out = smart.build_side_band_format(chunk, 8);
    assert_eq!(&out[..], b"PACKdata");
}

#[test]
fn empty_repo_advertisement_http_upload() {
    let mut smart = SmartProtocol::new(TransportProtocol::Http);
    smart.set_service_type(ServiceType::UploadPack);
    let upload_caps = bv("multi_ack_detailed side-band-64k thin-pack ofs-delta ");
    let receive_caps = bv("report-status delete-refs ");
    let common_caps = bv("agent=smart/0.1");
    let refs: Vec<smart_protocol::types::GitRef> = Vec::new();
    let buf = smart
        .git_info_refs(&refs, &upload_caps, &receive_caps, &common_caps)
        .expect("service type was set");
    let mut b = buf.freeze();

    let (_n, header) = read_line(&mut b);
    assert_eq!(String::from_utf8(header).unwrap(), "# service=git-upload-pack\n");
    let (n, p) = read_line(&mut b);
    assert_eq!((n, p.len()), (4, 0));

    let (_n, first) = read_line(&mut b);
    let expected = format!(
        "0000000000000000000000000000000000000000 capabilities^{{}}\0{}{}\n",
        "multi_ack_detailed side-band-64k thin-pack ofs-delta ", "agent=smart/0.1"
    );
    assert_eq!(String::from_utf8(first).unwrap(), expected);

    let (n, p) = read_line(&mut b);
    assert_eq!((n, p.len()), (4, 0));
    assert!(b.is_empty());
}

#[test]
fn advertisement_lists_refs_in_order() {
    let mut smart = SmartProtocol::new(TransportProtocol::Ssh);
    smart.set_service_type(ServiceType::ReceivePack);
    let h1 = "1111111111111111111111111111111111111111";
    let h2 = "2222222222222222222222222222222222222222";
    let refs = vec![
        smart_protocol::types::GitRef { name: bv("HEAD"), hash: bv(h1) },
        smart_protocol::types::GitRef { name: bv("refs/heads/main"), hash: bv(h2) },
    ];
    let buf = smart
        .git_info_refs(&refs, &bv("u "), &bv("r "), &bv("c"))
        .expect("service type was set");
    let mut b = buf.freeze();

    let (_n, first) = read_line(&mut b);
    assert_eq!(String::from_utf8(first).unwrap(), format!("{h1} HEAD\0r c\n"));
    let (_n, l1) = read_line(&mut b);
    assert_eq!(String::from_utf8(l1).unwrap(), format!("{h1} HEAD\n"));
    let (_n, l2) = read_line(&mut b);
    assert_eq!(String::from_utf8(l2).unwrap(), format!("{h2} refs/heads/main\n"));
    let (n, p) = read_line(&mut b);
    assert_eq!((n, p.len()), (4, 0));
    assert!(b.is_empty());
}

fn pkt(s: &str) -> Vec<u8> {
    let mut v = format!("{:04x}", s.len() + 4).into_bytes();
    v.extend_from_slice(s.as_bytes());
    v
}

#[test]
fn full_clone_negotiation_gets_one_nak() {
    let mut smart = SmartProtocol::new(TransportProtocol::Http);
    smart.set_service_type(ServiceType::UploadPack);
    let want = "1111111111111111111111111111111111111111";
    let mut request = pkt(&format!("want {want} side-band-64k\n"));
    request.extend_from_slice(b"0000");
    request.extend_from_slice(&pkt("done"));
    let (wants, haves) = smart
        .parse_upload_pack_request(Bytes::from(request))
        .expect("well-formed request");
    assert_eq!(wants, vec![bv(want)]);
    assert!(haves.is_empty());
    assert!(smart.capabilities.contains(&Capability::SideBand64k));

    let present: Vec<bool> = Vec::new();
    let (req, protocol_buf) = negotiate_upload_pack(wants, haves, &present);
    assert_eq!(&protocol_buf[..], b"0008NAK\n");
    match req {
        PackRequest::Full(w) => assert_eq!(w, vec![bv(want)]),
        PackRequest::Incremental(..) => panic!("expected a full pack"),
    }
}

#[test]
fn incremental_fetch_acks_first_common_have() {
    let a = "aaaaaaaaaaaaaaaaaaaaaaaaaaaaaaaaaaaaaaaa";
    let b = "bbbbbbbbbbbbbbbbbbbbbbbbbbbbbbbbbbbbbbbb";
    let c = "cccccccccccccccccccccccccccccccccccccccc";
    let wants = vec![bv(a)];
    let haves = vec![bv(b), bv(c)];
    let present = vec![true, true];
    let (req, protocol_buf) = negotiate_upload_pack(wants, haves, &present);

    let mut out = protocol_buf.freeze();
    let (_n, l) = read_line(&mut out);
    assert_eq!(String::from_utf8(l).unwrap(), format!("ACK {b} common\n"));
    let (_n, l) = read_line(&mut out);
    assert_eq!(String::from_utf8(l).unwrap(), format!("ACK {c} common\n"));
    let (_n, l) = read_line(&mut out);
    assert_eq!(String::from_utf8(l).unwrap(), format!("ACK {b} ready\n"));
    let (n, p) = read_line(&mut out);
    assert_eq!((n, p.len()), (4, 0));
    let (_n, l) = read_line(&mut out);
    assert_eq!(String::from_utf8(l).unwrap(), format!("ACK {b} \n"));
    assert!(out.is_empty());
    assert!(matches!(req, PackRequest::Incremental(..)));
}

#[test]
fn no_common_have_still_gets_nak() {
    let haves = vec![bv("bbbbbbbbbbbbbbbbbbbbbbbbbbbbbbbbbbbbbbbb")];
    let present = vec![false];
    let (req, protocol_buf) = negotiate_upload_pack(Vec::new(), haves, &present);
    assert_eq!(&protocol_buf[..], b"0008NAK\n");
    assert!(matches!(req, PackRequest::Full(_)));
}

#[test]
fn parse_receive_pack_commands_reads_caps_and_commands() {
    let mut smart = SmartProtocol::new(TransportProtocol::Http);
    smart.set_service_type(ServiceType::ReceivePack);
    let old = "0000000000000000000000000000000000000000";
    let new = "1111111111111111111111111111111111111111";
    let mut request = pkt(&format!("{old} {new} refs/heads/main\0report-status side-band-64k"));
    request.extend_from_slice(&pkt(&format!("{new} {old} refs/tags/v1")));
    request.extend_from_slice(b"0000junk-after-flush");
    smart
        .parse_receive_pack_commands(Bytes::from(request))
        .expect("well-formed request");

    assert_eq!(smart.command_list.len(), 2);
    assert_eq!(smart.command_list[0].ref_name, bv("refs/heads/main"));
    assert_eq!(smart.command_list[0].old_hash, bv(old));
    assert_eq!(smart.command_list[0].new_hash, bv(new));
    assert_eq!(smart.command_list[0].ref_type, RefTypeEnum::Branch);
    assert_eq!(smart.command_list[1].ref_name, bv("refs/tags/v1"));
    assert_eq!(smart.command_list[1].ref_type, RefTypeEnum::Tag);
    assert_eq!(
        smart.capabilities,
        vec![Capability::ReportStatus, Capability::SideBand64k]
    );
}

#[test]
fn push_create_branch_elects_default_and_reports_ok() {
    let mut smart = SmartProtocol::new(TransportProtocol::Http);
    let commit = "3333333333333333333333333333333333333333";
    smart
        .command_list
        .push(RefCommand::new(zero_id(), bv(commit), bv("refs/heads/main")));

    assert!(smart.command_list[0].old_hash_option().is_none());

    smart.mark_default_branch(false);
    assert!(smart.command_list[0].default_branch);

    smart.record_update_results(vec![None]);
    let report = smart.build_status_report();
    let mut out = report.freeze();
    let (_n, l) = read_line(&mut out);
    assert_eq!(String::from_utf8(l).unwrap(), "unpack ok\n");
    let (_n, l) = read_line(&mut out);
    assert_eq!(String::from_utf8(l).unwrap(), "ok refs/heads/main\n");
    let (n, p) = read_line(&mut out);
    assert_eq!((n, p.len()), (4, 0));
    assert!(out.is_empty());
}

#[test]
fn push_with_ref_update_failure_reports_ng() {
    let mut smart = SmartProtocol::new(TransportProtocol::Http);
    let id = "4444444444444444444444444444444444444444";
    smart
        .command_list
        .push(RefCommand::new(zero_id(), bv(id), bv("refs/heads/main")));
    smart
        .command_list
        .push(RefCommand::new(zero_id(), bv(id), bv("refs/heads/other")));

    smart.mark_default_branch(true);
    smart.record_update_results(vec![None, Some(bv("locked"))]);
    let report = smart.build_status_report();
    let mut out = report.freeze();
    let (_n, l) = read_line(&mut out);
    assert_eq!(String::from_utf8(l).unwrap(), "unpack ok\n");
    let (_n, l) = read_line(&mut out);
    assert_eq!(String::from_utf8(l).unwrap(), "ok refs/heads/main\n");
    let (_n, l) = read_line(&mut out);
    assert_eq!(String::from_utf8(l).unwrap(), "ng refs/heads/other locked\n");
    let (n, p) = read_line(&mut out);
    assert_eq!((n, p.len()), (4, 0));
}

#[test]
fn tag_update_skips_default_branch_promotion() {
    let mut smart = SmartProtocol::new(TransportProtocol::Http);
    let id = "5555555555555555555555555555555555555555";
    smart
        .command_list
        .push(RefCommand::new(bv(id), bv(id), bv("refs/tags/v1")));

    smart.mark_default_branch(false);
    assert!(!smart.command_list[0].default_branch);
    assert!(smart.command_list[0].old_hash_option().is_some());
}

#[test]
fn parse_capabilities_collects_known_tokens_in_order() {
    let mut smart = SmartProtocol::new(TransportProtocol::Http);
    smart.parse_capabilities(" multi_ack side-band-64k agent=git/2.43 not-a-cap thin-pack");
    assert_eq!(
        smart.capabilities,
        vec![
            Capability::MultiAck,
            Capability::SideBand64k,
            Capability::Agent(bv("git/2.43")),
            Capability::ThinPack,
        ]
    );
}

#[test]
fn session_accessors() {
    let mut smart = SmartProtocol::new(TransportProtocol::Ssh);
    assert!(smart.get_service_type().is_none());
    smart.set_service_type(ServiceType::ReceivePack);
    assert_eq!(smart.get_service_type(), Some(ServiceType::ReceivePack));
    smart.set_transport_protocol(TransportProtocol::Http);
    assert_eq!(smart.transport_protocol, TransportProtocol::Http);
}

#[test]
fn malformed_receive_command_is_rejected() {
    let mut smart = SmartProtocol::new(TransportProtocol::Http);
    smart.set_service_type(ServiceType::ReceivePack);
    let request = pkt("too few");
    let r = smart.parse_receive_pack_commands(Bytes::from(request));
    assert!(r.is_err());
    assert!(smart.command_list.is_empty());
}

#[test]
fn unpack_failure_report() {
    let report = smart_protocol::receive::build_unpack_fail_report(&bv("bad pack"));
    let mut out = report.freeze();
    let (_n, l) = read_line(&mut out);
    assert_eq!(String::from_utf8(l).unwrap(), "unpack bad pack\n");
    let (n, p) = read_line(&mut out);
    assert_eq!((n, p.len()), (4, 0));
}

#[test]
fn operations_fail_without_a_service_type() {
    let mut smart = SmartProtocol::new(TransportProtocol::Http);
    let refs: Vec<smart_protocol::types::GitRef> = Vec::new();
    let r = smart.git_info_refs(&refs, &bv("u"), &bv("r"), &bv("c"));
    assert!(matches!(r, Err(ProtocolError::RepositoryError(_))));
    let r = smart.parse_upload_pack_request(Bytes::new());
    assert!(matches!(r, Err(ProtocolError::RepositoryError(_))));
    let r = smart.parse_receive_pack_commands(Bytes::new());
    assert!(matches!(r, Err(ProtocolError::RepositoryError(_))));
}

#[test]
fn head_hash_follows_priority_order() {
    let h1 = "1111111111111111111111111111111111111111";
    let h2 = "2222222222222222222222222222222222222222";
    let h3 = "3333333333333333333333333333333333333333";

    // A HEAD entry wins even when a /master ref comes first.
    let mut smart = SmartProtocol::new(TransportProtocol::Ssh);
    smart.set_service_type(ServiceType::UploadPack);
    let refs = vec![
        smart_protocol::types::GitRef { name: bv("refs/heads/master"), hash: bv(h1) },
        smart_protocol::types::GitRef { name: bv("HEAD"), hash: bv(h2) },
    ];
    let buf = smart.git_info_refs(&refs, &bv("u"), &bv("r"), &bv("c")).unwrap();
    let mut b = buf.freeze();
    let (_n, first) = read_line(&mut b);
    assert!(String::from_utf8(first).unwrap().starts_with(&format!("{h2} HEAD\0")));

    // Without a HEAD entry, /main beats /master whatever the list order.
    let refs = vec![
        smart_protocol::types::GitRef { name: bv("refs/heads/master"), hash: bv(h1) },
        smart_protocol::types::GitRef { name: bv("refs/heads/main"), hash: bv(h3) },
    ];
    let buf = smart.git_info_refs(&refs, &bv("u"), &bv("r"), &bv("c")).unwrap();
    let mut b = buf.freeze();
    let (_n, first) = read_line(&mut b);
    assert!(String::from_utf8(first).unwrap().starts_with(&format!("{h3} HEAD\0")));
}
