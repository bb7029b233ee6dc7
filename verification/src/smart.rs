//! The per-session protocol state: transport, service, enabled
//! capabilities and pending ref commands.

use vstd::prelude::*;
use crate::buf::{bytes_mut_new, bytes_mut_to_vec, bytes_mut_view};
use crate::caps::{
    caps_of_bytes, caps_views, has_side_band, spec_has_side_band, Capability,
};
use crate::pkt::{add_pkt_line, pkt_line_of, spec_read_pkt_line, lemma_pkt_line_round_trip,
    MAX_PKT_PAYLOAD};
use crate::types::{RefCommand, ServiceType, SideBind, TransportProtocol};
use vstd::string::StringSliceAdditionalSpecFns;
use vstd::string::StrSliceExecFns;

verus! {

/// One smart-protocol session, driven from first byte to last by a single
/// caller. Collaborator calls (repository access, authentication, the pack
/// codec) happen outside; the session computes what to send and which
/// updates to apply from plain values the caller feeds it.
pub struct SmartProtocol {
    pub transport_protocol: TransportProtocol,
    pub service_type: Option<ServiceType>,
    pub capabilities: Vec<Capability>,
    pub side_bind: Option<SideBind>,
    pub command_list: Vec<RefCommand>,
}

impl SmartProtocol {
    /// Creates a fresh session on the given transport: no service chosen,
    /// no capabilities, no pending commands.
    pub fn new(transport_protocol: TransportProtocol) -> (r: SmartProtocol)
        ensures
            r.transport_protocol == transport_protocol,
            r.service_type is None,
            r.capabilities@ == Seq::<Capability>::empty(),
            r.side_bind is None,
            r.command_list@ == Seq::<RefCommand>::empty(),
    {
        SmartProtocol {
            transport_protocol,
            service_type: None,
            capabilities: Vec::new(),
            side_bind: None,
            command_list: Vec::new(),
        }
    }

    /// Chooses the service this session runs.
    pub fn set_service_type(&mut self, service_type: ServiceType)
        ensures
            final(self).service_type == Some(service_type),
            final(self).transport_protocol == old(self).transport_protocol,
            final(self).capabilities == old(self).capabilities,
            final(self).side_bind == old(self).side_bind,
            final(self).command_list == old(self).command_list,
    {
        self.service_type = Some(service_type);
    }

    /// Returns the chosen service, if one was set.
    pub fn get_service_type(&self) -> (r: Option<ServiceType>)
        ensures
            r == self.service_type,
    {
        self.service_type
    }

    /// Switches the transport carrier.
    pub fn set_transport_protocol(&mut self, protocol: TransportProtocol)
        ensures
            final(self).transport_protocol == protocol,
            final(self).service_type == old(self).service_type,
            final(self).capabilities == old(self).capabilities,
            final(self).side_bind == old(self).side_bind,
            final(self).command_list == old(self).command_list,
    {
        self.transport_protocol = protocol;
    }

    /// Adds to the session every capability the whitespace-separated
    /// string enables, in order; unknown tokens are silently dropped.
    pub fn parse_capabilities(&mut self, cap_str: &str)
        ensures
            caps_views(final(self).capabilities@) == caps_views(old(self).capabilities@)
                + caps_of_bytes(cap_str.spec_bytes()),
            final(self).transport_protocol == old(self).transport_protocol,
            final(self).service_type == old(self).service_type,
            final(self).side_bind == old(self).side_bind,
            final(self).command_list == old(self).command_list,
    {
        let b = cap_str.as_bytes_vec();
        crate::caps::parse_caps_into(&mut self.capabilities, b.as_slice());
    }

    /// Wraps a pack-data chunk for the wire: with a side-band capability
    /// active, one pkt-line whose payload is the band byte `1` followed by
    /// the chunk; otherwise the chunk unwrapped. `length` is the chunk's
    /// byte count.
    pub fn build_side_band_format(&self, from_bytes: bytes::BytesMut, length: usize) -> (r:
        bytes::BytesMut)
        requires
            length == bytes_mut_view(from_bytes).len(),
            length + 1 <= MAX_PKT_PAYLOAD,
        ensures
            bytes_mut_view(r) == if spec_has_side_band(caps_views(self.capabilities@)) {
                pkt_line_of(seq![1u8] + bytes_mut_view(from_bytes))
            } else {
                bytes_mut_view(from_bytes)
            },
    {
        if has_side_band(&self.capabilities) {
            let mut payload: Vec<u8> = Vec::new();
            payload.push(SideBind::PackfileData.value());
            let data = bytes_mut_to_vec(&from_bytes);
            crate::bstr::push_all(&mut payload, data.as_slice());
            proof {
                assert(payload@ =~= seq![1u8] + bytes_mut_view(from_bytes));
            }
            let mut out = bytes_mut_new();
            add_pkt_line(&mut out, &payload);
            proof {
                assert(Seq::<u8>::empty() + pkt_line_of(payload@) =~= pkt_line_of(payload@));
            }
            out
        } else {
            from_bytes
        }
    }
}

/// Law: a side-band-wrapped chunk parses back as one pkt-line whose
/// payload carries band byte `1` and then exactly the chunk.
pub proof fn lemma_side_band_round_trip(p: Seq<u8>)
    requires
        p.len() + 1 <= MAX_PKT_PAYLOAD,
    ensures
        spec_read_pkt_line(pkt_line_of(seq![1u8] + p)) == Ok::<_, ()>(
            ((p.len() + 5) as int, seq![1u8] + p),
        ),
        (seq![1u8] + p)[0] == 1u8,
        (seq![1u8] + p).skip(1) == p,
{
    lemma_pkt_line_round_trip(seq![1u8] + p, Seq::empty());
    assert(pkt_line_of(seq![1u8] + p) + Seq::<u8>::empty() =~= pkt_line_of(seq![1u8] + p));
    assert((seq![1u8] + p).skip(1) =~= p);
}

} // verus!
