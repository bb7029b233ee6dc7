//! The receive-pack applier: parsing ref-update commands, electing the
//! default branch, recording update outcomes and assembling the status
//! report.

use vstd::prelude::*;
use crate::buf::{bytes_mut_new, bytes_mut_view, bytes_to_vec, bytes_view};
use crate::caps::{
    caps_of_tokens, caps_views, split_tokens, token_views, tokenize, Capability, CapabilityV,
};
use crate::lit::{lit_lf, lit_ng_prefix, lit_ok_prefix, lit_unpack_ok, lit_unpack_ok_vec,
    lit_unpack_prefix, lit_unpack_prefix_vec};
use crate::pkt::{
    add_flush_pkt, add_pkt_line, flush_marker, pkt_cat, pkt_line_of, spec_read_pkt_line,
    MAX_PKT_PAYLOAD,
};
use crate::smart::SmartProtocol;
use crate::types::{
    command_views, spec_new_command, status_line, CommandStatusV, ProtocolError, RefCommand,
    RefCommandV, RefTypeEnum,
};
use vstd::string::StringExecFns;

verus! {

/// The command a single pkt-line payload carries: old hash, new hash and
/// ref name as its first three whitespace-separated tokens. Fewer tokens
/// make no command.
pub open spec fn spec_parse_ref_command(p: Seq<u8>) -> Option<RefCommandV> {
    let ts = split_tokens(p);
    if ts.len() >= 3 {
        Some(spec_new_command(ts[0], ts[1], ts[2]))
    } else {
        None
    }
}

/// The command list a receive-pack request prefix carries: one command per
/// pkt-line until the buffer ends, a flush marker comes, or a line is
/// empty; `None` when a line is malformed.
pub open spec fn spec_commands_of(b: Seq<u8>) -> Option<Seq<RefCommandV>>
    decreases b.len(),
{
    match spec_read_pkt_line(b) {
        Err(_) => None,
        Ok(np) => if np.0 == 0 || np.1.len() == 0 {
            Some(seq![])
        } else if !(4 < np.0 <= b.len()) {
            // never taken: a non-empty payload forces this; the guard keeps
            // the recursion visibly well-founded
            None
        } else {
            match spec_parse_ref_command(np.1) {
                None => None,
                Some(c) => match spec_commands_of(b.skip(np.0)) {
                    None => None,
                    Some(cs) => Some(seq![c] + cs),
                },
            }
        },
    }
}

/// The capabilities the first command line's tail enables: every token
/// after the ref name of the first pkt-line, when that line is a command.
pub open spec fn first_command_caps(b: Seq<u8>) -> Seq<CapabilityV> {
    match spec_read_pkt_line(b) {
        Err(_) => seq![],
        Ok(np) => if np.0 == 0 || np.1.len() == 0 {
            seq![]
        } else if split_tokens(np.1).len() >= 3 {
            caps_of_tokens(split_tokens(np.1).skip(3))
        } else {
            seq![]
        },
    }
}

impl SmartProtocol {
    /// Parses one ref-update command line.
    pub fn parse_ref_command(&self, pkt_line: &bytes::Bytes) -> (r: Result<
        RefCommand,
        ProtocolError,
    >)
        ensures
            match r {
                Ok(c) => spec_parse_ref_command(bytes_view(*pkt_line)) == Some(c@),
                Err(e) => spec_parse_ref_command(bytes_view(*pkt_line)) is None
                    && e is InvalidRequest,
            },
    {
        let v = bytes_to_vec(pkt_line);
        let mut ts = tokenize(v.as_slice());
        if ts.len() < 3 {
            return Err(ProtocolError::InvalidRequest(String::from_str(
                "ref-update command needs old hash, new hash and ref name",
            )));
        }
        proof {
            assert(token_views(ts@)[0] == ts@[0]@);
            assert(token_views(ts@)[1] == ts@[1]@);
            assert(token_views(ts@)[2] == ts@[2]@);
        }
        let old_hash = ts.remove(0);
        let new_hash = ts.remove(0);
        let ref_name = ts.remove(0);
        Ok(RefCommand::new(old_hash, new_hash, ref_name))
    }

    /// Parses the ref-update command prefix of a receive-pack request and
    /// appends the commands to the session, in order; the first command's
    /// capability tail populates the session capability set. Fails with a
    /// repository error when no service type was set; on that or a
    /// malformed line the session is left unchanged.
    pub fn parse_receive_pack_commands(&mut self, protocol_bytes: bytes::Bytes) -> (r: Result<
        (),
        ProtocolError,
    >)
        ensures
            match r {
                Ok(_) => old(self).service_type is Some && (spec_commands_of(
                    bytes_view(protocol_bytes),
                ) matches Some(cs) && command_views(final(self).command_list@) == command_views(
                    old(self).command_list@,
                ) + cs) && caps_views(final(self).capabilities@) == caps_views(
                    old(self).capabilities@,
                ) + first_command_caps(bytes_view(protocol_bytes)),
                Err(e) => *final(self) == *old(self) && (if old(self).service_type is None {
                    e is RepositoryError
                } else {
                    spec_commands_of(bytes_view(protocol_bytes)) is None && e is InvalidRequest
                }),
            },
            final(self).transport_protocol == old(self).transport_protocol,
            final(self).service_type == old(self).service_type,
            final(self).side_bind == old(self).side_bind,
    {
        if self.get_service_type().is_none() {
            return Err(ProtocolError::RepositoryError(String::from_str("service type not set")));
        }
        let ghost b0 = bytes_view(protocol_bytes);
        let mut buf = protocol_bytes;
        let mut new_cmds: Vec<RefCommand> = Vec::new();
        let mut new_caps: Vec<Capability> = Vec::new();
        let mut first: bool = true;
        loop
            invariant_except_break
                old(self).service_type is Some,
                b0 == bytes_view(protocol_bytes),
                spec_commands_of(b0) == (match spec_commands_of(bytes_view(buf)) {
                    None => None::<Seq<RefCommandV>>,
                    Some(cs) => Some(command_views(new_cmds@) + cs),
                }),
                first ==> bytes_view(buf) == b0 && new_caps@ == Seq::<Capability>::empty(),
                !first ==> caps_views(new_caps@) == first_command_caps(b0),
                *self == *old(self),
            ensures
                old(self).service_type is Some,
                b0 == bytes_view(protocol_bytes),
                spec_commands_of(b0) == Some(command_views(new_cmds@)),
                caps_views(new_caps@) == first_command_caps(b0),
                *self == *old(self),
            decreases bytes_view(buf).len(),
        {
            let ghost b_pre = bytes_view(buf);
            match crate::pkt::read_pkt_line(&mut buf) {
                Err(e) => {
                    proof {
                        assert(spec_commands_of(b_pre) is None);
                        assert(spec_commands_of(b0) is None);
                    }
                    return Err(e);
                },
                Ok((n, payload)) => {
                    if n == 0 {
                        proof {
                            assert(spec_commands_of(b_pre) == Some(Seq::<RefCommandV>::empty()));
                            assert(command_views(new_cmds@) + Seq::<RefCommandV>::empty()
                                =~= command_views(new_cmds@));
                            if first {
                                assert(first_command_caps(b0) =~= caps_views(new_caps@));
                            }
                        }
                        break ;
                    }
                    let pv = bytes_to_vec(&payload);
                    if pv.len() == 0 {
                        proof {
                            assert(spec_commands_of(b_pre) == Some(Seq::<RefCommandV>::empty()));
                            assert(command_views(new_cmds@) + Seq::<RefCommandV>::empty()
                                =~= command_views(new_cmds@));
                            if first {
                                assert(first_command_caps(b0) =~= caps_views(new_caps@));
                            }
                        }
                        break ;
                    }
                    proof {
                        assert(4 < n <= b_pre.len());
                    }
                    match self.parse_ref_command(&payload) {
                        Err(_) => {
                            proof {
                                assert(spec_commands_of(b_pre) is None);
                                assert(spec_commands_of(b0) is None);
                            }
                            return Err(ProtocolError::InvalidRequest(String::from_str(
                                "malformed ref-update command line",
                            )));
                        },
                        Ok(cmd) => {
                            let ghost cv = cmd@;
                            let ghost rest = spec_commands_of(bytes_view(buf));
                            proof {
                                assert(spec_commands_of(b_pre) == (match rest {
                                    None => None::<Seq<RefCommandV>>,
                                    Some(cs) => Some(seq![cv] + cs),
                                }));
                            }
                            if first {
                                let ts = tokenize(pv.as_slice());
                                proof {
                                    assert(token_views(ts@).len() >= 3);
                                }
                                if ts.len() >= 3 {
                                    crate::caps::parse_caps_tokens_into(&mut new_caps, &ts, 3);
                                }
                                proof {
                                    assert(caps_views(new_caps@) =~= first_command_caps(b0));
                                }
                                first = false;
                            }
                            let ghost pre = command_views(new_cmds@);
                            new_cmds.push(cmd);
                            proof {
                                assert(command_views(new_cmds@) =~= pre + seq![cv]);
                                if let Some(cs) = rest {
                                    assert((pre + seq![cv]) + cs =~= pre + (seq![cv] + cs));
                                }
                            }
                        },
                    }
                },
            }
        }
        let ghost old_cmds = command_views(self.command_list@);
        let ghost old_caps = caps_views(self.capabilities@);
        self.command_list.append(&mut new_cmds);
        self.capabilities.append(&mut new_caps);
        proof {
            assert(command_views(self.command_list@) =~= old_cmds + spec_commands_of(
                b0,
            ).unwrap());
            assert(caps_views(self.capabilities@) =~= old_caps + first_command_caps(b0));
        }
        Ok(())
    }
}

/// Law: a buffer of framed command lines closed by a flush marker parses
/// to exactly one command per line, in order, each taken unchanged from
/// its line — the pkt-line write/read round trip is the identity.
pub proof fn lemma_commands_round_trip(lines: Seq<Seq<u8>>)
    requires
        forall|i: int| 0 <= i < lines.len() ==> 0 < (#[trigger] lines[i]).len() <= MAX_PKT_PAYLOAD,
        forall|i: int| 0 <= i < lines.len() ==> spec_parse_ref_command(#[trigger] lines[i]) is Some,
    ensures
        spec_commands_of(pkt_cat(lines) + flush_marker()) == Some(
            Seq::new(lines.len(), |i: int| spec_parse_ref_command(lines[i]).unwrap()),
        ),
    decreases lines.len(),
{
    if lines.len() == 0 {
        assert(pkt_cat(lines) + flush_marker() =~= flush_marker());
        assert(flush_marker().take(4) =~= flush_marker());
        assert(spec_commands_of(flush_marker()) == Some(Seq::<RefCommandV>::empty()));
        assert(Seq::new(0, |i: int| spec_parse_ref_command(lines[i]).unwrap())
            =~= Seq::<RefCommandV>::empty());
    } else {
        let tail = lines.skip(1);
        let rest = pkt_cat(tail) + flush_marker();
        let b = pkt_cat(lines) + flush_marker();
        assert(b =~= pkt_line_of(lines[0]) + rest);
        crate::pkt::lemma_pkt_line_round_trip(lines[0], rest);
        assert(b.skip(lines[0].len() + 4 as int) =~= rest);
        assert forall|i: int| 0 <= i < tail.len() implies 0 < (#[trigger] tail[i]).len()
            <= MAX_PKT_PAYLOAD && spec_parse_ref_command(tail[i]) is Some by {
            assert(tail[i] == lines[i + 1]);
        }
        lemma_commands_round_trip(tail);
        let c = spec_parse_ref_command(lines[0]).unwrap();
        let cs_tail = Seq::new(tail.len(), |i: int| spec_parse_ref_command(tail[i]).unwrap());
        assert(spec_commands_of(b) == Some(seq![c] + cs_tail));
        assert forall|i: int| 0 <= i < lines.len() implies (seq![c] + cs_tail)[i]
            == spec_parse_ref_command(lines[i]).unwrap() by {
            if i > 0 {
                assert((seq![c] + cs_tail)[i] == cs_tail[i - 1]);
                assert(tail[i - 1] == lines[i]);
            }
        }
        assert(seq![c] + cs_tail =~= Seq::new(
            lines.len(),
            |i: int| spec_parse_ref_command(lines[i]).unwrap(),
        ));
    }
}

/// The command with the default-branch flag set.
pub open spec fn with_default(c: RefCommandV) -> RefCommandV {
    RefCommandV { default_branch: true, ..c }
}

/// Default-branch election: when the repository has no default branch yet,
/// the earliest branch command is flagged; tags and later commands are
/// left as they are.
pub open spec fn spec_mark_default(cs: Seq<RefCommandV>, default_exist: bool) -> Seq<RefCommandV>
    decreases cs.len(),
{
    if cs.len() == 0 {
        seq![]
    } else if default_exist {
        cs
    } else if cs[0].ref_type is Branch {
        seq![with_default(cs[0])] + cs.skip(1)
    } else {
        seq![cs[0]] + spec_mark_default(cs.skip(1), false)
    }
}

/// Law: starting from a command list with no default-branch flag set,
/// election flags at most one command, only a branch, and none at all
/// when a default branch already exists.
pub proof fn lemma_default_branch_at_most_one(cs: Seq<RefCommandV>, default_exist: bool)
    requires
        forall|i: int| 0 <= i < cs.len() ==> !(#[trigger] cs[i]).default_branch,
    ensures
        spec_mark_default(cs, default_exist).len() == cs.len(),
        forall|i: int, j: int|
            0 <= i < cs.len() && 0 <= j < cs.len() && i != j ==> !((#[trigger] spec_mark_default(
                cs,
                default_exist,
            )[i]).default_branch && (#[trigger] spec_mark_default(cs, default_exist)[j]).default_branch),
        forall|i: int|
            0 <= i < cs.len() && (#[trigger] spec_mark_default(cs, default_exist)[i]).default_branch
                ==> spec_mark_default(cs, default_exist)[i].ref_type is Branch,
        default_exist ==> spec_mark_default(cs, default_exist) == cs,
    decreases cs.len(),
{
    let r = spec_mark_default(cs, default_exist);
    if cs.len() == 0 || default_exist {
    } else if cs[0].ref_type is Branch {
        assert(r[0] == with_default(cs[0]));
        assert forall|i: int| 1 <= i < cs.len() implies !(#[trigger] r[i]).default_branch by {
            assert(r[i] == cs.skip(1)[i - 1]);
            assert(cs.skip(1)[i - 1] == cs[i]);
        }
    } else {
        let rr = spec_mark_default(cs.skip(1), false);
        lemma_default_branch_at_most_one(cs.skip(1), false);
        assert(r[0] == cs[0]);
        assert forall|i: int| 1 <= i < cs.len() implies #[trigger] r[i] == rr[i - 1] by {}
    }
}

impl SmartProtocol {
    /// Flags the earliest branch command as the new default branch when
    /// the repository reports none; tags never qualify.
    pub fn mark_default_branch(&mut self, default_exist: bool)
        ensures
            command_views(final(self).command_list@) == spec_mark_default(
                command_views(old(self).command_list@),
                default_exist,
            ),
            final(self).transport_protocol == old(self).transport_protocol,
            final(self).service_type == old(self).service_type,
            final(self).capabilities == old(self).capabilities,
            final(self).side_bind == old(self).side_bind,
    {
        let ghost orig = command_views(old(self).command_list@);
        let mut out: Vec<RefCommand> = Vec::new();
        let mut exist = default_exist;
        while self.command_list.len() > 0
            invariant
                command_views(out@) + spec_mark_default(command_views(self.command_list@), exist)
                    == spec_mark_default(orig, default_exist),
                self.transport_protocol == old(self).transport_protocol,
                self.service_type == old(self).service_type,
                self.capabilities == old(self).capabilities,
                self.side_bind == old(self).side_bind,
            decreases self.command_list@.len(),
        {
            let ghost cs = command_views(self.command_list@);
            let mut c = self.command_list.remove(0);
            proof {
                assert(cs[0] == c@);
                assert(command_views(self.command_list@) =~= cs.skip(1));
            }
            let ghost pre = command_views(out@);
            let ghost was_exist = exist;
            if !exist {
                match c.ref_type {
                    RefTypeEnum::Branch => {
                        c.default_branch = true;
                        exist = true;
                        proof {
                            assert(c@ == with_default(cs[0]));
                            assert(spec_mark_default(cs, false) == seq![with_default(cs[0])]
                                + cs.skip(1));
                            assert(spec_mark_default(cs.skip(1), true) == cs.skip(1));
                        }
                    },
                    RefTypeEnum::Tag => {
                        proof {
                            assert(spec_mark_default(cs, false) == seq![cs[0]]
                                + spec_mark_default(cs.skip(1), false));
                        }
                    },
                }
            } else {
                proof {
                    assert(spec_mark_default(cs, true) == cs);
                    assert(cs =~= seq![cs[0]] + cs.skip(1));
                    assert(spec_mark_default(cs.skip(1), true) == cs.skip(1));
                }
            }
            out.push(c);
            proof {
                assert(command_views(out@) =~= pre + seq![c@]);
                assert((pre + seq![c@]) + spec_mark_default(
                    command_views(self.command_list@),
                    exist,
                ) =~= pre + (seq![c@] + spec_mark_default(
                    command_views(self.command_list@),
                    exist,
                )));
            }
        }
        proof {
            assert(command_views(self.command_list@) =~= Seq::<RefCommandV>::empty());
            assert(command_views(out@) + Seq::<RefCommandV>::empty() =~= command_views(out@));
        }
        self.command_list = out;
    }
}

/// The views of an update-outcome list: `None` for success, the message
/// for a failure.
pub open spec fn result_views(s: Seq<Option<Vec<u8>>>) -> Seq<Option<Seq<u8>>> {
    s.map_values(
        |o: Option<Vec<u8>>|
            match o {
                Some(m) => Some(m@),
                None => None,
            },
    )
}

/// The command after its update outcome is recorded.
pub open spec fn with_outcome(c: RefCommandV, r: Option<Seq<u8>>) -> RefCommandV {
    match r {
        None => c,
        Some(m) => RefCommandV { status: CommandStatusV::Failed(m), ..c },
    }
}

/// Every command with its update outcome recorded, in order.
pub open spec fn spec_record_results(cs: Seq<RefCommandV>, rs: Seq<Option<Seq<u8>>>) -> Seq<
    RefCommandV,
> {
    Seq::new(cs.len(), |i: int| with_outcome(cs[i], rs[i]))
}

impl SmartProtocol {
    /// Records the repository's outcome of each ref update, in command
    /// order: a failed update marks its command `ng` with the message,
    /// others stay `ok`.
    pub fn record_update_results(&mut self, results: Vec<Option<Vec<u8>>>)
        requires
            results@.len() == old(self).command_list@.len(),
        ensures
            command_views(final(self).command_list@) == spec_record_results(
                command_views(old(self).command_list@),
                result_views(results@),
            ),
            final(self).transport_protocol == old(self).transport_protocol,
            final(self).service_type == old(self).service_type,
            final(self).capabilities == old(self).capabilities,
            final(self).side_bind == old(self).side_bind,
    {
        let ghost orig = command_views(old(self).command_list@);
        let ghost rsv = result_views(results@);
        let mut rs = results;
        let mut out: Vec<RefCommand> = Vec::new();
        while self.command_list.len() > 0
            invariant
                command_views(self.command_list@) =~= orig.skip(out@.len() as int),
                result_views(rs@) =~= rsv.skip(out@.len() as int),
                out@.len() <= orig.len(),
                orig.len() == rsv.len(),
                forall|j: int|
                    0 <= j < out@.len() ==> #[trigger] command_views(out@)[j] == with_outcome(
                        orig[j],
                        rsv[j],
                    ),
                self.transport_protocol == old(self).transport_protocol,
                self.service_type == old(self).service_type,
                self.capabilities == old(self).capabilities,
                self.side_bind == old(self).side_bind,
            decreases self.command_list@.len(),
        {
            let ghost i = out@.len() as int;
            proof {
                assert(command_views(self.command_list@).len() == self.command_list@.len());
                assert(result_views(rs@).len() == rs@.len());
                assert(orig.skip(i).len() == orig.len() - i);
                assert(i < orig.len());
                assert(rsv.skip(i).len() == rsv.len() - i);
                assert(rs@.len() > 0);
            }
            let mut c = self.command_list.remove(0);
            let r = rs.remove(0);
            proof {
                assert(c@ == orig.skip(i)[0]);
                assert(orig.skip(i)[0] == orig[i]);
                assert(result_views(rs@) =~= rsv.skip(i).skip(1));
                assert(rsv.skip(i).skip(1) =~= rsv.skip(i + 1));
                assert(command_views(self.command_list@) =~= orig.skip(i).skip(1));
                assert(orig.skip(i).skip(1) =~= orig.skip(i + 1));
            }
            let ghost rv = rsv.skip(i)[0];
            proof {
                assert(rsv.skip(i)[0] == rsv[i]);
            }
            match r {
                Some(m) => {
                    c.failed(m);
                },
                None => {},
            }
            let ghost prev = out@;
            out.push(c);
            proof {
                assert(command_views(out@) =~= command_views(prev).push(c@));
                assert(command_views(out@)[i] == with_outcome(orig[i], rsv[i]));
            }
        }
        self.command_list = out;
        proof {
            assert(command_views(final(self).command_list@) =~= spec_record_results(orig, rsv));
        }
    }
}

/// The pkt-line payloads of a status report: the `unpack ok` line, then
/// one line per command.
pub open spec fn report_lines(cs: Seq<RefCommandV>) -> Seq<Seq<u8>> {
    seq![lit_unpack_ok()] + cs.map_values(|c: RefCommandV| status_line(c))
}

/// The whole status report: the framed report lines, then a flush marker.
pub open spec fn spec_status_report(cs: Seq<RefCommandV>) -> Seq<u8> {
    pkt_cat(report_lines(cs)) + flush_marker()
}

impl SmartProtocol {
    /// Assembles the status report of a successful unpack: `unpack ok`,
    /// one `ok`/`ng` line per command in order, and a flush marker.
    pub fn build_status_report(&self) -> (r: bytes::BytesMut)
        requires
            forall|i: int|
                0 <= i < self.command_list@.len() ==> status_line(
                    #[trigger] command_views(self.command_list@)[i],
                ).len() <= MAX_PKT_PAYLOAD,
        ensures
            bytes_mut_view(r) == spec_status_report(command_views(self.command_list@)),
    {
        let ghost cs = command_views(self.command_list@);
        let mut buf = bytes_mut_new();
        let uo = lit_unpack_ok_vec();
        add_pkt_line(&mut buf, &uo);
        proof {
            assert(seq![lit_unpack_ok()] + cs.take(0).map_values(|c: RefCommandV| status_line(c))
                =~= seq![lit_unpack_ok()]);
            assert(seq![lit_unpack_ok()][0] == lit_unpack_ok());
            assert(seq![lit_unpack_ok()].skip(1) =~= Seq::<Seq<u8>>::empty());
            assert(pkt_cat(seq![lit_unpack_ok()]) == pkt_line_of(lit_unpack_ok()) + pkt_cat(
                Seq::<Seq<u8>>::empty(),
            ));
            assert(pkt_line_of(lit_unpack_ok()) + Seq::<u8>::empty() =~= pkt_line_of(
                lit_unpack_ok(),
            ));
            assert(Seq::<u8>::empty() + pkt_line_of(lit_unpack_ok()) =~= pkt_line_of(
                lit_unpack_ok(),
            ));
        }
        let mut i: usize = 0;
        while i < self.command_list.len()
            invariant
                i <= self.command_list@.len(),
                cs == command_views(self.command_list@),
                forall|k: int|
                    0 <= k < cs.len() ==> status_line(#[trigger] cs[k]).len() <= MAX_PKT_PAYLOAD,
                bytes_mut_view(buf) == pkt_cat(
                    seq![lit_unpack_ok()] + cs.take(i as int).map_values(
                        |c: RefCommandV| status_line(c),
                    ),
                ),
            decreases self.command_list@.len() - i,
        {
            let line = self.command_list[i].get_status();
            proof {
                assert(self.command_list@[i as int]@ == cs[i as int]);
            }
            add_pkt_line(&mut buf, &line);
            proof {
                let prev = seq![lit_unpack_ok()] + cs.take(i as int).map_values(
                    |c: RefCommandV| status_line(c),
                );
                crate::pkt::lemma_pkt_cat_snoc(prev, status_line(cs[i as int]));
                assert(seq![lit_unpack_ok()] + cs.take(i + 1).map_values(
                    |c: RefCommandV| status_line(c),
                ) =~= prev.push(status_line(cs[i as int])));
            }
            i = i + 1;
        }
        add_flush_pkt(&mut buf);
        proof {
            assert(cs.take(cs.len() as int) =~= cs);
            assert(seq![lit_unpack_ok()] + cs.map_values(|c: RefCommandV| status_line(c))
                =~= report_lines(cs));
        }
        buf
    }
}

/// Law: the status report frames exactly one `unpack ok` line plus one
/// status line per command, in command order, closed by a flush marker.
pub proof fn lemma_status_report_lines(cs: Seq<RefCommandV>)
    requires
        forall|i: int|
            0 <= i < cs.len() ==> status_line(#[trigger] cs[i]).len() <= MAX_PKT_PAYLOAD,
    ensures
        crate::pkt::spec_parse_lines(spec_status_report(cs)) == Some(report_lines(cs)),
        report_lines(cs).len() == cs.len() + 1,
{
    let lines = report_lines(cs);
    assert forall|i: int| 0 <= i < lines.len() implies 0 < (#[trigger] lines[i]).len()
        <= MAX_PKT_PAYLOAD by {
        if i == 0 {
            assert(lines[0] == lit_unpack_ok());
        } else {
            assert(lines[i] == status_line(cs[i - 1]));
            match cs[i - 1].status {
                CommandStatusV::Applied => {
                    assert(status_line(cs[i - 1]).len() >= lit_ok_prefix().len());
                },
                CommandStatusV::Failed(_) => {
                    assert(status_line(cs[i - 1]).len() >= lit_ng_prefix().len());
                },
            }
        }
    }
    crate::pkt::lemma_parse_pkt_lines_closed(lines);
}

/// Builds the status report of a failed unpack: one `unpack <message>`
/// line and a flush marker; no ref is reported updated.
pub fn build_unpack_fail_report(msg: &Vec<u8>) -> (r: bytes::BytesMut)
    requires
        msg@.len() + 8 <= MAX_PKT_PAYLOAD,
    ensures
        bytes_mut_view(r) == pkt_line_of(lit_unpack_prefix() + msg@ + lit_lf()) + flush_marker(),
{
    let mut line = lit_unpack_prefix_vec();
    crate::bstr::push_all(&mut line, msg.as_slice());
    line.push(10);
    proof {
        assert(line@ =~= lit_unpack_prefix() + msg@ + lit_lf());
    }
    let mut buf = bytes_mut_new();
    add_pkt_line(&mut buf, &line);
    add_flush_pkt(&mut buf);
    proof {
        assert(Seq::<u8>::empty() + pkt_line_of(line@) =~= pkt_line_of(line@));
    }
    buf
}

} // verus!
