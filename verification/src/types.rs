//! Core data types of the protocol engine: transports, services,
//! capabilities, ref commands and the error taxonomy.

use vstd::prelude::*;
use crate::bstr::{bytes_eq, push_all, starts_with};
use crate::lit::{
    lit_lf, lit_ng_prefix, lit_ng_prefix_vec, lit_ok_prefix, lit_ok_prefix_vec,
    lit_receive_pack_name, lit_receive_pack_name_vec, lit_sp, lit_tags_prefix,
    lit_tags_prefix_vec, lit_upload_pack_name, lit_upload_pack_name_vec,
};
use crate::pkt::is_hex_digit;

verus! {

/// Transport carrier over which the session speaks.
#[derive(Clone, Copy, PartialEq, Eq, Structural, Debug)]
pub enum TransportProtocol {
    Http,
    Ssh,
}

/// Which of the two smart services the session runs.
#[derive(Clone, Copy, PartialEq, Eq, Structural, Debug)]
pub enum ServiceType {
    UploadPack,
    ReceivePack,
}

/// Side-band channel tags: pack data, progress text, fatal errors.
#[derive(Clone, Copy, PartialEq, Eq, Structural, Debug)]
pub enum SideBind {
    PackfileData,
    ProgressInfo,
    Error,
}

impl SideBind {
    /// The one-byte channel tag put in front of a side-band payload.
    pub open spec fn spec_value(self) -> u8 {
        match self {
            SideBind::PackfileData => 1,
            SideBind::ProgressInfo => 2,
            SideBind::Error => 3,
        }
    }

    /// Returns the wire byte of this channel.
    pub fn value(self) -> (r: u8)
        ensures
            r == self.spec_value(),
    {
        match self {
            SideBind::PackfileData => 1,
            SideBind::ProgressInfo => 2,
            SideBind::Error => 3,
        }
    }
}

/// Errors the engine reports. Message text is carried for the caller;
/// contracts pin down which variant each failure produces.
#[derive(Clone, Debug)]
pub enum ProtocolError {
    /// Malformed pkt-line, malformed command line, or stream read failure.
    InvalidRequest(String),
    /// Collaborator-reported repository failure, or missing session
    /// configuration such as an unset service type.
    RepositoryError(String),
    /// Failure surfaced by the authentication collaborator.
    AuthenticationError(String),
    /// Pack codec failure during generate or parse.
    PackError(String),
}

impl ServiceType {
    /// Wire name of the service, as advertised to clients.
    pub open spec fn spec_name(self) -> Seq<u8> {
        match self {
            ServiceType::UploadPack => lit_upload_pack_name(),
            ServiceType::ReceivePack => lit_receive_pack_name(),
        }
    }

    /// Returns the wire name of the service.
    pub fn name_bytes(self) -> (r: Vec<u8>)
        ensures
            r@ == self.spec_name(),
    {
        match self {
            ServiceType::UploadPack => lit_upload_pack_name_vec(),
            ServiceType::ReceivePack => lit_receive_pack_name_vec(),
        }
    }
}

/// The sentinel object id of forty zeros, denoting absence.
pub open spec fn zero_id_seq() -> Seq<u8> {
    Seq::new(40, |i: int| 48u8)
}

/// Returns the sentinel object id of forty zeros.
pub fn zero_id() -> (r: Vec<u8>)
    ensures
        r@ == zero_id_seq(),
{
    let mut v: Vec<u8> = Vec::new();
    let mut i: usize = 0;
    while i < 40
        invariant
            i <= 40,
            v@.len() == i,
            forall|j: int| 0 <= j < i ==> v@[j] == 48u8,
        decreases 40 - i,
    {
        v.push(48);
        i = i + 1;
    }
    proof {
        assert(v@ =~= zero_id_seq());
    }
    v
}

/// A well-formed object id: forty lowercase hex digits. The zero id
/// satisfies this too.
pub open spec fn is_object_id(h: Seq<u8>) -> bool {
    h.len() == 40 && forall|i: int| 0 <= i < 40 ==> is_hex_digit(#[trigger] h[i])
}

/// A named pointer into the repository: a ref path and an object id.
pub struct GitRef {
    pub name: Vec<u8>,
    pub hash: Vec<u8>,
}

/// Mathematical image of a [`GitRef`].
pub struct GitRefV {
    pub name: Seq<u8>,
    pub hash: Seq<u8>,
}

impl View for GitRef {
    type V = GitRefV;

    open spec fn view(&self) -> GitRefV {
        GitRefV { name: self.name@, hash: self.hash@ }
    }
}

/// Whether a ref command moves a branch or a tag.
#[derive(Clone, Copy, PartialEq, Eq, Structural, Debug)]
pub enum RefTypeEnum {
    Branch,
    Tag,
}

/// Terminal status of a ref command.
#[derive(Clone, Debug)]
pub enum CommandStatus {
    Applied,
    Failed(Vec<u8>),
}

/// Mathematical image of a [`CommandStatus`].
pub enum CommandStatusV {
    Applied,
    Failed(Seq<u8>),
}

impl View for CommandStatus {
    type V = CommandStatusV;

    open spec fn view(&self) -> CommandStatusV {
        match self {
            CommandStatus::Applied => CommandStatusV::Applied,
            CommandStatus::Failed(m) => CommandStatusV::Failed(m@),
        }
    }
}

/// One requested reference update of a receive-pack session.
#[derive(Clone, Debug)]
pub struct RefCommand {
    pub old_hash: Vec<u8>,
    pub new_hash: Vec<u8>,
    pub ref_name: Vec<u8>,
    pub ref_type: RefTypeEnum,
    pub default_branch: bool,
    pub status: CommandStatus,
}

/// Mathematical image of a [`RefCommand`].
pub struct RefCommandV {
    pub old_hash: Seq<u8>,
    pub new_hash: Seq<u8>,
    pub ref_name: Seq<u8>,
    pub ref_type: RefTypeEnum,
    pub default_branch: bool,
    pub status: CommandStatusV,
}

impl View for RefCommand {
    type V = RefCommandV;

    open spec fn view(&self) -> RefCommandV {
        RefCommandV {
            old_hash: self.old_hash@,
            new_hash: self.new_hash@,
            ref_name: self.ref_name@,
            ref_type: self.ref_type,
            default_branch: self.default_branch,
            status: self.status@,
        }
    }
}

/// Ref paths under `refs/tags/` move tags; every other path moves a branch.
pub open spec fn spec_ref_type_of(name: Seq<u8>) -> RefTypeEnum {
    if name.len() >= lit_tags_prefix().len() && name.take(lit_tags_prefix().len() as int)
        == lit_tags_prefix() {
        RefTypeEnum::Tag
    } else {
        RefTypeEnum::Branch
    }
}

/// The fields a freshly parsed command carries.
pub open spec fn spec_new_command(old_hash: Seq<u8>, new_hash: Seq<u8>, ref_name: Seq<u8>) -> RefCommandV {
    RefCommandV {
        old_hash: old_hash,
        new_hash: new_hash,
        ref_name: ref_name,
        ref_type: spec_ref_type_of(ref_name),
        default_branch: false,
        status: CommandStatusV::Applied,
    }
}

/// The status-report line of one command: `ok <ref>\n` on success, else
/// `ng <ref> <message>\n`.
pub open spec fn status_line(c: RefCommandV) -> Seq<u8> {
    match c.status {
        CommandStatusV::Applied => lit_ok_prefix() + c.ref_name + lit_lf(),
        CommandStatusV::Failed(m) => lit_ng_prefix() + c.ref_name + lit_sp() + m + lit_lf(),
    }
}

/// The views of a command list.
pub open spec fn command_views(s: Seq<RefCommand>) -> Seq<RefCommandV> {
    s.map_values(|c: RefCommand| c@)
}

impl RefCommand {
    /// Builds a command from its parsed fields, classifying the ref type
    /// by path.
    pub fn new(old_hash: Vec<u8>, new_hash: Vec<u8>, ref_name: Vec<u8>) -> (r: RefCommand)
        ensures
            r@ == spec_new_command(old_hash@, new_hash@, ref_name@),
    {
        let prefix = lit_tags_prefix_vec();
        let is_tag = starts_with(ref_name.as_slice(), prefix.as_slice());
        RefCommand {
            old_hash,
            new_hash,
            ref_name,
            ref_type: if is_tag {
                RefTypeEnum::Tag
            } else {
                RefTypeEnum::Branch
            },
            default_branch: false,
            status: CommandStatus::Applied,
        }
    }

    /// Marks the command failed with the collaborator's message.
    pub fn failed(&mut self, msg: Vec<u8>)
        ensures
            final(self)@ == (RefCommandV { status: CommandStatusV::Failed(msg@), ..old(self)@ }),
    {
        self.status = CommandStatus::Failed(msg);
    }

    /// Returns this command's status-report line.
    pub fn get_status(&self) -> (r: Vec<u8>)
        ensures
            r@ == status_line(self@),
    {
        let mut v: Vec<u8> = Vec::new();
        match &self.status {
            CommandStatus::Applied => {
                let p = lit_ok_prefix_vec();
                push_all(&mut v, p.as_slice());
                push_all(&mut v, self.ref_name.as_slice());
                v.push(10);
                proof {
                    assert(v@ =~= status_line(self@));
                }
            },
            CommandStatus::Failed(m) => {
                let p = lit_ng_prefix_vec();
                push_all(&mut v, p.as_slice());
                push_all(&mut v, self.ref_name.as_slice());
                v.push(32);
                push_all(&mut v, m.as_slice());
                v.push(10);
                proof {
                    assert(v@ =~= status_line(self@));
                }
            },
        }
        v
    }

    /// The old hash a ref update hands to the repository: `None` for the
    /// zero id (creation), else the hash itself.
    pub fn old_hash_option(&self) -> (r: Option<&Vec<u8>>)
        ensures
            match r {
                None => self@.old_hash == zero_id_seq(),
                Some(h) => h@ == self@.old_hash && self@.old_hash != zero_id_seq(),
            },
    {
        let z = zero_id();
        if bytes_eq(self.old_hash.as_slice(), z.as_slice()) {
            None
        } else {
            Some(&self.old_hash)
        }
    }
}

} // verus!
