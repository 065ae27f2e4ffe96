//! The data that the monitor reads from the network and the settings it
//! runs with.
use vstd::prelude::*;
use vstd::string::*;
use crate::json::JsonValue;
use crate::text::str_eq;
use crate::text_wrappers::{to_lowercase, unicode_lowercase};

verus! {

/// The minimum software versions that the delegation program requires from
/// an epoch on.
#[derive(Debug, Clone, PartialEq)]
pub struct SFDPVersionRequirement {
    pub epoch: u64,
    pub agave_min_version: String,
    pub firedancer_min_version: String,
}

/// The reply of the delegation program's API.
#[derive(Debug)]
pub struct SFDPResponse {
    pub data: Vec<SFDPVersionRequirement>,
}

/// Where the cluster stands in the current epoch.
#[derive(Debug, Clone, Copy, PartialEq, Eq, Structural)]
pub struct EpochInfo {
    pub epoch: u64,
    pub slots_in_epoch: u64,
    pub slot_index: u64,
    pub absolute_slot: u64,
}

/// The reply of `getBalance`: lamports.
#[derive(Debug, Clone, Copy, PartialEq, Eq, Structural)]
pub struct BalanceResponse {
    pub value: u64,
}

/// A vote account and the node identity it votes for.
#[derive(Debug, Clone, PartialEq)]
pub struct VoteAccountInfo {
    pub vote_pubkey: String,
    pub node_pubkey: String,
}

/// The reply of `getVoteAccounts`.
#[derive(Debug)]
pub struct VoteAccountsResponse {
    pub current: Vec<VoteAccountInfo>,
    pub delinquent: Vec<VoteAccountInfo>,
}

/// A JSON-RPC reply: a result, an error, or neither.
#[derive(Debug)]
pub struct RPCResponse<T> {
    pub result: Option<T>,
    pub error: Option<RPCError>,
}

/// The error member of a JSON-RPC reply.
#[derive(Debug)]
pub struct RPCError {
    pub message: String,
    pub data: Option<JsonValue>,
}

/// The reply of `getVersion`.
#[derive(Debug)]
pub struct VersionResult {
    pub solana_core: String,
}

/// Which validator client the node runs, and so which minimum applies.
#[derive(Debug, Clone, Copy, PartialEq, Eq, Structural)]
pub enum ValidatorMode {
    Agave,
    Firedancer,
}

/// Whether the RPC endpoint is the node itself or a remote one.
#[derive(Debug, Clone, Copy, PartialEq, Eq, Structural)]
pub enum RPCType {
    Local,
    Remote,
}

/// The mode named by an already lowercased setting: `agave`, and Firedancer
/// for anything else.
pub open spec fn mode_named(lower: Seq<char>) -> ValidatorMode {
    if lower == "agave"@ {
        ValidatorMode::Agave
    } else {
        ValidatorMode::Firedancer
    }
}

/// The RPC type named by an already lowercased setting: `local`, and remote
/// for anything else.
pub open spec fn rpc_type_named(lower: Seq<char>) -> RPCType {
    if lower == "local"@ {
        RPCType::Local
    } else {
        RPCType::Remote
    }
}

/// The validator mode that a lowercased setting selects.
pub fn mode_from_lowercase(lower: &str) -> (m: ValidatorMode)
    ensures
        m == mode_named(lower@),
{
    if str_eq(lower, "agave") {
        ValidatorMode::Agave
    } else {
        ValidatorMode::Firedancer
    }
}

/// The RPC type that a lowercased setting selects.
pub fn rpc_type_from_lowercase(lower: &str) -> (t: RPCType)
    ensures
        t == rpc_type_named(lower@),
{
    if str_eq(lower, "local") {
        RPCType::Local
    } else {
        RPCType::Remote
    }
}

impl From<String> for ValidatorMode {
    /// `agave` in any letter case selects Agave; every other text selects
    /// Firedancer.
    fn from(s: String) -> (m: Self) {
        let lower = to_lowercase(s.as_str());
        mode_from_lowercase(lower.as_str())
    }
}

impl vstd::std_specs::convert::FromSpecImpl<String> for ValidatorMode {
    open spec fn obeys_from_spec() -> bool {
        true
    }

    open spec fn from_spec(v: String) -> Self {
        mode_named(unicode_lowercase(v@))
    }
}

impl From<String> for RPCType {
    /// `local` in any letter case selects a local RPC; every other text a
    /// remote one.
    fn from(s: String) -> (t: Self) {
        let lower = to_lowercase(s.as_str());
        rpc_type_from_lowercase(lower.as_str())
    }
}

impl vstd::std_specs::convert::FromSpecImpl<String> for RPCType {
    open spec fn obeys_from_spec() -> bool {
        true
    }

    open spec fn from_spec(v: String) -> Self {
        rpc_type_named(unicode_lowercase(v@))
    }
}

} // verus!
