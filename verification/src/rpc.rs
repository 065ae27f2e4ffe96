//! What each JSON-RPC reply of the node means: the value the monitor takes
//! from it, or the error text it reports.
use vstd::prelude::*;
use vstd::string::*;
use crate::json::{json_get, json_text, json_u64, json_u64_list, JsonValue};
use crate::models::{
    BalanceResponse, EpochInfo, RPCError, RPCResponse, VersionResult, VoteAccountInfo,
    VoteAccountsResponse,
};
use crate::text::{nat_text, push_u64, str_eq};

verus! {

/// `"RPC Error (<method>): <message>"`.
pub open spec fn rpc_error_text(method: Seq<char>, message: Seq<char>) -> Seq<char> {
    "RPC Error ("@ + method + "): "@ + message
}

fn rpc_error_message(method: &str, message: &str) -> (m: String)
    ensures
        m@ == rpc_error_text(method@, message@),
{
    let mut m = String::from_str("RPC Error (");
    m.append(method);
    m.append("): ");
    m.append(message);
    m
}

/// The epoch information of a `getEpochInfo` reply.
pub fn epoch_info_from_response(resp: RPCResponse<EpochInfo>) -> (r: Result<EpochInfo, String>)
    ensures
        match resp.error {
            Some(e) => r matches Err(m) && m@ == rpc_error_text("getEpochInfo"@, e.message@),
            None => match resp.result {
                Some(info) => r == Ok::<EpochInfo, String>(info),
                None => r matches Err(m) && m@ == "No result in getEpochInfo response"@,
            },
        },
{
    match resp.error {
        Some(e) => Err(rpc_error_message("getEpochInfo", e.message.as_str())),
        None => match resp.result {
            Some(info) => Ok(info),
            None => Err(String::from_str("No result in getEpochInfo response")),
        },
    }
}

/// The block time of a `getBlockTime` reply for `slot`: the node may answer
/// with an error, with no time, or with the time.
pub fn block_time_from_response(resp: RPCResponse<Option<i64>>, slot: u64) -> (r: Result<
    i64,
    String,
>)
    ensures
        match resp.error {
            Some(e) => r matches Err(m) && m@ == "RPC Error (getBlockTime) for slot "@ + nat_text(
                slot as nat,
            ) + ": "@ + e.message@,
            None => match resp.result {
                Some(Some(t)) => r == Ok::<i64, String>(t),
                _ => r matches Err(m) && m@ == "No time for slot "@ + nat_text(slot as nat),
            },
        },
{
    match resp.error {
        Some(e) => {
            let mut m = String::from_str("RPC Error (getBlockTime) for slot ");
            push_u64(&mut m, slot);
            m.append(": ");
            m.append(e.message.as_str());
            Err(m)
        },
        None => match resp.result {
            Some(Some(t)) => Ok(t),
            _ => {
                let mut m = String::from_str("No time for slot ");
                push_u64(&mut m, slot);
                Err(m)
            },
        },
    }
}

/// The health text of a `getHealth` reply: `"behind:<n>"` when the node
/// reports how many slots it is behind, the error message for any other
/// error, and otherwise the result, `"ok"` when there is none.
pub open spec fn health_text(error: Option<RPCError>, result: Option<String>) -> Seq<char> {
    match error {
        Some(e) => match e.data {
            Some(d) => match json_get(d, "numSlotsBehind"@) {
                Some(v) => match json_u64(v) {
                    Some(n) => "behind:"@ + nat_text(n as nat),
                    None => e.message@,
                },
                None => e.message@,
            },
            None => e.message@,
        },
        None => match result {
            Some(s) => s@,
            None => "ok"@,
        },
    }
}

/// The health text of a `getHealth` reply (see `health_text`).
pub fn health_from_response(resp: RPCResponse<String>) -> (h: String)
    ensures
        h@ == health_text(resp.error, resp.result),
{
    match resp.error {
        Some(e) => {
            match &e.data {
                Some(d) => match d.get("numSlotsBehind") {
                    Some(v) => match v.as_u64() {
                        Some(n) => {
                            let mut m = String::from_str("behind:");
                            push_u64(&mut m, n);
                            return m;
                        },
                        None => {},
                    },
                    None => {},
                },
                None => {},
            }
            e.message
        },
        None => match resp.result {
            Some(s) => s,
            None => String::from_str("ok"),
        },
    }
}

/// The lamports of a `getBalance` reply for `pubkey`; a reply without a
/// result counts as zero.
pub fn lamports_from_response(resp: RPCResponse<BalanceResponse>, pubkey: &str) -> (r: Result<
    u64,
    String,
>)
    ensures
        match resp.error {
            Some(e) => r matches Err(m) && m@ == "RPC Error (getBalance) for "@ + pubkey@ + ": "@
                + e.message@,
            None => r == Ok::<u64, String>(
                match resp.result {
                    Some(b) => b.value,
                    None => 0,
                },
            ),
        },
{
    match resp.error {
        Some(e) => {
            let mut m = String::from_str("RPC Error (getBalance) for ");
            m.append(pubkey);
            m.append(": ");
            m.append(e.message.as_str());
            Err(m)
        },
        None => match resp.result {
            Some(b) => Ok(b.value),
            None => Ok(0),
        },
    }
}

/// Index of the first account voting for `identity`, or the length.
pub open spec fn first_voter_index(accounts: Seq<VoteAccountInfo>, identity: Seq<char>) -> nat
    decreases accounts.len(),
{
    if accounts.len() == 0 {
        0
    } else if accounts[0].node_pubkey@ == identity {
        0
    } else {
        1 + first_voter_index(accounts.drop_first(), identity)
    }
}

/// The first account of the list that votes for `identity`.
pub open spec fn voter_for(accounts: Seq<VoteAccountInfo>, identity: Seq<char>) -> Option<
    VoteAccountInfo,
> {
    let k = first_voter_index(accounts, identity);
    if k < accounts.len() {
        Some(accounts[k as int])
    } else {
        None
    }
}

proof fn lemma_first_voter_index(accounts: Seq<VoteAccountInfo>, identity: Seq<char>, k: int)
    requires
        0 <= k <= accounts.len(),
        forall|j: int| 0 <= j < k ==> (#[trigger] accounts[j]).node_pubkey@ != identity,
        k == accounts.len() || accounts[k].node_pubkey@ == identity,
    ensures
        first_voter_index(accounts, identity) == k,
    decreases k,
{
    if k > 0 {
        assert forall|j: int| 0 <= j < k - 1 implies (#[trigger] accounts.drop_first()[j]).node_pubkey@
            != identity by {
            assert(accounts.drop_first()[j] == accounts[j + 1]);
        }
        lemma_first_voter_index(accounts.drop_first(), identity, k - 1);
    }
}

/// Takes out the first account of the list that votes for `identity`.
fn take_voter(accounts: Vec<VoteAccountInfo>, identity: &str) -> (r: Option<VoteAccountInfo>)
    ensures
        r == voter_for(accounts@, identity@),
{
    let mut list = accounts;
    let ghost orig = accounts@;
    let mut i: usize = 0;
    while i < list.len()
        invariant
            list@ == orig,
            orig == accounts@,
            i <= list@.len(),
            forall|j: int| 0 <= j < i ==> (#[trigger] list@[j]).node_pubkey@ != identity@,
        decreases list.len() - i,
    {
        if str_eq(list[i].node_pubkey.as_str(), identity) {
            assert(list@[i as int].node_pubkey@ == identity@);
            proof {
                lemma_first_voter_index(orig, identity@, i as int);
            }
            let v = list.remove(i);
            return Some(v);
        }
        i = i + 1;
    }
    proof {
        lemma_first_voter_index(orig, identity@, i as int);
    }
    None
}

/// The vote account of a node: the first one of the current validators that
/// votes for `identity`, else the first delinquent one, else none.
pub open spec fn vote_account_of(res: Option<VoteAccountsResponse>, identity: Seq<char>) -> Option<
    VoteAccountInfo,
> {
    match res {
        Some(r) => match voter_for(r.current@, identity) {
            Some(v) => Some(v),
            None => voter_for(r.delinquent@, identity),
        },
        None => None,
    }
}

/// The vote account that votes for `identity`, from a `getVoteAccounts` reply.
pub fn vote_account_from_response(resp: RPCResponse<VoteAccountsResponse>, identity: &str) -> (r:
    Result<Option<VoteAccountInfo>, String>)
    ensures
        match resp.error {
            Some(e) => r matches Err(m) && m@ == rpc_error_text("getVoteAccounts"@, e.message@),
            None => r == Ok::<Option<VoteAccountInfo>, String>(
                vote_account_of(resp.result, identity@),
            ),
        },
{
    match resp.error {
        Some(e) => Err(rpc_error_message("getVoteAccounts", e.message.as_str())),
        None => match resp.result {
            Some(res) => {
                let VoteAccountsResponse { current, delinquent } = res;
                match take_voter(current, identity) {
                    Some(v) => Ok(Some(v)),
                    None => Ok(take_voter(delinquent, identity)),
                }
            },
            None => Ok(None),
        },
    }
}

/// The slot of a `getSlot` reply at `commitment`. This reply's error member
/// is not consulted: only the presence of a result counts.
pub fn slot_from_response(resp: RPCResponse<u64>, commitment: &str) -> (r: Result<u64, String>)
    ensures
        match resp.result {
            Some(s) => r == Ok::<u64, String>(s),
            None => r matches Err(m) && m@ == "No slot returned for "@ + commitment@,
        },
{
    match resp.result {
        Some(s) => Ok(s),
        None => {
            let mut m = String::from_str("No slot returned for ");
            m.append(commitment);
            Err(m)
        },
    }
}

/// The text of member `identity` of a `getIdentity` result.
pub open spec fn identity_of(result: Option<JsonValue>) -> Option<Seq<char>> {
    match result {
        Some(v) => match json_get(v, "identity"@) {
            Some(i) => json_text(i),
            None => None,
        },
        None => None,
    }
}

/// The node identity of a `getIdentity` reply.
pub fn identity_from_response(resp: RPCResponse<JsonValue>) -> (r: Result<String, String>)
    ensures
        match resp.error {
            Some(e) => r matches Err(m) && m@ == rpc_error_text("getIdentity"@, e.message@),
            None => match identity_of(resp.result) {
                Some(id) => r matches Ok(s) && s@ == id,
                None => r matches Err(m) && m@ == "No identity found in RPC response"@,
            },
        },
{
    match resp.error {
        Some(e) => Err(rpc_error_message("getIdentity", e.message.as_str())),
        None => {
            match &resp.result {
                Some(v) => match v.get("identity") {
                    Some(i) => match i.as_str() {
                        Some(s) => {
                            return Ok(String::from_str(s));
                        },
                        None => {},
                    },
                    None => {},
                },
                None => {},
            }
            Err(String::from_str("No identity found in RPC response"))
        },
    }
}

/// The core version of a `getVersion` reply.
pub fn version_from_response(resp: RPCResponse<VersionResult>) -> (r: Result<String, String>)
    ensures
        match resp.error {
            Some(e) => r matches Err(m) && m@ == rpc_error_text("getVersion"@, e.message@),
            None => match resp.result {
                Some(v) => r matches Ok(s) && s@ == v.solana_core@,
                None => r matches Err(m) && m@ == "No result in getVersion response"@,
            },
        },
{
    match resp.error {
        Some(e) => Err(rpc_error_message("getVersion", e.message.as_str())),
        None => match resp.result {
            Some(v) => Ok(v.solana_core),
            None => Err(String::from_str("No result in getVersion response")),
        },
    }
}

/// The leader slots of `identity` in a `getLeaderSchedule` result: member
/// `identity` read as a list of `u64`, and no slots when it is missing or is
/// not such a list.
pub open spec fn leader_slots_of(result: Option<JsonValue>, identity: Seq<char>) -> Seq<u64> {
    match result {
        Some(v) => match json_get(v, identity) {
            Some(s) => match json_u64_list(s) {
                Some(l) => l,
                None => Seq::empty(),
            },
            None => Seq::empty(),
        },
        None => Seq::empty(),
    }
}

/// The leader slots (relative to the epoch start) of a `getLeaderSchedule`
/// reply for `identity`.
pub fn leader_schedule_from_response(resp: RPCResponse<JsonValue>, identity: &str) -> (r: Result<
    Vec<u64>,
    String,
>)
    ensures
        match resp.error {
            Some(e) => r matches Err(m) && m@ == rpc_error_text("getLeaderSchedule"@, e.message@),
            None => r matches Ok(v) && v@ == leader_slots_of(resp.result, identity@),
        },
{
    match resp.error {
        Some(e) => Err(rpc_error_message("getLeaderSchedule", e.message.as_str())),
        None => {
            match &resp.result {
                Some(v) => match v.get(identity) {
                    Some(s) => match s.as_u64_list() {
                        Some(l) => {
                            return Ok(l);
                        },
                        None => {},
                    },
                    None => {},
                },
                None => {},
            }
            Ok(Vec::new())
        },
    }
}

/// Index of the first cluster node whose `pubkey` is the text `identity`, or
/// the length.
pub open spec fn first_node_index(nodes: Seq<JsonValue>, identity: Seq<char>) -> nat
    decreases nodes.len(),
{
    if nodes.len() == 0 {
        0
    } else if node_has_pubkey(nodes[0], identity) {
        0
    } else {
        1 + first_node_index(nodes.drop_first(), identity)
    }
}

pub open spec fn node_has_pubkey(node: JsonValue, identity: Seq<char>) -> bool {
    match json_get(node, "pubkey"@) {
        Some(p) => json_text(p) == Some(identity),
        None => false,
    }
}

/// The `version` text of a cluster node.
pub open spec fn node_version(node: JsonValue) -> Option<Seq<char>> {
    match json_get(node, "version"@) {
        Some(v) => json_text(v),
        None => None,
    }
}

proof fn lemma_first_node_index(nodes: Seq<JsonValue>, identity: Seq<char>, k: int)
    requires
        0 <= k <= nodes.len(),
        forall|j: int| 0 <= j < k ==> !node_has_pubkey(#[trigger] nodes[j], identity),
        k == nodes.len() || node_has_pubkey(nodes[k], identity),
    ensures
        first_node_index(nodes, identity) == k,
    decreases k,
{
    if k > 0 {
        assert forall|j: int| 0 <= j < k - 1 implies !node_has_pubkey(
            #[trigger] nodes.drop_first()[j],
            identity,
        ) by {
            assert(nodes.drop_first()[j] == nodes[j + 1]);
        }
        lemma_first_node_index(nodes.drop_first(), identity, k - 1);
    }
}

/// Whether a cluster node announces `identity` as its pubkey.
fn has_pubkey(node: &JsonValue, identity: &str) -> (b: bool)
    ensures
        b == node_has_pubkey(*node, identity@),
{
    match node.get("pubkey") {
        Some(p) => match p.as_str() {
            Some(s) => str_eq(s, identity),
            None => false,
        },
        None => false,
    }
}

/// The version that a list of cluster nodes gives for `identity`.
pub open spec fn version_in_nodes(nodes: Seq<JsonValue>, identity: Seq<char>) -> Result<
    Seq<char>,
    Seq<char>,
> {
    let k = first_node_index(nodes, identity);
    if k < nodes.len() {
        match node_version(nodes[k as int]) {
            Some(ver) => Ok(ver),
            None => Err("No version field for node"@),
        }
    } else {
        Err("Validator identity not found in cluster nodes"@)
    }
}

fn find_node_version(nodes: &Vec<JsonValue>, identity: &str) -> (r: Result<String, String>)
    ensures
        match version_in_nodes(nodes@, identity@) {
            Ok(ver) => r matches Ok(s) && s@ == ver,
            Err(t) => r matches Err(m) && m@ == t,
        },
{
    let mut i: usize = 0;
    while i < nodes.len()
        invariant
            i <= nodes@.len(),
            forall|j: int| 0 <= j < i ==> !node_has_pubkey(#[trigger] nodes@[j], identity@),
        decreases nodes.len() - i,
    {
        if has_pubkey(&nodes[i], identity) {
            proof {
                lemma_first_node_index(nodes@, identity@, i as int);
            }
            let node = &nodes[i];
            match node.get("version") {
                Some(v) => match v.as_str() {
                    Some(s) => {
                        return Ok(String::from_str(s));
                    },
                    None => {},
                },
                None => {},
            }
            return Err(String::from_str("No version field for node"));
        }
        i = i + 1;
    }
    proof {
        lemma_first_node_index(nodes@, identity@, i as int);
    }
    Err(String::from_str("Validator identity not found in cluster nodes"))
}

/// The software version of the node `identity` in a `getClusterNodes` reply:
/// the `version` of the first node with that pubkey. A reply without a
/// result lists no nodes.
pub fn validator_version_from_response(resp: RPCResponse<Vec<JsonValue>>, identity: &str) -> (r:
    Result<String, String>)
    ensures
        match resp.error {
            Some(e) => r matches Err(m) && m@ == rpc_error_text("getClusterNodes"@, e.message@),
            None => {
                let nodes = match resp.result {
                    Some(n) => n@,
                    None => Seq::empty(),
                };
                match version_in_nodes(nodes, identity@) {
                    Ok(ver) => r matches Ok(s) && s@ == ver,
                    Err(t) => r matches Err(m) && m@ == t,
                }
            },
        },
{
    match resp.error {
        Some(e) => Err(rpc_error_message("getClusterNodes", e.message.as_str())),
        None => match resp.result {
            Some(n) => find_node_version(&n, identity),
            None => {
                let empty: Vec<JsonValue> = Vec::new();
                find_node_version(&empty, identity)
            },
        },
    }
}

/// Number of slots looked back for the recent velocity.
pub const RECENT_LOOKBACK: u64 = 2000;

/// Below this many slots into the epoch only the recent velocity is used.
pub const YOUNG_EPOCH_SLOTS: u64 = 5000;

/// Which block times the slot-velocity estimate needs.
#[derive(Debug, Clone, Copy, PartialEq, Eq, Structural)]
pub struct VelocityPlan {
    /// Slots elapsed in the epoch (zero when the epoch start lies ahead).
    pub slots_in_epoch: u64,
    /// The slot that starts the recent window.
    pub recent_slot: u64,
    /// The epoch's first slot, when the epoch is old enough for the epoch
    /// velocity to count.
    pub epoch_slot: Option<u64>,
}

/// The block times that the hybrid velocity estimate reads: the current slot,
/// the slot `RECENT_LOOKBACK` before it, and the epoch start once the epoch is
/// `YOUNG_EPOCH_SLOTS` old.
pub fn velocity_plan(current_slot: u64, epoch_start_slot: u64) -> (p: VelocityPlan)
    requires
        current_slot >= RECENT_LOOKBACK,
    ensures
        p.slots_in_epoch == (if current_slot >= epoch_start_slot {
            current_slot - epoch_start_slot
        } else {
            0
        }),
        p.recent_slot == current_slot - RECENT_LOOKBACK,
        p.epoch_slot == (if p.slots_in_epoch < YOUNG_EPOCH_SLOTS {
            None::<u64>
        } else {
            Some(epoch_start_slot)
        }),
{
    let slots_in_epoch = if current_slot >= epoch_start_slot {
        current_slot - epoch_start_slot
    } else {
        0
    };
    VelocityPlan {
        slots_in_epoch,
        recent_slot: current_slot - RECENT_LOOKBACK,
        epoch_slot: if slots_in_epoch < YOUNG_EPOCH_SLOTS {
            None
        } else {
            Some(epoch_start_slot)
        },
    }
}

} // verus!
