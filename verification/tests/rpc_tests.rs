use epochroll::json::{JsonNumber, JsonValue};
use epochroll::models::{
    BalanceResponse, EpochInfo, RPCError, RPCResponse, VersionResult, VoteAccountInfo,
    VoteAccountsResponse,
};
use epochroll::rpc::{
    block_time_from_response, epoch_info_from_response, health_from_response,
    identity_from_response, lamports_from_response, leader_schedule_from_response,
    slot_from_response, validator_version_from_response, velocity_plan, version_from_response,
    vote_account_from_response, VelocityPlan,
};

fn err<T>(message: &str, data: Option<JsonValue>) -> RPCResponse<T> {
    RPCResponse { result: None, error: Some(RPCError { message: message.to_string(), data }) }
}

fn ok<T>(value: T) -> RPCResponse<T> {
    RPCResponse { result: Some(value), error: None }
}

fn empty<T>() -> RPCResponse<T> {
    RPCResponse { result: None, error: None }
}

fn obj(members: Vec<(&str, JsonValue)>) -> JsonValue {
    JsonValue::Object(members.into_iter().map(|(k, v)| (k.to_string(), v)).collect())
}

fn text(s: &str) -> JsonValue {
    JsonValue::Str(s.to_string())
}

fn num(n: u64) -> JsonValue {
    JsonValue::Number(JsonNumber::PosInt(n))
}

fn info() -> EpochInfo {
    EpochInfo { epoch: 700, slots_in_epoch: 432000, slot_index: 1000, absolute_slot: 302401000 }
}

fn vote(v: &str, n: &str) -> VoteAccountInfo {
    VoteAccountInfo { vote_pubkey: v.to_string(), node_pubkey: n.to_string() }
}

#[test]
fn epoch_info_result_and_errors() {
    assert_eq!(epoch_info_from_response(ok(info())), Ok(info()));
    assert_eq!(
        epoch_info_from_response(err("boom", None)),
        Err("RPC Error (getEpochInfo): boom".to_string())
    );
    assert_eq!(
        epoch_info_from_response(empty()),
        Err("No result in getEpochInfo response".to_string())
    );
}

#[test]
fn block_time_result_and_errors() {
    assert_eq!(block_time_from_response(ok(Some(1700000000)), 5), Ok(1700000000));
    assert_eq!(block_time_from_response(ok(None), 42), Err("No time for slot 42".to_string()));
    assert_eq!(block_time_from_response(empty(), 0), Err("No time for slot 0".to_string()));
    assert_eq!(
        block_time_from_response(err("skipped", None), 123456789),
        Err("RPC Error (getBlockTime) for slot 123456789: skipped".to_string())
    );
}

#[test]
fn health_texts() {
    assert_eq!(health_from_response(ok("ok".to_string())), "ok");
    assert_eq!(health_from_response(empty()), "ok");
    assert_eq!(
        health_from_response(err("Node is behind", Some(obj(vec![("numSlotsBehind", num(150))])))),
        "behind:150"
    );
    assert_eq!(health_from_response(err("Node is unhealthy", None)), "Node is unhealthy");
    assert_eq!(
        health_from_response(err("Node is behind", Some(obj(vec![("numSlotsBehind", JsonValue::Null)])))),
        "Node is behind"
    );
    assert_eq!(
        health_from_response(err(
            "Node is behind",
            Some(obj(vec![("numSlotsBehind", JsonValue::Number(JsonNumber::NegInt(-3)))]))
        )),
        "Node is behind"
    );
    assert_eq!(health_from_response(err("x", Some(JsonValue::Array(vec![num(1)])))), "x");
}

#[test]
fn balance_in_lamports() {
    assert_eq!(lamports_from_response(ok(BalanceResponse { value: 2_500_000_000 }), "Id"), Ok(2_500_000_000));
    assert_eq!(lamports_from_response(empty(), "Id"), Ok(0));
    assert_eq!(
        lamports_from_response(err("bad key", None), "Id111"),
        Err("RPC Error (getBalance) for Id111: bad key".to_string())
    );
}

#[test]
fn vote_account_prefers_current_validators() {
    let resp = ok(VoteAccountsResponse {
        current: vec![vote("V1", "A"), vote("V2", "B"), vote("V3", "B")],
        delinquent: vec![vote("V4", "B"), vote("V5", "C")],
    });
    assert_eq!(vote_account_from_response(resp, "B"), Ok(Some(vote("V2", "B"))));
    let resp = ok(VoteAccountsResponse {
        current: vec![vote("V1", "A")],
        delinquent: vec![vote("V4", "B"), vote("V5", "C"), vote("V6", "C")],
    });
    assert_eq!(vote_account_from_response(resp, "C"), Ok(Some(vote("V5", "C"))));
    let resp = ok(VoteAccountsResponse { current: vec![vote("V1", "A")], delinquent: vec![] });
    assert_eq!(vote_account_from_response(resp, "Z"), Ok(None));
    assert_eq!(vote_account_from_response(empty(), "Z"), Ok(None));
    assert_eq!(
        vote_account_from_response(err("nope", None), "Z"),
        Err("RPC Error (getVoteAccounts): nope".to_string())
    );
}

#[test]
fn slot_ignores_error_member() {
    assert_eq!(slot_from_response(ok(99), "finalized"), Ok(99));
    assert_eq!(slot_from_response(empty(), "finalized"), Err("No slot returned for finalized".to_string()));
    assert_eq!(slot_from_response(err("x", None), "processed"), Err("No slot returned for processed".to_string()));
}

#[test]
fn identity_member() {
    assert_eq!(identity_from_response(ok(obj(vec![("identity", text("Node1"))]))), Ok("Node1".to_string()));
    assert_eq!(
        identity_from_response(ok(obj(vec![("identity", num(5))]))),
        Err("No identity found in RPC response".to_string())
    );
    assert_eq!(identity_from_response(empty()), Err("No identity found in RPC response".to_string()));
    assert_eq!(identity_from_response(err("e", None)), Err("RPC Error (getIdentity): e".to_string()));
}

#[test]
fn version_result() {
    assert_eq!(
        version_from_response(ok(VersionResult { solana_core: "2.0.14".to_string() })),
        Ok("2.0.14".to_string())
    );
    assert_eq!(version_from_response(empty()), Err("No result in getVersion response".to_string()));
    assert_eq!(version_from_response(err("e", None)), Err("RPC Error (getVersion): e".to_string()));
}

#[test]
fn leader_schedule_member() {
    let r = ok(obj(vec![("Other", JsonValue::Array(vec![num(1)])), ("Me", JsonValue::Array(vec![num(4), num(5), num(9)]))]));
    assert_eq!(leader_schedule_from_response(r, "Me"), Ok(vec![4, 5, 9]));
    let r = ok(obj(vec![("Me", JsonValue::Array(vec![num(4), text("5")]))]));
    assert_eq!(leader_schedule_from_response(r, "Me"), Ok(vec![]));
    let r = ok(obj(vec![("Other", JsonValue::Array(vec![num(1)]))]));
    assert_eq!(leader_schedule_from_response(r, "Me"), Ok(vec![]));
    assert_eq!(leader_schedule_from_response(empty(), "Me"), Ok(vec![]));
    assert_eq!(
        leader_schedule_from_response(err("e", None), "Me"),
        Err("RPC Error (getLeaderSchedule): e".to_string())
    );
}

#[test]
fn validator_version_from_cluster_nodes() {
    let nodes = vec![
        obj(vec![("pubkey", text("A")), ("version", text("2.0.1"))]),
        obj(vec![("pubkey", text("B")), ("version", text("0.503.2"))]),
        obj(vec![("pubkey", text("C"))]),
    ];
    assert_eq!(validator_version_from_response(ok(nodes), "B"), Ok("0.503.2".to_string()));
    let nodes = vec![obj(vec![("pubkey", text("C")), ("version", JsonValue::Null)])];
    assert_eq!(
        validator_version_from_response(ok(nodes), "C"),
        Err("No version field for node".to_string())
    );
    let nodes = vec![obj(vec![("pubkey", text("A"))])];
    assert_eq!(
        validator_version_from_response(ok(nodes), "Z"),
        Err("Validator identity not found in cluster nodes".to_string())
    );
    assert_eq!(
        validator_version_from_response(empty(), "Z"),
        Err("Validator identity not found in cluster nodes".to_string())
    );
    assert_eq!(
        validator_version_from_response(err("e", None), "Z"),
        Err("RPC Error (getClusterNodes): e".to_string())
    );
}

#[test]
fn velocity_plan_for_young_and_old_epochs() {
    assert_eq!(
        velocity_plan(10_000, 7_000),
        VelocityPlan { slots_in_epoch: 3_000, recent_slot: 8_000, epoch_slot: None }
    );
    assert_eq!(
        velocity_plan(20_000, 7_000),
        VelocityPlan { slots_in_epoch: 13_000, recent_slot: 18_000, epoch_slot: Some(7_000) }
    );
    assert_eq!(
        velocity_plan(2_000, 9_000),
        VelocityPlan { slots_in_epoch: 0, recent_slot: 0, epoch_slot: None }
    );
}
