use epochroll::advisor::group_clusters;
use epochroll::json::{JsonNumber, JsonValue};
use epochroll::models::{RPCError, RPCResponse};
use epochroll::report::{classify_health, HealthState};
use epochroll::rpc::health_from_response;
use epochroll::utils::{is_compliant, parse_version_parts};

#[test]
fn law_compliance_reflexive_example() {
    for v in ["2.0.14", "v0.503.20214", "1", "3.2.1-rc"] {
        assert!(is_compliant(v, v), "{}", v);
    }
}

#[test]
fn law_compliance_transitive_example() {
    let (a, b, c) = ("2.1.3", "2.1.0", "2.0.9");
    assert!(is_compliant(a, b) && is_compliant(b, c) && is_compliant(a, c));
}

#[test]
fn law_lineage_example() {
    assert!(!is_compliant("0.999.9", "2.0.0"));
    assert!(!is_compliant("2.0.0", "0.999.9"));
}

#[test]
fn law_v_prefix_and_dash_suffix_examples() {
    assert_eq!(parse_version_parts("v1.18.2"), parse_version_parts("1.18.2"));
    assert_eq!(parse_version_parts("2.0.15-beta.7"), vec![2, 0, 15]);
    assert_eq!(parse_version_parts("2.0.15-beta.7"), parse_version_parts("2.0.15"));
}

#[test]
fn law_runs_partition_example() {
    let blocks = vec![5, 6, 7, 9, 12, 13];
    let runs = group_clusters(&blocks);
    let joined: Vec<u64> = runs.iter().flatten().cloned().collect();
    assert_eq!(joined, blocks);
    for r in &runs {
        assert!(!r.is_empty());
        for w in r.windows(2) {
            assert_eq!(w[1], w[0] + 1);
        }
    }
    for w in runs.windows(2) {
        assert_ne!(w[1][0], w[0].last().unwrap() + 1);
    }
}

#[test]
fn law_health_answer_read_back_example() {
    let reply: RPCResponse<String> = RPCResponse {
        result: None,
        error: Some(RPCError {
            message: "Node is behind by 77 slots".to_string(),
            data: Some(JsonValue::Object(vec![(
                "numSlotsBehind".to_string(),
                JsonValue::Number(JsonNumber::PosInt(77)),
            )])),
        }),
    };
    assert_eq!(classify_health(&health_from_response(reply)), HealthState::Syncing { slots: 77 });
    let healthy: RPCResponse<String> = RPCResponse { result: None, error: None };
    assert_eq!(classify_health(&health_from_response(healthy)), HealthState::Healthy);
}
