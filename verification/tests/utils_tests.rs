use epochroll::models::{RPCType, ValidatorMode};
use epochroll::utils::{format_duration, is_compliant, parse_version_parts};

#[test]
fn newer_patch_is_compliant() {
    assert!(is_compliant("2.0.15", "2.0.14"));
    assert!(is_compliant("2.1.0", "2.0.99"));
}

#[test]
fn equal_version_is_compliant() {
    assert!(is_compliant("2.0.14", "2.0.14"));
    assert!(is_compliant("0.503.20214", "0.503.20214"));
}

#[test]
fn older_version_is_not_compliant() {
    assert!(!is_compliant("2.0.13", "2.0.14"));
    assert!(!is_compliant("0.502.9", "0.503.0"));
}

#[test]
fn prefix_and_suffix_are_ignored() {
    assert!(is_compliant("v2.0.15-beta", "2.0.15"));
    assert!(is_compliant("vv2.0.15", "v2.0.15-rc1"));
    assert!(is_compliant("0.503.20214-abc-def", "0.503.20214"));
}

#[test]
fn different_lineages_are_never_compliant() {
    assert!(!is_compliant("0.503.2", "2.0.1"));
    assert!(!is_compliant("2.0.1", "0.503.2"));
}

#[test]
fn shorter_version_is_older() {
    assert!(!is_compliant("2.0", "2.0.0"));
    assert!(is_compliant("2.0.0", "2.0"));
}

#[test]
fn versions_without_numbers_are_not_compliant() {
    assert!(!is_compliant("", "1.0"));
    assert!(!is_compliant("1.0", ""));
    assert!(!is_compliant("Unknown", "2.0.0"));
    assert!(!is_compliant("v", "v"));
}

#[test]
fn unparseable_components_are_skipped() {
    assert_eq!(parse_version_parts("2.x.1"), vec![2, 1]);
    assert_eq!(parse_version_parts("1..2"), vec![1, 2]);
    assert_eq!(parse_version_parts("+3.4"), vec![3, 4]);
    assert_eq!(parse_version_parts("-3.4"), Vec::<u32>::new());
    assert_eq!(parse_version_parts("4294967296.1"), vec![1]);
    assert_eq!(parse_version_parts("4294967295.1"), vec![4294967295, 1]);
    assert_eq!(parse_version_parts(" 1.2"), vec![2]);
    assert!(is_compliant("4294967296.1", "1"));
}

#[test]
fn durations_drop_leading_zero_units() {
    assert_eq!(format_duration(0), "0m 0s");
    assert_eq!(format_duration(59), "0m 59s");
    assert_eq!(format_duration(3661), "1h 1m 1s");
    assert_eq!(format_duration(90061), "1d 1h 1m 1s");
    assert_eq!(format_duration(86400), "1d 0h 0m 0s");
}

#[test]
fn negative_durations_keep_their_sign() {
    assert_eq!(format_duration(-61), "-1m -1s");
    assert_eq!(format_duration(-90061), "-1m -1s");
    assert_eq!(format_duration(i64::MIN), "-30m -8s");
    assert_eq!(format_duration(i64::MAX), "106751991167300d 15h 30m 7s");
}

#[test]
fn duration_components_add_up() {
    for s in [0i64, 1, 59, 60, 3599, 3600, 86399, 86400, 1234567] {
        let text = format_duration(s);
        let mut total = 0i64;
        for part in text.split(' ') {
            let (n, unit) = part.split_at(part.len() - 1);
            let n: i64 = n.parse().unwrap();
            total += n * match unit {
                "d" => 86400,
                "h" => 3600,
                "m" => 60,
                _ => 1,
            };
        }
        assert_eq!(total, s);
    }
}

#[test]
fn validator_mode_from_setting() {
    assert_eq!(ValidatorMode::from("agave".to_string()), ValidatorMode::Agave);
    assert_eq!(ValidatorMode::from("AGAVE".to_string()), ValidatorMode::Agave);
    assert_eq!(ValidatorMode::from("firedancer".to_string()), ValidatorMode::Firedancer);
    assert_eq!(ValidatorMode::from("anything".to_string()), ValidatorMode::Firedancer);
    assert_eq!(ValidatorMode::from("".to_string()), ValidatorMode::Firedancer);
}

#[test]
fn rpc_type_from_setting() {
    assert_eq!(RPCType::from("local".to_string()), RPCType::Local);
    assert_eq!(RPCType::from("LoCaL".to_string()), RPCType::Local);
    assert_eq!(RPCType::from("remote".to_string()), RPCType::Remote);
    assert_eq!(RPCType::from("localhost".to_string()), RPCType::Remote);
}
