use epochroll::clock::UtcTime;
use epochroll::models::{SFDPVersionRequirement, ValidatorMode};
use epochroll::monitor::{sort_by_epoch, MonitorState};

fn req(epoch: u64, tag: &str) -> SFDPVersionRequirement {
    SFDPVersionRequirement {
        epoch,
        agave_min_version: tag.to_string(),
        firedancer_min_version: tag.to_string(),
    }
}

fn at(secs: i64) -> UtcTime {
    UtcTime { secs, nanos: 0 }
}

#[test]
fn sorting_is_stable() {
    let sorted = sort_by_epoch(vec![req(5, "a"), req(3, "b"), req(5, "c"), req(1, "d"), req(3, "e")]);
    let tags: Vec<(u64, &str)> = sorted.iter().map(|r| (r.epoch, r.agave_min_version.as_str())).collect();
    assert_eq!(tags, vec![(1, "d"), (3, "b"), (3, "e"), (5, "a"), (5, "c")]);
    assert!(sort_by_epoch(Vec::new()).is_empty());
}

#[test]
fn first_check_is_forced_with_short_interval() {
    let s = MonitorState::new("auto".to_string(), None, ValidatorMode::Agave, 8, at(1_700_000_000));
    assert!(s.report_due(at(1_700_000_000)));
    let s = MonitorState::new("x".to_string(), None, ValidatorMode::Agave, 24, at(1_700_000_000));
    assert!(s.report_due(at(1_700_000_000)));
    let s = MonitorState::new("x".to_string(), None, ValidatorMode::Agave, 25, at(1_700_000_000));
    assert!(!s.report_due(at(1_700_000_000)));
    assert_eq!(s.last_report_time, at(1_700_000_000 - 86400));
    assert_eq!(s.last_requirement_hash, 0);
}

#[test]
fn reports_once_per_change() {
    let mut s = MonitorState::new("x".to_string(), None, ValidatorMode::Agave, 8, at(1_700_000_000));
    let (h1, report) = s.check_requirements("[{\"epoch\":1}]", false);
    assert!(report);
    s.record_report(h1, at(1_700_000_100));
    let (h2, report) = s.check_requirements("[{\"epoch\":1}]", false);
    assert_eq!(h1, h2);
    assert!(!report);
    let (_, report) = s.check_requirements("[{\"epoch\":1}]", true);
    assert!(report);
    let (h3, report) = s.check_requirements("[{\"epoch\":2}]", false);
    assert_ne!(h1, h3);
    assert!(report);
    assert!(!s.report_due(at(1_700_000_100 + 8 * 3600 - 1)));
    assert!(s.report_due(at(1_700_000_100 + 8 * 3600)));
    assert!(s.report_due(UtcTime { secs: 1_700_000_100 + 8 * 3600, nanos: 1 }));
}

#[test]
fn identity_discovery() {
    for id in ["", "auto", "AUTO", "Unknown", "UNKNOWN"] {
        let s = MonitorState::new(id.to_string(), None, ValidatorMode::Agave, 8, at(0));
        assert!(s.needs_identity(), "{}", id);
    }
    let mut s = MonitorState::new("Node1".to_string(), None, ValidatorMode::Agave, 8, at(0));
    assert!(!s.needs_identity());
    s.adopt_identity("auto".to_string());
    assert!(s.needs_identity());
    s.adopt_identity("Node2".to_string());
    assert_eq!(s.identity, "Node2");
}
