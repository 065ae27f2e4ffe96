use epochroll::advisor::{
    advice_message, future_blocks, gap_after_first_run, group_clusters, no_blocks_message, render_workload,
    workload_points, WorkloadPoints,
};
use epochroll::clock::{
    future_date_label, hour_minute_after, month_day_time_after, offset_ok, UtcTime, UTC_MAX_SECS,
    UTC_MIN_SECS,
};
use epochroll::models::{EpochInfo, SFDPVersionRequirement, ValidatorMode, VoteAccountInfo};
use epochroll::report::{
    assess, choose_vote_pubkey, classify_health, epoch_start_slot, large_epoch_delta,
    render_table, requirement_rows, slot_lag, sync_text, timing_label, vote_pubkey_text,
    warning_text, EpochTiming, HealthState,
};

fn req(epoch: u64, agave: &str, fd: &str) -> SFDPVersionRequirement {
    SFDPVersionRequirement {
        epoch,
        agave_min_version: agave.to_string(),
        firedancer_min_version: fd.to_string(),
    }
}

fn info() -> EpochInfo {
    EpochInfo { epoch: 700, slots_in_epoch: 432000, slot_index: 32000, absolute_slot: 302432000 }
}

fn epoch0() -> UtcTime {
    UtcTime { secs: 0, nanos: 0 }
}

#[test]
fn health_classification() {
    assert_eq!(classify_health("ok"), HealthState::Healthy);
    assert_eq!(classify_health("behind:150"), HealthState::Syncing { slots: 150 });
    assert_eq!(classify_health("behind:12:34"), HealthState::Syncing { slots: 12 });
    assert_eq!(classify_health("behind:"), HealthState::Syncing { slots: 0 });
    assert_eq!(classify_health("behind:abc"), HealthState::Syncing { slots: 0 });
    assert_eq!(classify_health("behind:18446744073709551616"), HealthState::Syncing { slots: 0 });
    assert_eq!(classify_health("OK"), HealthState::Failing);
    assert_eq!(classify_health("error:connection refused"), HealthState::Failing);
    assert_eq!(classify_health("Node is unhealthy"), HealthState::Failing);
}

#[test]
fn slot_arithmetic_saturates() {
    assert_eq!(epoch_start_slot(&info()), 302400000);
    let odd = EpochInfo { epoch: 1, slots_in_epoch: 10, slot_index: 5, absolute_slot: 3 };
    assert_eq!(epoch_start_slot(&odd), 0);
    assert_eq!(slot_lag(100, 68), 32);
    assert_eq!(slot_lag(68, 100), 0);
}

#[test]
fn rows_classify_epochs_and_compliance() {
    let reqs = vec![req(690, "2.0.10", "0.400.1"), req(700, "2.0.14", "0.503.0"), req(702, "2.1.0", "0.600.0")];
    let (rows, overall) = requirement_rows(ValidatorMode::Firedancer, "0.503.20214", &info(), &reqs);
    assert!(overall);
    assert_eq!(rows.len(), 3);
    assert_eq!(rows[0].timing, EpochTiming::Past);
    assert_eq!(rows[1].timing, EpochTiming::Current);
    assert_eq!(rows[2].timing, EpochTiming::Future { slots_remaining: 400000 + 432000 });
    assert!(rows[0].compliant && rows[1].compliant && !rows[2].compliant);
    assert_eq!(rows[2].required_version, "0.600.0");
    let (_, overall) = requirement_rows(ValidatorMode::Agave, "0.503.20214", &info(), &reqs);
    assert!(!overall);
    let (rows, overall) = requirement_rows(ValidatorMode::Agave, "2.0.13", &info(), &reqs);
    assert!(!overall);
    assert!(rows[0].compliant && !rows[1].compliant);
}

#[test]
fn future_requirement_does_not_break_compliance() {
    let reqs = vec![req(700, "2.0.14", "0.503.0"), req(800, "9.0.0", "0.999.0")];
    let (_, overall) = requirement_rows(ValidatorMode::Agave, "2.0.14", &info(), &reqs);
    assert!(overall);
}

#[test]
fn table_has_fixed_columns() {
    let reqs = vec![req(690, "2.0.10", "0.400.1"), req(702, "2.1.0", "0.600.0")];
    let (rows, _) = requirement_rows(ValidatorMode::Firedancer, "0.503.20214", &info(), &reqs);
    let dates = vec!["Past".to_string(), "Jan 05 14:30".to_string()];
    let table = render_table(ValidatorMode::Firedancer, &rows, &dates);
    let mut expected = format!("{:<6} | {:<14} | {:<14} | Status\n", "Epoch", "ETA (UTC)", "FIREDANCER Req");
    expected.push_str("------------------------------------------------------------\n");
    expected.push_str(&format!("{:<6} | {:<14} | {:<14} | {}\n", 690, "Past", "0.400.1", "[ OK ]"));
    expected.push_str(&format!("{:<6} | {:<14} | {:<14} | {}\n", 702, "Jan 05 14:30", "0.600.0", "[ !! ]"));
    assert_eq!(table, expected);
    let rows: Vec<_> = Vec::new();
    let table = render_table(ValidatorMode::Agave, &rows, &Vec::new());
    assert_eq!(table, "Epoch  | ETA (UTC)      | AGAVE Req      | Status\n------------------------------------------------------------\n");
}

#[test]
fn timing_labels() {
    assert_eq!(timing_label(EpochTiming::Past), Some("Past".to_string()));
    assert_eq!(timing_label(EpochTiming::Current), Some("Current".to_string()));
    assert_eq!(timing_label(EpochTiming::Future { slots_remaining: 3 }), None);
}

#[test]
fn assessment_status_words() {
    let reqs = vec![req(700, "2.0.14", "0.503.0")];
    let a = assess(ValidatorMode::Agave, "2.0.14", &info(), &reqs, "ok");
    assert_eq!((a.status_icon.as_str(), a.status_text.as_str(), a.compliance_text.as_str()), ("🟢", "HEALTHY", "COMPLIANT"));
    assert_eq!(a.mode_label, "AGAVE");
    let a = assess(ValidatorMode::Agave, "2.0.13", &info(), &reqs, "ok");
    assert_eq!((a.status_icon.as_str(), a.status_text.as_str(), a.compliance_text.as_str()), ("🟡", "HEALTHY", "NON-COMPLIANT"));
    let a = assess(ValidatorMode::Firedancer, "0.503.1", &info(), &reqs, "behind:10");
    assert_eq!((a.status_icon.as_str(), a.status_text.as_str()), ("⏳", "SYNCING"));
    assert_eq!(a.mode_label, "FIREDANCER");
    let a = assess(ValidatorMode::Firedancer, "0.503.1", &info(), &reqs, "error:timeout");
    assert_eq!((a.status_icon.as_str(), a.status_text.as_str()), ("🔴", "RPC ERROR"));
}

#[test]
fn notes_under_the_status() {
    assert_eq!(sync_text(HealthState::Healthy, "ok", 0), "");
    assert_eq!(
        sync_text(HealthState::Syncing { slots: 150 }, "behind:150", 57),
        format!("\n🔄 *Catching Up:* `{}` slots remaining (~{})", 150, "0m 57s")
    );
    assert_eq!(sync_text(HealthState::Failing, "error:x", 0), "\n🔴 *RPC Connectivity Error:* `error:x`");
    let far = vec![req(500, "1", "0")];
    let near = vec![req(650, "1", "0")];
    let warn = "\n⚠️ *Warning:* Large Epoch Delta. Are RPC and SFDP on the same cluster?";
    assert_eq!(warning_text("s", 700, &far), format!("s{}", warn));
    assert_eq!(warning_text("s", 700, &near), "s");
    assert_eq!(warning_text("s", 700, &Vec::new()), "s");
    assert!(large_epoch_delta(0, 101));
    assert!(!large_epoch_delta(0, 100));
    assert!(large_epoch_delta(u64::MAX, 200));
    assert!(!large_epoch_delta(u64::MAX, 0));
}

#[test]
fn vote_account_choice() {
    let found = Some(VoteAccountInfo { vote_pubkey: "V".to_string(), node_pubkey: "N".to_string() });
    assert_eq!(choose_vote_pubkey(&found, &Some("C".to_string())), Some("V".to_string()));
    assert_eq!(choose_vote_pubkey(&None, &Some("C".to_string())), Some("C".to_string()));
    assert_eq!(choose_vote_pubkey(&None, &None), None);
    assert_eq!(vote_pubkey_text(&None), "Unknown");
    assert_eq!(vote_pubkey_text(&Some("V".to_string())), "V");
}

#[test]
fn calendar_labels() {
    assert_eq!(future_date_label(epoch0(), 0), "Jan 01 00:00");
    assert_eq!(future_date_label(epoch0(), 15_552_000), "Jun 30 00:00");
    assert_eq!(future_date_label(epoch0(), 15_552_001), "Jun 30, 1970");
    assert_eq!(hour_minute_after(UtcTime { secs: 1_700_000_000, nanos: 5 }, 90), "22:14");
    assert_eq!(month_day_time_after(epoch0(), UTC_MAX_SECS), "Dec 31 23:59");
    assert_eq!(month_day_time_after(epoch0(), UTC_MIN_SECS), "Jan 01 00:00");
    assert!(offset_ok(epoch0(), UTC_MAX_SECS));
    assert!(!offset_ok(epoch0(), UTC_MAX_SECS + 1));
    assert!(!offset_ok(epoch0(), UTC_MIN_SECS - 1));
    assert!(!offset_ok(UtcTime { secs: 0, nanos: 0 }, i64::MAX));
}

#[test]
fn upcoming_blocks_and_runs() {
    let blocks = future_blocks(&vec![0, 1, 2, 10, 11, 400], 1000, 1001);
    assert_eq!(blocks, vec![1002, 1010, 1011, 1400]);
    let runs = group_clusters(&blocks);
    assert_eq!(runs, vec![vec![1002], vec![1010, 1011], vec![1400]]);
    let runs = group_clusters(&vec![10, 11, 12, 20, 21, 30, 40, 41, 50, 51]);
    assert_eq!(runs, vec![vec![10, 11, 12], vec![20, 21], vec![30], vec![40, 41]]);
    let runs = group_clusters(&vec![1, 2, 5, 7, 8]);
    assert_eq!(runs, vec![vec![1, 2], vec![5], vec![7, 8]]);
    let runs = group_clusters(&vec![1, 3, 5, 7]);
    assert_eq!(runs, vec![vec![1], vec![3], vec![5], vec![7]]);
    assert_eq!(
        workload_points(&vec![vec![10, 11, 12], vec![20, 21]]),
        WorkloadPoints { next_block: 10, first_run_end: 12 }
    );
    assert_eq!(gap_after_first_run(&vec![vec![10, 11, 12], vec![20, 21]]), Some(8));
    assert_eq!(
        workload_points(&vec![vec![10]]),
        WorkloadPoints { next_block: 10, first_run_end: 10 }
    );
    assert_eq!(gap_after_first_run(&vec![vec![10]]), None);
    let runs = group_clusters(&vec![1, 3, 5, 7, 9, u64::MAX, 4]);
    assert_eq!(runs, vec![vec![1], vec![3], vec![5], vec![7]]);
}

#[test]
fn advice_texts() {
    assert!(no_blocks_message().starts_with("🚨 *ACTION REQUIRED:*"));
    let workload = render_workload(epoch0(), &vec![vec![10, 11], vec![20]], &vec![60, 3600]);
    assert_eq!(
        workload,
        "\n*Upcoming Workload:*\n• Slot `10` (2 blocks) at `00:01` UTC\n• Slot `20` (1 blocks) at `01:00` UTC"
    );
    let now_msg = advice_message(epoch0(), 30, 0, 0, "W");
    assert_eq!(now_msg, format!(
        "⚠️ *SOFTWARE UPGRADE RECOMMENDED:* You are currently non-compliant.\n✅ *Instruction:* You have a `{}` minute window. *Safe to upgrade NOW.*\n🚨 *Deadline:* You must be back online and synced by *{} UTC* to avoid missing your next assignment.{}",
        30, "00:25", "W"
    ));
    let later_msg = advice_message(epoch0(), 3, 150, 999, "W");
    assert_eq!(later_msg, format!(
        "⚠️ *SOFTWARE UPGRADE REQUIRED:* You are currently non-compliant.\n⏳ *Instruction:* DO NOT restart yet. Blocks are imminent in `{}` minutes.\n✅ *Best Action:* Wait until your current assignment ends. *Start upgrade at {} UTC.*\n💡 *Note:* The next window will be `{}` minutes long, which is safe for a Frankendancer restart.{}",
        3, "00:02", 999, "W"
    ));
}
