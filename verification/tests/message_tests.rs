use epochroll::message::{
    discord_color, discord_description, method_line, slack_texts, table_block, telegram_text,
    title, ReportFields, ALERT_COLOR, HEALTHY_COLOR,
};

fn fields(status_text: &str) -> ReportFields {
    ReportFields {
        mode_str: "AGAVE".to_string(),
        status_icon: "🟢".to_string(),
        status_text: status_text.to_string(),
        compliance_text: "COMPLIANT".to_string(),
        epoch: 700,
        progress: "12.50".to_string(),
        processed_slot: 302432000,
        slot_lag: 32,
        identity_bal: "1.25 SOL".to_string(),
        vote_bal: "N/A".to_string(),
        eta_str: "Jan 05 14:30".to_string(),
        time_left: "1d 2h 3m 4s".to_string(),
        identity: "Node1".to_string(),
        vote_pubkey: "Vote1".to_string(),
        rpc_url: "http://localhost:8899".to_string(),
        warning_text: "\nW".to_string(),
        avg_slot_time: "0.4000".to_string(),
        drift_seconds: -3,
        current_ver: "2.0.14".to_string(),
        table: "T\n".to_string(),
    }
}

#[test]
fn telegram_message_layout() {
    let d = fields("HEALTHY");
    let expected = format!(
        "🛡️ *Solana Testnet Validator Status [{}]*\n\n\
        *Status:* {} `{}`\n\
        *Compliance:* `{}`\n\
        *Processed Slot:* `{}`\n\
        *Slot Lag:* `{}`\n\
        *Epoch:* `{}`\n\
        *Progress:* `{}%`\n\
        *Identity Bal:* `{}`\n\
        *Vote Bal:* `{}`\n\n\
        *Ends:* `{}` UTC (`{}` left)\n\
        *Identity:* `{}`\n\
        *Vote:* `{}`\n\
        *RPC:* `{}`\n\
        {}\n\n\
        ```\n{}```\n\
        _Method: Hybrid + Clock Sync | Velocity: {}s/slot | Drift: {}s | Detected: {}_",
        d.mode_str, d.status_icon, d.status_text, d.compliance_text,
        d.processed_slot, d.slot_lag, d.epoch, d.progress,
        d.identity_bal, d.vote_bal, d.eta_str, d.time_left,
        d.identity, d.vote_pubkey, d.rpc_url, d.warning_text,
        d.table, d.avg_slot_time, d.drift_seconds, d.current_ver
    );
    assert_eq!(telegram_text(&d), expected);
}

#[test]
fn discord_message_layout() {
    let d = fields("SYNCING");
    let expected = format!(
        "**Status:** {} `{}`\n\
        **Compliance:** `{}`\n\
        **Processed Slot:** `{}`\n\
        **Slot Lag:** `{}`\n\
        **Epoch:** `{}`\n\
        **Progress:** `{}%`\n\
        **Identity Bal:** `{}`\n\
        **Vote Bal:** `{}`\n\n\
        **Ends:** `{}` UTC (`{}` left)\n\
        **Identity:** `{}`\n\
        **Vote:** `{}`\n\
        **RPC:** `{}`\n\
        {}",
        d.status_icon, d.status_text, d.compliance_text,
        d.processed_slot, d.slot_lag, d.epoch, d.progress,
        d.identity_bal, d.vote_bal, d.eta_str, d.time_left,
        d.identity, d.vote_pubkey, d.rpc_url, d.warning_text
    );
    assert_eq!(discord_description(&d), expected);
    assert_eq!(discord_color(&d), ALERT_COLOR);
    assert_eq!(discord_color(&fields("HEALTHY")), HEALTHY_COLOR);
    assert_eq!(title(&d), "🛡️ Solana Testnet Validator Status [AGAVE]");
    assert_eq!(table_block(&d), "```\nT\n```");
    assert_eq!(
        method_line(&d),
        "Method: Hybrid + Clock Sync | Velocity: 0.4000s/slot | Drift: -3s | Detected: 2.0.14"
    );
}

#[test]
fn slack_message_texts() {
    let d = fields("HEALTHY");
    let t = slack_texts(&d);
    assert_eq!(t.text, "Solana-EpochRoll [AGAVE]: HEALTHY");
    assert_eq!(t.header, "🛡️ Solana Testnet Validator Status [AGAVE]");
    assert_eq!(
        t.fields,
        vec![
            "*Status:* 🟢 `HEALTHY`".to_string(),
            "*Compliance:* `COMPLIANT`".to_string(),
            "*Processed Slot:* `302432000`".to_string(),
            "*Slot Lag:* `32`".to_string(),
            "*Epoch:* `700`".to_string(),
            "*Progress:* `12.50%`".to_string(),
            "*Identity Bal:* `1.25 SOL`".to_string(),
            "*Vote Bal:* `N/A`".to_string(),
        ]
    );
    assert_eq!(
        t.details,
        "*Ends:* `Jan 05 14:30` UTC (`1d 2h 3m 4s` left)\n*Identity:* `Node1`\n*Vote:* `Vote1`\n*RPC:* `http://localhost:8899`\nW"
    );
    assert_eq!(t.table, "```\nT\n```");
    assert_eq!(t.context, method_line(&d));
}
