//! The texts of the chat notifications.
use vstd::prelude::*;
use vstd::string::*;
use crate::text::{int_text, nat_text, push_i64, push_u64, str_eq};

verus! {

/// What a notification shows, with the fractional figures already rendered
/// (`progress` with two decimals, `avg_slot_time` with four).
#[derive(Debug)]
pub struct ReportFields {
    pub mode_str: String,
    pub status_icon: String,
    pub status_text: String,
    pub compliance_text: String,
    pub epoch: u64,
    pub progress: String,
    pub processed_slot: u64,
    pub slot_lag: u64,
    pub identity_bal: String,
    pub vote_bal: String,
    pub eta_str: String,
    pub time_left: String,
    pub identity: String,
    pub vote_pubkey: String,
    pub rpc_url: String,
    pub warning_text: String,
    pub avg_slot_time: String,
    pub drift_seconds: i64,
    pub current_ver: String,
    pub table: String,
}

/// `"🛡️ Solana Testnet Validator Status [<mode>]"`.
pub open spec fn title_of(r: ReportFields) -> Seq<char> {
    "🛡️ Solana Testnet Validator Status ["@ + r.mode_str@ + "]"@
}

/// The method line: velocity, clock drift and the detected version.
pub open spec fn method_line_of(r: ReportFields) -> Seq<char> {
    "Method: Hybrid + Clock Sync | Velocity: "@ + r.avg_slot_time@ + "s/slot | Drift: "@ + int_text(
        r.drift_seconds as int,
    ) + "s | Detected: "@ + r.current_ver@
}

/// The table as a code block.
pub open spec fn table_block_of(r: ReportFields) -> Seq<char> {
    "```\n"@ + r.table@ + "```"@
}

/// The title of a notification.
pub fn title(r: &ReportFields) -> (s: String)
    ensures
        s@ == title_of(*r),
{
    let mut s = String::from_str("🛡️ Solana Testnet Validator Status [");
    s.append(r.mode_str.as_str());
    s.append("]");
    s
}

/// The method line of a notification.
pub fn method_line(r: &ReportFields) -> (s: String)
    ensures
        s@ == method_line_of(*r),
{
    let mut s = String::from_str("Method: Hybrid + Clock Sync | Velocity: ");
    s.append(r.avg_slot_time.as_str());
    s.append("s/slot | Drift: ");
    push_i64(&mut s, r.drift_seconds);
    s.append("s | Detected: ");
    s.append(r.current_ver.as_str());
    s
}

/// The table as a code block.
pub fn table_block(r: &ReportFields) -> (s: String)
    ensures
        s@ == table_block_of(*r),
{
    let mut s = String::from_str("```\n");
    s.append(r.table.as_str());
    s.append("```");
    s
}

// ---------------------------------------------------------------------------
// Telegram
// ---------------------------------------------------------------------------

/// The Telegram message (Markdown).
pub open spec fn telegram_text_of(r: ReportFields) -> Seq<char> {
    "🛡️ *Solana Testnet Validator Status ["@ + r.mode_str@ + "]*\n\n*Status:* "@ + r.status_icon@
        + " `"@ + r.status_text@ + "`\n*Compliance:* `"@ + r.compliance_text@
        + "`\n*Processed Slot:* `"@ + nat_text(r.processed_slot as nat) + "`\n*Slot Lag:* `"@
        + nat_text(r.slot_lag as nat) + "`\n*Epoch:* `"@ + nat_text(r.epoch as nat)
        + "`\n*Progress:* `"@ + r.progress@ + "%`\n*Identity Bal:* `"@ + r.identity_bal@
        + "`\n*Vote Bal:* `"@ + r.vote_bal@ + "`\n\n*Ends:* `"@ + r.eta_str@ + "` UTC (`"@
        + r.time_left@ + "` left)\n*Identity:* `"@ + r.identity@ + "`\n*Vote:* `"@
        + r.vote_pubkey@ + "`\n*RPC:* `"@ + r.rpc_url@ + "`\n"@ + r.warning_text@ + "\n\n"@
        + table_block_of(r) + "\n_"@ + method_line_of(r) + "_"@
}

/// The Telegram message (see `telegram_text_of`).
pub fn telegram_text(r: &ReportFields) -> (s: String)
    ensures
        s@ == telegram_text_of(*r),
{
    let mut s = String::from_str("🛡️ *Solana Testnet Validator Status [");
    s.append(r.mode_str.as_str());
    s.append("]*\n\n*Status:* ");
    s.append(r.status_icon.as_str());
    s.append(" `");
    s.append(r.status_text.as_str());
    s.append("`\n*Compliance:* `");
    s.append(r.compliance_text.as_str());
    s.append("`\n*Processed Slot:* `");
    push_u64(&mut s, r.processed_slot);
    s.append("`\n*Slot Lag:* `");
    push_u64(&mut s, r.slot_lag);
    s.append("`\n*Epoch:* `");
    push_u64(&mut s, r.epoch);
    s.append("`\n*Progress:* `");
    s.append(r.progress.as_str());
    s.append("%`\n*Identity Bal:* `");
    s.append(r.identity_bal.as_str());
    s.append("`\n*Vote Bal:* `");
    s.append(r.vote_bal.as_str());
    s.append("`\n\n*Ends:* `");
    s.append(r.eta_str.as_str());
    s.append("` UTC (`");
    s.append(r.time_left.as_str());
    s.append("` left)\n*Identity:* `");
    s.append(r.identity.as_str());
    s.append("`\n*Vote:* `");
    s.append(r.vote_pubkey.as_str());
    s.append("`\n*RPC:* `");
    s.append(r.rpc_url.as_str());
    s.append("`\n");
    s.append(r.warning_text.as_str());
    s.append("\n\n");
    let t = table_block(r);
    s.append(t.as_str());
    s.append("\n_");
    let m = method_line(r);
    s.append(m.as_str());
    s.append("_");
    s
}

// ---------------------------------------------------------------------------
// Discord
// ---------------------------------------------------------------------------

/// The description of the Discord embed (Markdown).
pub open spec fn discord_description_of(r: ReportFields) -> Seq<char> {
    "**Status:** "@ + r.status_icon@ + " `"@ + r.status_text@ + "`\n**Compliance:** `"@
        + r.compliance_text@ + "`\n**Processed Slot:** `"@ + nat_text(r.processed_slot as nat)
        + "`\n**Slot Lag:** `"@ + nat_text(r.slot_lag as nat) + "`\n**Epoch:** `"@ + nat_text(
        r.epoch as nat,
    ) + "`\n**Progress:** `"@ + r.progress@ + "%`\n**Identity Bal:** `"@ + r.identity_bal@
        + "`\n**Vote Bal:** `"@ + r.vote_bal@ + "`\n\n**Ends:** `"@ + r.eta_str@ + "` UTC (`"@
        + r.time_left@ + "` left)\n**Identity:** `"@ + r.identity@ + "`\n**Vote:** `"@
        + r.vote_pubkey@ + "`\n**RPC:** `"@ + r.rpc_url@ + "`\n"@ + r.warning_text@
}

/// The description of the Discord embed (see `discord_description_of`).
pub fn discord_description(r: &ReportFields) -> (s: String)
    ensures
        s@ == discord_description_of(*r),
{
    let mut s = String::from_str("**Status:** ");
    s.append(r.status_icon.as_str());
    s.append(" `");
    s.append(r.status_text.as_str());
    s.append("`\n**Compliance:** `");
    s.append(r.compliance_text.as_str());
    s.append("`\n**Processed Slot:** `");
    push_u64(&mut s, r.processed_slot);
    s.append("`\n**Slot Lag:** `");
    push_u64(&mut s, r.slot_lag);
    s.append("`\n**Epoch:** `");
    push_u64(&mut s, r.epoch);
    s.append("`\n**Progress:** `");
    s.append(r.progress.as_str());
    s.append("%`\n**Identity Bal:** `");
    s.append(r.identity_bal.as_str());
    s.append("`\n**Vote Bal:** `");
    s.append(r.vote_bal.as_str());
    s.append("`\n\n**Ends:** `");
    s.append(r.eta_str.as_str());
    s.append("` UTC (`");
    s.append(r.time_left.as_str());
    s.append("` left)\n**Identity:** `");
    s.append(r.identity.as_str());
    s.append("`\n**Vote:** `");
    s.append(r.vote_pubkey.as_str());
    s.append("`\n**RPC:** `");
    s.append(r.rpc_url.as_str());
    s.append("`\n");
    s.append(r.warning_text.as_str());
    s
}

/// Green for a healthy node, red otherwise.
pub const HEALTHY_COLOR: u32 = 5763719;

pub const ALERT_COLOR: u32 = 15548997;

/// The colour of the Discord embed: green exactly when the status word is
/// `HEALTHY`.
pub fn discord_color(r: &ReportFields) -> (c: u32)
    ensures
        c == (if r.status_text@ == "HEALTHY"@ {
            HEALTHY_COLOR
        } else {
            ALERT_COLOR
        }),
{
    if str_eq(r.status_text.as_str(), "HEALTHY") {
        HEALTHY_COLOR
    } else {
        ALERT_COLOR
    }
}

// ---------------------------------------------------------------------------
// Slack
// ---------------------------------------------------------------------------

/// The texts of the Slack message: the fallback text, the header, the eight
/// status fields, the details section, the table and the context line.
#[derive(Debug)]
pub struct SlackTexts {
    pub text: String,
    pub header: String,
    pub fields: Vec<String>,
    pub details: String,
    pub table: String,
    pub context: String,
}

pub open spec fn slack_fields_of(r: ReportFields) -> Seq<Seq<char>> {
    seq![
        "*Status:* "@ + r.status_icon@ + " `"@ + r.status_text@ + "`"@,
        "*Compliance:* `"@ + r.compliance_text@ + "`"@,
        "*Processed Slot:* `"@ + nat_text(r.processed_slot as nat) + "`"@,
        "*Slot Lag:* `"@ + nat_text(r.slot_lag as nat) + "`"@,
        "*Epoch:* `"@ + nat_text(r.epoch as nat) + "`"@,
        "*Progress:* `"@ + r.progress@ + "%`"@,
        "*Identity Bal:* `"@ + r.identity_bal@ + "`"@,
        "*Vote Bal:* `"@ + r.vote_bal@ + "`"@,
    ]
}

pub open spec fn slack_details_of(r: ReportFields) -> Seq<char> {
    "*Ends:* `"@ + r.eta_str@ + "` UTC (`"@ + r.time_left@ + "` left)\n*Identity:* `"@
        + r.identity@ + "`\n*Vote:* `"@ + r.vote_pubkey@ + "`\n*RPC:* `"@ + r.rpc_url@ + "`"@
        + r.warning_text@
}

fn wrapped(before: &str, middle: &str, after: &str) -> (s: String)
    ensures
        s@ == before@ + middle@ + after@,
{
    let mut s = String::from_str(before);
    s.append(middle);
    s.append(after);
    s
}

fn wrapped_u64(before: &str, n: u64, after: &str) -> (s: String)
    ensures
        s@ == before@ + nat_text(n as nat) + after@,
{
    let mut s = String::from_str(before);
    push_u64(&mut s, n);
    s.append(after);
    s
}

/// The texts of the Slack message.
pub fn slack_texts(r: &ReportFields) -> (t: SlackTexts)
    ensures
        t.text@ == "Solana-EpochRoll ["@ + r.mode_str@ + "]: "@ + r.status_text@,
        t.header@ == title_of(*r),
        t.fields@.map_values(|f: String| f@) == slack_fields_of(*r),
        t.details@ == slack_details_of(*r),
        t.table@ == table_block_of(*r),
        t.context@ == method_line_of(*r),
{
    let mut text = String::from_str("Solana-EpochRoll [");
    text.append(r.mode_str.as_str());
    text.append("]: ");
    text.append(r.status_text.as_str());

    let mut status = String::from_str("*Status:* ");
    status.append(r.status_icon.as_str());
    status.append(" `");
    status.append(r.status_text.as_str());
    status.append("`");

    let mut fields: Vec<String> = Vec::new();
    fields.push(status);
    fields.push(wrapped("*Compliance:* `", r.compliance_text.as_str(), "`"));
    fields.push(wrapped_u64("*Processed Slot:* `", r.processed_slot, "`"));
    fields.push(wrapped_u64("*Slot Lag:* `", r.slot_lag, "`"));
    fields.push(wrapped_u64("*Epoch:* `", r.epoch, "`"));
    fields.push(wrapped("*Progress:* `", r.progress.as_str(), "%`"));
    fields.push(wrapped("*Identity Bal:* `", r.identity_bal.as_str(), "`"));
    fields.push(wrapped("*Vote Bal:* `", r.vote_bal.as_str(), "`"));

    let mut details = String::from_str("*Ends:* `");
    details.append(r.eta_str.as_str());
    details.append("` UTC (`");
    details.append(r.time_left.as_str());
    details.append("` left)\n*Identity:* `");
    details.append(r.identity.as_str());
    details.append("`\n*Vote:* `");
    details.append(r.vote_pubkey.as_str());
    details.append("`\n*RPC:* `");
    details.append(r.rpc_url.as_str());
    details.append("`");
    details.append(r.warning_text.as_str());

    let t = SlackTexts {
        text,
        header: title(r),
        fields,
        details,
        table: table_block(r),
        context: method_line(r),
    };
    assert(t.fields@.map_values(|f: String| f@) =~= slack_fields_of(*r));
    t
}

} // verus!
