//! The status report: node health, compliance with each requirement, the
//! requirement table and the summary lines.
use vstd::prelude::*;
use vstd::string::*;
use crate::models::{EpochInfo, SFDPVersionRequirement, ValidatorMode, VoteAccountInfo};
use crate::models::RPCError;
use crate::json::{json_get, json_u64};
use crate::rpc::health_text;
use crate::text::{chars_of, digit_char, nat_text, pad_right, push_padded, push_u64, str_eq, u64_text};
use crate::utils::{
    all_digits, compliant, digits_value, duration_text, law_duration_text_shows_seconds,
    shows_duration, is_digit, parse_unsigned, format_duration, index_of_or_len, is_compliant, parse_u64,
    parse_unsigned_range,
};

verus! {

// ---------------------------------------------------------------------------
// Slots
// ---------------------------------------------------------------------------

/// `a - b`, or zero when `b` is larger.
pub open spec fn saturating_diff(a: u64, b: u64) -> u64 {
    if a >= b {
        (a - b) as u64
    } else {
        0
    }
}

/// The first slot of the current epoch.
pub fn epoch_start_slot(info: &EpochInfo) -> (s: u64)
    ensures
        s == saturating_diff(info.absolute_slot, info.slot_index),
{
    if info.absolute_slot >= info.slot_index {
        info.absolute_slot - info.slot_index
    } else {
        0
    }
}

/// How far the finalized slot trails the processed one.
pub fn slot_lag(processed_slot: u64, finalized_slot: u64) -> (lag: u64)
    ensures
        lag == saturating_diff(processed_slot, finalized_slot),
{
    if processed_slot >= finalized_slot {
        processed_slot - finalized_slot
    } else {
        0
    }
}

// ---------------------------------------------------------------------------
// Health
// ---------------------------------------------------------------------------

/// The node's health as the report shows it.
#[derive(Debug, Clone, Copy, PartialEq, Eq, Structural)]
pub enum HealthState {
    /// The node answered `ok`.
    Healthy,
    /// The node is catching up, `slots` behind.
    Syncing { slots: u64 },
    /// Any other answer, or no answer.
    Failing,
}

pub open spec fn has_prefix(s: Seq<char>, p: Seq<char>) -> bool {
    p.len() <= s.len() && s.take(p.len() as int) == p
}

/// The health that a raw health text denotes: `ok`; `behind:<n>` (with `n`
/// the text up to the next `:`, read as zero when it is not a number); or a
/// failure.
pub open spec fn health_of(raw: Seq<char>) -> HealthState {
    if raw == "ok"@ {
        HealthState::Healthy
    } else if has_prefix(raw, "behind:"@) {
        let rest = raw.skip("behind:"@.len() as int);
        let field = rest.take(index_of_or_len(rest, ':') as int);
        HealthState::Syncing {
            slots: match parse_u64(field) {
                Some(n) => n,
                None => 0,
            },
        }
    } else {
        HealthState::Failing
    }
}

/// Whether `s` starts with `p`.
pub fn starts_with(s: &str, p: &str) -> (b: bool)
    ensures
        b == has_prefix(s@, p@),
{
    let x = chars_of(s);
    let y = chars_of(p);
    if y.len() > x.len() {
        return false;
    }
    let mut i: usize = 0;
    while i < y.len()
        invariant
            x@ == s@,
            y@ == p@,
            y.len() <= x.len(),
            i <= y.len(),
            forall|j: int| 0 <= j < i ==> x@[j] == y@[j],
        decreases y.len() - i,
    {
        if x[i] != y[i] {
            assert(s@.take(p@.len() as int)[i as int] != p@[i as int]);
            return false;
        }
        i = i + 1;
    }
    assert(s@.take(p@.len() as int) =~= p@);
    true
}

/// Classifies the raw health text of the node (see `health_of`).
pub fn classify_health(raw: &str) -> (h: HealthState)
    ensures
        h == health_of(raw@),
{
    if str_eq(raw, "ok") {
        return HealthState::Healthy;
    }
    if !starts_with(raw, "behind:") {
        return HealthState::Failing;
    }
    let cs = chars_of(raw);
    let p = chars_of("behind:");
    let start = p.len();
    let mut end = start;
    while end < cs.len() && cs[end] != ':'
        invariant
            cs@ == raw@,
            start <= end <= cs@.len(),
            forall|j: int| start <= j < end ==> cs@[j] != ':',
        decreases cs.len() - end,
    {
        end = end + 1;
    }
    let ghost rest = raw@.skip(start as int);
    proof {
        assert forall|j: int| 0 <= j < end - start implies rest[j] != ':' by {
            assert(rest[j] == cs@[start + j]);
        }
        lemma_first_index(rest, ':', end - start);
    }
    assert(rest.take(end - start) =~= cs@.subrange(start as int, end as int));
    let slots = match parse_unsigned_range(&cs, start, end, 0xffff_ffff_ffff_ffff) {
        Some(n) => n,
        None => 0,
    };
    HealthState::Syncing { slots }
}

proof fn lemma_first_index(s: Seq<char>, c: char, k: int)
    requires
        0 <= k <= s.len(),
        forall|j: int| 0 <= j < k ==> s[j] != c,
        k == s.len() || s[k] == c,
    ensures
        index_of_or_len(s, c) == k,
    decreases k,
{
    if k > 0 {
        lemma_first_index(s.drop_first(), c, k - 1);
    }
}

// ---------------------------------------------------------------------------
// Status lines
// ---------------------------------------------------------------------------

/// The name of the validator client in upper case.
pub open spec fn mode_label(mode: ValidatorMode) -> Seq<char> {
    match mode {
        ValidatorMode::Agave => "AGAVE"@,
        ValidatorMode::Firedancer => "FIREDANCER"@,
    }
}

/// The validator client's name as the report shows it.
pub fn mode_text(mode: ValidatorMode) -> (s: String)
    ensures
        s@ == mode_label(mode),
{
    match mode {
        ValidatorMode::Agave => String::from_str("AGAVE"),
        ValidatorMode::Firedancer => String::from_str("FIREDANCER"),
    }
}

/// The status icon: green when healthy and compliant, yellow when healthy
/// but not compliant, an hourglass while syncing, red on failure.
pub open spec fn status_icon_of(health: HealthState, compliant: bool) -> Seq<char> {
    match health {
        HealthState::Healthy => if compliant {
            "🟢"@
        } else {
            "🟡"@
        },
        HealthState::Syncing { .. } => "⏳"@,
        HealthState::Failing => "🔴"@,
    }
}

/// A failing node is always shown red, a syncing one with the hourglass,
/// green only for a healthy compliant node, and yellow exactly for a healthy
/// node that is not compliant.
pub proof fn law_status_icon_colours(health: HealthState, compliant: bool)
    ensures
        health == HealthState::Failing ==> status_icon_of(health, compliant) == "🔴"@,
        health is Syncing ==> status_icon_of(health, compliant) == "⏳"@,
        (status_icon_of(health, compliant) == "🟢"@) == (health == HealthState::Healthy
            && compliant),
        (status_icon_of(health, compliant) == "🟡"@) == (health == HealthState::Healthy
            && !compliant),
{
    reveal_strlit("🟢");
    reveal_strlit("🟡");
    reveal_strlit("⏳");
    reveal_strlit("🔴");
    assert("🟡"@[0] != "🟢"@[0]);
    assert("⏳"@[0] != "🟢"@[0]);
    assert("🔴"@[0] != "🟢"@[0]);
    assert("⏳"@[0] != "🟡"@[0]);
    assert("🔴"@[0] != "🟡"@[0]);
}

/// The status icon of the report (see `status_icon_of`).
pub fn status_icon(health: HealthState, compliant: bool) -> (s: String)
    ensures
        s@ == status_icon_of(health, compliant),
{
    match health {
        HealthState::Healthy => if compliant {
            String::from_str("🟢")
        } else {
            String::from_str("🟡")
        },
        HealthState::Syncing { .. } => String::from_str("⏳"),
        HealthState::Failing => String::from_str("🔴"),
    }
}

pub open spec fn status_text_of(health: HealthState) -> Seq<char> {
    match health {
        HealthState::Healthy => "HEALTHY"@,
        HealthState::Syncing { .. } => "SYNCING"@,
        HealthState::Failing => "RPC ERROR"@,
    }
}

/// The status word of the report.
pub fn status_text(health: HealthState) -> (s: String)
    ensures
        s@ == status_text_of(health),
{
    match health {
        HealthState::Healthy => String::from_str("HEALTHY"),
        HealthState::Syncing { .. } => String::from_str("SYNCING"),
        HealthState::Failing => String::from_str("RPC ERROR"),
    }
}

pub open spec fn compliance_text_of(compliant: bool) -> Seq<char> {
    if compliant {
        "COMPLIANT"@
    } else {
        "NON-COMPLIANT"@
    }
}

/// The compliance word of the report.
pub fn compliance_text(compliant: bool) -> (s: String)
    ensures
        s@ == compliance_text_of(compliant),
{
    if compliant {
        String::from_str("COMPLIANT")
    } else {
        String::from_str("NON-COMPLIANT")
    }
}

// ---------------------------------------------------------------------------
// Requirements
// ---------------------------------------------------------------------------

/// When a requirement applies relative to the current epoch.
#[derive(Debug, Clone, Copy, PartialEq, Eq, Structural)]
pub enum EpochTiming {
    Past,
    Current,
    /// A later epoch, which starts after `slots_remaining` more slots.
    Future { slots_remaining: u64 },
}

/// One line of the requirement table.
#[derive(Debug)]
pub struct RequirementRow {
    pub epoch: u64,
    pub required_version: String,
    pub compliant: bool,
    pub timing: EpochTiming,
}

/// The minimum version that applies to the node's client.
pub open spec fn required_version_of(mode: ValidatorMode, r: SFDPVersionRequirement) -> Seq<char> {
    match mode {
        ValidatorMode::Agave => r.agave_min_version@,
        ValidatorMode::Firedancer => r.firedancer_min_version@,
    }
}

/// Slots left in the current epoch.
pub open spec fn slots_left(info: EpochInfo) -> int {
    info.slots_in_epoch - info.slot_index
}

/// Slots until epoch `e` (after the current one) starts: the rest of the
/// current epoch and the whole epochs in between.
pub open spec fn slots_until(info: EpochInfo, e: u64) -> int {
    slots_left(info) + (e - info.epoch - 1) * info.slots_in_epoch
}

pub open spec fn timing_of(info: EpochInfo, e: u64) -> EpochTiming {
    if e < info.epoch {
        EpochTiming::Past
    } else if e == info.epoch {
        EpochTiming::Current
    } else {
        EpochTiming::Future { slots_remaining: slots_until(info, e) as u64 }
    }
}

/// The counts that the requirement table computes fit their type: the slot
/// index lies within the epoch and every later requirement starts within
/// `u64` slots.
pub open spec fn rows_computable(info: EpochInfo, reqs: Seq<SFDPVersionRequirement>) -> bool {
    &&& info.slot_index <= info.slots_in_epoch
    &&& forall|i: int|
        0 <= i < reqs.len() && (#[trigger] reqs[i]).epoch > info.epoch ==> slots_until(
            info,
            reqs[i].epoch,
        ) <= u64::MAX
}

/// The node is compliant overall when it meets every requirement that is in
/// force, that is of the current epoch or earlier.
pub open spec fn overall_compliant(
    mode: ValidatorMode,
    current: Seq<char>,
    info: EpochInfo,
    reqs: Seq<SFDPVersionRequirement>,
) -> bool {
    forall|i: int|
        0 <= i < reqs.len() && (#[trigger] reqs[i]).epoch <= info.epoch ==> compliant(
            current,
            required_version_of(mode, reqs[i]),
        )
}

pub open spec fn row_matches(
    row: RequirementRow,
    mode: ValidatorMode,
    current: Seq<char>,
    info: EpochInfo,
    r: SFDPVersionRequirement,
) -> bool {
    &&& row.epoch == r.epoch
    &&& row.required_version@ == required_version_of(mode, r)
    &&& row.compliant == compliant(current, required_version_of(mode, r))
    &&& row.timing == timing_of(info, r.epoch)
}

/// When requirements come due: earlier epochs are past, the current epoch is
/// current, the next epoch starts once the slots left in this one have
/// passed, and each later epoch starts exactly one epoch's worth of slots
/// after the one before it.
pub proof fn law_epoch_timing(info: EpochInfo, e: u64)
    requires
        info.slot_index <= info.slots_in_epoch,
        e > info.epoch ==> (e - info.epoch + 1) * info.slots_in_epoch <= u64::MAX,
        e < u64::MAX,
    ensures
        e < info.epoch ==> timing_of(info, e) == EpochTiming::Past,
        e == info.epoch ==> timing_of(info, e) == EpochTiming::Current,
        e == info.epoch ==> timing_of(info, (e + 1) as u64) == (EpochTiming::Future {
            slots_remaining: (info.slots_in_epoch - info.slot_index) as u64,
        }),
        e > info.epoch ==> (timing_of(info, e) matches EpochTiming::Future { slots_remaining: a }
            && timing_of(info, (e + 1) as u64) matches EpochTiming::Future {
            slots_remaining: b,
        } && b == a + info.slots_in_epoch),
{
    if e > info.epoch {
        let d: int = e - info.epoch;
        let n: int = info.slots_in_epoch as int;
        let left: int = n - info.slot_index;
        assert(d * n == (d - 1) * n + n) by (nonlinear_arith);
        assert(left + d * n <= (d + 1) * n) by (nonlinear_arith)
            requires
                left <= n,
        ;
        assert((d - 1) * n >= 0) by (nonlinear_arith)
            requires
                d >= 1,
                n >= 0,
        ;
    } else if e == info.epoch {
        let e1 = (e + 1) as u64;
        assert(e1 - info.epoch - 1 == 0);
    }
}

/// The table lines for the requirements, in their order, and whether the
/// node is compliant overall.
pub fn requirement_rows(
    mode: ValidatorMode,
    current_ver: &str,
    info: &EpochInfo,
    reqs: &Vec<SFDPVersionRequirement>,
) -> (res: (Vec<RequirementRow>, bool))
    requires
        rows_computable(*info, reqs@),
    ensures
        res.0@.len() == reqs@.len(),
        forall|i: int|
            0 <= i < reqs@.len() ==> row_matches(
                #[trigger] res.0@[i],
                mode,
                current_ver@,
                *info,
                reqs@[i],
            ),
        forall|i: int|
            0 <= i < reqs@.len() ==> (#[trigger] res.0@[i]).timing == timing_of(
                *info,
                reqs@[i].epoch,
            ),
        res.1 == overall_compliant(mode, current_ver@, *info, reqs@),
        res.1 == (forall|i: int|
            0 <= i < res.0@.len() && !((#[trigger] res.0@[i]).timing is Future)
                ==> res.0@[i].compliant),
{
    let left = info.slots_in_epoch - info.slot_index;
    let mut rows: Vec<RequirementRow> = Vec::new();
    let mut overall = true;
    let mut i: usize = 0;
    while i < reqs.len()
        invariant
            rows_computable(*info, reqs@),
            left == slots_left(*info),
            i <= reqs@.len(),
            rows@.len() == i,
            forall|j: int|
                0 <= j < i ==> row_matches(#[trigger] rows@[j], mode, current_ver@, *info, reqs@[j]),
            overall == (forall|j: int|
                0 <= j < i && (#[trigger] reqs@[j]).epoch <= info.epoch ==> compliant(
                    current_ver@,
                    required_version_of(mode, reqs@[j]),
                )),
        decreases reqs.len() - i,
    {
        let r = &reqs[i];
        let req_ver: &str = match mode {
            ValidatorMode::Agave => r.agave_min_version.as_str(),
            ValidatorMode::Firedancer => r.firedancer_min_version.as_str(),
        };
        let ok = is_compliant(current_ver, req_ver);
        if r.epoch <= info.epoch && !ok {
            overall = false;
        }
        let timing = if r.epoch < info.epoch {
            EpochTiming::Past
        } else if r.epoch == info.epoch {
            EpochTiming::Current
        } else {
            assert(slots_until(*info, reqs@[i as int].epoch) <= u64::MAX);
            let diff = r.epoch - info.epoch;
            assert((diff - 1) * info.slots_in_epoch <= u64::MAX) by (nonlinear_arith)
                requires
                    left + (diff - 1) * info.slots_in_epoch <= u64::MAX,
                    left >= 0,
                    diff >= 1,
            ;
            let whole = (diff - 1) * info.slots_in_epoch;
            EpochTiming::Future { slots_remaining: left + whole }
        };
        rows.push(
            RequirementRow {
                epoch: r.epoch,
                required_version: String::from_str(req_ver),
                compliant: ok,
                timing,
            },
        );
        i = i + 1;
    }
    assert forall|j: int| 0 <= j < rows@.len() implies ((#[trigger] rows@[j]).timing is Future)
        == (reqs@[j].epoch > info.epoch) by {
        assert(row_matches(rows@[j], mode, current_ver@, *info, reqs@[j]));
    }
    if overall {
        assert forall|j: int|
            0 <= j < rows@.len() && !((#[trigger] rows@[j]).timing is Future) implies rows@[j].compliant by {
            assert(row_matches(rows@[j], mode, current_ver@, *info, reqs@[j]));
            assert(reqs@[j].epoch <= info.epoch);
        }
    } else {
        let ghost j = choose|j: int|
            0 <= j < reqs@.len() && (#[trigger] reqs@[j]).epoch <= info.epoch && !compliant(
                current_ver@,
                required_version_of(mode, reqs@[j]),
            );
        assert(row_matches(rows@[j], mode, current_ver@, *info, reqs@[j]));
        assert(!(rows@[j].timing is Future) && !rows@[j].compliant);
    }
    (rows, overall)
}

/// The date column of a past or current requirement; a future one is dated
/// by the estimate of when its epoch starts.
pub fn timing_label(timing: EpochTiming) -> (s: Option<String>)
    ensures
        match timing {
            EpochTiming::Past => s matches Some(t) && t@ == "Past"@,
            EpochTiming::Current => s matches Some(t) && t@ == "Current"@,
            EpochTiming::Future { .. } => s is None,
        },
{
    match timing {
        EpochTiming::Past => Some(String::from_str("Past")),
        EpochTiming::Current => Some(String::from_str("Current")),
        EpochTiming::Future { .. } => None,
    }
}

// ---------------------------------------------------------------------------
// The requirement table
// ---------------------------------------------------------------------------

pub open spec fn status_mark(ok: bool) -> Seq<char> {
    if ok {
        "[ OK ]"@
    } else {
        "[ !! ]"@
    }
}

/// `"{:<6} | {:<14} | {:<14} | Status\n"` with the column titles.
pub open spec fn table_header(mode: ValidatorMode) -> Seq<char> {
    pad_right("Epoch"@, 6) + " | "@ + pad_right("ETA (UTC)"@, 14) + " | "@ + pad_right(
        mode_label(mode) + " Req"@,
        14,
    ) + " | Status\n"@
}

pub open spec fn table_rule() -> Seq<char> {
    "------------------------------------------------------------\n"@
}

/// `"{:<6} | {:<14} | {:<14} | {}\n"` with epoch, date, version and mark.
pub open spec fn table_line(row: RequirementRow, date: Seq<char>) -> Seq<char> {
    pad_right(nat_text(row.epoch as nat), 6) + " | "@ + pad_right(date, 14) + " | "@ + pad_right(
        row.required_version@,
        14,
    ) + " | "@ + status_mark(row.compliant) + "\n"@
}

pub open spec fn table_lines(rows: Seq<RequirementRow>, dates: Seq<Seq<char>>) -> Seq<char>
    decreases rows.len(),
{
    if rows.len() == 0 {
        Seq::empty()
    } else {
        table_lines(rows.drop_last(), dates.take(rows.len() - 1)) + table_line(
            rows.last(),
            dates[rows.len() - 1],
        )
    }
}

/// The requirement table: header, rule, then one line per row with its
/// date label `dates[i]`.
pub open spec fn table_text(
    mode: ValidatorMode,
    rows: Seq<RequirementRow>,
    dates: Seq<Seq<char>>,
) -> Seq<char> {
    table_header(mode) + table_rule() + table_lines(rows, dates)
}

fn push_table_line(out: &mut String, row: &RequirementRow, date: &str)
    ensures
        final(out)@ == old(out)@ + table_line(*row, date@),
{
    let epoch_text = u64_text(row.epoch);
    push_padded(out, epoch_text.as_str(), 6);
    out.append(" | ");
    push_padded(out, date, 14);
    out.append(" | ");
    push_padded(out, row.required_version.as_str(), 14);
    out.append(" | ");
    if row.compliant {
        out.append("[ OK ]");
    } else {
        out.append("[ !! ]");
    }
    out.append("\n");
    assert(final(out)@ =~= old(out)@ + table_line(*row, date@));
}

/// Renders the requirement table.
pub fn render_table(mode: ValidatorMode, rows: &Vec<RequirementRow>, dates: &Vec<String>) -> (t:
    String)
    requires
        dates@.len() == rows@.len(),
    ensures
        t@ == table_text(mode, rows@, dates@.map_values(|d: String| d@)),
{
    let ghost ds = dates@.map_values(|d: String| d@);
    let mut out = String::new();
    push_padded(&mut out, "Epoch", 6);
    out.append(" | ");
    push_padded(&mut out, "ETA (UTC)", 14);
    out.append(" | ");
    let mut title = mode_text(mode);
    title.append(" Req");
    push_padded(&mut out, title.as_str(), 14);
    out.append(" | Status\n");
    out.append("------------------------------------------------------------\n");
    assert(out@ =~= table_header(mode) + table_rule());
    let mut i: usize = 0;
    while i < rows.len()
        invariant
            dates@.len() == rows@.len(),
            ds == dates@.map_values(|d: String| d@),
            i <= rows@.len(),
            out@ == table_header(mode) + table_rule() + table_lines(
                rows@.take(i as int),
                ds.take(i as int),
            ),
        decreases rows.len() - i,
    {
        let ghost before = out@;
        push_table_line(&mut out, &rows[i], dates[i].as_str());
        proof {
            let rs = rows@.take(i + 1);
            let dt = ds.take(i + 1);
            assert(rs.drop_last() =~= rows@.take(i as int));
            assert(dt.take(rs.len() - 1) =~= ds.take(i as int));
            assert(rs.last() == rows@[i as int]);
            assert(dt[rs.len() - 1] == dates@[i as int]@);
            assert(out@ =~= before + table_line(rows@[i as int], dates@[i as int]@));
        }
        i = i + 1;
    }
    assert(rows@.take(rows@.len() as int) =~= rows@);
    assert(ds.take(rows@.len() as int) =~= ds);
    out
}

// ---------------------------------------------------------------------------
// Notes under the status
// ---------------------------------------------------------------------------

/// The note on the node's health: nothing when healthy; the slots left to
/// catch up and the estimated time (`eta_secs` seconds) while syncing; the
/// raw answer on failure.
pub open spec fn sync_note(health: HealthState, raw: Seq<char>, eta_secs: i64) -> Seq<char> {
    match health {
        HealthState::Healthy => Seq::empty(),
        HealthState::Syncing { slots } => "\n🔄 *Catching Up:* `"@ + nat_text(slots as nat)
            + "` slots remaining (~"@ + duration_text(eta_secs as int) + ")"@,
        HealthState::Failing => "\n🔴 *RPC Connectivity Error:* `"@ + raw + "`"@,
    }
}

/// While syncing, the note names the slots left and an estimate whose
/// rendered days, hours, minutes and seconds add up to the whole estimate.
pub proof fn law_sync_note_shows_whole_eta(slots: u64, raw: Seq<char>, eta_secs: i64)
    requires
        eta_secs >= 0,
    ensures
        exists|t: Seq<char>|
            #![trigger shows_duration(t, eta_secs as int)]
            shows_duration(t, eta_secs as int) && sync_note(HealthState::Syncing { slots }, raw, eta_secs)
                == "\n🔄 *Catching Up:* `"@ + nat_text(slots as nat) + "` slots remaining (~"@ + t
                + ")"@,
        sync_note(HealthState::Healthy, raw, eta_secs).len() == 0,
        sync_note(HealthState::Failing, raw, eta_secs) == "\n🔴 *RPC Connectivity Error:* `"@ + raw
            + "`"@,
{
    law_duration_text_shows_seconds(eta_secs as int);
    let t = duration_text(eta_secs as int);
    assert(shows_duration(t, eta_secs as int));
}

/// The note on the node's health (see `sync_note`).
pub fn sync_text(health: HealthState, raw: &str, eta_secs: i64) -> (s: String)
    ensures
        s@ == sync_note(health, raw@, eta_secs),
{
    match health {
        HealthState::Healthy => String::new(),
        HealthState::Syncing { slots } => {
            let mut m = String::from_str("\n🔄 *Catching Up:* `");
            push_u64(&mut m, slots);
            m.append("` slots remaining (~");
            let d = format_duration(eta_secs);
            m.append(d.as_str());
            m.append(")");
            m
        },
        HealthState::Failing => {
            let mut m = String::from_str("\n🔴 *RPC Connectivity Error:* `");
            m.append(raw);
            m.append("`");
            m
        },
    }
}

/// A `u64` read as `i64` by a cast: values past `i64::MAX` wrap around to
/// negative numbers.
pub open spec fn wrap_i64(x: u64) -> int {
    if x <= i64::MAX {
        x as int
    } else {
        x - 0x1_0000_0000_0000_0000
    }
}

/// The signed distance between two epochs, each read as `i64`.
pub open spec fn epoch_delta(a: u64, b: u64) -> int {
    wrap_i64(a) - wrap_i64(b)
}

/// The distance can be taken and its magnitude computed in `i64`.
pub open spec fn delta_computable(a: u64, b: u64) -> bool {
    i64::MIN < epoch_delta(a, b) <= i64::MAX
}

/// More than this many epochs between the node's cluster and the
/// requirements suggests that they come from different clusters.
pub const MAX_EPOCH_DELTA: i64 = 100;

/// Whether epoch `a` of the node and epoch `b` of the first requirement are
/// more than `MAX_EPOCH_DELTA` apart.
pub fn large_epoch_delta(a: u64, b: u64) -> (r: bool)
    requires
        delta_computable(a, b),
    ensures
        r == (epoch_delta(a, b) > MAX_EPOCH_DELTA || epoch_delta(a, b) < -MAX_EPOCH_DELTA),
{
    let x: i128 = if a <= 0x7fff_ffff_ffff_ffff {
        a as i128
    } else {
        a as i128 - 0x1_0000_0000_0000_0000
    };
    let y: i128 = if b <= 0x7fff_ffff_ffff_ffff {
        b as i128
    } else {
        b as i128 - 0x1_0000_0000_0000_0000
    };
    let d = x - y;
    d > 100 || d < -100
}

pub open spec fn cluster_warning() -> Seq<char> {
    "\n⚠️ *Warning:* Large Epoch Delta. Are RPC and SFDP on the same cluster?"@
}

/// The notes of the report: the health note, then a warning when the first
/// requirement is far from the node's epoch.
pub open spec fn warning_note(
    sync: Seq<char>,
    epoch: u64,
    reqs: Seq<SFDPVersionRequirement>,
) -> Seq<char> {
    if reqs.len() > 0 && (epoch_delta(epoch, reqs[0].epoch) > MAX_EPOCH_DELTA || epoch_delta(
        epoch,
        reqs[0].epoch,
    ) < -MAX_EPOCH_DELTA) {
        sync + cluster_warning()
    } else {
        sync
    }
}

/// The notes of the report (see `warning_note`).
pub fn warning_text(sync: &str, epoch: u64, reqs: &Vec<SFDPVersionRequirement>) -> (s: String)
    requires
        reqs@.len() > 0 ==> delta_computable(epoch, reqs@[0].epoch),
    ensures
        s@ == warning_note(sync@, epoch, reqs@),
{
    let mut m = String::from_str(sync);
    if reqs.len() > 0 && large_epoch_delta(epoch, reqs[0].epoch) {
        m.append("\n⚠️ *Warning:* Large Epoch Delta. Are RPC and SFDP on the same cluster?");
    }
    m
}

// ---------------------------------------------------------------------------
// The assessment behind a report
// ---------------------------------------------------------------------------

/// What the report states about the node, apart from balances and estimates.
#[derive(Debug)]
pub struct Assessment {
    pub health: HealthState,
    pub rows: Vec<RequirementRow>,
    pub compliant: bool,
    pub mode_label: String,
    pub status_icon: String,
    pub status_text: String,
    pub compliance_text: String,
}

/// Assesses a node running `current_ver` in `mode`, whose raw health text is
/// `raw_health`, against the requirements `reqs` at epoch `info`.
pub fn assess(
    mode: ValidatorMode,
    current_ver: &str,
    info: &EpochInfo,
    reqs: &Vec<SFDPVersionRequirement>,
    raw_health: &str,
) -> (a: Assessment)
    requires
        rows_computable(*info, reqs@),
    ensures
        a.health == health_of(raw_health@),
        a.rows@.len() == reqs@.len(),
        forall|i: int|
            0 <= i < reqs@.len() ==> row_matches(
                #[trigger] a.rows@[i],
                mode,
                current_ver@,
                *info,
                reqs@[i],
            ),
        forall|i: int|
            0 <= i < reqs@.len() ==> (#[trigger] a.rows@[i]).timing == timing_of(
                *info,
                reqs@[i].epoch,
            ),
        a.compliant == overall_compliant(mode, current_ver@, *info, reqs@),
        a.mode_label@ == mode_label(mode),
        a.status_icon@ == status_icon_of(a.health, a.compliant),
        a.status_text@ == status_text_of(a.health),
        a.compliance_text@ == compliance_text_of(a.compliant),
{
    let health = classify_health(raw_health);
    let (rows, compliant) = requirement_rows(mode, current_ver, info, reqs);
    Assessment {
        health,
        rows,
        compliant,
        mode_label: mode_text(mode),
        status_icon: status_icon(health, compliant),
        status_text: status_text(health),
        compliance_text: compliance_text(compliant),
    }
}

/// The report shows all clear (green) exactly when the node is healthy and
/// meets every requirement in force.
pub proof fn law_green_iff_healthy_and_compliant(
    raw: Seq<char>,
    mode: ValidatorMode,
    current: Seq<char>,
    info: EpochInfo,
    reqs: Seq<SFDPVersionRequirement>,
)
    ensures
        (status_icon_of(health_of(raw), overall_compliant(mode, current, info, reqs)) == "🟢"@)
            == (health_of(raw) == HealthState::Healthy && overall_compliant(
            mode,
            current,
            info,
            reqs,
        )),
{
    reveal_strlit("🟢");
    reveal_strlit("🟡");
    reveal_strlit("⏳");
    reveal_strlit("🔴");
    assert("🟡"@[0] != "🟢"@[0]);
    assert("⏳"@[0] != "🟢"@[0]);
    assert("🔴"@[0] != "🟢"@[0]);
}

/// Announcing a requirement for a later epoch never makes a node
/// non-compliant: only requirements in force count.
pub proof fn law_future_requirements_do_not_count(
    mode: ValidatorMode,
    current: Seq<char>,
    info: EpochInfo,
    reqs: Seq<SFDPVersionRequirement>,
    r: SFDPVersionRequirement,
)
    requires
        r.epoch > info.epoch,
    ensures
        overall_compliant(mode, current, info, reqs.push(r)) == overall_compliant(
            mode,
            current,
            info,
            reqs,
        ),
{
    let t = reqs.push(r);
    if overall_compliant(mode, current, info, reqs) {
        assert forall|i: int|
            0 <= i < t.len() && (#[trigger] t[i]).epoch <= info.epoch implies compliant(
            current,
            required_version_of(mode, t[i]),
        ) by {
            assert(i < reqs.len());
            assert(t[i] == reqs[i]);
        }
    }
    if overall_compliant(mode, current, info, t) {
        assert forall|i: int|
            0 <= i < reqs.len() && (#[trigger] reqs[i]).epoch <= info.epoch implies compliant(
            current,
            required_version_of(mode, reqs[i]),
        ) by {
            assert(t[i] == reqs[i]);
        }
    }
}

// ---------------------------------------------------------------------------
// Vote account
// ---------------------------------------------------------------------------

/// The vote account the report names: the discovered one, else the
/// configured one.
pub open spec fn vote_pubkey_of(
    discovered: Option<VoteAccountInfo>,
    configured: Option<String>,
) -> Option<Seq<char>> {
    match discovered {
        Some(v) => Some(v.vote_pubkey@),
        None => match configured {
            Some(c) => Some(c@),
            None => None,
        },
    }
}

/// The vote account the report names (see `vote_pubkey_of`).
pub fn choose_vote_pubkey(discovered: &Option<VoteAccountInfo>, configured: &Option<String>) -> (r:
    Option<String>)
    ensures
        match r {
            Some(s) => vote_pubkey_of(*discovered, *configured) == Some(s@),
            None => vote_pubkey_of(*discovered, *configured) is None,
        },
{
    match discovered {
        Some(v) => Some(String::from_str(v.vote_pubkey.as_str())),
        None => match configured {
            Some(c) => Some(String::from_str(c.as_str())),
            None => None,
        },
    }
}

/// The vote account as the report shows it, `Unknown` when there is none.
pub fn vote_pubkey_text(v: &Option<String>) -> (s: String)
    ensures
        match v {
            Some(x) => s@ == x@,
            None => s@ == "Unknown"@,
        },
{
    match v {
        Some(x) => String::from_str(x.as_str()),
        None => String::from_str("Unknown"),
    }
}

// ---------------------------------------------------------------------------
// The health answer read back
// ---------------------------------------------------------------------------

proof fn lemma_nat_text_digits(n: nat)
    ensures
        nat_text(n).len() > 0,
        all_digits(nat_text(n)),
        digits_value(nat_text(n)) == n,
    decreases n,
{
    assert(digit_char((n % 10) as int) as int == (n % 10) + 48);
    if n < 10 {
        assert(digit_char(n as int) as int == n + 48);
        let t = nat_text(n);
        assert(t.drop_last() =~= Seq::<char>::empty());
        assert(t.last() == digit_char(n as int));
        assert(digits_value(t) == digits_value(t.drop_last()) * 10 + ((t.last() as int - 48) as nat));
        assert(digits_value(Seq::<char>::empty()) == 0);
    }
    if n >= 10 {
        lemma_nat_text_digits(n / 10);
        let t = nat_text(n);
        assert(t.drop_last() =~= nat_text(n / 10));
        assert(t.last() == digit_char((n % 10) as int));
        assert(digits_value(t) == digits_value(t.drop_last()) * 10 + ((t.last() as int - 48) as nat));
        assert(digits_value(t) == (n / 10) * 10 + n % 10);
        assert forall|i: int| 0 <= i < t.len() implies is_digit(#[trigger] t[i]) by {
            if i < t.len() - 1 {
                assert(t[i] == nat_text(n / 10)[i]);
            }
        }
    }
}

proof fn lemma_no_colon_in_digits(s: Seq<char>)
    requires
        all_digits(s),
    ensures
        index_of_or_len(s, ':') == s.len(),
    decreases s.len(),
{
    if s.len() > 0 {
        assert(is_digit(s[0]));
        assert forall|i: int| 0 <= i < s.drop_first().len() implies is_digit(
            #[trigger] s.drop_first()[i],
        ) by {
            assert(s.drop_first()[i] == s[i + 1]);
        }
        lemma_no_colon_in_digits(s.drop_first());
    }
}

/// The health answer that the node's reply gives is read back as the same
/// state: a reply whose error reports `n` slots behind as syncing with `n`
/// slots to go, and a healthy reply (no error, result `ok` or none) as
/// healthy.
pub proof fn law_health_answer_read_back(
    error: RPCError,
    result: Option<String>,
    n: u64,
)
    ensures
        (error.data matches Some(d) && json_get(d, "numSlotsBehind"@) matches Some(v) && json_u64(
            v,
        ) == Some(n)) ==> health_of(health_text(Some(error), result)) == (HealthState::Syncing {
            slots: n,
        }),
        (result matches Some(r) ==> r@ == "ok"@) ==> health_of(health_text(None, result))
            == HealthState::Healthy,
{
    let raw = "behind:"@ + nat_text(n as nat);
    let t = nat_text(n as nat);
    lemma_nat_text_digits(n as nat);
    lemma_no_colon_in_digits(t);
    reveal_strlit("behind:");
    reveal_strlit("ok");
    assert(raw.take("behind:"@.len() as int) =~= "behind:"@);
    assert(raw.skip("behind:"@.len() as int) =~= t);
    assert(t.take(t.len() as int) =~= t);
    assert(t[0] != '+');
    assert(raw != "ok"@) by {
        assert(raw[0] != "ok"@[0]);
    }
    assert(parse_unsigned(t, u64::MAX as nat) == Some(n as nat));
}

} // verus!
