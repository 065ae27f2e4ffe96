//! The monitor's own state between checks: which requirement set it last
//! reported on, when, and for which node; and the decisions that the check
//! loop takes on it.
use vstd::prelude::*;
use vstd::string::*;
use crate::clock::{UtcTime, UTC_MIN_SECS};
use crate::models::{SFDPVersionRequirement, ValidatorMode};
use crate::text::str_eq;
use crate::text_wrappers::{to_lowercase, unicode_lowercase};

verus! {

// ---------------------------------------------------------------------------
// Ordering the requirements
// ---------------------------------------------------------------------------

/// The requirements of epoch `e`, in their order.
pub open spec fn of_epoch(s: Seq<SFDPVersionRequirement>, e: u64) -> Seq<SFDPVersionRequirement>
    decreases s.len(),
{
    if s.len() == 0 {
        Seq::empty()
    } else if s.last().epoch == e {
        of_epoch(s.drop_last(), e).push(s.last())
    } else {
        of_epoch(s.drop_last(), e)
    }
}

/// Epochs never decrease along the sequence.
pub open spec fn sorted_by_epoch(s: Seq<SFDPVersionRequirement>) -> bool {
    forall|i: int, j: int| 0 <= i <= j < s.len() ==> s[i].epoch <= s[j].epoch
}

/// `b` orders the requirements of `a` by epoch, keeping the order of those
/// with the same epoch (a stable sort).
pub open spec fn stably_sorted(a: Seq<SFDPVersionRequirement>, b: Seq<SFDPVersionRequirement>) -> bool {
    &&& sorted_by_epoch(b)
    &&& forall|e: u64| #[trigger] of_epoch(b, e) == of_epoch(a, e)
}

proof fn lemma_of_epoch_add(a: Seq<SFDPVersionRequirement>, b: Seq<SFDPVersionRequirement>, e: u64)
    ensures
        of_epoch(a + b, e) == of_epoch(a, e) + of_epoch(b, e),
    decreases b.len(),
{
    if b.len() == 0 {
        assert(a + b =~= a);
        assert(of_epoch(a, e) + of_epoch(b, e) =~= of_epoch(a, e));
    } else {
        lemma_of_epoch_add(a, b.drop_last(), e);
        assert((a + b).drop_last() =~= a + b.drop_last());
        assert((a + b).last() == b.last());
        if b.last().epoch == e {
            assert(of_epoch(a, e) + of_epoch(b.drop_last(), e).push(b.last()) =~= (of_epoch(a, e)
                + of_epoch(b.drop_last(), e)).push(b.last()));
        }
    }
}

proof fn lemma_of_epoch_none(s: Seq<SFDPVersionRequirement>, e: u64)
    requires
        forall|i: int| 0 <= i < s.len() ==> (#[trigger] s[i]).epoch != e,
    ensures
        of_epoch(s, e) == Seq::<SFDPVersionRequirement>::empty(),
    decreases s.len(),
{
    if s.len() > 0 {
        lemma_of_epoch_none(s.drop_last(), e);
    }
}

proof fn lemma_of_epoch_single(x: SFDPVersionRequirement, e: u64)
    ensures
        of_epoch(seq![x], e) == (if x.epoch == e {
            seq![x]
        } else {
            Seq::<SFDPVersionRequirement>::empty()
        }),
{
    let s = seq![x];
    assert(s.drop_last() =~= Seq::<SFDPVersionRequirement>::empty());
    assert(s.last() == x);
    assert(of_epoch(Seq::<SFDPVersionRequirement>::empty(), e) == Seq::<SFDPVersionRequirement>::empty());
    assert(Seq::<SFDPVersionRequirement>::empty().push(x) =~= s);
}

/// Orders the requirements by epoch; those of the same epoch keep their
/// order.
pub fn sort_by_epoch(reqs: Vec<SFDPVersionRequirement>) -> (out: Vec<SFDPVersionRequirement>)
    ensures
        stably_sorted(reqs@, out@),
        out@.len() == reqs@.len(),
{
    let ghost orig = reqs@;
    let mut rest = reqs;
    let mut out: Vec<SFDPVersionRequirement> = Vec::new();
    let n = rest.len();
    let mut i: usize = 0;
    while i < n
        invariant
            n == orig.len(),
            i <= n,
            rest@ == orig.skip(i as int),
            out@.len() == i,
            sorted_by_epoch(out@),
            forall|e: u64| #[trigger] of_epoch(out@, e) == of_epoch(orig.take(i as int), e),
        decreases n - i,
    {
        let x = rest.remove(0);
        assert(x == orig[i as int]);
        assert(rest@ =~= orig.skip(i + 1));
        let mut pos: usize = 0;
        while pos < out.len() && out[pos].epoch <= x.epoch
            invariant
                pos <= out@.len(),
                forall|j: int| 0 <= j < pos ==> (#[trigger] out@[j]).epoch <= x.epoch,
            decreases out.len() - pos,
        {
            pos = pos + 1;
        }
        let ghost old_out = out@;
        let ghost left = old_out.take(pos as int);
        let ghost right = old_out.skip(pos as int);
        assert(forall|j: int| 0 <= j < right.len() ==> (#[trigger] right[j]).epoch > x.epoch) by {
            assert forall|j: int| 0 <= j < right.len() implies (#[trigger] right[j]).epoch
                > x.epoch by {
                assert(right[j] == old_out[pos + j]);
                assert(old_out[pos as int].epoch > x.epoch);
                assert(old_out[pos as int].epoch <= old_out[pos + j].epoch);
            }
        }
        out.insert(pos, x);
        assert(out@ =~= left + seq![x] + right);
        assert(old_out =~= left + right);
        assert(orig.take(i + 1) =~= orig.take(i as int).push(x));
        assert forall|e: u64| #[trigger] of_epoch(out@, e) == of_epoch(orig.take(i + 1), e) by {
            lemma_of_epoch_add(left + seq![x], right, e);
            lemma_of_epoch_add(left, seq![x], e);
            lemma_of_epoch_add(left, right, e);
            lemma_of_epoch_single(x, e);
            assert(orig.take(i + 1).drop_last() =~= orig.take(i as int));
            if x.epoch == e {
                lemma_of_epoch_none(right, e);
                assert(of_epoch(left, e) + seq![x] + Seq::<SFDPVersionRequirement>::empty()
                    =~= (of_epoch(left, e) + Seq::<SFDPVersionRequirement>::empty()).push(x));
            } else {
                assert(of_epoch(left, e) + Seq::<SFDPVersionRequirement>::empty() =~= of_epoch(
                    left,
                    e,
                ));
            }
        }
        i = i + 1;
    }
    assert(orig.take(n as int) =~= orig);
    out
}

// ---------------------------------------------------------------------------
// Fingerprint of a requirement set
// ---------------------------------------------------------------------------

/// `fxhash::hash64` of the text: a 64-bit FxHash of its bytes. The hash
/// reads the bytes in the machine's byte order, so its value is not stated.
#[verifier::external_body]
pub(crate) fn fx_hash64(text: &str) -> u64 {
    fxhash::hash64(text)
}

/// `hash` is what `fx_hash64` gives for the whole of `text`.
pub closed spec fn fingerprint_of(text: &str, hash: u64) -> bool {
    call_ensures(fx_hash64, (text,), hash)
}

/// The fingerprint of a text is the value that `fx_hash64` returns for the
/// whole text, nothing less.
pub(crate) proof fn law_fingerprint_is_hash_of_whole_text(text: &str, hash: u64)
    ensures
        fingerprint_of(text, hash) <==> call_ensures(fx_hash64, (text,), hash),
{
}

// ---------------------------------------------------------------------------
// The monitor's state
// ---------------------------------------------------------------------------

/// The most hours that a report interval can span.
pub const REPORT_HOURS_MAX: i64 = 2562047788015;

/// A new monitor counts its last report this many seconds back, so that the
/// first check reports unless the interval is longer.
pub const FIRST_REPORT_BACKDATE_SECS: i64 = 86400;

pub open spec fn nanos_per_hour() -> int {
    3_600_000_000_000
}

/// What the monitor keeps between checks.
#[derive(Debug)]
pub struct MonitorState {
    /// The node's identity; empty, `auto` or `unknown` until discovered.
    pub identity: String,
    /// The configured vote account, used when none is discovered.
    pub vote_account: Option<String>,
    /// Which validator client's minimum applies.
    pub mode: ValidatorMode,
    /// Hours after which a report is sent even without a change.
    pub report_interval_hours: i64,
    /// Fingerprint of the requirement set last reported on.
    pub last_requirement_hash: u64,
    /// When the last report was sent.
    pub last_report_time: UtcTime,
}

/// The state after a report on the requirement set with fingerprint `hash`
/// at `now`.
pub open spec fn after_report(s: MonitorState, hash: u64, now: UtcTime) -> MonitorState {
    MonitorState {
        identity: s.identity,
        vote_account: s.vote_account,
        mode: s.mode,
        report_interval_hours: s.report_interval_hours,
        last_requirement_hash: hash,
        last_report_time: now,
    }
}

/// Whether `raw` leaves the node's identity to be discovered: empty, `auto`
/// or `unknown` in any letter case.
pub open spec fn identity_unset(raw: Seq<char>) -> bool {
    let l = unicode_lowercase(raw);
    l.len() == 0 || l == "auto"@ || l == "unknown"@
}

impl MonitorState {
    /// The state can be asked and updated: the interval is one that a time
    /// delta holds, and the last report time is an instant.
    pub open spec fn wf(self) -> bool {
        &&& -REPORT_HOURS_MAX <= self.report_interval_hours <= REPORT_HOURS_MAX
        &&& self.last_report_time.wf()
    }

    /// A report is due at `now` once the report interval has passed since the
    /// last report.
    pub open spec fn due_at(self, now: UtcTime) -> bool {
        now.total_nanos() - self.last_report_time.total_nanos() >= self.report_interval_hours
            * nanos_per_hour()
    }

    /// A check reports when the requirement set changed or a report is forced.
    pub open spec fn reports_on(self, hash: u64, force: bool) -> bool {
        hash != self.last_requirement_hash || force
    }

    /// A monitor that has not reported on any set yet, with its last report
    /// counted a day before `now`.
    pub fn new(
        identity: String,
        vote_account: Option<String>,
        mode: ValidatorMode,
        report_hours: i64,
        now: UtcTime,
    ) -> (s: Self)
        requires
            -REPORT_HOURS_MAX <= report_hours <= REPORT_HOURS_MAX,
            now.wf(),
            now.secs - FIRST_REPORT_BACKDATE_SECS >= UTC_MIN_SECS,
        ensures
            s.wf(),
            s.identity == identity,
            s.vote_account == vote_account,
            s.mode == mode,
            s.report_interval_hours == report_hours,
            s.last_requirement_hash == 0,
            s.last_report_time == (UtcTime {
                secs: (now.secs - FIRST_REPORT_BACKDATE_SECS) as i64,
                nanos: now.nanos,
            }),
    {
        MonitorState {
            identity,
            vote_account,
            mode,
            report_interval_hours: report_hours,
            last_requirement_hash: 0,
            last_report_time: UtcTime { secs: now.secs - FIRST_REPORT_BACKDATE_SECS, nanos: now.nanos },
        }
    }

    /// Whether a report is due at `now` (see `due_at`).
    pub fn report_due(&self, now: UtcTime) -> (due: bool)
        ensures
            due == self.due_at(now),
    {
        let elapsed: i128 = (now.secs as i128 - self.last_report_time.secs as i128) * 1_000_000_000
            + (now.nanos as i128 - self.last_report_time.nanos as i128);
        let interval: i128 = self.report_interval_hours as i128 * 3_600_000_000_000;
        elapsed >= interval
    }

    /// Whether a check on the requirement set with fingerprint `hash` reports.
    pub fn should_report(&self, hash: u64, force: bool) -> (r: bool)
        ensures
            r == self.reports_on(hash, force),
    {
        hash != self.last_requirement_hash || force
    }

    /// Fingerprints the serialized requirement set and decides whether the
    /// check reports on it: it does when the fingerprint differs from the
    /// last reported one, or when `force` is set.
    pub fn check_requirements(&self, serialized: &str, force: bool) -> (r: (u64, bool))
        ensures
            r.1 == self.reports_on(r.0, force),
            fingerprint_of(serialized, r.0),
    {
        let hash = fx_hash64(serialized);
        (hash, self.should_report(hash, force))
    }

    /// Whether the node's identity still has to be discovered.
    pub fn needs_identity(&self) -> (b: bool)
        ensures
            b == identity_unset(self.identity@),
    {
        let lower = to_lowercase(self.identity.as_str());
        lower.as_str().unicode_len() == 0 || str_eq(lower.as_str(), "auto") || str_eq(
            lower.as_str(),
            "unknown",
        )
    }

    /// Takes the discovered identity.
    pub fn adopt_identity(&mut self, identity: String)
        ensures
            final(self).identity == identity,
            final(self).vote_account == old(self).vote_account,
            final(self).mode == old(self).mode,
            final(self).report_interval_hours == old(self).report_interval_hours,
            final(self).last_requirement_hash == old(self).last_requirement_hash,
            final(self).last_report_time == old(self).last_report_time,
    {
        self.identity = identity;
    }

    /// Notes a report on the requirement set with fingerprint `hash` at `now`.
    pub fn record_report(&mut self, hash: u64, now: UtcTime)
        ensures
            *final(self) == after_report(*old(self), hash, now),
    {
        self.last_requirement_hash = hash;
        self.last_report_time = now;
    }
}

// ---------------------------------------------------------------------------
// Laws of the check loop
// ---------------------------------------------------------------------------

/// After a report on a requirement set, checking the same set again reports
/// only when forced, and any other set is reported.
pub proof fn law_report_once_per_change(s: MonitorState, hash: u64, now: UtcTime, other: u64, force: bool)
    ensures
        !after_report(s, hash, now).reports_on(hash, false),
        after_report(s, hash, now).reports_on(hash, true),
        other != hash ==> after_report(s, hash, now).reports_on(other, force),
{
}

/// Checks fingerprint the whole serialized set: after a report on a set whose
/// text has fingerprint `ha`, a set whose text has a different fingerprint is
/// reported, and the same fingerprint only when forced.
pub proof fn law_changed_fingerprint_reports(
    s: MonitorState,
    a: &str,
    ha: u64,
    b: &str,
    hb: u64,
    now: UtcTime,
    force: bool,
)
    requires
        fingerprint_of(a, ha),
        fingerprint_of(b, hb),
    ensures
        hb != ha ==> after_report(s, ha, now).reports_on(hb, force),
        hb == ha ==> after_report(s, ha, now).reports_on(hb, force) == force,
{
}

/// After a report at `now`, the next forced report is due exactly when the
/// report interval has passed since `now`.
pub proof fn law_report_interval_restarts(s: MonitorState, hash: u64, now: UtcTime, later: UtcTime)
    ensures
        after_report(s, hash, now).due_at(later) == (later.total_nanos() - now.total_nanos()
            >= s.report_interval_hours * nanos_per_hour()),
{
}

/// A new monitor's first check is forced exactly when the report interval
/// is at most a day.
pub proof fn law_first_check_forced(identity: String, vote_account: Option<String>, mode: ValidatorMode, hours: i64, now: UtcTime)
    requires
        now.wf(),
        now.secs - FIRST_REPORT_BACKDATE_SECS >= UTC_MIN_SECS,
    ensures
        (MonitorState {
            identity,
            vote_account,
            mode,
            report_interval_hours: hours,
            last_requirement_hash: 0,
            last_report_time: UtcTime {
                secs: (now.secs - FIRST_REPORT_BACKDATE_SECS) as i64,
                nanos: now.nanos,
            },
        }).due_at(now) == (hours <= 24),
{
    assert(hours * nanos_per_hour() <= 24 * nanos_per_hour() <==> hours <= 24) by (nonlinear_arith);
}

} // verus!
