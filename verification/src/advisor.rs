//! The maintenance advisor: the node's upcoming leader slots, grouped into
//! runs of consecutive slots, and the upgrade advice built from them.
use vstd::prelude::*;
use vstd::string::*;
use crate::clock::{hour_minute_after, hour_minute_pattern, offset_in_range, utc_text, UtcTime};
use crate::text::{int_text, nat_text, push_i64, push_u64};

verus! {

// ---------------------------------------------------------------------------
// Upcoming leader slots
// ---------------------------------------------------------------------------

/// The absolute leader slots (epoch start plus each scheduled offset) that
/// come after `processed`, in schedule order.
pub open spec fn upcoming_slots(schedule: Seq<u64>, epoch_start: u64, processed: u64) -> Seq<u64>
    decreases schedule.len(),
{
    if schedule.len() == 0 {
        Seq::empty()
    } else {
        let rest = upcoming_slots(schedule.drop_last(), epoch_start, processed);
        let b = epoch_start + schedule.last();
        if b > processed {
            rest.push(b as u64)
        } else {
            rest
        }
    }
}

/// Every scheduled offset can be added to the epoch start.
pub open spec fn schedule_fits(schedule: Seq<u64>, epoch_start: u64) -> bool {
    forall|i: int| 0 <= i < schedule.len() ==> epoch_start + #[trigger] schedule[i] <= u64::MAX
}

/// The upcoming slots are exactly the scheduled slots (epoch start plus
/// offset) that lie after the processed slot, each once, in schedule order:
/// the schedule filtered by that condition and shifted by the epoch start.
pub proof fn law_upcoming_slots_are_the_later_schedule(
    schedule: Seq<u64>,
    epoch_start: u64,
    processed: u64,
)
    requires
        schedule_fits(schedule, epoch_start),
    ensures
        upcoming_slots(schedule, epoch_start, processed) == schedule.filter(
            |s: u64| epoch_start + s > processed,
        ).map_values(|s: u64| (epoch_start + s) as u64),
        upcoming_slots(schedule, epoch_start, processed).len() == schedule.filter(
            |s: u64| epoch_start + s > processed,
        ).len(),
    decreases schedule.len(),
{
    let pred = |s: u64| epoch_start + s > processed;
    let f = |s: u64| (epoch_start + s) as u64;
    if schedule.len() == 0 {
        reveal(Seq::filter);
        assert(schedule.filter(pred).map_values(f) =~= Seq::<u64>::empty());
    } else {
        let p = schedule.drop_last();
        let x = schedule.last();
        assert(schedule_fits(p, epoch_start)) by {
            assert forall|i: int| 0 <= i < p.len() implies epoch_start + #[trigger] p[i]
                <= u64::MAX by {
                assert(p[i] == schedule[i]);
            }
        }
        law_upcoming_slots_are_the_later_schedule(p, epoch_start, processed);
        assert(p.push(x) =~= schedule);
        p.lemma_filter_push(x, pred);
        if pred(x) {
            assert(p.filter(pred).push(x).map_values(f) =~= p.filter(pred).map_values(f).push(
                f(x),
            ));
        }
    }
}

/// The leader slots still ahead of the processed slot.
pub fn future_blocks(schedule: &Vec<u64>, epoch_start: u64, processed: u64) -> (out: Vec<u64>)
    requires
        schedule_fits(schedule@, epoch_start),
    ensures
        out@ == upcoming_slots(schedule@, epoch_start, processed),
        out@ == schedule@.filter(|s: u64| epoch_start + s > processed).map_values(
            |s: u64| (epoch_start + s) as u64,
        ),
{
    proof {
        law_upcoming_slots_are_the_later_schedule(schedule@, epoch_start, processed);
    }
    let mut out: Vec<u64> = Vec::new();
    let mut i: usize = 0;
    while i < schedule.len()
        invariant
            schedule_fits(schedule@, epoch_start),
            i <= schedule@.len(),
            out@ == upcoming_slots(schedule@.take(i as int), epoch_start, processed),
        decreases schedule.len() - i,
    {
        let b = epoch_start + schedule[i];
        if b > processed {
            out.push(b);
        }
        proof {
            let t = schedule@.take(i + 1);
            assert(t.drop_last() =~= schedule@.take(i as int));
            assert(t.last() == schedule@[i as int]);
        }
        i = i + 1;
    }
    assert(schedule@.take(schedule@.len() as int) =~= schedule@);
    out
}

// ---------------------------------------------------------------------------
// Runs of consecutive slots
// ---------------------------------------------------------------------------

/// The maximal runs of consecutive slots (each one more than the one before),
/// in order.
pub open spec fn runs(b: Seq<u64>) -> Seq<Seq<u64>>
    decreases b.len(),
{
    if b.len() == 0 {
        Seq::empty()
    } else if b.len() == 1 {
        seq![seq![b[0]]]
    } else {
        let r = runs(b.drop_last());
        if b.last() == b[b.len() - 2] + 1 {
            r.update(r.len() - 1, r.last().push(b.last()))
        } else {
            r.push(seq![b.last()])
        }
    }
}

/// At most this many runs are shown.
pub const MAX_CLUSTERS: usize = 4;

/// The runs the advisor shows: the first `MAX_CLUSTERS` runs.
pub open spec fn shown_runs(b: Seq<u64>) -> Seq<Seq<u64>> {
    if runs(b).len() <= MAX_CLUSTERS {
        runs(b)
    } else {
        runs(b).take(MAX_CLUSTERS as int)
    }
}

/// Every slot that grouping compares with its successor (while at most
/// `MAX_CLUSTERS` runs have started) has a successor slot number, so the
/// comparison does not overflow.
pub open spec fn successors_fit(b: Seq<u64>) -> bool {
    forall|i: int|
        1 <= i < b.len() && #[trigger] runs(b.take(i)).len() <= MAX_CLUSTERS ==> b[i - 1]
            < u64::MAX
}

proof fn lemma_runs_len(b: Seq<u64>)
    ensures
        b.len() > 0 ==> runs(b).len() > 0,
        runs(b).len() <= b.len(),
    decreases b.len(),
{
    if b.len() > 1 {
        lemma_runs_len(b.drop_last());
    }
}

/// Extending the slots only changes or extends the last run: the runs before
/// it stay.
proof fn lemma_runs_stable(b: Seq<u64>, j: int, k: int)
    requires
        0 < j <= k <= b.len(),
    ensures
        runs(b.take(j)).len() <= runs(b.take(k)).len(),
        forall|m: int|
            0 <= m < runs(b.take(j)).len() - 1 ==> #[trigger] runs(b.take(k))[m] == runs(
                b.take(j),
            )[m],
    decreases k - j,
{
    if j < k {
        lemma_runs_stable(b, j, k - 1);
        let t = b.take(k);
        assert(t.drop_last() =~= b.take(k - 1));
        lemma_runs_len(b.take(k - 1));
    }
}

/// Groups the upcoming leader slots into runs of consecutive slots and keeps
/// the first four runs.
pub fn group_clusters(blocks: &Vec<u64>) -> (clusters: Vec<Vec<u64>>)
    requires
        blocks@.len() > 0,
        successors_fit(blocks@),
    ensures
        clusters@.map_values(|c: Vec<u64>| c@) == shown_runs(blocks@),
{
    let mut clusters: Vec<Vec<u64>> = Vec::new();
    let mut temp: Vec<u64> = Vec::new();
    temp.push(blocks[0]);
    let n = blocks.len();
    assert(blocks@.take(1) =~= seq![blocks@[0]]);
    let mut i: usize = 1;
    let mut stopped = false;
    assert(blocks@.take(n as int) =~= blocks@);
    while i < n
        invariant_except_break
            n == blocks@.len(),
            blocks@.take(n as int) == blocks@,
            successors_fit(blocks@),
            1 <= i <= n,
            clusters@.len() < MAX_CLUSTERS,
            clusters@.map_values(|c: Vec<u64>| c@).push(temp@) == runs(blocks@.take(i as int)),
            !stopped,
        ensures
            runs(blocks@).len() > MAX_CLUSTERS || !stopped,
            stopped ==> (clusters@.len() == MAX_CLUSTERS && clusters@.map_values(
                |c: Vec<u64>| c@,
            ) == runs(blocks@).take(MAX_CLUSTERS as int)),
            !stopped ==> (clusters@.len() < MAX_CLUSTERS && clusters@.map_values(|c: Vec<u64>| c@).push(
                temp@,
            ) == runs(blocks@)),
        decreases n - i,
    {
        let ghost cv_old = clusters@.map_values(|c: Vec<u64>| c@);
        let ghost t = blocks@.take(i + 1);
        assert(runs(blocks@.take(i as int)).len() <= MAX_CLUSTERS);
        proof {
            assert(t.drop_last() =~= blocks@.take(i as int));
            assert(t.last() == blocks@[i as int]);
            assert(t[t.len() - 2] == blocks@[i - 1]);
        }
        if blocks[i] == blocks[i - 1] + 1 {
            temp.push(blocks[i]);
            assert(clusters@.map_values(|c: Vec<u64>| c@).push(temp@) =~= runs(t));
        } else {
            let done = temp;
            clusters.push(done);
            temp = Vec::new();
            temp.push(blocks[i]);
            assert(clusters@.map_values(|c: Vec<u64>| c@) =~= cv_old.push(done@));
            assert(clusters@.map_values(|c: Vec<u64>| c@).push(temp@) =~= runs(t));
            if clusters.len() >= MAX_CLUSTERS {
                proof {
                    lemma_runs_stable(blocks@, i + 1, n as int);
                    assert(blocks@.take(n as int) =~= blocks@);
                    assert(clusters@.map_values(|c: Vec<u64>| c@) =~= runs(blocks@).take(
                        MAX_CLUSTERS as int,
                    ));
                }
                stopped = true;
                break;
            }
        }
        i = i + 1;
    }
    if !stopped {
        assert(blocks@.take(n as int) =~= blocks@);
    }
    if clusters.len() < MAX_CLUSTERS {
        let ghost before = clusters@.map_values(|c: Vec<u64>| c@);
        clusters.push(temp);
        assert(clusters@.map_values(|c: Vec<u64>| c@) =~= before.push(temp@));
    }
    clusters
}

/// The runs laid end to end.
pub open spec fn concat_runs(rs: Seq<Seq<u64>>) -> Seq<u64>
    decreases rs.len(),
{
    if rs.len() == 0 {
        Seq::empty()
    } else {
        concat_runs(rs.drop_last()) + rs.last()
    }
}

/// Each slot is one more than the one before.
pub open spec fn consecutive(r: Seq<u64>) -> bool {
    forall|i: int| 0 <= i < r.len() - 1 ==> #[trigger] r[i + 1] == r[i] + 1
}

/// The runs split the slots without losing or reordering any: laid end to end
/// they give the slots back, each run is a non-empty stretch of consecutive
/// slots, and no run continues the one before it.
pub proof fn law_runs_partition(b: Seq<u64>)
    ensures
        concat_runs(runs(b)) == b,
        forall|k: int| 0 <= k < runs(b).len() ==> (#[trigger] runs(b)[k]).len() > 0,
        forall|k: int| 0 <= k < runs(b).len() ==> consecutive(#[trigger] runs(b)[k]),
        forall|k: int|
            0 <= k < runs(b).len() - 1 ==> #[trigger] runs(b)[k + 1][0] != runs(b)[k].last() + 1,
        b.len() > 0 ==> runs(b).len() > 0 && runs(b).last().last() == b.last(),
    decreases b.len(),
{
    if b.len() == 0 {
    } else if b.len() == 1 {
        let r = runs(b);
        assert(r.drop_last() =~= Seq::<Seq<u64>>::empty());
        assert(concat_runs(Seq::<Seq<u64>>::empty()) == Seq::<u64>::empty());
        assert(r.last() == seq![b[0]]);
        assert(concat_runs(r) =~= b);
    } else {
        let p = b.drop_last();
        law_runs_partition(p);
        let r = runs(p);
        let x = b.last();
        assert(b[b.len() - 2] == p.last());
        if x == p.last() + 1 {
            let r2 = r.update(r.len() - 1, r.last().push(x));
            assert(r2 == runs(b));
            assert(r2.drop_last() =~= r.drop_last());
            assert(concat_runs(r) == concat_runs(r.drop_last()) + r.last());
            assert(concat_runs(r2) =~= concat_runs(r) + seq![x]);
            assert(p + seq![x] =~= b);
            assert forall|k: int| 0 <= k < r2.len() implies consecutive(#[trigger] r2[k]) by {
                if k == r2.len() - 1 {
                    let l = r.last();
                    assert forall|i: int| 0 <= i < r2[k].len() - 1 implies #[trigger] r2[k][i + 1]
                        == r2[k][i] + 1 by {
                        if i < l.len() - 1 {
                            assert(consecutive(r[k]));
                            assert(r[k][i + 1] == r[k][i] + 1);
                        }
                    }
                } else {
                    assert(consecutive(r[k]));
                }
            }
            assert forall|k: int| 0 <= k < r2.len() - 1 implies #[trigger] r2[k + 1][0]
                != r2[k].last() + 1 by {
                assert(r[k + 1][0] != r[k].last() + 1);
                if k + 1 == r2.len() - 1 {
                    assert(r2[k + 1][0] == r[k + 1][0]);
                }
            }
        } else {
            let r2 = r.push(seq![x]);
            assert(r2 == runs(b));
            assert(r2.drop_last() =~= r);
            assert(concat_runs(r2) =~= concat_runs(r) + seq![x]);
            assert(p + seq![x] =~= b);
            assert forall|k: int| 0 <= k < r2.len() implies consecutive(#[trigger] r2[k]) by {
                if k < r.len() {
                    assert(consecutive(r[k]));
                }
            }
            assert forall|k: int| 0 <= k < r2.len() - 1 implies #[trigger] r2[k + 1][0]
                != r2[k].last() + 1 by {
                if k < r.len() - 1 {
                    assert(r[k + 1][0] != r[k].last() + 1);
                }
            }
        }
    }
}

// ---------------------------------------------------------------------------
// Advice
// ---------------------------------------------------------------------------

/// The advice when no leader slot is left in the epoch.
pub open spec fn no_blocks_advice() -> Seq<char> {
    "🚨 *ACTION REQUIRED:* Your software is out of date. Since you have no more blocks assigned for this epoch, *UPGRADE IMMEDIATELY* to restore compliance."@
}

/// The advice when no leader slot is left in the epoch.
pub fn no_blocks_message() -> (s: String)
    ensures
        s@ == no_blocks_advice(),
{
    String::from_str(
        "🚨 *ACTION REQUIRED:* Your software is out of date. Since you have no more blocks assigned for this epoch, *UPGRADE IMMEDIATELY* to restore compliance.",
    )
}

/// The slots the advice is built on: the next leader slot and the last slot
/// of the first run.
#[derive(Debug, Clone, Copy, PartialEq, Eq, Structural)]
pub struct WorkloadPoints {
    pub next_block: u64,
    pub first_run_end: u64,
}

/// Runs that the advice can read: at least one, none empty.
pub open spec fn runs_readable(c: Seq<Seq<u64>>) -> bool {
    &&& c.len() > 0
    &&& forall|i: int| 0 <= i < c.len() ==> (#[trigger] c[i]).len() > 0
}

/// The slots the advice is built on (see `WorkloadPoints`).
pub fn workload_points(clusters: &Vec<Vec<u64>>) -> (p: WorkloadPoints)
    requires
        runs_readable(clusters@.map_values(|c: Vec<u64>| c@)),
    ensures
        ({
            let c = clusters@.map_values(|c: Vec<u64>| c@);
            &&& p.next_block == c[0][0]
            &&& p.first_run_end == c[0].last()
        }),
{
    let ghost c = clusters@.map_values(|c: Vec<u64>| c@);
    assert(c[0] == clusters@[0]@);
    let first = &clusters[0];
    WorkloadPoints { next_block: first[0], first_run_end: first[first.len() - 1] }
}

/// The second run (if any) starts no earlier than the first one ends.
pub open spec fn gap_readable(c: Seq<Seq<u64>>) -> bool {
    c.len() > 1 ==> c[1][0] >= c[0].last()
}

/// The slots from the end of the first run to the start of the second, when
/// there is a second run.
pub fn gap_after_first_run(clusters: &Vec<Vec<u64>>) -> (g: Option<u64>)
    requires
        runs_readable(clusters@.map_values(|c: Vec<u64>| c@)),
        gap_readable(clusters@.map_values(|c: Vec<u64>| c@)),
    ensures
        ({
            let c = clusters@.map_values(|c: Vec<u64>| c@);
            g == (if c.len() > 1 {
                Some((c[1][0] - c[0].last()) as u64)
            } else {
                None::<u64>
            })
        }),
{
    let ghost c = clusters@.map_values(|c: Vec<u64>| c@);
    if clusters.len() > 1 {
        assert(c[0] == clusters@[0]@);
        assert(c[1] == clusters@[1]@);
        let first = &clusters[0];
        Some(clusters[1][0] - first[first.len() - 1])
    } else {
        None
    }
}

/// One line of the upcoming workload: where a run starts, how many slots it
/// has, and when it starts.
pub open spec fn workload_line(start: u64, count: nat, eta: Seq<char>) -> Seq<char> {
    "\n• Slot `"@ + nat_text(start as nat) + "` ("@ + nat_text(count) + " blocks) at `"@ + eta
        + "` UTC"@
}

pub open spec fn workload_lines(c: Seq<Seq<u64>>, etas: Seq<Seq<char>>) -> Seq<char>
    decreases c.len(),
{
    if c.len() == 0 {
        Seq::empty()
    } else {
        workload_lines(c.drop_last(), etas.take(c.len() - 1)) + workload_line(
            c.last()[0],
            c.last().len(),
            etas[c.len() - 1],
        )
    }
}

/// The upcoming workload: a title, then one line per run, each starting at
/// the estimate `offsets[i]` seconds after `now`.
pub open spec fn workload_text(now: UtcTime, c: Seq<Seq<u64>>, offsets: Seq<i64>) -> Seq<char> {
    "\n*Upcoming Workload:*"@ + workload_lines(
        c,
        Seq::new(c.len(), |i: int| utc_text(now.secs + offsets[i], hour_minute_pattern())),
    )
}

/// Renders the upcoming workload (see `workload_text`).
pub fn render_workload(now: UtcTime, clusters: &Vec<Vec<u64>>, offsets: &Vec<i64>) -> (t: String)
    requires
        offsets@.len() == clusters@.len(),
        forall|i: int| 0 <= i < clusters@.len() ==> (#[trigger] clusters@[i])@.len() > 0,
        forall|i: int| 0 <= i < offsets@.len() ==> offset_in_range(now, #[trigger] offsets@[i] as int),
    ensures
        t@ == workload_text(now, clusters@.map_values(|c: Vec<u64>| c@), offsets@),
{
    let ghost c = clusters@.map_values(|c: Vec<u64>| c@);
    let ghost etas = Seq::new(
        c.len(),
        |i: int| utc_text(now.secs + offsets@[i], hour_minute_pattern()),
    );
    let mut out = String::from_str("\n*Upcoming Workload:*");
    let mut i: usize = 0;
    while i < clusters.len()
        invariant
            offsets@.len() == clusters@.len(),
            forall|j: int| 0 <= j < clusters@.len() ==> (#[trigger] clusters@[j])@.len() > 0,
            forall|j: int|
                0 <= j < offsets@.len() ==> offset_in_range(now, #[trigger] offsets@[j] as int),
            c == clusters@.map_values(|c: Vec<u64>| c@),
            etas == Seq::new(
                c.len(),
                |i: int| utc_text(now.secs + offsets@[i], hour_minute_pattern()),
            ),
            i <= clusters@.len(),
            out@ == "\n*Upcoming Workload:*"@ + workload_lines(c.take(i as int), etas.take(i as int)),
        decreases clusters.len() - i,
    {
        let ghost before = out@;
        let run = &clusters[i];
        assert(run@.len() > 0);
        let eta = hour_minute_after(now, offsets[i]);
        out.append("\n• Slot `");
        push_u64(&mut out, run[0]);
        out.append("` (");
        push_u64(&mut out, run.len() as u64);
        out.append(" blocks) at `");
        out.append(eta.as_str());
        out.append("` UTC");
        proof {
            let ct = c.take(i + 1);
            let et = etas.take(i + 1);
            assert(ct.drop_last() =~= c.take(i as int));
            assert(et.take(ct.len() - 1) =~= etas.take(i as int));
            assert(ct.last() == run@);
            assert(et[ct.len() - 1] == eta@);
            assert(out@ =~= before + workload_line(run@[0], run@.len(), eta@));
        }
        i = i + 1;
    }
    assert(c.take(c.len() as int) =~= c);
    assert(etas.take(c.len() as int) =~= etas);
    out
}

/// A window of this many minutes before the next leader slot is enough to
/// upgrade at once.
pub const SAFE_WINDOW_MINS: i64 = 25;

/// Advice when the next leader slot is far enough away: upgrade now and be
/// back by the deadline.
pub open spec fn upgrade_now_advice(mins: i64, deadline: Seq<char>, workload: Seq<char>) -> Seq<
    char,
> {
    "⚠️ *SOFTWARE UPGRADE RECOMMENDED:* You are currently non-compliant.\n✅ *Instruction:* You have a `"@
        + int_text(mins as int)
        + "` minute window. *Safe to upgrade NOW.*\n🚨 *Deadline:* You must be back online and synced by *"@
        + deadline + " UTC* to avoid missing your next assignment."@ + workload
}

/// Advice when leader slots are imminent: wait for the current run to end.
pub open spec fn upgrade_later_advice(
    mins: i64,
    start: Seq<char>,
    gap_mins: i64,
    workload: Seq<char>,
) -> Seq<char> {
    "⚠️ *SOFTWARE UPGRADE REQUIRED:* You are currently non-compliant.\n⏳ *Instruction:* DO NOT restart yet. Blocks are imminent in `"@
        + int_text(mins as int)
        + "` minutes.\n✅ *Best Action:* Wait until your current assignment ends. *Start upgrade at "@
        + start + " UTC.*\n💡 *Note:* The next window will be `"@ + int_text(gap_mins as int)
        + "` minutes long, which is safe for a Frankendancer restart."@ + workload
}

/// What the advice needs to be rendered: with a safe window, the deadline
/// five minutes before the next leader slot; otherwise the estimated end of
/// the current run.
pub open spec fn advice_renderable(now: UtcTime, mins: i64, window_offset: i64) -> bool {
    if mins >= SAFE_WINDOW_MINS {
        offset_in_range(now, (mins - 5) * 60)
    } else {
        offset_in_range(now, window_offset as int)
    }
}

/// The upgrade advice for a non-compliant node with leader slots ahead.
///
/// `mins` is the estimated number of minutes until the next leader slot,
/// `window_offset` the estimated seconds until the current run of leader
/// slots has ended, `gap_mins` the estimated length of the following free
/// window, and `workload` the rendered upcoming workload.
pub fn advice_message(
    now: UtcTime,
    mins: i64,
    window_offset: i64,
    gap_mins: i64,
    workload: &str,
) -> (s: String)
    requires
        advice_renderable(now, mins, window_offset),
    ensures
        s@ == (if mins >= SAFE_WINDOW_MINS {
            upgrade_now_advice(
                mins,
                utc_text(now.secs + (mins - 5) * 60, hour_minute_pattern()),
                workload@,
            )
        } else {
            upgrade_later_advice(
                mins,
                utc_text(now.secs + window_offset, hour_minute_pattern()),
                gap_mins,
                workload@,
            )
        }),
{
    if mins >= SAFE_WINDOW_MINS {
        let deadline = hour_minute_after(now, (mins - 5) * 60);
        let mut m = String::from_str(
            "⚠️ *SOFTWARE UPGRADE RECOMMENDED:* You are currently non-compliant.\n✅ *Instruction:* You have a `",
        );
        push_i64(&mut m, mins);
        m.append(
            "` minute window. *Safe to upgrade NOW.*\n🚨 *Deadline:* You must be back online and synced by *",
        );
        m.append(deadline.as_str());
        m.append(" UTC* to avoid missing your next assignment.");
        m.append(workload);
        m
    } else {
        let start = hour_minute_after(now, window_offset);
        let mut m = String::from_str(
            "⚠️ *SOFTWARE UPGRADE REQUIRED:* You are currently non-compliant.\n⏳ *Instruction:* DO NOT restart yet. Blocks are imminent in `",
        );
        push_i64(&mut m, mins);
        m.append(
            "` minutes.\n✅ *Best Action:* Wait until your current assignment ends. *Start upgrade at ",
        );
        m.append(start.as_str());
        m.append(" UTC.*\n💡 *Note:* The next window will be `");
        push_i64(&mut m, gap_mins);
        m.append("` minutes long, which is safe for a Frankendancer restart.");
        m.append(workload);
        m
    }
}

} // verus!
