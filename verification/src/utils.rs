//! Version compliance and human-readable durations.
use vstd::prelude::*;
use vstd::string::*;
use crate::text::{chars_of, int_text, push_i64};

verus! {

// ---------------------------------------------------------------------------
// Specification of version numbers
// ---------------------------------------------------------------------------

/// Number of leading characters of `s` equal to `c`.
pub open spec fn leading_count(s: Seq<char>, c: char) -> nat
    decreases s.len(),
{
    if s.len() > 0 && s[0] == c {
        1 + leading_count(s.drop_first(), c)
    } else {
        0
    }
}

/// Number of leading characters of `s` different from `c`: the index of the
/// first `c`, or the length when there is none.
pub open spec fn index_of_or_len(s: Seq<char>, c: char) -> nat
    decreases s.len(),
{
    if s.len() > 0 && s[0] != c {
        1 + index_of_or_len(s.drop_first(), c)
    } else {
        0
    }
}

/// `s` split at every `c`, as `str::split` does (so an empty text gives one
/// empty piece, and two adjacent separators an empty piece between them).
pub open spec fn split_on(s: Seq<char>, c: char) -> Seq<Seq<char>>
    decreases s.len(),
{
    let k = index_of_or_len(s, c);
    if k >= s.len() {
        seq![s]
    } else {
        seq![s.take(k as int)] + split_on(s.skip(k + 1 as int), c)
    }
}

pub open spec fn is_digit(c: char) -> bool {
    '0' <= c <= '9'
}

pub open spec fn all_digits(s: Seq<char>) -> bool {
    forall|i: int| 0 <= i < s.len() ==> is_digit(#[trigger] s[i])
}

/// The number that a string of decimal digits denotes.
pub open spec fn digits_value(s: Seq<char>) -> nat
    decreases s.len(),
{
    if s.len() == 0 {
        0
    } else {
        digits_value(s.drop_last()) * 10 + ((s.last() as int - 48) as nat)
    }
}

/// What `str::parse` gives for an unsigned type whose largest value is
/// `bound`: an optional `+`, then one or more decimal digits whose value is at
/// most `bound`.
pub open spec fn parse_unsigned(s: Seq<char>, bound: nat) -> Option<nat> {
    let d = if s.len() > 0 && s[0] == '+' { s.drop_first() } else { s };
    if d.len() > 0 && all_digits(d) && digits_value(d) <= bound {
        Some(digits_value(d))
    } else {
        None
    }
}

/// What `str::parse::<u32>` gives.
pub open spec fn parse_u32(s: Seq<char>) -> Option<u32> {
    match parse_unsigned(s, u32::MAX as nat) {
        Some(v) => Some(v as u32),
        None => None,
    }
}

/// What `str::parse::<u64>` gives.
pub open spec fn parse_u64(s: Seq<char>) -> Option<u64> {
    match parse_unsigned(s, u64::MAX as nat) {
        Some(v) => Some(v as u64),
        None => None,
    }
}

/// The pieces that parse, in order (`filter_map` of `parse`).
pub open spec fn parsed_numbers(parts: Seq<Seq<char>>) -> Seq<u32>
    decreases parts.len(),
{
    if parts.len() == 0 {
        Seq::empty()
    } else {
        match parse_u32(parts[0]) {
            Some(v) => seq![v] + parsed_numbers(parts.drop_first()),
            None => parsed_numbers(parts.drop_first()),
        }
    }
}

/// The version text that is compared: leading `v`s removed, and everything
/// from the first `-` on dropped.
pub open spec fn version_core(s: Seq<char>) -> Seq<char> {
    let t = s.skip(leading_count(s, 'v') as int);
    t.take(index_of_or_len(t, '-') as int)
}

/// The numeric components of a version string.
pub open spec fn version_parts(s: Seq<char>) -> Seq<u32> {
    parsed_numbers(split_on(version_core(s), '.'))
}

/// Lexicographic `a >= b` on sequences of numbers, as `Vec`'s ordering: the
/// first differing component decides, and a proper prefix is smaller.
pub open spec fn lex_ge(a: Seq<u32>, b: Seq<u32>) -> bool
    decreases a.len(),
{
    if b.len() == 0 {
        true
    } else if a.len() == 0 {
        false
    } else if a[0] != b[0] {
        a[0] > b[0]
    } else {
        lex_ge(a.drop_first(), b.drop_first())
    }
}

/// A node running `current` meets the minimum `required` when both have at
/// least one numeric component, they belong to the same lineage (same
/// first component), and `current` is not older than `required`.
pub open spec fn compliant(current: Seq<char>, required: Seq<char>) -> bool {
    let a = version_parts(current);
    let b = version_parts(required);
    &&& a.len() > 0
    &&& b.len() > 0
    &&& a[0] == b[0]
    &&& lex_ge(a, b)
}

// ---------------------------------------------------------------------------
// Lemmas
// ---------------------------------------------------------------------------

proof fn lemma_leading_count(s: Seq<char>, c: char, k: int)
    requires
        0 <= k <= s.len(),
        forall|j: int| 0 <= j < k ==> s[j] == c,
        k == s.len() || s[k] != c,
    ensures
        leading_count(s, c) == k,
    decreases k,
{
    if k > 0 {
        lemma_leading_count(s.drop_first(), c, k - 1);
    }
}

proof fn lemma_leading_count_bound(s: Seq<char>, c: char)
    ensures
        leading_count(s, c) <= s.len(),
    decreases s.len(),
{
    if s.len() > 0 && s[0] == c {
        lemma_leading_count_bound(s.drop_first(), c);
    }
}

proof fn lemma_index_of_or_len(s: Seq<char>, c: char, k: int)
    requires
        0 <= k <= s.len(),
        forall|j: int| 0 <= j < k ==> s[j] != c,
        k == s.len() || s[k] == c,
    ensures
        index_of_or_len(s, c) == k,
    decreases k,
{
    if k > 0 {
        lemma_index_of_or_len(s.drop_first(), c, k - 1);
    }
}

proof fn lemma_digits_value_grows(s: Seq<char>, i: int, j: int)
    requires
        0 <= i <= j <= s.len(),
        all_digits(s),
    ensures
        digits_value(s.take(i)) <= digits_value(s.take(j)),
    decreases j - i,
{
    if i < j {
        lemma_digits_value_grows(s, i, j - 1);
        assert(s.take(j).drop_last() =~= s.take(j - 1));
    }
}

proof fn lemma_lex_ge_refl(a: Seq<u32>)
    ensures
        lex_ge(a, a),
    decreases a.len(),
{
    if a.len() > 0 {
        lemma_lex_ge_refl(a.drop_first());
    }
}

proof fn lemma_lex_ge_trans(a: Seq<u32>, b: Seq<u32>, c: Seq<u32>)
    requires
        lex_ge(a, b),
        lex_ge(b, c),
    ensures
        lex_ge(a, c),
    decreases a.len(),
{
    if c.len() > 0 && b.len() > 0 && a.len() > 0 && a[0] == b[0] && b[0] == c[0] {
        lemma_lex_ge_trans(a.drop_first(), b.drop_first(), c.drop_first());
    }
}

// ---------------------------------------------------------------------------
// Laws
// ---------------------------------------------------------------------------

/// Every version with a numeric component meets itself as a minimum.
pub proof fn law_compliance_reflexive(v: Seq<char>)
    requires
        version_parts(v).len() > 0,
    ensures
        compliant(v, v),
{
    lemma_lex_ge_refl(version_parts(v));
}

/// Compliance chains: a node meeting `b`, where `b` meets `c`, meets `c`.
pub proof fn law_compliance_transitive(a: Seq<char>, b: Seq<char>, c: Seq<char>)
    requires
        compliant(a, b),
        compliant(b, c),
    ensures
        compliant(a, c),
{
    lemma_lex_ge_trans(version_parts(a), version_parts(b), version_parts(c));
}

/// Versions of different lineages (first components differ) never meet each
/// other, whatever the rest of the numbers says.
pub proof fn law_lineage_protection(a: Seq<char>, b: Seq<char>)
    requires
        version_parts(a).len() > 0,
        version_parts(b).len() > 0,
        version_parts(a)[0] != version_parts(b)[0],
    ensures
        !compliant(a, b),
        !compliant(b, a),
{
}

proof fn lemma_leading_count_props(s: Seq<char>, c: char)
    ensures
        leading_count(s, c) <= s.len(),
        forall|j: int| 0 <= j < leading_count(s, c) ==> s[j] == c,
        leading_count(s, c) == s.len() || s[leading_count(s, c) as int] != c,
    decreases s.len(),
{
    if s.len() > 0 && s[0] == c {
        lemma_leading_count_props(s.drop_first(), c);
        assert forall|j: int| 0 <= j < leading_count(s, c) implies s[j] == c by {
            if j > 0 {
                assert(s[j] == s.drop_first()[j - 1]);
            }
        }
    }
}

/// What follows the first `-` does not change the version:
/// `2.0.15-beta` is `2.0.15`.
pub proof fn law_dash_suffix_ignored(s: Seq<char>, t: Seq<char>)
    requires
        !s.contains('-'),
    ensures
        version_parts(s + seq!['-'] + t) == version_parts(s),
{
    let w = s + seq!['-'] + t;
    lemma_leading_count_props(s, 'v');
    let k = leading_count(s, 'v');
    assert forall|j: int| 0 <= j < k implies w[j] == 'v' by {
        assert(w[j] == s[j]);
    }
    if k < s.len() {
        assert(w[k as int] == s[k as int]);
    } else {
        assert(w[k as int] == '-');
    }
    lemma_leading_count(w, 'v', k as int);
    let a = s.skip(k as int);
    let b = w.skip(k as int);
    assert forall|j: int| 0 <= j < a.len() implies b[j] != '-' by {
        assert(b[j] == s[k + j]);
        if s[k + j] == '-' {
            assert(s.contains('-'));
        }
    }
    assert(b[a.len() as int] == '-');
    lemma_index_of_or_len(b, '-', a.len() as int);
    assert forall|j: int| 0 <= j < a.len() implies a[j] != '-' by {
        assert(a[j] == s[k + j]);
        if s[k + j] == '-' {
            assert(s.contains('-'));
        }
    }
    lemma_index_of_or_len(a, '-', a.len() as int);
    assert(b.take(a.len() as int) =~= a);
    assert(a.take(a.len() as int) =~= a);
}

/// A leading `v` does not change the version: `v1.2.3` is `1.2.3`.
pub proof fn law_v_prefix_ignored(s: Seq<char>)
    ensures
        version_parts(seq!['v'] + s) == version_parts(s),
{
    let t = seq!['v'] + s;
    assert(t.drop_first() =~= s);
    assert(leading_count(t, 'v') == 1 + leading_count(s, 'v'));
    let k = leading_count(s, 'v');
    lemma_leading_count_bound(s, 'v');
    assert(t.skip(1 + k as int) =~= s.skip(k as int));
}

// ---------------------------------------------------------------------------
// Executable parsing
// ---------------------------------------------------------------------------

/// Parses `cs[a..b]` as `str::parse` does for an unsigned type whose largest
/// value is `bound`.
pub fn parse_unsigned_range(cs: &Vec<char>, a: usize, b: usize, bound: u64) -> (r: Option<u64>)
    requires
        a <= b <= cs@.len(),
    ensures
        match parse_unsigned(cs@.subrange(a as int, b as int), bound as nat) {
            Some(v) => r == Some(v as u64),
            None => r is None,
        },
{
    let ghost s = cs@.subrange(a as int, b as int);
    let mut start = a;
    if a < b && cs[a] == '+' {
        start = a + 1;
    }
    let ghost d = cs@.subrange(start as int, b as int);
    assert(d =~= (if s.len() > 0 && s[0] == '+' { s.drop_first() } else { s }));
    if start == b {
        return None;
    }
    let mut acc: u128 = 0;
    let mut i = start;
    while i < b
        invariant
            a <= start <= i <= b <= cs@.len(),
            d == cs@.subrange(start as int, b as int),
            s == cs@.subrange(a as int, b as int),
            d =~= (if s.len() > 0 && s[0] == '+' { s.drop_first() } else { s }),
            forall|j: int| start <= j < i ==> is_digit(#[trigger] cs@[j]),
            acc == digits_value(d.take(i - start)),
            acc <= bound,
        decreases b - i,
    {
        let c = cs[i];
        if !('0' <= c && c <= '9') {
            assert(!is_digit(d[i - start]));
            return None;
        }
        let dv: u128 = (c as u128) - 48;
        acc = acc * 10 + dv;
        assert(d.take(i + 1 - start).drop_last() =~= d.take(i - start));
        i = i + 1;
        if acc > bound as u128 {
            proof {
                if all_digits(d) {
                    lemma_digits_value_grows(d, i - start, d.len() as int);
                    assert(d.take(d.len() as int) =~= d);
                }
            }
            return None;
        }
    }
    assert(d.take(d.len() as int) =~= d);
    assert(all_digits(d)) by {
        assert forall|j: int| 0 <= j < d.len() implies is_digit(#[trigger] d[j]) by {
            assert(d[j] == cs@[start + j]);
        }
    }
    Some(acc as u64)
}

/// Parses `cs[a..b]` as `str::parse::<u32>` does.
fn parse_u32_range(cs: &Vec<char>, a: usize, b: usize) -> (r: Option<u32>)
    requires
        a <= b <= cs@.len(),
    ensures
        r == parse_u32(cs@.subrange(a as int, b as int)),
{
    match parse_unsigned_range(cs, a, b, 0xffff_ffff) {
        Some(v) => Some(v as u32),
        None => None,
    }
}

/// The numeric components of a version string: leading `v`s stripped, the
/// part from the first `-` dropped, split at `.`, and the pieces that parse
/// as `u32` kept in order.
pub fn parse_version_parts(s: &str) -> (parts: Vec<u32>)
    ensures
        parts@ == version_parts(s@),
{
    let cs = chars_of(s);
    let n = cs.len();
    let mut start: usize = 0;
    while start < n && cs[start] == 'v'
        invariant
            cs@ == s@,
            n == cs@.len(),
            start <= n,
            forall|j: int| 0 <= j < start ==> cs@[j] == 'v',
        decreases n - start,
    {
        start = start + 1;
    }
    proof {
        lemma_leading_count(s@, 'v', start as int);
    }
    let ghost t = s@.skip(start as int);
    let mut end = start;
    while end < n && cs[end] != '-'
        invariant
            cs@ == s@,
            n == cs@.len(),
            start <= end <= n,
            forall|j: int| start <= j < end ==> cs@[j] != '-',
        decreases n - end,
    {
        end = end + 1;
    }
    proof {
        lemma_index_of_or_len(t, '-', end - start);
    }
    let ghost core = cs@.subrange(start as int, end as int);
    assert(core =~= version_core(s@));

    let mut parts: Vec<u32> = Vec::new();
    let mut pos = start;
    loop
        invariant_except_break
            cs@ == s@,
            n == cs@.len(),
            start <= pos <= end <= n,
            core == cs@.subrange(start as int, end as int),
            parts@ + parsed_numbers(split_on(cs@.subrange(pos as int, end as int), '.'))
                == parsed_numbers(split_on(core, '.')),
        ensures
            parts@ == parsed_numbers(split_on(core, '.')),
        decreases end - pos,
    {
        let ghost rest = cs@.subrange(pos as int, end as int);
        let mut k = pos;
        while k < end && cs[k] != '.'
            invariant
                cs@ == s@,
                n == cs@.len(),
                pos <= k <= end <= n,
                forall|j: int| pos <= j < k ==> cs@[j] != '.',
            decreases end - k,
        {
            k = k + 1;
        }
        proof {
            lemma_index_of_or_len(rest, '.', k - pos);
        }
        let piece = parse_u32_range(&cs, pos, k);
        let ghost head = rest.take(k - pos);
        assert(head =~= cs@.subrange(pos as int, k as int));
        if k == end {
            assert(split_on(rest, '.') == seq![rest]);
            assert(rest =~= head);
            assert(seq![rest].drop_first() =~= Seq::<Seq<char>>::empty());
            match piece {
                Some(v) => {
                    parts.push(v);
                }
                None => {}
            }
            assert(parsed_numbers(Seq::<Seq<char>>::empty()) == Seq::<u32>::empty());
            assert(parts@ =~= parsed_numbers(split_on(core, '.')));
            break;
        } else {
            let ghost tail = rest.skip(k - pos + 1);
            assert(tail =~= cs@.subrange(k + 1, end as int));
            assert(split_on(rest, '.') == seq![head] + split_on(tail, '.'));
            assert((seq![head] + split_on(tail, '.')).drop_first() =~= split_on(tail, '.'));
            let ghost old_parts = parts@;
            match piece {
                Some(v) => {
                    parts.push(v);
                    assert(parts@ + parsed_numbers(split_on(tail, '.')) =~= old_parts + (seq![v]
                        + parsed_numbers(split_on(tail, '.'))));
                }
                None => {}
            }
            pos = k + 1;
        }
    }
    parts
}

/// Whether a node running version `current` meets the minimum `required`.
///
/// Both strings may carry a leading `v` and a `-suffix`; the remaining
/// dot-separated numbers are compared lexicographically. Versions of
/// different lineages (different first numbers, such as Firedancer `0.x`
/// against Agave `2.x`) are never compliant with each other, and a string
/// without any number is never compliant.
pub fn is_compliant(current: &str, required: &str) -> (ok: bool)
    ensures
        ok == compliant(current@, required@),
{
    let a = parse_version_parts(current);
    let b = parse_version_parts(required);
    if a.len() == 0 || b.len() == 0 {
        return false;
    }
    if a[0] != b[0] {
        return false;
    }
    let mut i: usize = 0;
    assert(a@.skip(0) =~= a@);
    assert(b@.skip(0) =~= b@);
    while i < a.len() && i < b.len() && a[i] == b[i]
        invariant
            a@ == version_parts(current@),
            b@ == version_parts(required@),
            i <= a.len(),
            i <= b.len(),
            lex_ge(a@, b@) == lex_ge(a@.skip(i as int), b@.skip(i as int)),
        decreases a.len() - i,
    {
        proof {
            assert(a@.skip(i as int).drop_first() =~= a@.skip(i + 1));
            assert(b@.skip(i as int).drop_first() =~= b@.skip(i + 1));
        }
        i = i + 1;
    }
    if i == b.len() {
        true
    } else if i == a.len() {
        false
    } else {
        a[i] > b[i]
    }
}

// ---------------------------------------------------------------------------
// Durations
// ---------------------------------------------------------------------------

/// Integer division rounding toward zero, as Rust's `/` on signed integers.
pub open spec fn trunc_div(a: int, b: int) -> int {
    if a >= 0 {
        a / b
    } else {
        -((-a) / b)
    }
}

/// The remainder that goes with `trunc_div`, as Rust's `%` on signed integers
/// (it takes the sign of `a`).
pub open spec fn trunc_rem(a: int, b: int) -> int {
    if a >= 0 {
        a % b
    } else {
        -((-a) % b)
    }
}

pub open spec fn duration_days(s: int) -> int {
    trunc_div(s, 86400)
}

pub open spec fn duration_hours(s: int) -> int {
    trunc_div(trunc_rem(s, 86400), 3600)
}

pub open spec fn duration_mins(s: int) -> int {
    trunc_div(trunc_rem(s, 3600), 60)
}

pub open spec fn duration_secs(s: int) -> int {
    trunc_rem(s, 60)
}

/// `"{d}d {h}h {m}m {s}s"` when there is at least a day, `"{h}h {m}m {s}s"`
/// when there is at least an hour, and `"{m}m {s}s"` otherwise.
pub open spec fn duration_text(s: int) -> Seq<char> {
    let d = duration_days(s);
    let h = duration_hours(s);
    let m = duration_mins(s);
    let x = duration_secs(s);
    let tail = int_text(m) + "m "@ + int_text(x) + "s"@;
    if d > 0 {
        int_text(d) + "d "@ + int_text(h) + "h "@ + tail
    } else if h > 0 {
        int_text(h) + "h "@ + tail
    } else {
        tail
    }
}

/// The components of a non-negative duration add back up to it, each within
/// its unit's range.
pub proof fn law_duration_components(s: int)
    requires
        s >= 0,
    ensures
        duration_days(s) * 86400 + duration_hours(s) * 3600 + duration_mins(s) * 60
            + duration_secs(s) == s,
        0 <= duration_hours(s) < 24,
        0 <= duration_mins(s) < 60,
        0 <= duration_secs(s) < 60,
{
    assert(s % 86400 == (s % 3600) + 3600 * ((s % 86400) / 3600)) by (nonlinear_arith)
        requires s >= 0;
    assert(s % 3600 == (s % 60) + 60 * ((s % 3600) / 60)) by (nonlinear_arith)
        requires s >= 0;
    assert((s % 3600) % 60 == s % 60) by (nonlinear_arith)
        requires s >= 0;
    assert(s == (s / 86400) * 86400 + s % 86400) by (nonlinear_arith);
}

/// The text of a duration rendered from days `d`, hours `h`, minutes `m` and
/// seconds `x`, leaving out leading days and hours that are zero.
pub open spec fn duration_shape(d: int, h: int, m: int, x: int) -> Seq<char> {
    if d > 0 {
        int_text(d) + "d "@ + int_text(h) + "h "@ + int_text(m) + "m "@ + int_text(x) + "s"@
    } else if h > 0 {
        int_text(h) + "h "@ + int_text(m) + "m "@ + int_text(x) + "s"@
    } else {
        int_text(m) + "m "@ + int_text(x) + "s"@
    }
}

/// `t` renders `s` seconds: it is made of days, hours (under a day), minutes
/// and seconds (under an hour and a minute) that add up to `s`.
pub open spec fn shows_duration(t: Seq<char>, s: int) -> bool {
    exists|d: int, h: int, m: int, x: int|
        #![trigger duration_shape(d, h, m, x)]
        d >= 0 && 0 <= h < 24 && 0 <= m < 60 && 0 <= x < 60 && d * 86400 + h * 3600 + m * 60 + x
            == s && t == duration_shape(d, h, m, x)
}

/// A non-negative duration is rendered as units that add up to it.
pub proof fn law_duration_text_shows_seconds(s: int)
    requires
        s >= 0,
    ensures
        shows_duration(duration_text(s), s),
{
    law_duration_components(s);
    let d = duration_days(s);
    let h = duration_hours(s);
    let m = duration_mins(s);
    let x = duration_secs(s);
    assert(d >= 0);
    assert(duration_text(s) == duration_shape(d, h, m, x));
}

/// Renders a number of seconds as days, hours, minutes and seconds,
/// omitting the leading units that are zero (down to minutes).
pub fn format_duration(seconds: i64) -> (text: String)
    ensures
        text@ == duration_text(seconds as int),
{
    let days = seconds / 86400;
    let hours = (seconds % 86400) / 3600;
    let mins = (seconds % 3600) / 60;
    let secs = seconds % 60;
    let mut out = String::new();
    if days > 0 {
        push_i64(&mut out, days);
        out.append("d ");
        push_i64(&mut out, hours);
        out.append("h ");
    } else if hours > 0 {
        push_i64(&mut out, hours);
        out.append("h ");
    }
    push_i64(&mut out, mins);
    out.append("m ");
    push_i64(&mut out, secs);
    out.append("s");
    assert(out@ =~= duration_text(seconds as int));
    out
}

} // verus!
