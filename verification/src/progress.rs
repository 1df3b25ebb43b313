//! Progress estimation for a merge run. The engine streams `key=value`
//! lines into a designated file; the line `out_time_ms=<microseconds>`
//! carries the elapsed output time. A monitor polls that file, takes the
//! last such value, and turns it into a clamped percentage of the expected
//! total duration. The monitor ends when the file is gone (the caller
//! removes it after the engine exits) or when a bounded wait for its
//! creation runs out, and always emits one final 100% notification.

use vstd::prelude::*;
use crate::text::{all_digits, dec_val, parse_u64, str_eq};
use vstd::arithmetic::div_mod::{lemma_div_is_ordered, lemma_div_multiples_vanish};

verus! {

/// The key prefix of an elapsed-output-time line.
pub open spec fn out_time_prefix() -> Seq<char> {
    seq!['o', 'u', 't', '_', 't', 'i', 'm', 'e', '_', 'm', 's', '=']
}

/// The elapsed value one line carries: the digits after the key, when the
/// line is such a key-value pair with a value that fits.
pub open spec fn line_value(line: Seq<char>) -> Option<int> {
    if line.len() > 12 && line.take(12) == out_time_prefix() && all_digits(line.skip(12))
        && dec_val(line.skip(12)) <= u64::MAX {
        Some(dec_val(line.skip(12)))
    } else {
        None
    }
}

/// The index right after the last newline of `s`; `0` when `s` has none.
pub open spec fn nl_split(s: Seq<char>) -> int
    decreases s.len(),
{
    if s.len() == 0 {
        0
    } else if s.last() == '\n' {
        s.len() as int
    } else {
        nl_split(s.drop_last())
    }
}

/// Newline split points lie within the content.
proof fn lemma_nl_split_bound(s: Seq<char>)
    ensures
        0 <= nl_split(s) <= s.len(),
    decreases s.len(),
{
    if s.len() > 0 && s.last() != '\n' {
        lemma_nl_split_bound(s.drop_last());
    }
}

/// The lines of `s`, split at every newline.
pub open spec fn lines_of(s: Seq<char>) -> Seq<Seq<char>>
    decreases s.len(),
    via lines_of_decreases
{
    let k = nl_split(s);
    if k == 0 {
        seq![s]
    } else {
        lines_of(s.take(k - 1)) + seq![s.skip(k)]
    }
}

#[via_fn]
proof fn lines_of_decreases(s: Seq<char>) {
    lemma_nl_split_bound(s);
}

/// The last elapsed value any of the lines carries.
pub open spec fn last_value(lines: Seq<Seq<char>>) -> Option<int>
    decreases lines.len(),
{
    if lines.len() == 0 {
        None
    } else {
        match line_value(lines.last()) {
            Some(v) => Some(v),
            None => last_value(lines.drop_last()),
        }
    }
}

/// The elapsed output time, in microseconds, that a progress file's
/// content reports: the value of the last parseable elapsed-time line.
pub open spec fn elapsed_us_of(content: Seq<char>) -> Option<int> {
    last_value(lines_of(content))
}

/// A newline index with nothing but other characters after it pins down
/// `nl_split`.
proof fn lemma_nl_split_at(s: Seq<char>, i: int)
    requires
        0 <= i < s.len(),
        s[i] == '\n',
        forall|j: int| i < j < s.len() ==> s[j] != '\n',
    ensures
        nl_split(s) == i + 1,
    decreases s.len(),
{
    if i == s.len() - 1 {
    } else {
        assert(s.last() != '\n');
        assert(s.drop_last()[i] == s[i]);
        lemma_nl_split_at(s.drop_last(), i);
    }
}

/// A content without newlines has split point zero.
proof fn lemma_nl_split_none(s: Seq<char>)
    requires
        forall|j: int| 0 <= j < s.len() ==> s[j] != '\n',
    ensures
        nl_split(s) == 0,
    decreases s.len(),
{
    if s.len() > 0 {
        lemma_nl_split_none(s.drop_last());
    }
}

/// Whether `line` is an elapsed-time line, and its value: the executable
/// counterpart of `line_value`.
fn parse_line_value(line: &str) -> (r: Option<u64>)
    ensures
        match r {
            Some(v) => line_value(line@) == Some(v as int),
            None => line_value(line@) is None,
        },
{
    proof {
        reveal_strlit("out_time_ms=");
        assert("out_time_ms="@ =~= out_time_prefix());
    }
    let len = line.unicode_len();
    if len <= 12 {
        return None;
    }
    let head = line.substring_char(0, 12);
    if !str_eq(head, "out_time_ms=") {
        return None;
    }
    let rest = line.substring_char(12, len);
    parse_u64(rest)
}

/// Reads the elapsed output time off a progress file's content: the value
/// of the last parseable elapsed-time line.
pub fn parse_progress_elapsed_us(content: &str) -> (r: Option<u64>)
    ensures
        match r {
            Some(v) => elapsed_us_of(content@) == Some(v as int),
            None => elapsed_us_of(content@) is None,
        },
{
    let mut end = content.unicode_len();
    proof {
        assert(content@.take(content@.len() as int) =~= content@);
    }
    loop
        invariant
            end <= content@.len(),
            elapsed_us_of(content@) == last_value(lines_of(content@.take(end as int))),
        decreases end,
    {
        let chunk = content.substring_char(0, end);
        let ghost pre = content@.take(end as int);
        let k = match crate::text::rfind_char(chunk, '\n') {
            Some(i) => {
                proof {
                    lemma_nl_split_at(pre, i as int);
                }
                i + 1
            },
            None => {
                proof {
                    lemma_nl_split_none(pre);
                }
                0
            },
        };
        assert(k == nl_split(pre));
        let line = content.substring_char(k, end);
        assert(line@ =~= if k == 0 {
            pre
        } else {
            pre.skip(k as int)
        });
        proof {
            if k != 0 {
                assert(lines_of(pre) == lines_of(pre.take(k - 1)) + seq![pre.skip(k as int)]);
                assert(lines_of(pre).last() == pre.skip(k as int));
                assert(lines_of(pre).drop_last() =~= lines_of(pre.take(k - 1)));
            } else {
                assert(lines_of(pre) =~= seq![pre]);
            }
        }
        match parse_line_value(line) {
            Some(v) => {
                proof {
                    assert(lines_of(pre).last() == line@);
                    assert(last_value(lines_of(pre)) == Some(v as int));
                }
                return Some(v);
            },
            None => {
                if k == 0 {
                    proof {
                        assert(line@ == pre);
                        assert(lines_of(pre) =~= seq![pre]);
                        assert(seq![pre].drop_last() =~= Seq::<Seq<char>>::empty());
                        assert(last_value(lines_of(pre)) is None);
                    }
                    return None;
                }
                proof {
                    assert(lines_of(pre).last() == line@);
                    assert(last_value(lines_of(pre)) == last_value(lines_of(pre).drop_last()));
                    assert(pre.take(k - 1) =~= content@.take(k - 1));
                }
                end = k - 1;
            },
        }
    }
}

/// The clamped percentage of `elapsed` against `total`: zero when nothing
/// is reported yet, 100 at or beyond the total, and 100 when no positive
/// total is known.
pub open spec fn percent_of(elapsed: int, total: int) -> int {
    if total <= 0 {
        100
    } else if elapsed >= total {
        100
    } else if elapsed < 0 {
        0
    } else {
        elapsed * 100 / total
    }
}

/// Computes the clamped progress percentage.
pub fn progress_percent(elapsed_us: u64, total_us: u64) -> (r: u32)
    ensures
        r == percent_of(elapsed_us as int, total_us as int),
        r <= 100,
{
    if total_us == 0 || elapsed_us >= total_us {
        100
    } else {
        let wide = (elapsed_us as u128) * 100 / (total_us as u128);
        proof {
            let e = elapsed_us as int;
            let t = total_us as int;
            assert(e * 100 <= t * 100) by (nonlinear_arith)
                requires
                    e <= t,
            ;
            lemma_div_is_ordered(e * 100, t * 100, t);
            lemma_div_multiples_vanish(100, t);
            assert(t * 100 == 100 * t) by (nonlinear_arith);
            assert(e * 100 / t <= 100);
            assert((elapsed_us as u128) * 100 == e * 100);
        }
        wide as u32
    }
}

/// The percentage a monitor poll reports for a file content: the last
/// reported elapsed time against the expected total, or zero elapsed when
/// no line parses yet.
pub open spec fn content_percent(total_us: u64, content: Seq<char>) -> int {
    match elapsed_us_of(content) {
        Some(v) => percent_of(v, total_us as int),
        None => percent_of(0, total_us as int),
    }
}

/// How many polls the monitor waits for the progress file to appear
/// before giving up.
pub const MONITOR_WAIT_BOUND: u32 = 50;

/// What one poll of the progress file found.
pub enum MonitorPoll {
    /// The file does not exist yet.
    Absent,
    /// The file exists and holds this content.
    Content(String),
    /// The file is gone: the merge is over and the caller removed it.
    Gone,
}

/// The live monitor of one merge run: polls the progress file at a fixed
/// interval and turns each content into a notification.
pub struct ProgressMonitor {
    /// The expected duration of the concatenated output, in microseconds.
    pub total_us: u64,
    /// Polls spent waiting for the file to appear.
    pub waits: u32,
    /// Whether the monitor has ended (and has emitted its final 100%).
    pub done: bool,
}

impl ProgressMonitor {
    /// A monitor for an expected total duration.
    pub fn new(total_us: u64) -> (r: ProgressMonitor)
        ensures
            r.total_us == total_us,
            r.waits == 0,
            !r.done,
    {
        ProgressMonitor { total_us, waits: 0, done: false }
    }

    /// Feeds one poll into the monitor; returns the percentage to emit,
    /// if any. The monitor ends on a vanished file or an exhausted wait,
    /// and its last emission is always 100.
    pub fn poll(&mut self, found: MonitorPoll) -> (emit: Option<u32>)
        requires
            !old(self).done,
        ensures
            final(self).total_us == old(self).total_us,
            match found {
                MonitorPoll::Absent => {
                    &&& final(self).waits == old(self).waits + 1 || (old(self).waits
                        == u32::MAX && final(self).waits == u32::MAX)
                    &&& final(self).done == (final(self).waits >= MONITOR_WAIT_BOUND)
                    &&& emit == if final(self).done {
                        Some(100u32)
                    } else {
                        None::<u32>
                    }
                },
                MonitorPoll::Content(c) => {
                    &&& !final(self).done
                    &&& final(self).waits == old(self).waits
                    &&& emit matches Some(p) && p == content_percent(old(self).total_us, c@)
                },
                MonitorPoll::Gone => {
                    &&& final(self).done
                    &&& emit == Some(100u32)
                },
            },
    {
        match found {
            MonitorPoll::Absent => {
                if self.waits < u32::MAX {
                    self.waits = self.waits + 1;
                }
                if self.waits >= MONITOR_WAIT_BOUND {
                    self.done = true;
                    Some(100)
                } else {
                    None
                }
            },
            MonitorPoll::Content(c) => {
                let elapsed = match parse_progress_elapsed_us(c.as_str()) {
                    Some(v) => v,
                    None => 0,
                };
                proof {
                    if elapsed_us_of(c@) is None {
                        assert(content_percent(self.total_us, c@) == percent_of(
                            0,
                            self.total_us as int,
                        ));
                    }
                }
                Some(progress_percent(elapsed, self.total_us))
            },
            MonitorPoll::Gone => {
                self.done = true;
                Some(100)
            },
        }
    }
}

/// Progress is monotone in the elapsed time and never exceeds 100.
pub proof fn lemma_percent_monotone(e1: int, e2: int, total: int)
    requires
        e1 <= e2,
    ensures
        percent_of(e1, total) <= percent_of(e2, total),
        percent_of(e2, total) <= 100,
        percent_of(e1, total) >= 0,
{
    if total > 0 && 0 <= e1 && e2 < total {
        assert(e1 * 100 <= e2 * 100) by (nonlinear_arith)
            requires
                e1 <= e2,
        ;
        lemma_div_is_ordered(e1 * 100, e2 * 100, total);
    }
    if total > 0 && 0 <= e1 < total {
        assert(e1 * 100 <= total * 100) by (nonlinear_arith)
            requires
                e1 <= total,
        ;
        lemma_div_is_ordered(e1 * 100, total * 100, total);
        lemma_div_multiples_vanish(100, total);
        assert(total * 100 == 100 * total) by (nonlinear_arith);
    }
    if total > 0 && 0 <= e2 < total {
        assert(e2 * 100 <= total * 100) by (nonlinear_arith)
            requires
                e2 <= total,
        ;
        lemma_div_is_ordered(e2 * 100, total * 100, total);
        lemma_div_multiples_vanish(100, total);
        assert(total * 100 == 100 * total) by (nonlinear_arith);
    }
    if total > 0 && e1 < 0 && 0 <= e2 < total {
        vstd::arithmetic::div_mod::lemma_div_pos_is_pos(e2 * 100, total);
        assert(e2 * 100 >= 0) by (nonlinear_arith)
            requires
                e2 >= 0,
        ;
    }
}

/// The emissions of one monitored merge run: one percentage per content
/// poll, then the final 100.
pub open spec fn monitor_emissions(total_us: u64, contents: Seq<Seq<char>>) -> Seq<int> {
    contents.map(|i: int, c: Seq<char>| content_percent(total_us, c)) + seq![100int]
}

/// The elapsed time a content reports, with zero for none yet.
pub open spec fn reported_elapsed(content: Seq<char>) -> int {
    match elapsed_us_of(content) {
        Some(v) => v,
        None => 0,
    }
}

/// Progress monotonicity: over one merge run whose polled contents report
/// non-decreasing elapsed times (the engine only appends to the progress
/// file), the emitted percentages are non-decreasing and end with the
/// terminal 100 notification.
pub proof fn lemma_monitor_monotone(total_us: u64, contents: Seq<Seq<char>>)
    requires
        forall|i: int, j: int|
            0 <= i <= j < contents.len() ==> reported_elapsed(#[trigger] contents[i])
                <= reported_elapsed(#[trigger] contents[j]),
    ensures
        forall|i: int, j: int|
            0 <= i <= j < monitor_emissions(total_us, contents).len() ==> monitor_emissions(
                total_us,
                contents,
            )[i] <= monitor_emissions(total_us, contents)[j],
        monitor_emissions(total_us, contents).last() == 100,
{
    let em = monitor_emissions(total_us, contents);
    assert(em.last() == 100);
    assert forall|i: int, j: int| 0 <= i <= j < em.len() implies em[i] <= em[j] by {
        if j < contents.len() {
            assert(em[i] == content_percent(total_us, contents[i]));
            assert(em[j] == content_percent(total_us, contents[j]));
            lemma_percent_monotone(
                reported_elapsed(contents[i]),
                reported_elapsed(contents[j]),
                total_us as int,
            );
        } else if i < contents.len() {
            assert(em[i] == content_percent(total_us, contents[i]));
            assert(em[j] == 100);
            lemma_percent_monotone(
                reported_elapsed(contents[i]),
                reported_elapsed(contents[i]),
                total_us as int,
            );
        }
    }
}

/// The expected total duration of the concatenated output, from the two
/// probed durations in milliseconds, in microseconds; `None` when it does
/// not fit.
pub fn total_duration_us(intro_ms: u64, video_ms: u64) -> (r: Option<u64>)
    ensures
        match r {
            Some(v) => v == (intro_ms + video_ms) * 1000,
            None => (intro_ms + video_ms) * 1000 > u64::MAX,
        },
{
    match intro_ms.checked_add(video_ms) {
        Some(sum) => sum.checked_mul(1000),
        None => {
            proof {
                assert((intro_ms + video_ms) * 1000 > u64::MAX) by (nonlinear_arith)
                    requires
                        intro_ms + video_ms > u64::MAX,
                ;
            }
            None
        },
    }
}

} // verus!
