//! Daemon health rules over the tail of its log.
//!
//! A "running" daemon may be stuck retrying a microphone it cannot open;
//! the service manager still reports it alive. These rules look at the last
//! log lines and say whether that is the case. Reading the log is not done
//! here.
use vstd::prelude::*;

use crate::text::{decimal, decimal_string, has_infix, str_contains};

verus! {

/// The log phrases that mark a microphone failure.
pub open spec fn mic_failure_patterns() -> Seq<Seq<char>> {
    seq![
        "Failed to get default microphone config"@,
        "录音失败"@,
        "麦克风仍不可用"@,
        "麦克风断开"@,
        "mic disconnected"@,
        "mic calibration failed"@,
    ]
}

/// `line` contains one of the microphone failure phrases.
pub open spec fn is_mic_failure(line: Seq<char>) -> bool {
    exists|i: int| 0 <= i < mic_failure_patterns().len() && has_infix(line, #[trigger] mic_failure_patterns()[i])
}

/// Number of lines that are microphone failures.
pub open spec fn count_failures(lines: Seq<Seq<char>>) -> nat
    decreases lines.len(),
{
    if lines.len() == 0 {
        0
    } else {
        count_failures(lines.drop_last()) + if is_mic_failure(lines.last()) {
            1nat
        } else {
            0nat
        }
    }
}

/// The lines' characters.
pub open spec fn lines_view(lines: Seq<&str>) -> Seq<Seq<char>> {
    lines.map_values(|l: &str| l@)
}

/// The warnings for a log tail: persistent failure, past failures, or none.
pub open spec fn health_warnings(tail: Seq<Seq<char>>) -> Seq<Seq<char>> {
    let count = count_failures(tail);
    let last = tail.len() > 0 && is_mic_failure(tail.last());
    if count >= 3 && last {
        seq![
            "麦克风持续不可用（最近 "@ + decimal(tail.len()) + " 行中有 "@ + decimal(count)
                + " 条录音失败日志）"@,
        ]
    } else if count >= 3 {
        seq!["最近有 "@ + decimal(count) + " 条录音失败日志（可能已恢复，但建议检查）"@]
    } else {
        Seq::empty()
    }
}

/// Whether `line` contains one of the microphone failure phrases.
fn is_hit(line: &str) -> (r: bool)
    ensures
        r == is_mic_failure(line@),
{
    let pats: [&str; 6] = [
        "Failed to get default microphone config",
        "录音失败",
        "麦克风仍不可用",
        "麦克风断开",
        "mic disconnected",
        "mic calibration failed",
    ];
    assert(pats@.map_values(|p: &str| p@) =~= mic_failure_patterns());
    let mut k: usize = 0;
    while k < 6
        invariant
            k <= 6,
            pats@.map_values(|p: &str| p@) == mic_failure_patterns(),
            forall|i: int| 0 <= i < k ==> !has_infix(line@, #[trigger] mic_failure_patterns()[i]),
        decreases 6 - k,
    {
        assert(pats@[k as int]@ == mic_failure_patterns()[k as int]);
        if str_contains(line, pats[k]) {
            return true;
        }
        k += 1;
    }
    false
}

/// Counts the lines of `lines` that match a microphone failure pattern, and
/// tells whether the last line is one.
pub fn scan_lines_for_mic_failure(lines: &[&str]) -> (r: (usize, bool))
    ensures
        r.0 == count_failures(lines_view(lines@)),
        r.1 == (lines@.len() > 0 && is_mic_failure(lines_view(lines@).last())),
{
    let mut count: usize = 0;
    let mut i: usize = 0;
    let ghost all = lines_view(lines@);
    while i < lines.len()
        invariant
            i <= lines@.len(),
            all == lines_view(lines@),
            count == count_failures(all.subrange(0, i as int)),
            count <= i,
        decreases lines.len() - i,
    {
        assert(all.subrange(0, i + 1).drop_last() == all.subrange(0, i as int));
        assert(all[i as int] == lines@[i as int]@);
        if is_hit(lines[i]) {
            count += 1;
        }
        i += 1;
    }
    assert(all.subrange(0, lines@.len() as int) == all);
    let last = if lines.len() > 0 {
        is_hit(lines[lines.len() - 1])
    } else {
        false
    };
    (count, last)
}

/// User-facing health warnings for a daemon log tail (empty = healthy).
pub fn build_health_warnings(tail: &[&str]) -> (r: Vec<String>)
    ensures
        r@.map_values(|s: String| s@) == health_warnings(lines_view(tail@)),
{
    let mut warnings: Vec<String> = Vec::new();
    let (mic_count, mic_last) = scan_lines_for_mic_failure(tail);
    if mic_count >= 3 && mic_last {
        let mut w = String::from_str("麦克风持续不可用（最近 ");
        w.append(decimal_string(tail.len() as u64).as_str());
        w.append(" 行中有 ");
        w.append(decimal_string(mic_count as u64).as_str());
        w.append(" 条录音失败日志）");
        warnings.push(w);
    } else if mic_count >= 3 {
        let mut w = String::from_str("最近有 ");
        w.append(decimal_string(mic_count as u64).as_str());
        w.append(" 条录音失败日志（可能已恢复，但建议检查）");
        warnings.push(w);
    }
    assert(warnings@.map_values(|s: String| s@) =~= health_warnings(lines_view(tail@)));
    warnings
}

} // verus!
