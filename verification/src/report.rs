//! Reporting a scan: which results deserve attention, the summary's
//! verdict, and the self-contained HTML report.

use vstd::prelude::*;
use crate::scanner::{result_views, ResultView, Severity, Status, Syssec};
use crate::text::{decimal, push_decimal, push_signed, push_zero_padded, signed_decimal, zero_padded};

verus! {

broadcast use vstd::string::group_string_axioms;

// ---------------------------------------------------------------------------
// Selections
// ---------------------------------------------------------------------------

/// The positions, in order, of the results in `rs` that `keep` selects.
pub open spec fn positions(rs: Seq<ResultView>, keep: spec_fn(ResultView) -> bool) -> Seq<usize>
    decreases rs.len(),
{
    if rs.len() == 0 {
        seq![]
    } else {
        let prev = positions(rs.drop_last(), keep);
        if keep(rs.last()) {
            prev.push((rs.len() - 1) as usize)
        } else {
            prev
        }
    }
}

/// A critical failure.
pub open spec fn is_critical(r: ResultView) -> bool {
    r.status == Status::Fail && r.severity == Severity::Critical
}

/// A result that did not pass and says what to do.
pub open spec fn has_advice(r: ResultView) -> bool {
    r.status != Status::Pass && r.recommendation.len() > 0
}

/// The positions of the critical failures among the results.
pub fn critical_positions(s: &Syssec) -> (r: Vec<usize>)
    ensures
        r@ == positions(s.results_view(), |x: ResultView| is_critical(x)),
{
    let ghost rs = s.results_view();
    let mut out: Vec<usize> = Vec::new();
    let mut i: usize = 0;
    assert(rs.take(0) =~= Seq::<ResultView>::empty());
    while i < s.results.len()
        invariant
            i <= rs.len(),
            rs == s.results_view(),
            out@ == positions(rs.take(i as int), |x: ResultView| is_critical(x)),
        decreases rs.len() - i,
    {
        assert(rs.take(i as int + 1).drop_last() =~= rs.take(i as int));
        assert(rs[i as int] == s.results@[i as int]@);
        let r = &s.results[i];
        if r.status == Status::Fail && r.severity == Severity::Critical {
            out.push(i);
        }
        i += 1;
    }
    assert(rs.take(i as int) =~= rs);
    out
}

/// The positions of the results that did not pass and say what to do.
pub fn recommendation_positions(s: &Syssec) -> (r: Vec<usize>)
    ensures
        r@ == positions(s.results_view(), |x: ResultView| has_advice(x)),
{
    let ghost rs = s.results_view();
    let mut out: Vec<usize> = Vec::new();
    let mut i: usize = 0;
    assert(rs.take(0) =~= Seq::<ResultView>::empty());
    while i < s.results.len()
        invariant
            i <= rs.len(),
            rs == s.results_view(),
            out@ == positions(rs.take(i as int), |x: ResultView| has_advice(x)),
        decreases rs.len() - i,
    {
        assert(rs.take(i as int + 1).drop_last() =~= rs.take(i as int));
        assert(rs[i as int] == s.results@[i as int]@);
        let r = &s.results[i];
        if r.status != Status::Pass && !r.recommendation.as_str().is_empty() {
            out.push(i);
        }
        i += 1;
    }
    assert(rs.take(i as int) =~= rs);
    out
}

/// How the summary ends.
#[derive(Copy, Clone, Debug, PartialEq, Eq, Structural)]
pub enum SummaryTone {
    /// Failures to address at once.
    Critical,
    /// Warnings to review.
    Warnings,
    /// All checks passed.
    Clean,
}

pub fn summary_tone(s: &Syssec) -> (r: SummaryTone)
    ensures
        r == if s.failures > 0 {
            SummaryTone::Critical
        } else if s.warnings > 0 {
            SummaryTone::Warnings
        } else {
            SummaryTone::Clean
        },
{
    if s.failures > 0 {
        SummaryTone::Critical
    } else if s.warnings > 0 {
        SummaryTone::Warnings
    } else {
        SummaryTone::Clean
    }
}

/// The exit status of a scan: 1 when some check failed with critical
/// severity, 0 when all passed or gave only warnings.
pub fn exit_code(s: &Syssec) -> (r: i32)
    ensures
        r == if exists|i: int| 0 <= i < s.results_view().len() && is_critical(#[trigger] s.results_view()[i]) {
            1i32
        } else {
            0i32
        },
{
    let ghost rs = s.results_view();
    let mut i: usize = 0;
    while i < s.results.len()
        invariant
            i <= rs.len(),
            rs == s.results_view(),
            forall|k: int| 0 <= k < i ==> !is_critical(#[trigger] rs[k]),
        decreases rs.len() - i,
    {
        assert(rs[i as int] == s.results@[i as int]@);
        let r = &s.results[i];
        if r.status == Status::Fail && r.severity == Severity::Critical {
            return 1;
        }
        i += 1;
    }
    0
}

// ---------------------------------------------------------------------------
// Time stamps
// ---------------------------------------------------------------------------

pub open spec fn day_name(d: int) -> Seq<char> {
    if d == 0 {
        "Sun"@
    } else if d == 1 {
        "Mon"@
    } else if d == 2 {
        "Tue"@
    } else if d == 3 {
        "Wed"@
    } else if d == 4 {
        "Thu"@
    } else if d == 5 {
        "Fri"@
    } else if d == 6 {
        "Sat"@
    } else {
        "?"@
    }
}

pub open spec fn month_name(m: int) -> Seq<char> {
    if m == 0 {
        "Jan"@
    } else if m == 1 {
        "Feb"@
    } else if m == 2 {
        "Mar"@
    } else if m == 3 {
        "Apr"@
    } else if m == 4 {
        "May"@
    } else if m == 5 {
        "Jun"@
    } else if m == 6 {
        "Jul"@
    } else if m == 7 {
        "Aug"@
    } else if m == 8 {
        "Sep"@
    } else if m == 9 {
        "Oct"@
    } else if m == 10 {
        "Nov"@
    } else if m == 11 {
        "Dec"@
    } else {
        "?"@
    }
}

fn day_str(d: i32) -> (r: &'static str)
    ensures
        r@ == day_name(d as int),
{
    if d == 0 {
        "Sun"
    } else if d == 1 {
        "Mon"
    } else if d == 2 {
        "Tue"
    } else if d == 3 {
        "Wed"
    } else if d == 4 {
        "Thu"
    } else if d == 5 {
        "Fri"
    } else if d == 6 {
        "Sat"
    } else {
        "?"
    }
}

fn month_str(m: i32) -> (r: &'static str)
    ensures
        r@ == month_name(m as int),
{
    if m == 0 {
        "Jan"
    } else if m == 1 {
        "Feb"
    } else if m == 2 {
        "Mar"
    } else if m == 3 {
        "Apr"
    } else if m == 4 {
        "May"
    } else if m == 5 {
        "Jun"
    } else if m == 6 {
        "Jul"
    } else if m == 7 {
        "Aug"
    } else if m == 8 {
        "Sep"
    } else if m == 9 {
        "Oct"
    } else if m == 10 {
        "Nov"
    } else if m == 11 {
        "Dec"
    } else {
        "?"
    }
}

/// Broken-down local time, as `localtime` gives it.
#[derive(Copy, Clone, Debug)]
pub struct LocalTime {
    pub wday: i32,
    pub mon: i32,
    pub mday: i32,
    pub hour: i32,
    pub min: i32,
    pub sec: i32,
    pub year: i32,
}

/// A number right-aligned in two places.
pub open spec fn right2(n: int) -> Seq<char> {
    let d = signed_decimal(n);
    if d.len() >= 2 { d } else { " "@ + d }
}

/// A number zero-padded to two places, a sign first when negative.
pub open spec fn pad2(n: int) -> Seq<char> {
    if n >= 0 { zero_padded(n as nat, 2) } else { "-"@ + decimal((-n) as nat) }
}

/// `Www Mmm dd hh:mm:ss yyyy`, the way `ctime` writes a time; a weekday or
/// month out of range shows as `?`.
pub open spec fn ctime_text(t: LocalTime) -> Seq<char> {
    day_name(t.wday as int) + " "@ + month_name(t.mon as int) + " "@ + right2(t.mday as int) + " "@ + pad2(
        t.hour as int,
    ) + ":"@ + pad2(t.min as int) + ":"@ + pad2(t.sec as int) + " "@ + signed_decimal(t.year as int + 1900)
}

fn push_pad2(s: &mut String, n: i32)
    ensures
        final(s)@ == old(s)@ + pad2(n as int),
{
    if n >= 0 {
        push_zero_padded(s, n as u64, 2);
    } else {
        s.append("-");
        push_decimal(s, (-(n as i64)) as u64);
        assert(s@ =~= old(s)@ + pad2(n as int));
    }
}

/// Writes a local time the way `ctime` does.
pub fn ctime_string(t: LocalTime) -> (r: String)
    ensures
        r@ == ctime_text(t),
{
    let mut s = String::from_str(day_str(t.wday));
    s.append(" ");
    s.append(month_str(t.mon));
    s.append(" ");
    let mut d = String::new();
    push_signed(&mut d, t.mday as i64);
    if d.unicode_len() < 2 {
        s.append(" ");
    }
    s.append(d.as_str());
    s.append(" ");
    push_pad2(&mut s, t.hour);
    s.append(":");
    push_pad2(&mut s, t.min);
    s.append(":");
    push_pad2(&mut s, t.sec);
    s.append(" ");
    push_signed(&mut s, t.year as i64 + 1900);
    assert(s@ =~= ctime_text(t));
    s
}

// ---------------------------------------------------------------------------
// HTML
// ---------------------------------------------------------------------------

/// The class and mark of a result's status in the report.
pub open spec fn status_class(st: Status) -> (Seq<char>, Seq<char>) {
    match st {
        Status::Pass => ("pass"@, "\u{2713}"@),
        Status::Warn => ("warn"@, "\u{26a0}"@),
        Status::Fail => ("fail"@, "\u{2717}"@),
        Status::Unknown => ("pass"@, "?"@),
    }
}

fn status_class_exec(st: Status) -> (r: (&'static str, &'static str))
    ensures
        r.0@ == status_class(st).0,
        r.1@ == status_class(st).1,
{
    match st {
        Status::Pass => ("pass", "\u{2713}"),
        Status::Warn => ("warn", "\u{26a0}"),
        Status::Fail => ("fail", "\u{2717}"),
        Status::Unknown => ("pass", "?"),
    }
}

/// The block of one result.
pub open spec fn result_block(r: ResultView) -> Seq<char> {
    let (cls, mark) = status_class(r.status);
    "<div class=\"check "@ + cls + "\">\n"@ + "<strong>"@ + mark + " "@ + r.name + "</strong><br>\n"@
        + r.description + "\n"@ + (if r.recommendation.len() > 0 && r.status != Status::Pass {
        "<div class=\"rec\">\u{2192} "@ + r.recommendation + "</div>\n"@
    } else {
        Seq::<char>::empty()
    }) + "</div>\n"@
}

/// The category that comes before result `i`.
pub open spec fn category_before(rs: Seq<ResultView>, i: int) -> Seq<char> {
    if i == 0 {
        Seq::<char>::empty()
    } else {
        rs[i - 1].category
    }
}

/// What result `i` writes: a heading when its category differs from the
/// one before (closing the open group, if any), then its block.
pub open spec fn result_html(rs: Seq<ResultView>, i: int) -> Seq<char> {
    let prev = category_before(rs, i);
    let r = rs[i];
    (if r.category != prev {
        (if prev.len() > 0 { "</div>\n"@ } else { Seq::<char>::empty() }) + "<h2>"@ + r.category
            + "</h2>\n<div>\n"@
    } else {
        Seq::<char>::empty()
    }) + result_block(r)
}

/// What the first `n` results write.
pub open spec fn results_html(rs: Seq<ResultView>, n: int) -> Seq<char>
    decreases n,
{
    if n <= 0 {
        Seq::<char>::empty()
    } else {
        results_html(rs, n - 1) + result_html(rs, n - 1)
    }
}

pub open spec fn html_style() -> Seq<char> {
    "<style>\n"@ + "body { font-family: monospace; margin: 40px; background: #f5f5f5; }\n"@
        + ".container { max-width: 1000px; margin: 0 auto; background: white; padding: 30px; border-radius: 8px; box-shadow: 0 2px 10px rgba(0,0,0,0.1); }\n"@
        + "h1 { color: #333; border-bottom: 3px solid #4CAF50; padding-bottom: 10px; }\n"@
        + "h2 { color: #555; border-bottom: 1px solid #ddd; padding-bottom: 5px; margin-top: 30px; }\n"@
        + ".summary { display: flex; gap: 20px; margin: 20px 0; }\n"@
        + ".summary-item { padding: 15px 25px; border-radius: 6px; }\n"@
        + ".pass { background: #d4edda; color: #155724; }\n"@
        + ".warn { background: #fff3cd; color: #856404; }\n"@
        + ".fail { background: #f8d7da; color: #721c24; }\n"@
        + ".check { margin: 10px 0; padding: 12px; border-left: 4px solid #ddd; background: #fafafa; border-radius: 4px; }\n"@
        + ".check.pass { border-left-color: #4CAF50; }\n"@
        + ".check.warn { border-left-color: #FF9800; }\n"@
        + ".check.fail { border-left-color: #f44336; }\n"@
        + ".rec { background: #fff8e1; padding: 8px 12px; margin-top: 8px; border-radius: 4px; font-size: 0.9em; }\n"@
        + "</style>\n</head>\n<body>\n<div class=\"container\">\n"@
}

/// The report's head, title and summary.
pub open spec fn html_title(hostname: Seq<char>) -> Seq<char> {
    "<!DOCTYPE html>\n<html>\n<head>\n<meta charset=\"UTF-8\">\n"@ + "<title>SYSSEC Report - "@ + hostname
        + "</title>\n"@
}

pub open spec fn html_facts(hostname: Seq<char>, os_release: Seq<char>, stamp: Seq<char>) -> Seq<char> {
    "<h1>SYSSEC Security Report</h1>\n"@ + "<p><strong>Hostname:</strong> "@ + hostname + "</p>\n"@
        + "<p><strong>Kernel:</strong> "@ + os_release + "</p>\n"@ + "<p><strong>Timestamp:</strong> "@ + stamp
        + "</p>\n"@
}

pub open spec fn html_counts(passed: i32, warnings: i32, failures: i32, total: nat) -> Seq<char> {
    "<div class=\"summary\">\n"@ + "<div class=\"summary-item pass\"><strong>\u{2713} Passed:</strong> "@
        + signed_decimal(passed as int) + "</div>\n"@
        + "<div class=\"summary-item warn\"><strong>\u{26a0} Warnings:</strong> "@ + signed_decimal(
        warnings as int,
    ) + "</div>\n"@ + "<div class=\"summary-item fail\"><strong>\u{2717} Failed:</strong> "@
        + signed_decimal(failures as int) + "</div>\n"@ + "<div class=\"summary-item\"><strong>Total:</strong> "@
        + decimal(total) + "</div>\n"@ + "</div>\n"@
}

pub open spec fn html_head(
    hostname: Seq<char>,
    os_release: Seq<char>,
    stamp: Seq<char>,
    passed: i32,
    warnings: i32,
    failures: i32,
    total: nat,
) -> Seq<char> {
    html_title(hostname) + html_style() + html_facts(hostname, os_release, stamp) + html_counts(
        passed,
        warnings,
        failures,
        total,
    )
}

/// The whole HTML report of a scan whose time reads `stamp`.
pub open spec fn html_report(
    hostname: Seq<char>,
    os_release: Seq<char>,
    stamp: Seq<char>,
    passed: i32,
    warnings: i32,
    failures: i32,
    rs: Seq<ResultView>,
) -> Seq<char> {
    let last = if rs.len() > 0 { rs.last().category } else { Seq::<char>::empty() };
    html_head(hostname, os_release, stamp, passed, warnings, failures, rs.len()) + results_html(
        rs,
        rs.len() as int,
    ) + (if last.len() > 0 { "</div>\n"@ } else { Seq::<char>::empty() }) + "</div>\n</body>\n</html>\n"@
}

fn push_style(out: &mut String)
    ensures
        final(out)@ == old(out)@ + html_style(),
{
    let ghost o = out@;
    out.append("<style>\n");
    out.append("body { font-family: monospace; margin: 40px; background: #f5f5f5; }\n");
    out.append(".container { max-width: 1000px; margin: 0 auto; background: white; padding: 30px; border-radius: 8px; box-shadow: 0 2px 10px rgba(0,0,0,0.1); }\n");
    out.append("h1 { color: #333; border-bottom: 3px solid #4CAF50; padding-bottom: 10px; }\n");
    out.append("h2 { color: #555; border-bottom: 1px solid #ddd; padding-bottom: 5px; margin-top: 30px; }\n");
    out.append(".summary { display: flex; gap: 20px; margin: 20px 0; }\n");
    out.append(".summary-item { padding: 15px 25px; border-radius: 6px; }\n");
    out.append(".pass { background: #d4edda; color: #155724; }\n");
    out.append(".warn { background: #fff3cd; color: #856404; }\n");
    out.append(".fail { background: #f8d7da; color: #721c24; }\n");
    out.append(".check { margin: 10px 0; padding: 12px; border-left: 4px solid #ddd; background: #fafafa; border-radius: 4px; }\n");
    out.append(".check.pass { border-left-color: #4CAF50; }\n");
    out.append(".check.warn { border-left-color: #FF9800; }\n");
    out.append(".check.fail { border-left-color: #f44336; }\n");
    out.append(".rec { background: #fff8e1; padding: 8px 12px; margin-top: 8px; border-radius: 4px; font-size: 0.9em; }\n");
    out.append("</style>\n</head>\n<body>\n<div class=\"container\">\n");
    assert(out@ =~= o + html_style());
}

fn push_counts(out: &mut String, passed: i32, warnings: i32, failures: i32, total: usize)
    ensures
        final(out)@ == old(out)@ + html_counts(passed, warnings, failures, total as nat),
{
    let ghost o = out@;
    out.append("<div class=\"summary\">\n");
    out.append("<div class=\"summary-item pass\"><strong>\u{2713} Passed:</strong> ");
    push_signed(out, passed as i64);
    out.append("</div>\n");
    out.append("<div class=\"summary-item warn\"><strong>\u{26a0} Warnings:</strong> ");
    push_signed(out, warnings as i64);
    out.append("</div>\n");
    out.append("<div class=\"summary-item fail\"><strong>\u{2717} Failed:</strong> ");
    push_signed(out, failures as i64);
    out.append("</div>\n");
    out.append("<div class=\"summary-item\"><strong>Total:</strong> ");
    push_decimal(out, total as u64);
    out.append("</div>\n");
    out.append("</div>\n");
    assert(out@ =~= o + html_counts(passed, warnings, failures, total as nat));
}

fn push_head(out: &mut String, s: &Syssec, stamp: &str)
    ensures
        final(out)@ == old(out)@ + html_head(
            s.hostname@,
            s.os_release@,
            stamp@,
            s.passed,
            s.warnings,
            s.failures,
            s.results@.len(),
        ),
{
    let ghost o = out@;
    out.append("<!DOCTYPE html>\n<html>\n<head>\n<meta charset=\"UTF-8\">\n");
    out.append("<title>SYSSEC Report - ");
    out.append(s.hostname.as_str());
    out.append("</title>\n");
    assert(out@ =~= o + html_title(s.hostname@));
    let ghost o1 = out@;
    push_style(out);
    let ghost o2 = out@;
    out.append("<h1>SYSSEC Security Report</h1>\n");
    out.append("<p><strong>Hostname:</strong> ");
    out.append(s.hostname.as_str());
    out.append("</p>\n");
    out.append("<p><strong>Kernel:</strong> ");
    out.append(s.os_release.as_str());
    out.append("</p>\n");
    out.append("<p><strong>Timestamp:</strong> ");
    out.append(stamp);
    out.append("</p>\n");
    assert(out@ =~= o2 + html_facts(s.hostname@, s.os_release@, stamp@));
    let ghost o3 = out@;
    push_counts(out, s.passed, s.warnings, s.failures, s.results.len());
    assert(out@ =~= o + html_head(
        s.hostname@,
        s.os_release@,
        stamp@,
        s.passed,
        s.warnings,
        s.failures,
        s.results@.len(),
    ));
}

fn push_block(out: &mut String, r: &crate::scanner::Result_)
    ensures
        final(out)@ == old(out)@ + result_block(r@),
{
    let (cls, mark) = status_class_exec(r.status);
    out.append("<div class=\"check ");
    out.append(cls);
    out.append("\">\n");
    out.append("<strong>");
    out.append(mark);
    out.append(" ");
    out.append(r.name.as_str());
    out.append("</strong><br>\n");
    out.append(r.description.as_str());
    out.append("\n");
    let ghost mid = out@;
    if !r.recommendation.as_str().is_empty() && r.status != Status::Pass {
        out.append("<div class=\"rec\">\u{2192} ");
        out.append(r.recommendation.as_str());
        out.append("</div>\n");
    }
    out.append("</div>\n");
    assert(out@ =~= old(out)@ + result_block(r@));
}

fn push_result_html(out: &mut String, s: &Syssec, i: usize)
    requires
        i < s.results@.len(),
    ensures
        final(out)@ == old(out)@ + result_html(s.results_view(), i as int),
{
    let ghost rs = s.results_view();
    let ghost o = out@;
    let r = &s.results[i];
    assert(rs[i as int] == r@);
    let differs = if i == 0 {
        !r.category.as_str().is_empty()
    } else {
        !(r.category == s.results[i - 1].category)
    };
    proof {
        if i > 0 {
            assert(rs[i - 1] == s.results@[i - 1]@);
            assert(category_before(rs, i as int) == s.results@[i - 1].category@);
        } else {
            assert(category_before(rs, i as int) == Seq::<char>::empty());
            if r.category@.len() == 0 {
                assert(r.category@ =~= Seq::<char>::empty());
            }
        }
        assert(differs == (r@.category != category_before(rs, i as int)));
    }
    if differs {
        if i > 0 && !s.results[i - 1].category.as_str().is_empty() {
            out.append("</div>\n");
        } else {
            proof {
                if i > 0 {
                    assert(s.results@[i - 1].category@ =~= Seq::<char>::empty());
                }
            }
        }
        out.append("<h2>");
        out.append(r.category.as_str());
        out.append("</h2>\n<div>\n");
    }
    let ghost mid = out@;
    push_block(out, r);
    assert(out@ =~= o + result_html(rs, i as int));
}

/// The self-contained HTML report of a scan, its time written as `stamp`:
/// the summary, then every result grouped under a heading whenever its
/// category changes, with the recommendation of each result that did not
/// pass.
pub fn html_report_string(s: &Syssec, stamp: &str) -> (r: String)
    ensures
        r@ == html_report(s.hostname@, s.os_release@, stamp@, s.passed, s.warnings, s.failures, s.results_view()),
{
    let ghost rs = s.results_view();
    let mut out = String::new();
    push_head(&mut out, s, stamp);
    let ghost head = out@;
    let mut i: usize = 0;
    while i < s.results.len()
        invariant
            i <= rs.len(),
            rs == s.results_view(),
            rs.len() == s.results@.len(),
            out@ == head + results_html(rs, i as int),
        decreases rs.len() - i,
    {
        push_result_html(&mut out, s, i);
        assert(out@ =~= head + results_html(rs, i as int + 1));
        i += 1;
    }
    let n = s.results.len();
    if n > 0 && !s.results[n - 1].category.as_str().is_empty() {
        assert(rs.last() == s.results@[n - 1]@);
        out.append("</div>\n");
    }
    out.append("</div>\n</body>\n</html>\n");
    proof {
        reveal_strlit("");
    }
    assert(out@ =~= html_report(s.hostname@, s.os_release@, stamp@, s.passed, s.warnings, s.failures, rs));
    out
}

/// The positions that a selection gives are, in increasing order, exactly
/// those of the results it keeps.
pub proof fn lemma_positions_exact(rs: Seq<ResultView>, keep: spec_fn(ResultView) -> bool)
    requires
        rs.len() <= usize::MAX,
    ensures
        forall|k: int| 0 <= k < positions(rs, keep).len() ==> #[trigger] positions(rs, keep)[k] < rs.len()
            && keep(rs[positions(rs, keep)[k] as int]),
        forall|k: int, l: int| 0 <= k < l < positions(rs, keep).len() ==> #[trigger] positions(rs, keep)[k]
            < #[trigger] positions(rs, keep)[l],
        forall|j: int| 0 <= j < rs.len() && keep(#[trigger] rs[j]) ==> positions(rs, keep).contains(j as usize),
    decreases rs.len(),
{
    if rs.len() > 0 {
        let pre = rs.drop_last();
        lemma_positions_exact(pre, keep);
        let p = positions(pre, keep);
        assert forall|k: int| 0 <= k < p.len() implies #[trigger] p[k] < pre.len() && rs[p[k] as int] == pre[p[k] as int] by {}
        let q = positions(rs, keep);
        assert forall|k: int| 0 <= k < q.len() implies #[trigger] q[k] < rs.len() && keep(rs[q[k] as int]) by {
            if k < p.len() {
                assert(q[k] == p[k]);
            }
        }
        assert forall|k: int, l: int| 0 <= k < l < q.len() implies #[trigger] q[k] < #[trigger] q[l] by {
            assert(q[k] == p[k]);
            if l < p.len() {
                assert(q[l] == p[l]);
            }
        }
        assert forall|j: int| 0 <= j < rs.len() && keep(#[trigger] rs[j]) implies positions(rs, keep).contains(j as usize) by {
            if j < rs.len() - 1 {
                assert(pre[j] == rs[j]);
                let k = choose|k: int| 0 <= k < p.len() && p[k] == j as usize;
                assert(positions(rs, keep)[k] == j as usize);
            } else {
                assert(positions(rs, keep).last() == j as usize);
            }
        }
    }
}

} // verus!
