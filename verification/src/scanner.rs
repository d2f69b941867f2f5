//! The security scanner's state: the results of its checks, the counts of
//! passes, warnings and failures, and how much it logs.

use vstd::prelude::*;
use crate::text::push_char;

verus! {

broadcast use vstd::string::group_string_axioms;

pub const SYSSEC_VERSION: &'static str = "1.1.0;";

/// At most this many results are recorded.
pub const MAX_RESULTS: usize = 1024;

#[derive(Copy, Clone, Debug, PartialEq, Eq, Structural)]
pub enum Severity {
    Info,
    Warning,
    Critical,
}

#[derive(Copy, Clone, Debug, PartialEq, Eq, Structural)]
pub enum Status {
    Pass,
    Warn,
    Fail,
    Unknown,
}

/// How much is logged, from least to most.
#[derive(Copy, Clone, Debug, PartialEq, Eq, Structural)]
pub enum LogLevel {
    Error,
    Warning,
    Info,
    Debug,
}

/// The rank of a log level: 0 for errors up to 3 for debugging.
pub open spec fn spec_level_rank(l: LogLevel) -> int {
    match l {
        LogLevel::Error => 0,
        LogLevel::Warning => 1,
        LogLevel::Info => 2,
        LogLevel::Debug => 3,
    }
}

pub fn level_rank(l: LogLevel) -> (r: u8)
    ensures
        r as int == spec_level_rank(l),
{
    match l {
        LogLevel::Error => 0,
        LogLevel::Warning => 1,
        LogLevel::Info => 2,
        LogLevel::Debug => 3,
    }
}

/// The result of one check.
#[derive(Debug)]
pub struct Result_ {
    pub name: String,
    pub description: String,
    pub recommendation: String,
    pub category: String,
    pub severity: Severity,
    pub status: Status,
}

/// A result as plain values.
pub struct ResultView {
    pub name: Seq<char>,
    pub description: Seq<char>,
    pub recommendation: Seq<char>,
    pub category: Seq<char>,
    pub severity: Severity,
    pub status: Status,
}

impl View for Result_ {
    type V = ResultView;

    open spec fn view(&self) -> ResultView {
        ResultView {
            name: self.name@,
            description: self.description@,
            recommendation: self.recommendation@,
            category: self.category@,
            severity: self.severity,
            status: self.status,
        }
    }
}

pub open spec fn result_views(v: Seq<Result_>) -> Seq<ResultView> {
    v.map_values(|r: Result_| r@)
}

/// How many of `rs` have status `st`.
pub open spec fn count_status(rs: Seq<ResultView>, st: Status) -> nat
    decreases rs.len(),
{
    if rs.len() == 0 {
        0
    } else {
        count_status(rs.drop_last(), st) + if rs.last().status == st { 1nat } else { 0nat }
    }
}

proof fn lemma_count_status_le(rs: Seq<ResultView>, st: Status)
    ensures
        count_status(rs, st) <= rs.len(),
    decreases rs.len(),
{
    if rs.len() > 0 {
        lemma_count_status_le(rs.drop_last(), st);
    }
}

/// What the system tells about itself; a `None` is a value it could not
/// read.
#[derive(Debug)]
pub struct SystemInfo {
    pub hostname: Option<String>,
    pub kernel: Option<String>,
    pub os_release: Option<String>,
    pub ncpu: Option<i32>,
    pub cpu_model: Option<String>,
    pub physmem: Option<i64>,
    pub boot_time: Option<i64>,
}

/// The scanner.
#[derive(Debug)]
pub struct Syssec {
    pub results: Vec<Result_>,
    pub hostname: String,
    pub kernel: String,
    pub os_release: String,
    pub cpu_model: String,
    pub ncpu: i32,
    pub physmem: i64,
    pub boot_time: i64,
    pub timestamp: i64,
    pub passed: i32,
    pub warnings: i32,
    pub failures: i32,
    pub verbose: bool,
    pub is_root: bool,
}

/// The text of a value read from the system, or `fallback` if it could
/// not be read.
pub open spec fn text_or(v: Option<String>, fallback: Seq<char>) -> Seq<char> {
    match v {
        Some(s) => s@,
        None => fallback,
    }
}

fn string_or(v: Option<String>, fallback: &str) -> (r: String)
    ensures
        r@ == text_or(v, fallback@),
{
    match v {
        Some(s) => s,
        None => String::from_str(fallback),
    }
}

impl Syssec {
    /// The results recorded so far, as plain values.
    pub open spec fn results_view(&self) -> Seq<ResultView> {
        result_views(self.results@)
    }

    /// Well-formed: at most `MAX_RESULTS` results, and each counter is the
    /// number of results with its status.
    pub open spec fn wf(&self) -> bool {
        &&& self.results@.len() <= MAX_RESULTS
        &&& self.passed as int == count_status(self.results_view(), Status::Pass)
        &&& self.warnings as int == count_status(self.results_view(), Status::Warn)
        &&& self.failures as int == count_status(self.results_view(), Status::Fail)
    }

    /// A scanner with no results, started at `timestamp` by a user who is
    /// root or not, on a system described by `info`: the host name, kernel
    /// version and release are "unknown" when they could not be read, the
    /// CPU model empty, and the numbers 0.
    pub fn new(verbose: bool, info: SystemInfo, timestamp: i64, is_root: bool) -> (r: Self)
        ensures
            r.wf(),
            r.results@.len() == 0,
            r.passed == 0 && r.warnings == 0 && r.failures == 0,
            r.hostname@ == text_or(info.hostname, "unknown"@),
            r.kernel@ == text_or(info.kernel, "unknown"@),
            r.os_release@ == text_or(info.os_release, "unknown"@),
            r.cpu_model@ == text_or(info.cpu_model, Seq::<char>::empty()),
            r.ncpu == (match info.ncpu {
                Some(n) => n,
                None => 0,
            }),
            r.physmem == (match info.physmem {
                Some(n) => n,
                None => 0,
            }),
            r.boot_time == (match info.boot_time {
                Some(n) => n,
                None => 0,
            }),
            r.timestamp == timestamp,
            r.verbose == verbose,
            r.is_root == is_root,
    {
        let s = Syssec {
            results: Vec::new(),
            hostname: string_or(info.hostname, "unknown"),
            kernel: string_or(info.kernel, "unknown"),
            os_release: string_or(info.os_release, "unknown"),
            cpu_model: string_or(info.cpu_model, ""),
            ncpu: match info.ncpu {
                Some(n) => n,
                None => 0,
            },
            physmem: match info.physmem {
                Some(n) => n,
                None => 0,
            },
            boot_time: match info.boot_time {
                Some(n) => n,
                None => 0,
            },
            timestamp,
            passed: 0,
            warnings: 0,
            failures: 0,
            verbose,
            is_root,
        };
        assert(s.results_view() =~= Seq::<ResultView>::empty());
        proof {
            reveal_strlit("");
        }
        s
    }

    /// Records the result of a check, unless `MAX_RESULTS` are already
    /// recorded; a missing recommendation is recorded as empty. Tells
    /// whether it was recorded.
    pub fn add_result(
        &mut self,
        category: &str,
        name: &str,
        desc: &str,
        sev: Severity,
        status: Status,
        rec: Option<&str>,
    ) -> (added: bool)
        requires
            old(self).wf(),
        ensures
            final(self).wf(),
            added == (old(self).results@.len() < MAX_RESULTS),
            added ==> final(self).results_view() == old(self).results_view().push(
                ResultView {
                    name: name@,
                    description: desc@,
                    recommendation: match rec {
                        Some(r) => r@,
                        None => Seq::<char>::empty(),
                    },
                    category: category@,
                    severity: sev,
                    status,
                },
            ),
            !added ==> final(self).results_view() == old(self).results_view(),
            final(self).hostname == old(self).hostname,
            final(self).kernel == old(self).kernel,
            final(self).os_release == old(self).os_release,
            final(self).cpu_model == old(self).cpu_model,
            final(self).ncpu == old(self).ncpu,
            final(self).physmem == old(self).physmem,
            final(self).boot_time == old(self).boot_time,
            final(self).timestamp == old(self).timestamp,
            final(self).verbose == old(self).verbose,
            final(self).is_root == old(self).is_root,
    {
        if self.results.len() >= MAX_RESULTS {
            return false;
        }
        let ghost before = self.results_view();
        proof {
            lemma_count_status_le(before, Status::Pass);
            lemma_count_status_le(before, Status::Warn);
            lemma_count_status_le(before, Status::Fail);
        }
        match status {
            Status::Pass => self.passed = self.passed + 1,
            Status::Warn => self.warnings = self.warnings + 1,
            Status::Fail => self.failures = self.failures + 1,
            Status::Unknown => {},
        }
        let recommendation = match rec {
            Some(r) => r.to_owned(),
            None => String::new(),
        };
        let item = Result_ {
            name: name.to_owned(),
            description: desc.to_owned(),
            recommendation,
            category: category.to_owned(),
            severity: sev,
            status,
        };
        self.results.push(item);
        assert(self.results_view() =~= before.push(item@));
        assert(self.results_view().drop_last() =~= before);
        true
    }
}

/// The log settings of a run: the most detailed level that is logged, and
/// whether quiet mode holds back everything but errors.
#[derive(Copy, Clone, Debug)]
pub struct LogConfig {
    pub level: LogLevel,
    pub quiet: bool,
}

impl LogConfig {
    /// Logging at `Info`, not quiet.
    pub fn new() -> (r: Self)
        ensures
            r.level == LogLevel::Info,
            !r.quiet,
    {
        LogConfig { level: LogLevel::Info, quiet: false }
    }
}

/// Sets the log level.
pub fn set_log_level(cfg: &mut LogConfig, l: LogLevel)
    ensures
        final(cfg).level == l,
        final(cfg).quiet == old(cfg).quiet,
{
    cfg.level = l;
}

/// Turns quiet mode on or off.
pub fn set_quiet(cfg: &mut LogConfig, q: bool)
    ensures
        final(cfg).quiet == q,
        final(cfg).level == old(cfg).level,
{
    cfg.quiet = q;
}

/// Whether quiet mode is on.
pub fn quiet(cfg: &LogConfig) -> (r: bool)
    ensures
        r == cfg.quiet,
{
    cfg.quiet
}

/// Whether a message at level `l` is logged: not when quiet mode holds it
/// back (everything but errors), nor when it is more detailed than the
/// configured level.
pub open spec fn spec_should_log(cfg: LogConfig, l: LogLevel) -> bool {
    !(cfg.quiet && spec_level_rank(l) > 0) && spec_level_rank(l) <= spec_level_rank(cfg.level)
}

pub fn should_log(cfg: &LogConfig, l: LogLevel) -> (r: bool)
    ensures
        r == spec_should_log(*cfg, l),
{
    let lvl = level_rank(l);
    !(cfg.quiet && lvl > 0) && lvl <= level_rank(cfg.level)
}

/// Whether per-check lines are shown: at level `Info` or more detailed.
pub fn shows_items(cfg: &LogConfig) -> (r: bool)
    ensures
        r == (spec_level_rank(cfg.level) >= 2),
{
    level_rank(cfg.level) >= 2
}

/// Quiet mode holds back every message but errors, at any level.
pub proof fn lemma_quiet_keeps_only_errors(cfg: LogConfig, l: LogLevel)
    requires
        cfg.quiet,
    ensures
        spec_should_log(cfg, l) ==> l == LogLevel::Error,
{
}

/// The letter that marks a result's status in the per-check lines.
pub open spec fn spec_status_symbol(s: Status) -> &'static str {
    match s {
        Status::Pass => "Y",
        Status::Warn => "W",
        Status::Fail => "F",
        Status::Unknown => "?",
    }
}

pub fn status_symbol(s: Status) -> (r: &'static str)
    ensures
        r == spec_status_symbol(s),
{
    match s {
        Status::Pass => "Y",
        Status::Warn => "W",
        Status::Fail => "F",
        Status::Unknown => "?",
    }
}

// ---------------------------------------------------------------------------
// File modes
// ---------------------------------------------------------------------------

pub const S_ISUID: u32 = 0o4000;
pub const S_ISGID: u32 = 0o2000;
pub const S_ISVTX: u32 = 0o1000;

pub open spec fn bit(mode: u32, b: u32) -> bool {
    mode & b != 0
}

/// The permission character at position `i` (0..9) of `ls -l`'s mode text:
/// read, write and execute for owner, group and others, with set-user-id,
/// set-group-id and sticky shown in the execute places (lower case where
/// the execute bit is set too).
pub open spec fn mode_char(mode: u32, i: int) -> char {
    let who = i / 3;
    let what = i % 3;
    let perm: u32 = if who == 0 {
        if what == 0 { 0o400u32 } else if what == 1 { 0o200u32 } else { 0o100u32 }
    } else if who == 1 {
        if what == 0 { 0o040u32 } else if what == 1 { 0o020u32 } else { 0o010u32 }
    } else {
        if what == 0 { 0o004u32 } else if what == 1 { 0o002u32 } else { 0o001u32 }
    };
    let special: u32 = if who == 0 { S_ISUID } else if who == 1 { S_ISGID } else { S_ISVTX };
    let on = bit(mode, perm);
    if what == 2 && bit(mode, special) {
        if who == 2 {
            if on { 't' } else { 'T' }
        } else {
            if on { 's' } else { 'S' }
        }
    } else if on {
        if what == 0 { 'r' } else if what == 1 { 'w' } else { 'x' }
    } else {
        '-'
    }
}

fn perm_char(mode: u32, perm: u32, c: char) -> (r: char)
    ensures
        r == if bit(mode, perm) { c } else { '-' },
{
    if mode & perm != 0 {
        c
    } else {
        '-'
    }
}

fn exec_char(mode: u32, perm: u32, special: u32, set: char, unset: char) -> (r: char)
    ensures
        r == if bit(mode, special) {
            if bit(mode, perm) { set } else { unset }
        } else if bit(mode, perm) {
            'x'
        } else {
            '-'
        },
{
    if mode & special != 0 {
        if mode & perm != 0 {
            set
        } else {
            unset
        }
    } else if mode & perm != 0 {
        'x'
    } else {
        '-'
    }
}

/// The nine-character permission text of a file mode, as `ls -l` shows it.
pub fn mode_to_string(mode: u32) -> (r: String)
    ensures
        r@.len() == 9,
        forall|i: int| 0 <= i < 9 ==> r@[i] == #[trigger] mode_char(mode, i),
{
    let mut s = String::new();
    push_char(&mut s, perm_char(mode, 0o400, 'r'));
    push_char(&mut s, perm_char(mode, 0o200, 'w'));
    push_char(&mut s, exec_char(mode, 0o100, S_ISUID, 's', 'S'));
    push_char(&mut s, perm_char(mode, 0o040, 'r'));
    push_char(&mut s, perm_char(mode, 0o020, 'w'));
    push_char(&mut s, exec_char(mode, 0o010, S_ISGID, 's', 'S'));
    push_char(&mut s, perm_char(mode, 0o004, 'r'));
    push_char(&mut s, perm_char(mode, 0o002, 'w'));
    push_char(&mut s, exec_char(mode, 0o001, S_ISVTX, 't', 'T'));
    proof {
        assert forall|i: int| 0 <= i < 9 implies s@[i] == #[trigger] mode_char(mode, i) by {
            assert(i / 3 == 0 || i / 3 == 1 || i / 3 == 2);
        }
    }
    s
}


// ---------------------------------------------------------------------------
// Recording several results
// ---------------------------------------------------------------------------

/// A result as plain values.
pub open spec fn rv(
    category: Seq<char>,
    name: Seq<char>,
    desc: Seq<char>,
    sev: Severity,
    status: Status,
    rec: Seq<char>,
) -> ResultView {
    ResultView { name, description: desc, recommendation: rec, category, severity: sev, status }
}

/// The results after `new` are recorded one by one after `rs`: those past
/// `MAX_RESULTS` are dropped.
pub open spec fn appended(rs: Seq<ResultView>, new: Seq<ResultView>) -> Seq<ResultView> {
    let all = rs + new;
    if all.len() <= MAX_RESULTS {
        all
    } else {
        all.take(MAX_RESULTS as int)
    }
}

proof fn lemma_appended_push(rs: Seq<ResultView>, a: Seq<ResultView>, x: ResultView)
    requires
        rs.len() <= MAX_RESULTS,
    ensures
        appended(rs, a.push(x)) == if appended(rs, a).len() < MAX_RESULTS {
            appended(rs, a).push(x)
        } else {
            appended(rs, a)
        },
{
    assert(rs + a.push(x) =~= (rs + a).push(x));
    if (rs + a).len() >= MAX_RESULTS {
        assert((rs + a).push(x).take(MAX_RESULTS as int) =~= (rs + a).take(MAX_RESULTS as int));
    }
}

/// Appending no results leaves the results as they are.
pub proof fn lemma_appended_empty(rs: Seq<ResultView>)
    requires
        rs.len() <= MAX_RESULTS,
    ensures
        appended(rs, seq![]) == rs,
{
    assert(rs + Seq::<ResultView>::empty() =~= rs);
}

impl Syssec {
    /// Records one more of the results planned since `base`.
    pub(crate) fn add_planned(
        &mut self,
        category: &str,
        name: &str,
        desc: &str,
        sev: Severity,
        status: Status,
        rec: Option<&str>,
        Ghost(base): Ghost<Seq<ResultView>>,
        Ghost(planned): Ghost<Seq<ResultView>>,
    )
        requires
            old(self).wf(),
            base.len() <= MAX_RESULTS,
            old(self).results_view() == appended(base, planned),
        ensures
            final(self).wf(),
            final(self).results_view() == appended(
                base,
                planned.push(
                    rv(
                        category@,
                        name@,
                        desc@,
                        sev,
                        status,
                        match rec {
                            Some(r) => r@,
                            None => Seq::<char>::empty(),
                        },
                    ),
                ),
            ),
            final(self).hostname == old(self).hostname,
            final(self).kernel == old(self).kernel,
            final(self).os_release == old(self).os_release,
            final(self).cpu_model == old(self).cpu_model,
            final(self).ncpu == old(self).ncpu,
            final(self).physmem == old(self).physmem,
            final(self).boot_time == old(self).boot_time,
            final(self).timestamp == old(self).timestamp,
            final(self).verbose == old(self).verbose,
            final(self).is_root == old(self).is_root,
    {
        let ghost x = rv(
            category@,
            name@,
            desc@,
            sev,
            status,
            match rec {
                Some(r) => r@,
                None => Seq::<char>::empty(),
            },
        );
        proof {
            lemma_appended_push(base, planned, x);
        }
        self.add_result(category, name, desc, sev, status, rec);
    }
}

} // verus!
