//! The checks of a security scan. Each takes what was read from the system
//! and records what it finds as results of the scan.

use vstd::prelude::*;
use vstd::string::StringSliceAdditionalSpecFns;
use crate::scanner::{appended, lemma_appended_empty, rv, ResultView, Severity, Status, Syssec, MAX_RESULTS};
use crate::text::{
    decimal, signed_decimal, push_decimal, push_signed, zero_padded, push_zero_padded, str_eq,
    chars_of, string_of, spec_lines, lines, spec_trim, trim_chars, ascii_lower, lower_chars, has_sub,
    contains_str, starts_with, chars_eq, spec_parse_i32, parse_i32, spec_rfind, rfind, sub_chars,
    spec_words, words,
};

verus! {

broadcast use vstd::string::group_string_axioms;

// ---------------------------------------------------------------------------
// Shared pieces
// ---------------------------------------------------------------------------

/// The pieces of `parts` joined with `sep` between them.
pub open spec fn join(parts: Seq<Seq<char>>, sep: Seq<char>) -> Seq<char>
    decreases parts.len(),
{
    if parts.len() == 0 {
        Seq::<char>::empty()
    } else if parts.len() == 1 {
        parts[0]
    } else {
        join(parts.drop_last(), sep) + sep + parts.last()
    }
}

/// Appends `part` to a joined text of `n` pieces.
fn join_push(out: &mut String, n: usize, part: &str, sep: &str, Ghost(parts): Ghost<Seq<Seq<char>>>)
    requires
        n == parts.len(),
        old(out)@ == join(parts, sep@),
    ensures
        final(out)@ == join(parts.push(part@), sep@),
{
    let ghost np = parts.push(part@);
    assert(np.drop_last() =~= parts);
    if n > 0 {
        out.append(sep);
    } else {
        assert(old(out)@ == Seq::<char>::empty());
    }
    out.append(part);
    assert(out@ =~= join(np, sep@));
}


// ---------------------------------------------------------------------------
// System information
// ---------------------------------------------------------------------------

/// Quotient of `a` by a positive `b`, rounded toward zero.
pub open spec fn tdiv(a: int, b: int) -> int {
    if a >= 0 {
        a / b
    } else {
        -((-a) / b)
    }
}

/// Remainder of `a` by a positive `b`, with the sign of `a`.
pub open spec fn trem(a: int, b: int) -> int {
    a - b * tdiv(a, b)
}

/// Two-digit text of a clock field, as `{:02}` prints it.
pub open spec fn two_digits(n: int) -> Seq<char> {
    if n >= 0 {
        zero_padded(n as nat, 2)
    } else {
        "-"@ + decimal((-n) as nat)
    }
}

fn push_two_digits(s: &mut String, n: i64)
    requires
        n > i64::MIN,
    ensures
        final(s)@ == old(s)@ + two_digits(n as int),
{
    if n >= 0 {
        push_zero_padded(s, n as u64, 2);
    } else {
        s.append("-");
        push_decimal(s, (-n) as u64);
        assert(s@ =~= old(s)@ + two_digits(n as int));
    }
}

/// Days, hours, minutes and seconds of an uptime in seconds.
pub open spec fn uptime_text(u: int) -> Seq<char> {
    signed_decimal(tdiv(u, 86400)) + " days, "@ + two_digits(tdiv(trem(u, 86400), 3600)) + ":"@
        + two_digits(tdiv(trem(u, 3600), 60)) + ":"@ + two_digits(trem(u, 60))
}

/// The results about the machine itself: CPUs, memory, uptime.
pub open spec fn information_results(
    ncpu: i32,
    cpu_model: Seq<char>,
    physmem: i64,
    timestamp: i64,
    boot_time: i64,
) -> Seq<ResultView> {
    seq![
        rv("System"@, "CPU"@, signed_decimal(ncpu as int) + " cores: "@ + cpu_model, Severity::Info, Status::Pass, Seq::<char>::empty()),
        rv("System"@, "Memory"@, signed_decimal(tdiv(physmem as int, 1048576)) + " MB total"@, Severity::Info, Status::Pass, Seq::<char>::empty()),
        rv("System"@, "Uptime"@, uptime_text(timestamp - boot_time), Severity::Info, Status::Pass, Seq::<char>::empty()),
    ]
}

/// Records the number of CPUs and their model, the memory, and the time
/// since boot.
pub fn syssec_check_information(s: &mut Syssec)
    requires
        old(s).wf(),
        i64::MIN < old(s).timestamp - old(s).boot_time <= i64::MAX,
    ensures
        final(s).wf(),
        final(s).results_view() == appended(
            old(s).results_view(),
            information_results(
                old(s).ncpu,
                old(s).cpu_model@,
                old(s).physmem,
                old(s).timestamp,
                old(s).boot_time,
            ),
        ),
{
    let ghost base = s.results_view();
    proof { lemma_appended_empty(base); }
    let mut cpu = String::new();
    push_signed(&mut cpu, s.ncpu as i64);
    cpu.append(" cores: ");
    cpu.append(s.cpu_model.as_str());
    let ghost r1 = rv("System"@, "CPU"@, cpu@, Severity::Info, Status::Pass, Seq::<char>::empty());
    s.add_planned("System", "CPU", cpu.as_str(), Severity::Info, Status::Pass, None, Ghost(base), Ghost(Seq::<ResultView>::empty()));
    let mut mem = String::new();
    push_signed(&mut mem, s.physmem / 1048576);
    mem.append(" MB total");
    let ghost r2 = rv("System"@, "Memory"@, mem@, Severity::Info, Status::Pass, Seq::<char>::empty());
    s.add_planned("System", "Memory", mem.as_str(), Severity::Info, Status::Pass, None, Ghost(base), Ghost(Seq::<ResultView>::empty().push(r1)));
    let uptime: i64 = s.timestamp - s.boot_time;
    let mut up = String::new();
    push_signed(&mut up, uptime / 86400);
    up.append(" days, ");
    push_two_digits(&mut up, (uptime % 86400) / 3600);
    up.append(":");
    push_two_digits(&mut up, (uptime % 3600) / 60);
    up.append(":");
    push_two_digits(&mut up, uptime % 60);
    assert(up@ =~= uptime_text(uptime as int));
    s.add_planned("System", "Uptime", up.as_str(), Severity::Info, Status::Pass, None, Ghost(base), Ghost(Seq::<ResultView>::empty().push(r1).push(r2)));
    assert(seq![r1, r2].push(rv("System"@, "Uptime"@, up@, Severity::Info, Status::Pass, Seq::<char>::empty())) =~= information_results(
        s.ncpu,
        s.cpu_model@,
        s.physmem,
        s.timestamp,
        s.boot_time,
    ));
}

// ---------------------------------------------------------------------------
// Processes
// ---------------------------------------------------------------------------

/// How many of `s` equal `b`.
pub open spec fn count_byte(s: Seq<u8>, b: u8) -> nat
    decreases s.len(),
{
    if s.len() == 0 {
        0
    } else {
        count_byte(s.drop_last(), b) + if s.last() == b { 1nat } else { 0nat }
    }
}

proof fn lemma_count_byte_le(s: Seq<u8>, b: u8)
    ensures
        count_byte(s, b) <= s.len(),
    decreases s.len(),
{
    if s.len() > 0 {
        lemma_count_byte_le(s.drop_last(), b);
    }
}

/// The result about the process table: with the state letter of every
/// process, or none when the table could not be read. Many zombies (more
/// than 10) or many processes (more than 500) are a warning.
pub open spec fn processes_results(states: Option<Seq<u8>>) -> Seq<ResultView> {
    match states {
        None => seq![
            rv("Processes"@, "Process Scan"@, "Failed to read process list"@, Severity::Warning, Status::Warn, "Check Permissions"@),
        ],
        Some(st) => {
            let z = count_byte(st, 90);
            let r = count_byte(st, 82);
            let sl = count_byte(st, 83);
            let msg = decimal(st.len()) + " total ("@ + decimal(r) + " running, "@ + decimal(sl)
                + " sleeping, "@ + decimal(z) + " zombie)"@;
            if z > 10 {
                seq![rv("Processes"@, "Process Count"@, msg, Severity::Warning, Status::Warn, "Many zombie processes - check parent processes"@)]
            } else if st.len() > 500 {
                seq![rv("Processes"@, "Process Count"@, msg, Severity::Warning, Status::Warn, "High process count - check for runaway processes"@)]
            } else {
                seq![rv("Processes"@, "Process Count"@, msg, Severity::Info, Status::Pass, Seq::<char>::empty())]
            }
        },
    }
}

/// Records what the process table shows, given the state letter of each
/// process (`None` when the table could not be read).
pub fn syssec_check_processes(s: &mut Syssec, states: Option<&Vec<u8>>)
    requires
        old(s).wf(),
    ensures
        final(s).wf(),
        final(s).results_view() == appended(
            old(s).results_view(),
            processes_results(
                match states {
                    Some(v) => Some(v@),
                    None => None,
                },
            ),
        ),
{
    let ghost base = s.results_view();
    proof { lemma_appended_empty(base); }
    let st = match states {
        None => {
            s.add_planned(
                "Processes",
                "Process Scan",
                "Failed to read process list",
                Severity::Warning,
                Status::Warn,
                Some("Check Permissions"),
                Ghost(base),
                Ghost(Seq::<ResultView>::empty()),
            );
            return;
        },
        Some(v) => v,
    };
    let mut zombies: u64 = 0;
    let mut running: u64 = 0;
    let mut sleeping: u64 = 0;
    let mut i: usize = 0;
    assert(st@.take(0) =~= Seq::<u8>::empty());
    while i < st.len()
        invariant
            i <= st@.len(),
            zombies == count_byte(st@.take(i as int), 90),
            running == count_byte(st@.take(i as int), 82),
            sleeping == count_byte(st@.take(i as int), 83),
        decreases st@.len() - i,
    {
        proof {
            assert(st@.take(i as int + 1).drop_last() =~= st@.take(i as int));
            lemma_count_byte_le(st@.take(i as int), 90);
            lemma_count_byte_le(st@.take(i as int), 82);
            lemma_count_byte_le(st@.take(i as int), 83);
        }
        let b = st[i];
        if b == 90 {
            zombies = zombies + 1;
        } else if b == 82 {
            running = running + 1;
        } else if b == 83 {
            sleeping = sleeping + 1;
        }
        i += 1;
    }
    assert(st@.take(i as int) =~= st@);
    let mut msg = String::new();
    push_decimal(&mut msg, st.len() as u64);
    msg.append(" total (");
    push_decimal(&mut msg, running);
    msg.append(" running, ");
    push_decimal(&mut msg, sleeping);
    msg.append(" sleeping, ");
    push_decimal(&mut msg, zombies);
    msg.append(" zombie)");
    if zombies > 10 {
        s.add_planned(
            "Processes",
            "Process Count",
            msg.as_str(),
            Severity::Warning,
            Status::Warn,
            Some("Many zombie processes - check parent processes"),
            Ghost(base),
            Ghost(Seq::<ResultView>::empty()),
        );
    } else if st.len() > 500 {
        s.add_planned(
            "Processes",
            "Process Count",
            msg.as_str(),
            Severity::Warning,
            Status::Warn,
            Some("High process count - check for runaway processes"),
            Ghost(base),
            Ghost(Seq::<ResultView>::empty()),
        );
    } else {
        s.add_planned(
            "Processes",
            "Process Count",
            msg.as_str(),
            Severity::Info,
            Status::Pass,
            None,
            Ghost(base),
            Ghost(Seq::<ResultView>::empty()),
        );
    }
}

// ---------------------------------------------------------------------------
// User accounts
// ---------------------------------------------------------------------------

/// One account of the password database.
#[derive(Debug)]
pub struct UserEntry {
    pub name: String,
    pub uid: u32,
    pub shell: String,
}

pub struct UserView {
    pub name: Seq<char>,
    pub uid: u32,
    pub shell: Seq<char>,
}

impl View for UserEntry {
    type V = UserView;

    open spec fn view(&self) -> UserView {
        UserView { name: self.name@, uid: self.uid, shell: self.shell@ }
    }
}

pub open spec fn user_views(v: Seq<UserEntry>) -> Seq<UserView> {
    v.map_values(|u: UserEntry| u@)
}

/// A shell that lets the account log in.
pub open spec fn is_login_shell(shell: Seq<char>) -> bool {
    shell != "/sbin/nologin"@ && shell != "/usr/sbin/nologin"@ && shell != "/bin/false"@
}

/// The names, other than root, of the accounts with user id 0.
pub open spec fn extra_root_names(us: Seq<UserView>) -> Seq<Seq<char>>
    decreases us.len(),
{
    if us.len() == 0 {
        seq![]
    } else {
        let prev = extra_root_names(us.drop_last());
        if us.last().uid == 0 && us.last().name != "root"@ {
            prev.push(us.last().name)
        } else {
            prev
        }
    }
}

/// How many accounts have a login shell.
pub open spec fn shell_count(us: Seq<UserView>) -> nat
    decreases us.len(),
{
    if us.len() == 0 {
        0
    } else {
        shell_count(us.drop_last()) + if is_login_shell(us.last().shell) { 1nat } else { 0nat }
    }
}

/// The user ids seen and the number of duplicates among nonzero ids, going
/// through the accounts in order.
pub open spec fn uid_scan(us: Seq<UserView>) -> (Seq<u32>, nat)
    decreases us.len(),
{
    if us.len() == 0 {
        (seq![], 0)
    } else {
        let (seen, d) = uid_scan(us.drop_last());
        let u = us.last().uid;
        if u != 0 && seen.contains(u) {
            (seen, d + 1)
        } else {
            (seen.push(u), d)
        }
    }
}

/// The results about the user accounts.
pub open spec fn users_results(us: Seq<UserView>) -> Seq<ResultView> {
    let extra = extra_root_names(us);
    let dups = uid_scan(us).1;
    let head = seq![
        rv("Users"@, "User Accounts"@, decimal(us.len()) + " users ("@ + decimal(shell_count(us)) + " with shell)"@, Severity::Info, Status::Pass, Seq::<char>::empty()),
        if extra.len() > 0 {
            rv("Users"@, "UID 0 Users"@, "Found "@ + decimal(extra.len()) + " additional UID 0: "@ + join(extra, ", "@), Severity::Critical, Status::Fail, "Remove additional UID 0 users immediately"@)
        } else {
            rv("Users"@, "UID 0 Users"@, "Only root as UID 0"@, Severity::Info, Status::Pass, Seq::<char>::empty())
        },
    ];
    if dups > 0 {
        head.push(rv("Users"@, "Duplicate UIDs"@, decimal(dups) + " duplicate UIDs found"@, Severity::Warning, Status::Warn, "Each user should have a unique UID"@))
    } else {
        head
    }
}

proof fn lemma_user_counts_le(us: Seq<UserView>)
    ensures
        shell_count(us) <= us.len(),
        extra_root_names(us).len() <= us.len(),
        uid_scan(us).1 <= us.len(),
    decreases us.len(),
{
    if us.len() > 0 {
        lemma_user_counts_le(us.drop_last());
    }
}

fn contains_u32(v: &Vec<u32>, x: u32) -> (r: bool)
    ensures
        r == v@.contains(x),
{
    let mut j: usize = 0;
    while j < v.len()
        invariant
            j <= v@.len(),
            forall|k: int| 0 <= k < j ==> v@[k] != x,
        decreases v@.len() - j,
    {
        if v[j] == x {
            assert(v@[j as int] == x);
            return true;
        }
        j += 1;
    }
    false
}

/// Records what the password database shows: how many accounts and how
/// many with a login shell, accounts other than root with user id 0, and
/// nonzero user ids held by more than one account.
pub fn syssec_check_users(s: &mut Syssec, users: &Vec<UserEntry>)
    requires
        old(s).wf(),
    ensures
        final(s).wf(),
        final(s).results_view() == appended(old(s).results_view(), users_results(user_views(users@))),
{
    let ghost base = s.results_view();
    let ghost us = user_views(users@);
    proof { lemma_appended_empty(base); }
    let mut valid_shell: u64 = 0;
    let mut names = String::new();
    let mut uid0: u64 = 0;
    let mut seen: Vec<u32> = Vec::new();
    let mut duplicates: u64 = 0;
    let mut i: usize = 0;
    assert(us.take(0) =~= Seq::<UserView>::empty());
    while i < users.len()
        invariant
            i <= users@.len(),
            us == user_views(users@),
            valid_shell == shell_count(us.take(i as int)),
            uid0 == extra_root_names(us.take(i as int)).len(),
            names@ == join(extra_root_names(us.take(i as int)), ", "@),
            seen@ == uid_scan(us.take(i as int)).0,
            duplicates == uid_scan(us.take(i as int)).1,
        decreases users@.len() - i,
    {
        let u = &users[i];
        proof {
            assert(us.take(i as int + 1).drop_last() =~= us.take(i as int));
            assert(us[i as int] == u@);
            lemma_user_counts_le(us.take(i as int));
        }
        if u.uid == 0 && !str_eq(u.name.as_str(), "root") {
            join_push(&mut names, uid0 as usize, u.name.as_str(), ", ", Ghost(extra_root_names(us.take(i as int))));
            uid0 = uid0 + 1;
        }
        if !str_eq(u.shell.as_str(), "/sbin/nologin") && !str_eq(u.shell.as_str(), "/usr/sbin/nologin")
            && !str_eq(u.shell.as_str(), "/bin/false") {
            valid_shell = valid_shell + 1;
        }
        if u.uid != 0 && contains_u32(&seen, u.uid) {
            duplicates = duplicates + 1;
        } else {
            seen.push(u.uid);
        }
        i += 1;
    }
    assert(us.take(i as int) =~= us);
    let mut head = String::new();
    push_decimal(&mut head, users.len() as u64);
    head.append(" users (");
    push_decimal(&mut head, valid_shell);
    head.append(" with shell)");
    let ghost r1 = rv("Users"@, "User Accounts"@, head@, Severity::Info, Status::Pass, Seq::<char>::empty());
    s.add_planned("Users", "User Accounts", head.as_str(), Severity::Info, Status::Pass, None, Ghost(base), Ghost(Seq::<ResultView>::empty()));
    let ghost r2;
    if uid0 > 0 {
        let mut msg = String::from_str("Found ");
        push_decimal(&mut msg, uid0);
        msg.append(" additional UID 0: ");
        msg.append(names.as_str());
        proof {
            r2 = rv("Users"@, "UID 0 Users"@, msg@, Severity::Critical, Status::Fail, "Remove additional UID 0 users immediately"@);
        }
        s.add_planned(
            "Users",
            "UID 0 Users",
            msg.as_str(),
            Severity::Critical,
            Status::Fail,
            Some("Remove additional UID 0 users immediately"),
            Ghost(base),
            Ghost(Seq::<ResultView>::empty().push(r1)),
        );
    } else {
        proof {
            r2 = rv("Users"@, "UID 0 Users"@, "Only root as UID 0"@, Severity::Info, Status::Pass, Seq::<char>::empty());
        }
        s.add_planned("Users", "UID 0 Users", "Only root as UID 0", Severity::Info, Status::Pass, None, Ghost(base), Ghost(Seq::<ResultView>::empty().push(r1)));
    }
    assert(seq![r1].push(r2) =~= seq![r1, r2]);
    if duplicates > 0 {
        let mut msg = String::new();
        push_decimal(&mut msg, duplicates);
        msg.append(" duplicate UIDs found");
        s.add_planned(
            "Users",
            "Duplicate UIDs",
            msg.as_str(),
            Severity::Warning,
            Status::Warn,
            Some("Each user should have a unique UID"),
            Ghost(base),
            Ghost(Seq::<ResultView>::empty().push(r1).push(r2)),
        );
    }
}


// ---------------------------------------------------------------------------
// Critical files and temporary directories
// ---------------------------------------------------------------------------

/// The octal digit character of `d` (0..8).
pub open spec fn octal_char(d: int) -> char {
    ((48 + d) as u8) as char
}

/// Three octal digits of a permission value (at most 0o777).
pub open spec fn octal3(m: u32) -> Seq<char> {
    seq![octal_char(m as int / 64), octal_char((m as int / 8) % 8), octal_char(m as int % 8)]
}

fn push_octal3(s: &mut String, m: u32)
    requires
        m <= 0o777,
    ensures
        final(s)@ == old(s)@ + octal3(m),
{
    crate::text::push_char(s, ((48 + m / 64) as u8) as char);
    crate::text::push_char(s, ((48 + (m / 8) % 8) as u8) as char);
    crate::text::push_char(s, ((48 + m % 8) as u8) as char);
    assert(s@ =~= old(s)@ + octal3(m));
}

pub open spec fn sev_if(critical: bool) -> Severity {
    if critical {
        Severity::Critical
    } else {
        Severity::Warning
    }
}

/// The result about a critical file that should have permissions
/// `expected`, given its mode (`None` when it does not exist). Other
/// permissions are a failure when others may write it, else a warning.
pub open spec fn file_result(
    path: Seq<char>,
    expected: u32,
    name: Seq<char>,
    critical: bool,
    mode: Option<u32>,
) -> ResultView {
    match mode {
        None => rv("Filesystem"@, name, path + " does not exist"@, sev_if(critical), Status::Fail, "File should exist with proper permissions"@),
        Some(m) => {
            let perms = m & 0o777;
            if perms == expected {
                rv("Filesystem"@, name, "Permissions: "@ + octal3(perms), Severity::Info, Status::Pass, Seq::<char>::empty())
            } else if m & 0o002 != 0 {
                rv("Filesystem"@, name, "WORLD-WRITABLE ("@ + octal3(perms) + ")"@, sev_if(critical), Status::Fail, "Remove world-writable permission immediately"@)
            } else {
                rv("Filesystem"@, name, "Permissions: "@ + octal3(perms), Severity::Warning, Status::Warn, "Check file permissions"@)
            }
        },
    }
}

fn record_file(
    s: &mut Syssec,
    path: &str,
    expected: u32,
    name: &str,
    critical: bool,
    mode: Option<u32>,
    Ghost(base): Ghost<Seq<ResultView>>,
    Ghost(planned): Ghost<Seq<ResultView>>,
)
    requires
        old(s).wf(),
        base.len() <= MAX_RESULTS,
        old(s).results_view() == appended(base, planned),
    ensures
        final(s).wf(),
        final(s).results_view() == appended(base, planned.push(file_result(path@, expected, name@, critical, mode))),
{
    let sev = if critical { Severity::Critical } else { Severity::Warning };
    match mode {
        None => {
            let mut msg = String::from_str(path);
            msg.append(" does not exist");
            s.add_planned("Filesystem", name, msg.as_str(), sev, Status::Fail, Some("File should exist with proper permissions"), Ghost(base), Ghost(planned));
        },
        Some(m) => {
            let perms = m & 0o777;
            assert(perms <= 0o777) by (bit_vector)
                requires
                    perms == m & 0o777u32,
            ;
            if perms == expected {
                let mut msg = String::from_str("Permissions: ");
                push_octal3(&mut msg, perms);
                s.add_planned("Filesystem", name, msg.as_str(), Severity::Info, Status::Pass, None, Ghost(base), Ghost(planned));
            } else if m & 0o002 != 0 {
                let mut msg = String::from_str("WORLD-WRITABLE (");
                push_octal3(&mut msg, perms);
                msg.append(")");
                s.add_planned("Filesystem", name, msg.as_str(), sev, Status::Fail, Some("Remove world-writable permission immediately"), Ghost(base), Ghost(planned));
            } else {
                let mut msg = String::from_str("Permissions: ");
                push_octal3(&mut msg, perms);
                s.add_planned("Filesystem", name, msg.as_str(), Severity::Warning, Status::Warn, Some("Check file permissions"), Ghost(base), Ghost(planned));
            }
        },
    }
}

/// The results about the critical files, given the mode of each (`None`
/// when it does not exist): the password file (0644), the master password
/// file (0600, critical), the group file (0644) and sudoers (0440,
/// critical).
pub open spec fn filesystem_results(modes: Seq<Option<u32>>) -> Seq<ResultView> {
    seq![
        file_result("/etc/passwd"@, 0o644, "Passwd file"@, false, modes[0]),
        file_result("/etc/master.passwd"@, 0o600, "Master passwd"@, true, modes[1]),
        file_result("/etc/group"@, 0o644, "Group file"@, false, modes[2]),
        file_result("/etc/sudoers"@, 0o440, "Sudoers file"@, true, modes[3]),
    ]
}

/// The critical files, in the order their modes are given.
pub fn critical_files() -> (r: [&'static str; 4])
    ensures
        r[0] == "/etc/passwd" && r[1] == "/etc/master.passwd" && r[2] == "/etc/group" && r[3]
            == "/etc/sudoers",
{
    ["/etc/passwd", "/etc/master.passwd", "/etc/group", "/etc/sudoers"]
}

/// The result, if any, about a temporary directory given whether it is a
/// directory and its mode (`None` when it cannot be read): none unless it
/// is a directory; fine with the sticky bit; a failure if others may write
/// it without one.
pub open spec fn temp_dir_result(dir: Seq<char>, probe: Option<(bool, u32)>) -> Seq<ResultView> {
    match probe {
        Some((true, m)) => if m & 0o1000 != 0 {
            seq![rv("Filesystem"@, dir, dir + " has sticky bit"@, Severity::Info, Status::Pass, Seq::<char>::empty())]
        } else if m & 0o002 != 0 {
            seq![rv("Filesystem"@, dir, dir + " world-writable, no sticky bit!"@, Severity::Critical, Status::Fail, "Add sticky bit: chmod +t"@)]
        } else {
            seq![rv("Filesystem"@, dir, dir + " ok"@, Severity::Info, Status::Pass, Seq::<char>::empty())]
        },
        _ => seq![],
    }
}

fn record_temp_dir(
    s: &mut Syssec,
    dir: &str,
    probe: Option<(bool, u32)>,
    Ghost(base): Ghost<Seq<ResultView>>,
    Ghost(planned): Ghost<Seq<ResultView>>,
)
    requires
        old(s).wf(),
        base.len() <= MAX_RESULTS,
        old(s).results_view() == appended(base, planned),
    ensures
        final(s).wf(),
        final(s).results_view() == appended(base, planned + temp_dir_result(dir@, probe)),
{
    match probe {
        Some((true, m)) => {
            if m & 0o1000 != 0 {
                let mut msg = String::from_str(dir);
                msg.append(" has sticky bit");
                s.add_planned("Filesystem", dir, msg.as_str(), Severity::Info, Status::Pass, None, Ghost(base), Ghost(planned));
                assert(planned + temp_dir_result(dir@, probe) =~= planned.push(rv("Filesystem"@, dir@, msg@, Severity::Info, Status::Pass, Seq::<char>::empty())));
            } else if m & 0o002 != 0 {
                let mut msg = String::from_str(dir);
                msg.append(" world-writable, no sticky bit!");
                s.add_planned("Filesystem", dir, msg.as_str(), Severity::Critical, Status::Fail, Some("Add sticky bit: chmod +t"), Ghost(base), Ghost(planned));
                assert(planned + temp_dir_result(dir@, probe) =~= planned.push(rv("Filesystem"@, dir@, msg@, Severity::Critical, Status::Fail, "Add sticky bit: chmod +t"@)));
            } else {
                let mut msg = String::from_str(dir);
                msg.append(" ok");
                s.add_planned("Filesystem", dir, msg.as_str(), Severity::Info, Status::Pass, None, Ghost(base), Ghost(planned));
                assert(planned + temp_dir_result(dir@, probe) =~= planned.push(rv("Filesystem"@, dir@, msg@, Severity::Info, Status::Pass, Seq::<char>::empty())));
            }
        },
        _ => {
            assert(planned + temp_dir_result(dir@, probe) =~= planned);
        },
    }
}

/// The temporary directories, in the order their probes are given.
pub fn temp_dirs() -> (r: [&'static str; 3])
    ensures
        r[0] == "/tmp" && r[1] == "/var/tmp" && r[2] == "/usr/tmp",
{
    ["/tmp", "/var/tmp", "/usr/tmp"]
}

pub open spec fn temp_dirs_results(probes: Seq<Option<(bool, u32)>>) -> Seq<ResultView> {
    temp_dir_result("/tmp"@, probes[0]) + temp_dir_result("/var/tmp"@, probes[1])
        + temp_dir_result("/usr/tmp"@, probes[2])
}

/// Records the permissions of the critical files, given the mode of each
/// in the order of `critical_files` (`None` when it does not exist), then
/// the state of the temporary directories, given for each of `temp_dirs`
/// whether it is a directory and its mode (`None` when it cannot be read).
pub fn syssec_check_filesystem(s: &mut Syssec, modes: &Vec<Option<u32>>, probes: &Vec<Option<(bool, u32)>>)
    requires
        old(s).wf(),
        modes@.len() == 4,
        probes@.len() == 3,
    ensures
        final(s).wf(),
        final(s).results_view() == appended(
            old(s).results_view(),
            filesystem_results(modes@) + temp_dirs_results(probes@),
        ),
{
    let ghost base = s.results_view();
    proof { lemma_appended_empty(base); }
    let ghost e = Seq::<ResultView>::empty();
    record_file(s, "/etc/passwd", 0o644, "Passwd file", false, modes[0], Ghost(base), Ghost(e));
    let ghost p1 = e.push(file_result("/etc/passwd"@, 0o644, "Passwd file"@, false, modes@[0]));
    record_file(s, "/etc/master.passwd", 0o600, "Master passwd", true, modes[1], Ghost(base), Ghost(p1));
    let ghost p2 = p1.push(file_result("/etc/master.passwd"@, 0o600, "Master passwd"@, true, modes@[1]));
    record_file(s, "/etc/group", 0o644, "Group file", false, modes[2], Ghost(base), Ghost(p2));
    let ghost p3 = p2.push(file_result("/etc/group"@, 0o644, "Group file"@, false, modes@[2]));
    record_file(s, "/etc/sudoers", 0o440, "Sudoers file", true, modes[3], Ghost(base), Ghost(p3));
    let ghost p4 = p3.push(file_result("/etc/sudoers"@, 0o440, "Sudoers file"@, true, modes@[3]));
    assert(p4 =~= filesystem_results(modes@));
    record_temp_dir(s, "/tmp", probes[0], Ghost(base), Ghost(p4));
    let ghost p5 = p4 + temp_dir_result("/tmp"@, probes@[0]);
    record_temp_dir(s, "/var/tmp", probes[1], Ghost(base), Ghost(p5));
    let ghost p6 = p5 + temp_dir_result("/var/tmp"@, probes@[1]);
    record_temp_dir(s, "/usr/tmp", probes[2], Ghost(base), Ghost(p6));
    assert(p6 + temp_dir_result("/usr/tmp"@, probes@[2]) =~= filesystem_results(modes@) + temp_dirs_results(probes@));
}

// ---------------------------------------------------------------------------
// Services
// ---------------------------------------------------------------------------

pub open spec fn critical_service_result(svc: Seq<char>, running: bool) -> ResultView {
    if running {
        rv("Services"@, svc, "running"@, Severity::Info, Status::Pass, Seq::<char>::empty())
    } else {
        rv("Services"@, svc, "Service '"@ + svc + "' is not running"@, Severity::Warning, Status::Warn, "Check if service should be running"@)
    }
}

pub open spec fn dangerous_service_result(svc: Seq<char>, running: bool) -> ResultView {
    if running {
        rv("Services"@, svc, "Insecure service '"@ + svc + "' running!"@, Severity::Critical, Status::Fail, "Disable immediately - insecure"@)
    } else {
        rv("Services"@, svc, "not running"@, Severity::Info, Status::Pass, Seq::<char>::empty())
    }
}

/// The services that should run.
pub fn critical_services() -> (r: [&'static str; 3])
    ensures
        r[0] == "syslogd" && r[1] == "cron" && r[2] == "sshd",
{
    ["syslogd", "cron", "sshd"]
}

/// The services that should not run.
pub fn dangerous_services() -> (r: [&'static str; 5])
    ensures
        r[0] == "telnetd" && r[1] == "ftpd" && r[2] == "rlogind" && r[3] == "rshd" && r[4] == "inetd",
{
    ["telnetd", "ftpd", "rlogind", "rshd", "inetd"]
}

fn record_service(
    s: &mut Syssec,
    svc: &str,
    running: bool,
    dangerous: bool,
    Ghost(base): Ghost<Seq<ResultView>>,
    Ghost(planned): Ghost<Seq<ResultView>>,
)
    requires
        old(s).wf(),
        base.len() <= MAX_RESULTS,
        old(s).results_view() == appended(base, planned),
    ensures
        final(s).wf(),
        final(s).results_view() == appended(
            base,
            planned.push(
                if dangerous {
                    dangerous_service_result(svc@, running)
                } else {
                    critical_service_result(svc@, running)
                },
            ),
        ),
{
    if dangerous {
        if running {
            let mut msg = String::from_str("Insecure service '");
            msg.append(svc);
            msg.append("' running!");
            s.add_planned("Services", svc, msg.as_str(), Severity::Critical, Status::Fail, Some("Disable immediately - insecure"), Ghost(base), Ghost(planned));
        } else {
            s.add_planned("Services", svc, "not running", Severity::Info, Status::Pass, None, Ghost(base), Ghost(planned));
        }
    } else {
        if running {
            s.add_planned("Services", svc, "running", Severity::Info, Status::Pass, None, Ghost(base), Ghost(planned));
        } else {
            let mut msg = String::from_str("Service '");
            msg.append(svc);
            msg.append("' is not running");
            s.add_planned("Services", svc, msg.as_str(), Severity::Warning, Status::Warn, Some("Check if service should be running"), Ghost(base), Ghost(planned));
        }
    }
}

pub open spec fn services_results(running: Seq<bool>) -> Seq<ResultView> {
    seq![
        critical_service_result("syslogd"@, running[0]),
        critical_service_result("cron"@, running[1]),
        critical_service_result("sshd"@, running[2]),
    ]
}

pub open spec fn dangerous_results(running: Seq<bool>) -> Seq<ResultView> {
    seq![
        dangerous_service_result("telnetd"@, running[0]),
        dangerous_service_result("ftpd"@, running[1]),
        dangerous_service_result("rlogind"@, running[2]),
        dangerous_service_result("rshd"@, running[3]),
        dangerous_service_result("inetd"@, running[4]),
    ]
}

/// Records which of the `critical_services` run and which of the
/// `dangerous_services` run, given whether each does.
pub fn syssec_check_services(s: &mut Syssec, critical_running: &Vec<bool>, dangerous_running: &Vec<bool>)
    requires
        old(s).wf(),
        critical_running@.len() == 3,
        dangerous_running@.len() == 5,
    ensures
        final(s).wf(),
        final(s).results_view() == appended(
            old(s).results_view(),
            services_results(critical_running@) + dangerous_results(dangerous_running@),
        ),
{
    let ghost base = s.results_view();
    let ghost c = critical_running@;
    let ghost d = dangerous_running@;
    proof { lemma_appended_empty(base); }
    let ghost e = Seq::<ResultView>::empty();
    record_service(s, "syslogd", critical_running[0], false, Ghost(base), Ghost(e));
    let ghost p1 = e.push(critical_service_result("syslogd"@, c[0]));
    record_service(s, "cron", critical_running[1], false, Ghost(base), Ghost(p1));
    let ghost p2 = p1.push(critical_service_result("cron"@, c[1]));
    record_service(s, "sshd", critical_running[2], false, Ghost(base), Ghost(p2));
    let ghost p3 = p2.push(critical_service_result("sshd"@, c[2]));
    record_service(s, "telnetd", dangerous_running[0], true, Ghost(base), Ghost(p3));
    let ghost p4 = p3.push(dangerous_service_result("telnetd"@, d[0]));
    record_service(s, "ftpd", dangerous_running[1], true, Ghost(base), Ghost(p4));
    let ghost p5 = p4.push(dangerous_service_result("ftpd"@, d[1]));
    record_service(s, "rlogind", dangerous_running[2], true, Ghost(base), Ghost(p5));
    let ghost p6 = p5.push(dangerous_service_result("rlogind"@, d[2]));
    record_service(s, "rshd", dangerous_running[3], true, Ghost(base), Ghost(p6));
    let ghost p7 = p6.push(dangerous_service_result("rshd"@, d[3]));
    record_service(s, "inetd", dangerous_running[4], true, Ghost(base), Ghost(p7));
    assert(p7.push(dangerous_service_result("inetd"@, d[4])) =~= services_results(c) + dangerous_results(d));
}

// ---------------------------------------------------------------------------
// Kernel security settings and modules
// ---------------------------------------------------------------------------

/// The results about the kernel's security level and address space layout
/// randomisation, each given when it could be read.
pub open spec fn security_results(securelevel: Option<i32>, aslr: Option<i32>) -> Seq<ResultView> {
    let a = match securelevel {
        Some(v) => seq![
            if v == 0 {
                rv("Security"@, "Securelevel"@, "Securelevel: "@ + signed_decimal(v as int), Severity::Warning, Status::Warn, "Set kern.securelevel=1 in /etc/sysctl.conf"@)
            } else {
                rv("Security"@, "Securelevel"@, "Securelevel: "@ + signed_decimal(v as int), Severity::Info, Status::Pass, Seq::<char>::empty())
            },
        ],
        None => seq![],
    };
    let b = match aslr {
        Some(v) => seq![
            if v != 0 {
                rv("Security"@, "ASLR (64-bit)"@, "enabled"@, Severity::Info, Status::Pass, Seq::<char>::empty())
            } else {
                rv("Security"@, "ASLR (64-bit)"@, "disabled"@, Severity::Warning, Status::Warn, "Enable: kern.elf64.aslr.enable=1"@)
            },
        ],
        None => seq![],
    };
    a + b
}

/// Records the kernel's security level and whether 64-bit ASLR is on.
pub fn syssec_check_security(s: &mut Syssec, securelevel: Option<i32>, aslr: Option<i32>)
    requires
        old(s).wf(),
    ensures
        final(s).wf(),
        final(s).results_view() == appended(old(s).results_view(), security_results(securelevel, aslr)),
{
    let ghost base = s.results_view();
    proof { lemma_appended_empty(base); }
    let ghost e = Seq::<ResultView>::empty();
    let ghost mut planned = e;
    match securelevel {
        Some(v) => {
            let mut msg = String::from_str("Securelevel: ");
            push_signed(&mut msg, v as i64);
            if v == 0 {
                s.add_planned("Security", "Securelevel", msg.as_str(), Severity::Warning, Status::Warn, Some("Set kern.securelevel=1 in /etc/sysctl.conf"), Ghost(base), Ghost(e));
            } else {
                s.add_planned("Security", "Securelevel", msg.as_str(), Severity::Info, Status::Pass, None, Ghost(base), Ghost(e));
            }
            proof {
                planned = e.push(security_results(securelevel, None)[0]);
                assert(security_results(securelevel, None) =~= planned);
            }
        },
        None => {
            assert(security_results(securelevel, None) =~= e);
        },
    }
    match aslr {
        Some(v) => {
            if v != 0 {
                s.add_planned("Security", "ASLR (64-bit)", "enabled", Severity::Info, Status::Pass, None, Ghost(base), Ghost(planned));
            } else {
                s.add_planned("Security", "ASLR (64-bit)", "disabled", Severity::Warning, Status::Warn, Some("Enable: kern.elf64.aslr.enable=1"), Ghost(base), Ghost(planned));
            }
            assert(security_results(securelevel, aslr) =~= planned.push(security_results(securelevel, aslr).last()));
        },
        None => {
            assert(security_results(securelevel, aslr) =~= planned);
        },
    }
}

/// How many of `v` are false.
pub open spec fn count_false(v: Seq<bool>) -> nat
    decreases v.len(),
{
    if v.len() == 0 {
        0
    } else {
        count_false(v.drop_last()) + if v.last() { 0nat } else { 1nat }
    }
}

proof fn lemma_count_false_le(v: Seq<bool>)
    ensures
        count_false(v) <= v.len(),
    decreases v.len(),
{
    if v.len() > 0 {
        lemma_count_false_le(v.drop_last());
    }
}

/// The results about the loaded kernel modules, given for each whether its
/// file is present: a module with no file is hidden, and a critical
/// finding.
pub open spec fn modules_results(present: Seq<bool>) -> Seq<ResultView> {
    let hidden = count_false(present);
    seq![
        rv("Security"@, "Module Count"@, decimal(present.len()) + " modules loaded"@, Severity::Info, Status::Pass, Seq::<char>::empty()),
        if hidden > 0 {
            rv("Security"@, "Hidden Modules"@, decimal(hidden) + " modules loaded but NOT in filesystem"@, Severity::Critical, Status::Fail, "Investigate hidden modules - possible rootkit"@)
        } else {
            rv("Security"@, "Module Files"@, "All loaded modules found in filesystem"@, Severity::Info, Status::Pass, Seq::<char>::empty())
        },
    ]
}

/// Where the file of a module named `name` may be: under /boot/kernel and
/// under /boot/modules.
pub fn module_paths(name: &str) -> (r: (String, String))
    ensures
        r.0@ == "/boot/kernel/"@ + name@ + ".ko"@,
        r.1@ == "/boot/modules/"@ + name@ + ".ko"@,
{
    let mut a = String::from_str("/boot/kernel/");
    a.append(name);
    a.append(".ko");
    let mut b = String::from_str("/boot/modules/");
    b.append(name);
    b.append(".ko");
    (a, b)
}

/// Records the loaded kernel modules, given for each whether its file was
/// found under one of `module_paths`.
pub fn syssec_check_modules(s: &mut Syssec, present: &Vec<bool>)
    requires
        old(s).wf(),
    ensures
        final(s).wf(),
        final(s).results_view() == appended(old(s).results_view(), modules_results(present@)),
{
    let ghost base = s.results_view();
    proof { lemma_appended_empty(base); }
    let mut hidden: u64 = 0;
    let mut i: usize = 0;
    assert(present@.take(0) =~= Seq::<bool>::empty());
    while i < present.len()
        invariant
            i <= present@.len(),
            hidden == count_false(present@.take(i as int)),
        decreases present@.len() - i,
    {
        proof {
            assert(present@.take(i as int + 1).drop_last() =~= present@.take(i as int));
            lemma_count_false_le(present@.take(i as int));
        }
        if !present[i] {
            hidden = hidden + 1;
        }
        i += 1;
    }
    assert(present@.take(i as int) =~= present@);
    let mut msg = String::new();
    push_decimal(&mut msg, present.len() as u64);
    msg.append(" modules loaded");
    let ghost r1 = rv("Security"@, "Module Count"@, msg@, Severity::Info, Status::Pass, Seq::<char>::empty());
    s.add_planned("Security", "Module Count", msg.as_str(), Severity::Info, Status::Pass, None, Ghost(base), Ghost(Seq::<ResultView>::empty()));
    if hidden > 0 {
        let mut m2 = String::new();
        push_decimal(&mut m2, hidden);
        m2.append(" modules loaded but NOT in filesystem");
        s.add_planned("Security", "Hidden Modules", m2.as_str(), Severity::Critical, Status::Fail, Some("Investigate hidden modules - possible rootkit"), Ghost(base), Ghost(Seq::<ResultView>::empty().push(r1)));
    } else {
        s.add_planned("Security", "Module Files", "All loaded modules found in filesystem", Severity::Info, Status::Pass, None, Ghost(base), Ghost(Seq::<ResultView>::empty().push(r1)));
    }
    assert(Seq::<ResultView>::empty().push(r1).push(modules_results(present@)[1]) =~= modules_results(present@));
}

// ---------------------------------------------------------------------------
// Network
// ---------------------------------------------------------------------------

/// The number a command printed, read as `str::trim` then
/// `str::parse::<i32>`, or 0.
pub open spec fn count_text(out: Seq<char>) -> i32 {
    match spec_parse_i32(spec_trim(out)) {
        Some(v) => v,
        None => 0,
    }
}

/// The results about the network: how many TCP ports listen (given the
/// output of the count, when it ran; more than 20 is a warning), whether a
/// firewall runs, and whether IP forwarding is on (when it could be read).
pub open spec fn network_results(
    listening: Option<Seq<char>>,
    pf: bool,
    ipfw: bool,
    forwarding: Option<i32>,
) -> Seq<ResultView> {
    let a = match listening {
        Some(out) => {
            let n = count_text(out);
            let msg = signed_decimal(n as int) + " listening TCP ports"@;
            seq![
                if n > 20 {
                    rv("Network"@, "Listening Ports"@, msg, Severity::Warning, Status::Warn, "Many listening ports - review with 'sockstat -4 -l'"@)
                } else {
                    rv("Network"@, "Listening Ports"@, msg, Severity::Info, Status::Pass, Seq::<char>::empty())
                },
            ]
        },
        None => seq![],
    };
    let b = seq![
        if pf || ipfw {
            rv("Network"@, "Firewall"@, "Firewall is running"@, Severity::Info, Status::Pass, Seq::<char>::empty())
        } else {
            rv("Network"@, "Firewall"@, "No firewall detected"@, Severity::Critical, Status::Fail, "Enable PF: add 'pf_enable=\"YES\"' to /etc/rc.conf"@)
        },
    ];
    let c = match forwarding {
        Some(v) => seq![
            if v != 0 {
                rv("Network"@, "IP Forwarding"@, "IP forwarding is ENABLED"@, Severity::Warning, Status::Warn, "Disable if not a router"@)
            } else {
                rv("Network"@, "IP Forwarding"@, "IP forwarding disabled"@, Severity::Info, Status::Pass, Seq::<char>::empty())
            },
        ],
        None => seq![],
    };
    a + b + c
}

/// Records the listening ports, the firewall and IP forwarding.
pub fn syssec_check_network(s: &mut Syssec, listening: Option<&str>, pf: bool, ipfw: bool, forwarding: Option<i32>)
    requires
        old(s).wf(),
    ensures
        final(s).wf(),
        final(s).results_view() == appended(
            old(s).results_view(),
            network_results(
                match listening {
                    Some(t) => Some(t@),
                    None => None,
                },
                pf,
                ipfw,
                forwarding,
            ),
        ),
{
    let ghost base = s.results_view();
    let ghost lv = match listening {
        Some(t) => Some(t@),
        None => None::<Seq<char>>,
    };
    let ghost all = network_results(lv, pf, ipfw, forwarding);
    proof { lemma_appended_empty(base); }
    let ghost mut planned = Seq::<ResultView>::empty();
    match listening {
        Some(out) => {
            let chars = chars_of(out);
            let t = trim_chars(&chars);
            let n: i32 = match parse_i32(&t) {
                Some(v) => v,
                None => 0,
            };
            let mut msg = String::new();
            push_signed(&mut msg, n as i64);
            msg.append(" listening TCP ports");
            if n > 20 {
                s.add_planned("Network", "Listening Ports", msg.as_str(), Severity::Warning, Status::Warn, Some("Many listening ports - review with 'sockstat -4 -l'"), Ghost(base), Ghost(planned));
            } else {
                s.add_planned("Network", "Listening Ports", msg.as_str(), Severity::Info, Status::Pass, None, Ghost(base), Ghost(planned));
            }
            proof { planned = planned.push(all[0]); }
        },
        None => {},
    }
    if pf || ipfw {
        s.add_planned("Network", "Firewall", "Firewall is running", Severity::Info, Status::Pass, None, Ghost(base), Ghost(planned));
    } else {
        s.add_planned("Network", "Firewall", "No firewall detected", Severity::Critical, Status::Fail, Some("Enable PF: add 'pf_enable=\"YES\"' to /etc/rc.conf"), Ghost(base), Ghost(planned));
    }
    proof { planned = planned.push(all[planned.len() as int]); }
    match forwarding {
        Some(v) => {
            if v != 0 {
                s.add_planned("Network", "IP Forwarding", "IP forwarding is ENABLED", Severity::Warning, Status::Warn, Some("Disable if not a router"), Ghost(base), Ghost(planned));
            } else {
                s.add_planned("Network", "IP Forwarding", "IP forwarding disabled", Severity::Info, Status::Pass, None, Ghost(base), Ghost(planned));
            }
            proof { planned = planned.push(all[planned.len() as int]); }
        },
        None => {},
    }
    assert(planned =~= all);
}

// ---------------------------------------------------------------------------
// Updates and logs
// ---------------------------------------------------------------------------

/// The results about the update tools: whether `freebsd-update` and `pkg`
/// are installed (an absent `pkg` is not reported). Only a missing
/// `freebsd-update` carries a recommendation.
pub open spec fn updates_results(freebsd_update: bool, pkg: bool) -> Seq<ResultView> {
    let a = if freebsd_update {
        rv("Updates"@, "freebsd-update"@, "installed"@, Severity::Info, Status::Pass, Seq::empty())
    } else {
        rv("Updates"@, "freebsd-update"@, "not installed"@, Severity::Warning, Status::Warn, "Consider installing freebsd-update"@)
    };
    if pkg {
        seq![a, rv("Updates"@, "pkg"@, "installed"@, Severity::Info, Status::Pass, Seq::empty())]
    } else {
        seq![a]
    }
}

/// Records whether the update tools are installed.
pub fn syssec_check_updates(s: &mut Syssec, freebsd_update: bool, pkg: bool)
    requires
        old(s).wf(),
    ensures
        final(s).wf(),
        final(s).results_view() == appended(old(s).results_view(), updates_results(freebsd_update, pkg)),
{
    let ghost base = s.results_view();
    proof { lemma_appended_empty(base); }
    let ghost all = updates_results(freebsd_update, pkg);
    if freebsd_update {
        s.add_planned("Updates", "freebsd-update", "installed", Severity::Info, Status::Pass, None, Ghost(base), Ghost(Seq::<ResultView>::empty()));
    } else {
        s.add_planned("Updates", "freebsd-update", "not installed", Severity::Warning, Status::Warn, Some("Consider installing freebsd-update"), Ghost(base), Ghost(Seq::<ResultView>::empty()));
    }
    let ghost p1 = Seq::<ResultView>::empty().push(all[0]);
    if pkg {
        s.add_planned("Updates", "pkg", "installed", Severity::Info, Status::Pass, None, Ghost(base), Ghost(p1));
        assert(p1.push(all[1]) =~= all);
    } else {
        assert(p1 =~= all);
    }
}

/// The standard log files, in the order their sizes are given.
pub fn log_files() -> (r: [&'static str; 5])
    ensures
        r[0] == "/var/log/messages" && r[1] == "/var/log/auth.log" && r[2] == "/var/log/secure"
            && r[3] == "/var/log/maillog" && r[4] == "/var/log/cron",
{
    ["/var/log/messages", "/var/log/auth.log", "/var/log/secure", "/var/log/maillog", "/var/log/cron"]
}

pub open spec fn log_name(i: int) -> Seq<char> {
    if i == 0 {
        "/var/log/messages"@
    } else if i == 1 {
        "/var/log/auth.log"@
    } else if i == 2 {
        "/var/log/secure"@
    } else if i == 3 {
        "/var/log/maillog"@
    } else {
        "/var/log/cron"@
    }
}

/// One result per log file found, with its size, for the first `n` logs.
pub open spec fn found_logs(sizes: Seq<Option<u64>>, n: int) -> Seq<ResultView>
    decreases n,
{
    if n <= 0 {
        seq![]
    } else {
        let prev = found_logs(sizes, n - 1);
        match sizes[n - 1] {
            Some(len) => prev.push(rv("Logs"@, log_name(n - 1), decimal(len as nat) + " bytes"@, Severity::Info, Status::Pass, Seq::<char>::empty())),
            None => prev,
        }
    }
}

/// The results about the log files, given the size of each of `log_files`
/// (`None` when missing): one per log found, and a warning when none is.
pub open spec fn logs_results(sizes: Seq<Option<u64>>) -> Seq<ResultView> {
    let found = found_logs(sizes, 5);
    if found.len() == 0 {
        seq![rv("Logs"@, "System Logs"@, "No standard logs found"@, Severity::Warning, Status::Warn, "Check syslogd configuration"@)]
    } else {
        found
    }
}

/// Records which standard logs exist and their sizes.
pub fn syssec_check_logs(s: &mut Syssec, sizes: &Vec<Option<u64>>)
    requires
        old(s).wf(),
        sizes@.len() == 5,
    ensures
        final(s).wf(),
        final(s).results_view() == appended(old(s).results_view(), logs_results(sizes@)),
{
    let ghost base = s.results_view();
    proof { lemma_appended_empty(base); }
    let names = log_files();
    let mut found: usize = 0;
    let mut i: usize = 0;
    while i < 5
        invariant
            i <= 5,
            sizes@.len() == 5,
            names[0] == "/var/log/messages" && names[1] == "/var/log/auth.log" && names[2] == "/var/log/secure"
                && names[3] == "/var/log/maillog" && names[4] == "/var/log/cron",
            s.wf(),
            base.len() <= MAX_RESULTS,
            s.results_view() == appended(base, found_logs(sizes@, i as int)),
            found == found_logs(sizes@, i as int).len(),
            found <= i,
        decreases 5 - i,
    {
        match sizes[i] {
            Some(len) => {
                let mut msg = String::new();
                push_decimal(&mut msg, len);
                msg.append(" bytes");
                assert(names[i as int]@ == log_name(i as int));
                s.add_planned("Logs", names[i], msg.as_str(), Severity::Info, Status::Pass, None, Ghost(base), Ghost(found_logs(sizes@, i as int)));
                found = found + 1;
            },
            None => {},
        }
        i += 1;
    }
    if found == 0 {
        s.add_planned("Logs", "System Logs", "No standard logs found", Severity::Warning, Status::Warn, Some("Check syslogd configuration"), Ghost(base), Ghost(found_logs(sizes@, 5)));
        assert(found_logs(sizes@, 5) =~= Seq::<ResultView>::empty());
    }
}


// ---------------------------------------------------------------------------
// SSH
// ---------------------------------------------------------------------------

pub open spec fn lower(s: Seq<char>) -> Seq<char> {
    s.map_values(|c: char| ascii_lower(c))
}

pub open spec fn prefixed(s: Seq<char>, p: Seq<char>) -> bool {
    p.len() <= s.len() && s.take(p.len() as int) == p
}

/// What one line of `sshd_config` turns on: root login, password
/// authentication, X11 forwarding. Blank lines and comments turn on
/// nothing; keywords are read without regard to case.
pub open spec fn ssh_line(line: Seq<char>) -> (bool, bool, bool) {
    let t = spec_trim(line);
    if t.len() == 0 || t[0] == '#' {
        (false, false, false)
    } else {
        let l = lower(t);
        (
            prefixed(l, "permitrootlogin"@) && has_sub(l, "yes"@) && !has_sub(l, "without-password"@)
                && !has_sub(l, "prohibit-password"@),
            prefixed(l, "passwordauthentication"@) && has_sub(l, "yes"@),
            prefixed(l, "x11forwarding"@) && has_sub(l, "yes"@),
        )
    }
}

/// What any of `ls` turns on.
pub open spec fn ssh_flags(ls: Seq<Seq<char>>) -> (bool, bool, bool)
    decreases ls.len(),
{
    if ls.len() == 0 {
        (false, false, false)
    } else {
        let (a, b, c) = ssh_flags(ls.drop_last());
        let (x, y, z) = ssh_line(ls.last());
        (a || x, b || y, c || z)
    }
}

/// The results about the SSH daemon's configuration, given its text (`None`
/// when it cannot be read).
pub open spec fn ssh_results(contents: Option<Seq<char>>) -> Seq<ResultView> {
    match contents {
        None => seq![rv("SSH"@, "Config"@, "Cannot read /etc/ssh/sshd_config"@, Severity::Info, Status::Unknown, "Ensure SSH is configured"@)],
        Some(text) => {
            let (root, pw, x11) = ssh_flags(spec_lines(text));
            let a = if root {
                rv("SSH"@, "Root Login"@, "PermitRootLogin is enabled"@, Severity::Critical, Status::Fail, "Set 'PermitRootLogin no'"@)
            } else {
                rv("SSH"@, "Root Login"@, "Root login disabled"@, Severity::Info, Status::Pass, Seq::<char>::empty())
            };
            let b = if pw {
                rv("SSH"@, "Password Auth"@, "Password auth enabled"@, Severity::Warning, Status::Warn, "Use key-based auth only"@)
            } else {
                rv("SSH"@, "Password Auth"@, "Password auth disabled"@, Severity::Info, Status::Pass, Seq::<char>::empty())
            };
            if x11 {
                seq![a, b, rv("SSH"@, "X11 Forwarding"@, "X11 forwarding enabled"@, Severity::Warning, Status::Warn, "Disable X11 forwarding unless needed"@)]
            } else {
                seq![a, b]
            }
        },
    }
}

/// `line` of `sshd_config`, trimmed and lower-cased, is not a comment,
/// starts with `key` and says `yes` somewhere.
pub open spec fn config_says_yes(line: Seq<char>, key: Seq<char>) -> bool {
    let t = spec_trim(line);
    &&& t.len() > 0 && t[0] != '#'
    &&& prefixed(lower(t), key)
    &&& has_sub(lower(t), "yes"@)
}

/// `line` mentions a root login restricted to keys.
pub open spec fn says_key_only(line: Seq<char>) -> bool {
    let l = lower(spec_trim(line));
    has_sub(l, "without-password"@) || has_sub(l, "prohibit-password"@)
}

proof fn lemma_ssh_flags_any(ls: Seq<Seq<char>>)
    ensures
        ssh_flags(ls).0 <==> exists|i: int| 0 <= i < ls.len() && #[trigger] ssh_line(ls[i]).0,
        ssh_flags(ls).1 <==> exists|i: int| 0 <= i < ls.len() && #[trigger] ssh_line(ls[i]).1,
        ssh_flags(ls).2 <==> exists|i: int| 0 <= i < ls.len() && #[trigger] ssh_line(ls[i]).2,
    decreases ls.len(),
{
    if ls.len() > 0 {
        let pre = ls.drop_last();
        lemma_ssh_flags_any(pre);
        assert forall|i: int| 0 <= i < pre.len() implies #[trigger] pre[i] == ls[i] by {}
        let k = ls.len() - 1;
        assert(ls.last() == ls[k]);
        if ssh_flags(pre).0 {
            let i = choose|i: int| 0 <= i < pre.len() && #[trigger] ssh_line(pre[i]).0;
            assert(ssh_line(ls[i]).0);
        }
        if ssh_flags(pre).1 {
            let i = choose|i: int| 0 <= i < pre.len() && #[trigger] ssh_line(pre[i]).1;
            assert(ssh_line(ls[i]).1);
        }
        if ssh_flags(pre).2 {
            let i = choose|i: int| 0 <= i < pre.len() && #[trigger] ssh_line(pre[i]).2;
            assert(ssh_line(ls[i]).2);
        }
        assert forall|i: int| 0 <= i < ls.len() && i != k implies #[trigger] ssh_line(ls[i]) == ssh_line(pre[i]) by {}
    }
}

/// What the SSH review reports, over the lines of the configuration:
/// password authentication is a warning exactly when some line that is not
/// a comment, trimmed and lower-cased, starts with `passwordauthentication`
/// and says `yes`, and passes otherwise; root login is a critical failure
/// exactly when such a `permitrootlogin` line does not restrict it to keys;
/// X11 forwarding is reported, as a warning, exactly when such an
/// `x11forwarding` line exists. An unreadable configuration gives one
/// result of unknown status.
pub proof fn lemma_ssh_verdicts(text: Seq<char>)
    ensures
        ({
            let ls = spec_lines(text);
            let r = ssh_results(Some(text));
            let pw = exists|i: int| 0 <= i < ls.len() && config_says_yes(#[trigger] ls[i], "passwordauthentication"@);
            let root = exists|i: int|
                0 <= i < ls.len() && config_says_yes(#[trigger] ls[i], "permitrootlogin"@) && !says_key_only(ls[i]);
            let x11 = exists|i: int| 0 <= i < ls.len() && config_says_yes(#[trigger] ls[i], "x11forwarding"@);
            &&& 2 <= r.len() <= 3
            &&& r[0].name == "Root Login"@ && r[1].name == "Password Auth"@
            &&& pw ==> r[1].severity == Severity::Warning && r[1].status == Status::Warn
            &&& !pw ==> r[1].severity == Severity::Info && r[1].status == Status::Pass
            &&& root ==> r[0].severity == Severity::Critical && r[0].status == Status::Fail
            &&& !root ==> r[0].severity == Severity::Info && r[0].status == Status::Pass
            &&& (r.len() == 3 <==> x11)
            &&& x11 ==> r[2].name == "X11 Forwarding"@ && r[2].severity == Severity::Warning && r[2].status
                == Status::Warn
        }),
        ssh_results(None).len() == 1 && ssh_results(None)[0].status == Status::Unknown,
{
    let ls = spec_lines(text);
    lemma_ssh_flags_any(ls);
    assert forall|l: Seq<char>| #![trigger ssh_line(l)]
        (ssh_line(l).1 <==> config_says_yes(l, "passwordauthentication"@))
            && (ssh_line(l).0 <==> config_says_yes(l, "permitrootlogin"@) && !says_key_only(l))
            && (ssh_line(l).2 <==> config_says_yes(l, "x11forwarding"@)) by {}
    let pw = exists|i: int| 0 <= i < ls.len() && config_says_yes(#[trigger] ls[i], "passwordauthentication"@);
    if pw {
        let i = choose|i: int| 0 <= i < ls.len() && config_says_yes(#[trigger] ls[i], "passwordauthentication"@);
        assert(ssh_line(ls[i]).1);
    }
    if ssh_flags(ls).1 {
        let i = choose|i: int| 0 <= i < ls.len() && #[trigger] ssh_line(ls[i]).1;
        assert(config_says_yes(ls[i], "passwordauthentication"@));
    }
    let root = exists|i: int|
        0 <= i < ls.len() && config_says_yes(#[trigger] ls[i], "permitrootlogin"@) && !says_key_only(ls[i]);
    if root {
        let i = choose|i: int|
            0 <= i < ls.len() && config_says_yes(#[trigger] ls[i], "permitrootlogin"@) && !says_key_only(ls[i]);
        assert(ssh_line(ls[i]).0);
    }
    if ssh_flags(ls).0 {
        let i = choose|i: int| 0 <= i < ls.len() && #[trigger] ssh_line(ls[i]).0;
        assert(config_says_yes(ls[i], "permitrootlogin"@));
    }
    let x11 = exists|i: int| 0 <= i < ls.len() && config_says_yes(#[trigger] ls[i], "x11forwarding"@);
    if x11 {
        let i = choose|i: int| 0 <= i < ls.len() && config_says_yes(#[trigger] ls[i], "x11forwarding"@);
        assert(ssh_line(ls[i]).2);
    }
    if ssh_flags(ls).2 {
        let i = choose|i: int| 0 <= i < ls.len() && #[trigger] ssh_line(ls[i]).2;
        assert(config_says_yes(ls[i], "x11forwarding"@));
    }
}

fn ssh_line_exec(line: &[char]) -> (r: (bool, bool, bool))
    ensures
        r == ssh_line(line@),
{
    let t = trim_chars(line);
    if t.len() == 0 || t[0] == '#' {
        return (false, false, false);
    }
    let l = lower_chars(&t);
    let root = starts_with(&l, "permitrootlogin") && contains_str(&l, "yes") && !contains_str(&l, "without-password")
        && !contains_str(&l, "prohibit-password");
    let pw = starts_with(&l, "passwordauthentication") && contains_str(&l, "yes");
    let x11 = starts_with(&l, "x11forwarding") && contains_str(&l, "yes");
    (root, pw, x11)
}

/// Records whether the SSH daemon allows root login, password
/// authentication and X11 forwarding, given its configuration text (`None`
/// when it cannot be read).
pub fn syssec_check_ssh(s: &mut Syssec, contents: Option<&str>)
    requires
        old(s).wf(),
    ensures
        final(s).wf(),
        final(s).results_view() == appended(
            old(s).results_view(),
            ssh_results(
                match contents {
                    Some(t) => Some(t@),
                    None => None,
                },
            ),
        ),
{
    let ghost base = s.results_view();
    proof { lemma_appended_empty(base); }
    let text = match contents {
        None => {
            s.add_planned("SSH", "Config", "Cannot read /etc/ssh/sshd_config", Severity::Info, Status::Unknown, Some("Ensure SSH is configured"), Ghost(base), Ghost(Seq::<ResultView>::empty()));
            return;
        },
        Some(t) => t,
    };
    let chars = chars_of(text);
    let ls = lines(&chars);
    let ghost sl = spec_lines(text@);
    let mut root = false;
    let mut pw = false;
    let mut x11 = false;
    let mut i: usize = 0;
    assert(sl.take(0) =~= Seq::<Seq<char>>::empty());
    while i < ls.len()
        invariant
            i <= ls@.len(),
            ls@.len() == sl.len(),
            forall|k: int| 0 <= k < ls@.len() ==> #[trigger] ls@[k]@ == sl[k],
            (root, pw, x11) == ssh_flags(sl.take(i as int)),
        decreases ls@.len() - i,
    {
        assert(sl.take(i as int + 1).drop_last() =~= sl.take(i as int));
        assert(ls@[i as int]@ == sl[i as int]);
        let (a, b, c) = ssh_line_exec(&ls[i]);
        root = root || a;
        pw = pw || b;
        x11 = x11 || c;
        i += 1;
    }
    assert(sl.take(i as int) =~= sl);
    let ghost all = ssh_results(Some(text@));
    if root {
        s.add_planned("SSH", "Root Login", "PermitRootLogin is enabled", Severity::Critical, Status::Fail, Some("Set 'PermitRootLogin no'"), Ghost(base), Ghost(Seq::<ResultView>::empty()));
    } else {
        s.add_planned("SSH", "Root Login", "Root login disabled", Severity::Info, Status::Pass, None, Ghost(base), Ghost(Seq::<ResultView>::empty()));
    }
    let ghost p1 = Seq::<ResultView>::empty().push(all[0]);
    if pw {
        s.add_planned("SSH", "Password Auth", "Password auth enabled", Severity::Warning, Status::Warn, Some("Use key-based auth only"), Ghost(base), Ghost(p1));
    } else {
        s.add_planned("SSH", "Password Auth", "Password auth disabled", Severity::Info, Status::Pass, None, Ghost(base), Ghost(p1));
    }
    let ghost p2 = p1.push(all[1]);
    if x11 {
        s.add_planned("SSH", "X11 Forwarding", "X11 forwarding enabled", Severity::Warning, Status::Warn, Some("Disable X11 forwarding unless needed"), Ghost(base), Ghost(p2));
        assert(p2.push(all[2]) =~= all);
    } else {
        assert(p2 =~= all);
    }
}

// ---------------------------------------------------------------------------
// Set-user-id and set-group-id binaries
// ---------------------------------------------------------------------------

/// The binaries expected to be set-user-id or set-group-id.
pub open spec fn spec_is_known_suid(p: Seq<char>) -> bool {
    p == "/usr/bin/su"@ || p == "/usr/bin/sudo"@ || p == "/usr/bin/passwd"@ || p == "/usr/bin/crontab"@
        || p == "/usr/bin/at"@ || p == "/usr/bin/chsh"@ || p == "/usr/bin/chfn"@ || p == "/usr/bin/newgrp"@
        || p == "/usr/bin/lock"@ || p == "/usr/bin/login"@ || p == "/usr/sbin/ping"@ || p
        == "/usr/sbin/traceroute"@ || p == "/usr/local/bin/sudo"@ || p == "/usr/local/bin/su"@
}

fn is_known_chars(p: &[char]) -> (r: bool)
    ensures
        r == spec_is_known_suid(p@),
{
    chars_eq(p, "/usr/bin/su") || chars_eq(p, "/usr/bin/sudo") || chars_eq(p, "/usr/bin/passwd")
        || chars_eq(p, "/usr/bin/crontab") || chars_eq(p, "/usr/bin/at") || chars_eq(p, "/usr/bin/chsh")
        || chars_eq(p, "/usr/bin/chfn") || chars_eq(p, "/usr/bin/newgrp") || chars_eq(p, "/usr/bin/lock")
        || chars_eq(p, "/usr/bin/login") || chars_eq(p, "/usr/sbin/ping") || chars_eq(p, "/usr/sbin/traceroute")
        || chars_eq(p, "/usr/local/bin/sudo") || chars_eq(p, "/usr/local/bin/su")
}

/// Whether a path is one of the expected set-user-id binaries.
pub fn is_known_suid(path: &str) -> (r: bool)
    ensures
        r == spec_is_known_suid(path@),
{
    let p = chars_of(path);
    is_known_chars(&p)
}

/// The last component of a path: what follows its last slash.
pub open spec fn base_name(p: Seq<char>) -> Seq<char> {
    match spec_rfind(p, '/') {
        Some(i) => p.skip(i + 1),
        None => p,
    }
}

fn base_chars(p: &[char]) -> (r: Vec<char>)
    ensures
        r@ == base_name(p@),
{
    match rfind(p, '/') {
        Some(i) => {
            let b = sub_chars(p, i + 1, p.len());
            assert(b@ =~= p@.skip(i as int + 1));
            b
        },
        None => {
            let b = sub_chars(p, 0, p.len());
            assert(b@ =~= p@);
            b
        },
    }
}

/// The last component of a path.
pub fn suid_base(path: &str) -> (r: String)
    ensures
        r@ == base_name(path@),
{
    let p = chars_of(path);
    let b = base_chars(&p);
    string_of(&b)
}

/// The nonempty lines among `ls`.
pub open spec fn nonempty(ls: Seq<Seq<char>>) -> Seq<Seq<char>>
    decreases ls.len(),
{
    if ls.len() == 0 {
        seq![]
    } else if ls.last().len() > 0 {
        nonempty(ls.drop_last()).push(ls.last())
    } else {
        nonempty(ls.drop_last())
    }
}

/// The last components of the unexpected binaries among `ps`.
pub open spec fn unexpected(ps: Seq<Seq<char>>) -> Seq<Seq<char>>
    decreases ps.len(),
{
    if ps.len() == 0 {
        seq![]
    } else if spec_is_known_suid(ps.last()) {
        unexpected(ps.drop_last())
    } else {
        unexpected(ps.drop_last()).push(base_name(ps.last()))
    }
}

proof fn lemma_unexpected_le(ps: Seq<Seq<char>>)
    ensures
        unexpected(ps).len() <= ps.len(),
    decreases ps.len(),
{
    if ps.len() > 0 {
        lemma_unexpected_le(ps.drop_last());
    }
}

proof fn lemma_suid_counts_le(ls: Seq<Seq<char>>)
    ensures
        nonempty(ls).len() <= ls.len(),
        unexpected(nonempty(ls)).len() <= nonempty(ls).len(),
    decreases ls.len(),
{
    if ls.len() > 0 {
        lemma_suid_counts_le(ls.drop_last());
    }
    lemma_unexpected_le(nonempty(ls));
}

/// The result about the set-user-id and set-group-id binaries that the
/// search listed, one per line (none when it could not run).
pub open spec fn suid_results(found: Option<Seq<char>>) -> Seq<ResultView> {
    match found {
        None => seq![],
        Some(text) => {
            let ps = nonempty(spec_lines(text));
            let u = unexpected(ps);
            if u.len() > 0 {
                seq![rv("SUID"@, "Unexpected Binaries"@, decimal(u.len()) + " unexpected: "@ + join(u, ", "@), Severity::Warning, Status::Warn, "Review unexpected SUID/SGID binaries"@)]
            } else {
                seq![rv("SUID"@, "Binaries"@, decimal(ps.len()) + " SUID/SGID binaries found"@, Severity::Info, Status::Pass, Seq::<char>::empty())]
            }
        },
    }
}

/// Records the set-user-id and set-group-id binaries found, given the
/// output of the search (`None` when it could not run).
pub fn syssec_check_suid(s: &mut Syssec, found: Option<&str>)
    requires
        old(s).wf(),
    ensures
        final(s).wf(),
        final(s).results_view() == appended(
            old(s).results_view(),
            suid_results(
                match found {
                    Some(t) => Some(t@),
                    None => None,
                },
            ),
        ),
{
    let ghost base = s.results_view();
    proof { lemma_appended_empty(base); }
    let text = match found {
        None => {
            return;
        },
        Some(t) => t,
    };
    let chars = chars_of(text);
    let ls = lines(&chars);
    let ghost sl = spec_lines(text@);
    let mut count: u64 = 0;
    let mut suspicious: u64 = 0;
    let mut list = String::new();
    let mut i: usize = 0;
    assert(sl.take(0) =~= Seq::<Seq<char>>::empty());
    while i < ls.len()
        invariant
            i <= ls@.len(),
            ls@.len() == sl.len(),
            forall|k: int| 0 <= k < ls@.len() ==> #[trigger] ls@[k]@ == sl[k],
            count == nonempty(sl.take(i as int)).len(),
            suspicious == unexpected(nonempty(sl.take(i as int))).len(),
            list@ == join(unexpected(nonempty(sl.take(i as int))), ", "@),
        decreases ls@.len() - i,
    {
        proof {
            assert(sl.take(i as int + 1).drop_last() =~= sl.take(i as int));
            assert(ls@[i as int]@ == sl[i as int]);
            lemma_suid_counts_le(sl.take(i as int));
            let ne = nonempty(sl.take(i as int));
            assert(ne.push(sl[i as int]).drop_last() =~= ne);
        }
        let line = &ls[i];
        if line.len() > 0 {
            count = count + 1;
            if !is_known_chars(line) {
                let b = base_chars(line);
                let bs = string_of(&b);
                join_push(&mut list, suspicious as usize, bs.as_str(), ", ", Ghost(unexpected(nonempty(sl.take(i as int)))));
                suspicious = suspicious + 1;
            }
        }
        i += 1;
    }
    assert(sl.take(i as int) =~= sl);
    if suspicious > 0 {
        let mut msg = String::new();
        push_decimal(&mut msg, suspicious);
        msg.append(" unexpected: ");
        msg.append(list.as_str());
        s.add_planned("SUID", "Unexpected Binaries", msg.as_str(), Severity::Warning, Status::Warn, Some("Review unexpected SUID/SGID binaries"), Ghost(base), Ghost(Seq::<ResultView>::empty()));
    } else {
        let mut msg = String::new();
        push_decimal(&mut msg, count);
        msg.append(" SUID/SGID binaries found");
        s.add_planned("SUID", "Binaries", msg.as_str(), Severity::Info, Status::Pass, None, Ghost(base), Ghost(Seq::<ResultView>::empty()));
    }
}


// ---------------------------------------------------------------------------
// Disks
// ---------------------------------------------------------------------------

/// `s` without the percent signs at its end (`trim_end_matches('%')`).
pub open spec fn strip_percents(s: Seq<char>) -> Seq<char>
    decreases s.len(),
{
    if s.len() > 0 && s.last() == '%' {
        strip_percents(s.drop_last())
    } else {
        s
    }
}

fn strip_percents_exec(s: &[char]) -> (r: Vec<char>)
    ensures
        r@ == strip_percents(s@),
{
    let mut n: usize = s.len();
    assert(s@.take(n as int) =~= s@);
    while n > 0 && s[n - 1] == '%'
        invariant
            n <= s.len(),
            strip_percents(s@) == strip_percents(s@.take(n as int)),
        decreases n,
    {
        assert(s@.take(n as int).drop_last() =~= s@.take(n as int - 1));
        n -= 1;
    }
    sub_chars(s, 0, n)
}

/// The results that lines `ls` give, one line after the other, when line
/// `l` gives `f(l)`.
pub open spec fn each_line(ls: Seq<Seq<char>>, f: spec_fn(Seq<char>) -> Seq<ResultView>) -> Seq<ResultView>
    decreases ls.len(),
{
    if ls.len() == 0 {
        seq![]
    } else {
        each_line(ls.drop_last(), f) + f(ls.last())
    }
}

/// The lines of a command's output after its header line.
pub open spec fn body_lines(text: Seq<char>) -> Seq<Seq<char>> {
    let ls = spec_lines(text);
    if ls.len() > 0 {
        ls.drop_first()
    } else {
        ls
    }
}

/// The result about one line of `df -h`: the capacity column (95% and up
/// is critical, 80% and up a warning; -1 when it does not read as a
/// number), named by the mount point. Lines of fewer than six columns give
/// none.
pub open spec fn df_line_results(line: Seq<char>) -> Seq<ResultView> {
    let f = spec_words(line);
    if f.len() < 6 {
        seq![]
    } else {
        let cap: i32 = match spec_parse_i32(strip_percents(f[4])) {
            Some(v) => v,
            None => -1i32,
        };
        let desc = f[5] + ": "@ + f[2] + " used of "@ + f[1] + " ("@ + signed_decimal(cap as int) + "%)"@;
        seq![
            if cap >= 95 {
                rv("Disks"@, f[5], desc, Severity::Critical, Status::Fail, "Disk almost full - free space immediately"@)
            } else if cap >= 80 {
                rv("Disks"@, f[5], desc, Severity::Warning, Status::Warn, "Disk getting full - monitor usage"@)
            } else {
                rv("Disks"@, f[5], desc, Severity::Info, Status::Pass, Seq::<char>::empty())
            },
        ]
    }
}

/// One line of `df -h` gives one result, named by the mount point in its
/// sixth column, when it has at least six columns, and none otherwise. Its
/// verdict follows the capacity column (the fifth, with its percent signs
/// taken off): 95% or more is a critical failure, 80% up to 95% a warning,
/// below 80% a pass; a line without a readable capacity passes.
pub proof fn lemma_df_verdicts(line: Seq<char>)
    ensures
        ({
            let f = spec_words(line);
            let r = df_line_results(line);
            &&& f.len() < 6 ==> r.len() == 0
            &&& f.len() >= 6 ==> r.len() == 1 && r[0].name == f[5] && r[0].category == "Disks"@ && match spec_parse_i32(
                strip_percents(f[4]),
            ) {
                Some(v) => {
                    &&& v >= 95 ==> r[0].severity == Severity::Critical && r[0].status == Status::Fail
                    &&& 80 <= v < 95 ==> r[0].severity == Severity::Warning && r[0].status == Status::Warn
                    &&& v < 80 ==> r[0].severity == Severity::Info && r[0].status == Status::Pass
                },
                None => r[0].severity == Severity::Info && r[0].status == Status::Pass,
            }
        }),
{
}

fn record_df_line(s: &mut Syssec, line: &[char], Ghost(base): Ghost<Seq<ResultView>>, Ghost(planned): Ghost<Seq<ResultView>>)
    requires
        old(s).wf(),
        base.len() <= MAX_RESULTS,
        old(s).results_view() == appended(base, planned),
    ensures
        final(s).wf(),
        final(s).results_view() == appended(base, planned + df_line_results(line@)),
{
    let f = words(line);
    if f.len() < 6 {
        assert(planned + df_line_results(line@) =~= planned);
        return;
    }
    let pct = strip_percents_exec(&f[4]);
    let cap: i32 = match parse_i32(&pct) {
        Some(v) => v,
        None => -1,
    };
    let name = string_of(&f[5]);
    let mut desc = string_of(&f[5]);
    desc.append(": ");
    desc.append(string_of(&f[2]).as_str());
    desc.append(" used of ");
    desc.append(string_of(&f[1]).as_str());
    desc.append(" (");
    push_signed(&mut desc, cap as i64);
    desc.append("%)");
    let ghost r = df_line_results(line@);
    if cap >= 95 {
        s.add_planned("Disks", name.as_str(), desc.as_str(), Severity::Critical, Status::Fail, Some("Disk almost full - free space immediately"), Ghost(base), Ghost(planned));
    } else if cap >= 80 {
        s.add_planned("Disks", name.as_str(), desc.as_str(), Severity::Warning, Status::Warn, Some("Disk getting full - monitor usage"), Ghost(base), Ghost(planned));
    } else {
        s.add_planned("Disks", name.as_str(), desc.as_str(), Severity::Info, Status::Pass, None, Ghost(base), Ghost(planned));
    }
    assert(planned + r =~= planned.push(r[0]));
}

/// The results about disk usage, given the output of `df -h` (`None` when
/// it could not run): one per mounted file system.
pub open spec fn disk_usage_results(out: Option<Seq<char>>) -> Seq<ResultView> {
    match out {
        None => seq![],
        Some(t) => each_line(body_lines(t), |l: Seq<char>| df_line_results(l)),
    }
}

/// The result about one line of `swapinfo -m`: the percentage column (90%
/// and up is critical, 50% and up a warning; 0 when absent or unreadable),
/// named by the device. Lines of fewer than four columns give none.
pub open spec fn swap_line_results(line: Seq<char>) -> Seq<ResultView> {
    let f = spec_words(line);
    if f.len() < 4 {
        seq![]
    } else {
        let total: i32 = match spec_parse_i32(f[1]) {
            Some(v) => v,
            None => 0,
        };
        let used: i32 = match spec_parse_i32(f[2]) {
            Some(v) => v,
            None => 0,
        };
        let percent: i32 = if f.len() > 4 {
            match spec_parse_i32(strip_percents(f[4])) {
                Some(v) => v,
                None => 0,
            }
        } else {
            0
        };
        let desc = f[0] + ": "@ + signed_decimal(used as int) + " used of "@ + signed_decimal(total as int) + " MB ("@
            + signed_decimal(percent as int) + "%)"@;
        seq![
            if percent >= 90 {
                rv("Disks"@, f[0], desc, Severity::Critical, Status::Fail, "Swap nearly full - add more swap"@)
            } else if percent >= 50 {
                rv("Disks"@, f[0], desc, Severity::Warning, Status::Warn, "Swap usage moderate - monitor"@)
            } else {
                rv("Disks"@, f[0], desc, Severity::Info, Status::Pass, Seq::<char>::empty())
            },
        ]
    }
}

/// One line of `swapinfo -m` gives one result, named by the device in its
/// first column, when it has at least four columns, and none otherwise. Its
/// verdict follows the capacity column (the fifth, with its percent signs
/// taken off): 90% or more is a critical failure, 50% up to 90% a warning,
/// below 50% a pass; a line without a readable capacity passes.
pub proof fn lemma_swap_verdicts(line: Seq<char>)
    ensures
        ({
            let f = spec_words(line);
            let r = swap_line_results(line);
            &&& f.len() < 4 ==> r.len() == 0
            &&& f.len() >= 4 ==> r.len() == 1 && r[0].name == f[0] && r[0].category == "Disks"@
            &&& f.len() >= 5 ==> match spec_parse_i32(strip_percents(f[4])) {
                Some(v) => {
                    &&& v >= 90 ==> r[0].severity == Severity::Critical && r[0].status == Status::Fail
                    &&& 50 <= v < 90 ==> r[0].severity == Severity::Warning && r[0].status == Status::Warn
                    &&& v < 50 ==> r[0].severity == Severity::Info && r[0].status == Status::Pass
                },
                None => r[0].severity == Severity::Info && r[0].status == Status::Pass,
            }
            &&& f.len() == 4 ==> r[0].severity == Severity::Info && r[0].status == Status::Pass
        }),
{
}

fn record_swap_line(s: &mut Syssec, line: &[char], Ghost(base): Ghost<Seq<ResultView>>, Ghost(planned): Ghost<Seq<ResultView>>)
    requires
        old(s).wf(),
        base.len() <= MAX_RESULTS,
        old(s).results_view() == appended(base, planned),
    ensures
        final(s).wf(),
        final(s).results_view() == appended(base, planned + swap_line_results(line@)),
{
    let f = words(line);
    if f.len() < 4 {
        assert(planned + swap_line_results(line@) =~= planned);
        return;
    }
    let total: i32 = match parse_i32(&f[1]) {
        Some(v) => v,
        None => 0,
    };
    let used: i32 = match parse_i32(&f[2]) {
        Some(v) => v,
        None => 0,
    };
    let percent: i32 = if f.len() > 4 {
        let pct = strip_percents_exec(&f[4]);
        match parse_i32(&pct) {
            Some(v) => v,
            None => 0,
        }
    } else {
        0
    };
    let name = string_of(&f[0]);
    let mut desc = string_of(&f[0]);
    desc.append(": ");
    push_signed(&mut desc, used as i64);
    desc.append(" used of ");
    push_signed(&mut desc, total as i64);
    desc.append(" MB (");
    push_signed(&mut desc, percent as i64);
    desc.append("%)");
    let ghost r = swap_line_results(line@);
    if percent >= 90 {
        s.add_planned("Disks", name.as_str(), desc.as_str(), Severity::Critical, Status::Fail, Some("Swap nearly full - add more swap"), Ghost(base), Ghost(planned));
    } else if percent >= 50 {
        s.add_planned("Disks", name.as_str(), desc.as_str(), Severity::Warning, Status::Warn, Some("Swap usage moderate - monitor"), Ghost(base), Ghost(planned));
    } else {
        s.add_planned("Disks", name.as_str(), desc.as_str(), Severity::Info, Status::Pass, None, Ghost(base), Ghost(planned));
    }
    assert(planned + r =~= planned.push(r[0]));
}

/// The results about swap, given the output of `swapinfo -m` (`None` when
/// it could not run): one per swap device.
pub open spec fn swap_results(out: Option<Seq<char>>) -> Seq<ResultView> {
    match out {
        None => seq![],
        Some(t) => each_line(body_lines(t), |l: Seq<char>| swap_line_results(l)),
    }
}

/// Records one result per line of a command's output after the header:
/// `df -h` lines when `swap` is false, `swapinfo -m` lines when it is true.
fn record_table(s: &mut Syssec, text: &str, swap: bool)
    requires
        old(s).wf(),
    ensures
        final(s).wf(),
        final(s).results_view() == appended(
            old(s).results_view(),
            if swap {
                each_line(body_lines(text@), |l: Seq<char>| swap_line_results(l))
            } else {
                each_line(body_lines(text@), |l: Seq<char>| df_line_results(l))
            },
        ),
{
    let ghost base = s.results_view();
    let ghost f = if swap {
        |l: Seq<char>| swap_line_results(l)
    } else {
        |l: Seq<char>| df_line_results(l)
    };
    proof { lemma_appended_empty(base); }
    let chars = chars_of(text);
    let ls = lines(&chars);
    let ghost sl = spec_lines(text@);
    let ghost body = body_lines(text@);
    if ls.len() == 0 {
        assert(body.len() == 0);
        return;
    }
    let mut i: usize = 1;
    assert(body.take(0) =~= Seq::<Seq<char>>::empty());
    while i < ls.len()
        invariant
            1 <= i <= ls@.len(),
            ls@.len() == sl.len(),
            sl == spec_lines(text@),
            body == sl.drop_first(),
            forall|k: int| 0 <= k < ls@.len() ==> #[trigger] ls@[k]@ == sl[k],
            f == (if swap {
                |l: Seq<char>| swap_line_results(l)
            } else {
                |l: Seq<char>| df_line_results(l)
            }),
            s.wf(),
            base.len() <= MAX_RESULTS,
            s.results_view() == appended(base, each_line(body.take(i - 1), f)),
        decreases ls@.len() - i,
    {
        proof {
            assert(body.take(i as int).drop_last() =~= body.take(i - 1));
            assert(ls@[i as int]@ == body[i - 1]);
        }
        if swap {
            record_swap_line(s, &ls[i], Ghost(base), Ghost(each_line(body.take(i - 1), f)));
        } else {
            record_df_line(s, &ls[i], Ghost(base), Ghost(each_line(body.take(i - 1), f)));
        }
        i += 1;
    }
    assert(body.take(i - 1) =~= body);
}

/// Records how full each mounted file system is, given the output of
/// `df -h` (`None` when it could not run).
pub fn syssec_check_disks(s: &mut Syssec, df: Option<&str>)
    requires
        old(s).wf(),
    ensures
        final(s).wf(),
        final(s).results_view() == appended(
            old(s).results_view(),
            disk_usage_results(
                match df {
                    Some(t) => Some(t@),
                    None => None,
                },
            ),
        ),
{
    match df {
        Some(t) => record_table(s, t, false),
        None => {
            proof { lemma_appended_empty(s.results_view()); }
        },
    }
}

/// Records how full each swap device is, given the output of
/// `swapinfo -m` (`None` when it could not run).
pub fn syssec_check_swap(s: &mut Syssec, swapinfo: Option<&str>)
    requires
        old(s).wf(),
    ensures
        final(s).wf(),
        final(s).results_view() == appended(
            old(s).results_view(),
            swap_results(
                match swapinfo {
                    Some(t) => Some(t@),
                    None => None,
                },
            ),
        ),
{
    match swapinfo {
        Some(t) => record_table(s, t, true),
        None => {
            proof { lemma_appended_empty(s.results_view()); }
        },
    }
}

/// Whether a device name is that of a disk: `ada`, `da`, `nvd` or `mmcsd`
/// followed by anything.
pub open spec fn spec_is_disk_name(n: Seq<char>) -> bool {
    prefixed(n, "ada"@) || prefixed(n, "da"@) || prefixed(n, "nvd"@) || prefixed(n, "mmcsd"@)
}

pub fn is_disk_name(name: &str) -> (r: bool)
    ensures
        r == spec_is_disk_name(name@),
{
    let c = chars_of(name);
    starts_with(&c, "ada") || starts_with(&c, "da") || starts_with(&c, "nvd") || starts_with(&c, "mmcsd")
}

/// A disk device that could be opened, with its media size when the size
/// could be read.
#[derive(Debug)]
pub struct DiskProbe {
    pub name: String,
    pub media_size: Option<i64>,
}

pub open spec fn disk_result(name: Seq<char>, size: Option<i64>) -> ResultView {
    rv(
        "Disks"@,
        name,
        match size {
            Some(b) => signed_decimal(tdiv(b as int, 1048576)) + " MB"@,
            None => "unknown size"@,
        },
        Severity::Info,
        Status::Pass,
        Seq::<char>::empty(),
    )
}

pub open spec fn disks_results(ds: Seq<DiskProbe>) -> Seq<ResultView> {
    Seq::new(ds.len(), |i: int| disk_result(ds[i].name@, ds[i].media_size))
}

/// Records the size of each disk device that could be opened.
pub fn syssec_check_physical_disks(s: &mut Syssec, disks: &Vec<DiskProbe>)
    requires
        old(s).wf(),
    ensures
        final(s).wf(),
        final(s).results_view() == appended(old(s).results_view(), disks_results(disks@)),
{
    let ghost base = s.results_view();
    proof { lemma_appended_empty(base); }
    let ghost all = disks_results(disks@);
    let mut i: usize = 0;
    assert(all.take(0) =~= Seq::<ResultView>::empty());
    while i < disks.len()
        invariant
            i <= disks@.len(),
            all == disks_results(disks@),
            s.wf(),
            base.len() <= MAX_RESULTS,
            s.results_view() == appended(base, all.take(i as int)),
        decreases disks@.len() - i,
    {
        let d = &disks[i];
        let msg = match d.media_size {
            Some(b) => {
                let mut m = String::new();
                push_signed(&mut m, b / 1048576);
                m.append(" MB");
                m
            },
            None => String::from_str("unknown size"),
        };
        s.add_planned("Disks", d.name.as_str(), msg.as_str(), Severity::Info, Status::Pass, None, Ghost(base), Ghost(all.take(i as int)));
        assert(all.take(i as int).push(all[i as int]) =~= all.take(i as int + 1));
        i += 1;
    }
    assert(all.take(i as int) =~= all);
}

// ---------------------------------------------------------------------------
// Devices
// ---------------------------------------------------------------------------

/// An entry of /dev with the mode its link itself has.
#[derive(Debug)]
pub struct DevEntry {
    pub name: String,
    pub mode: u32,
}

pub const S_IFMT: u32 = 0o170000;
pub const S_IFCHR: u32 = 0o020000;
pub const S_IFBLK: u32 = 0o060000;
pub const S_IFLNK: u32 = 0o120000;

/// Counts over the entries of /dev not starting with a dot: all, character
/// devices, block devices, symbolic links, and the names of the devices
/// others may write.
pub open spec fn dev_stats(es: Seq<DevEntry>) -> (nat, nat, nat, nat, Seq<Seq<char>>)
    decreases es.len(),
{
    if es.len() == 0 {
        (0, 0, 0, 0, seq![])
    } else {
        let (t, c, b, l, w) = dev_stats(es.drop_last());
        let e = es.last();
        if e.name@.len() > 0 && e.name@[0] == '.' {
            (t, c, b, l, w)
        } else {
            let ft = e.mode & S_IFMT;
            let dev = ft == S_IFCHR || ft == S_IFBLK;
            (
                t + 1,
                if ft == S_IFCHR { c + 1 } else { c },
                if ft == S_IFBLK { b + 1 } else { b },
                if ft == S_IFLNK { l + 1 } else { l },
                if dev && e.mode & 0o002 != 0 { w.push(e.name@) } else { w },
            )
        }
    }
}

proof fn lemma_dev_stats_le(es: Seq<DevEntry>)
    ensures
        dev_stats(es).0 <= es.len(),
        dev_stats(es).1 <= es.len(),
        dev_stats(es).2 <= es.len(),
        dev_stats(es).3 <= es.len(),
        dev_stats(es).4.len() <= es.len(),
    decreases es.len(),
{
    if es.len() > 0 {
        lemma_dev_stats_le(es.drop_last());
    }
}

/// The results about /dev, given its entries (`None` when it cannot be
/// read): a summary, and the devices others may write.
pub open spec fn dev_results(entries: Option<Seq<DevEntry>>) -> Seq<ResultView> {
    match entries {
        None => seq![rv("Devices"@, "/dev"@, "Cannot open /dev"@, Severity::Warning, Status::Warn, Seq::<char>::empty())],
        Some(es) => {
            let (t, c, b, l, w) = dev_stats(es);
            seq![
                rv("Devices"@, "/dev Summary"@, decimal(t) + " devices ("@ + decimal(c) + " char, "@ + decimal(b) + " block, "@ + decimal(l) + " symlinks)"@, Severity::Info, Status::Pass, Seq::<char>::empty()),
                if w.len() > 0 {
                    rv("Devices"@, "World-Writable"@, decimal(w.len()) + " world-writable devices: "@ + join(w, ", "@), Severity::Warning, Status::Warn, "Review world-writable device nodes"@)
                } else {
                    rv("Devices"@, "World-Writable"@, "No world-writable device nodes"@, Severity::Info, Status::Pass, Seq::<char>::empty())
                },
            ]
        },
    }
}

/// Records what /dev holds, given its entries (`None` when it cannot be
/// read).
pub fn syssec_check_dev(s: &mut Syssec, entries: Option<&Vec<DevEntry>>)
    requires
        old(s).wf(),
    ensures
        final(s).wf(),
        final(s).results_view() == appended(
            old(s).results_view(),
            dev_results(
                match entries {
                    Some(v) => Some(v@),
                    None => None,
                },
            ),
        ),
{
    let ghost base = s.results_view();
    proof { lemma_appended_empty(base); }
    let es = match entries {
        None => {
            s.add_planned("Devices", "/dev", "Cannot open /dev", Severity::Warning, Status::Warn, None, Ghost(base), Ghost(Seq::<ResultView>::empty()));
            return;
        },
        Some(v) => v,
    };
    let mut total: u64 = 0;
    let mut chr: u64 = 0;
    let mut blk: u64 = 0;
    let mut lnk: u64 = 0;
    let mut ww: u64 = 0;
    let mut names = String::new();
    let mut i: usize = 0;
    assert(es@.take(0) =~= Seq::<DevEntry>::empty());
    while i < es.len()
        invariant
            i <= es@.len(),
            (total as nat, chr as nat, blk as nat, lnk as nat) == ({
                let st = dev_stats(es@.take(i as int));
                (st.0, st.1, st.2, st.3)
            }),
            ww == dev_stats(es@.take(i as int)).4.len(),
            names@ == join(dev_stats(es@.take(i as int)).4, ", "@),
        decreases es@.len() - i,
    {
        proof {
            assert(es@.take(i as int + 1).drop_last() =~= es@.take(i as int));
            lemma_dev_stats_le(es@.take(i as int));
        }
        let e = &es[i];
        let dot = !e.name.as_str().is_empty() && e.name.as_str().get_char(0) == '.';
        if !dot {
            total = total + 1;
            let ft = e.mode & S_IFMT;
            if ft == S_IFCHR {
                chr = chr + 1;
            } else if ft == S_IFBLK {
                blk = blk + 1;
            } else if ft == S_IFLNK {
                lnk = lnk + 1;
            }
            if (ft == S_IFCHR || ft == S_IFBLK) && e.mode & 0o002 != 0 {
                join_push(&mut names, ww as usize, e.name.as_str(), ", ", Ghost(dev_stats(es@.take(i as int)).4));
                ww = ww + 1;
            }
        }
        i += 1;
    }
    assert(es@.take(i as int) =~= es@);
    let mut msg = String::new();
    push_decimal(&mut msg, total);
    msg.append(" devices (");
    push_decimal(&mut msg, chr);
    msg.append(" char, ");
    push_decimal(&mut msg, blk);
    msg.append(" block, ");
    push_decimal(&mut msg, lnk);
    msg.append(" symlinks)");
    let ghost all = dev_results(Some(es@));
    s.add_planned("Devices", "/dev Summary", msg.as_str(), Severity::Info, Status::Pass, None, Ghost(base), Ghost(Seq::<ResultView>::empty()));
    let ghost p1 = Seq::<ResultView>::empty().push(all[0]);
    if ww > 0 {
        let mut m2 = String::new();
        push_decimal(&mut m2, ww);
        m2.append(" world-writable devices: ");
        m2.append(names.as_str());
        s.add_planned("Devices", "World-Writable", m2.as_str(), Severity::Warning, Status::Warn, Some("Review world-writable device nodes"), Ghost(base), Ghost(p1));
    } else {
        s.add_planned("Devices", "World-Writable", "No world-writable device nodes", Severity::Info, Status::Pass, None, Ghost(base), Ghost(p1));
    }
    assert(p1.push(all[1]) =~= all);
}

/// The device nodes every system needs, in the order their presence is
/// given.
pub fn essential_devices() -> (r: [&'static str; 5])
    ensures
        r[0] == "/dev/null" && r[1] == "/dev/zero" && r[2] == "/dev/random" && r[3] == "/dev/urandom"
            && r[4] == "/dev/console",
{
    ["/dev/null", "/dev/zero", "/dev/random", "/dev/urandom", "/dev/console"]
}

pub open spec fn essential_name(i: int) -> Seq<char> {
    if i == 0 {
        "/dev/null"@
    } else if i == 1 {
        "/dev/zero"@
    } else if i == 2 {
        "/dev/random"@
    } else if i == 3 {
        "/dev/urandom"@
    } else {
        "/dev/console"@
    }
}

pub open spec fn essential_result(i: int, present: bool) -> ResultView {
    if present {
        rv("Devices"@, essential_name(i), "present"@, Severity::Info, Status::Pass, Seq::<char>::empty())
    } else {
        rv("Devices"@, essential_name(i), essential_name(i) + " missing!"@, Severity::Warning, Status::Warn, "Essential device missing"@)
    }
}

pub open spec fn essential_results(present: Seq<bool>) -> Seq<ResultView> {
    Seq::new(5, |i: int| essential_result(i, present[i]))
}

/// Records which of the `essential_devices` exist.
pub fn syssec_check_essential_devices(s: &mut Syssec, present: &Vec<bool>)
    requires
        old(s).wf(),
        present@.len() == 5,
    ensures
        final(s).wf(),
        final(s).results_view() == appended(old(s).results_view(), essential_results(present@)),
{
    let ghost base = s.results_view();
    proof { lemma_appended_empty(base); }
    let ghost all = essential_results(present@);
    let names = essential_devices();
    let mut i: usize = 0;
    assert(all.take(0) =~= Seq::<ResultView>::empty());
    while i < 5
        invariant
            i <= 5,
            present@.len() == 5,
            all == essential_results(present@),
            names[0] == "/dev/null" && names[1] == "/dev/zero" && names[2] == "/dev/random" && names[3] == "/dev/urandom"
                && names[4] == "/dev/console",
            s.wf(),
            base.len() <= MAX_RESULTS,
            s.results_view() == appended(base, all.take(i as int)),
        decreases 5 - i,
    {
        assert(names[i as int]@ == essential_name(i as int));
        if present[i] {
            s.add_planned("Devices", names[i], "present", Severity::Info, Status::Pass, None, Ghost(base), Ghost(all.take(i as int)));
        } else {
            let mut msg = String::from_str(names[i]);
            msg.append(" missing!");
            s.add_planned("Devices", names[i], msg.as_str(), Severity::Warning, Status::Warn, Some("Essential device missing"), Ghost(base), Ghost(all.take(i as int)));
        }
        assert(all.take(i as int).push(all[i as int]) =~= all.take(i as int + 1));
        i += 1;
    }
    assert(all.take(5) =~= all);
}


// ---------------------------------------------------------------------------
// Terminals
// ---------------------------------------------------------------------------

/// Whether a device name is a terminal's: `tty` and at least one more byte.
pub open spec fn spec_is_tty_name(name: &str) -> bool {
    prefixed(name@, "tty"@) && name.spec_bytes().len() as usize > 3
}

pub fn is_tty_name(name: &str) -> (r: bool)
    ensures
        r == spec_is_tty_name(name),
{
    let c = chars_of(name);
    starts_with(&c, "tty") && name.len() > 3
}

/// Whether a terminal is in use: some line that `who` printed mentions it.
pub open spec fn spec_tty_active(who: Seq<char>, name: Seq<char>) -> bool {
    exists|k: int| 0 <= k < spec_lines(who).len() && has_sub(#[trigger] spec_lines(who)[k], name)
}

pub fn tty_active(who: &str, name: &str) -> (r: bool)
    ensures
        r == spec_tty_active(who@, name@),
{
    let chars = chars_of(who);
    let ls = lines(&chars);
    let ghost sl = spec_lines(who@);
    let mut i: usize = 0;
    while i < ls.len()
        invariant
            i <= ls@.len(),
            ls@.len() == sl.len(),
            sl == spec_lines(who@),
            forall|k: int| 0 <= k < ls@.len() ==> #[trigger] ls@[k]@ == sl[k],
            forall|k: int| 0 <= k < i ==> !has_sub(#[trigger] sl[k], name@),
        decreases ls@.len() - i,
    {
        assert(ls@[i as int]@ == sl[i as int]);
        if contains_str(&ls[i], name) {
            return true;
        }
        i += 1;
    }
    false
}

/// How many of `v` are true.
pub open spec fn count_true(v: Seq<bool>) -> nat
    decreases v.len(),
{
    if v.len() == 0 {
        0
    } else {
        count_true(v.drop_last()) + if v.last() { 1nat } else { 0nat }
    }
}

proof fn lemma_count_true_le(v: Seq<bool>)
    ensures
        count_true(v) <= v.len(),
    decreases v.len(),
{
    if v.len() > 0 {
        lemma_count_true_le(v.drop_last());
    }
}

pub open spec fn ttys_results(active: Seq<bool>) -> Seq<ResultView> {
    seq![rv("TTY"@, "TTY Summary"@, decimal(active.len()) + " TTYs, "@ + decimal(count_true(active)) + " active"@, Severity::Info, Status::Pass, Seq::<char>::empty())]
}

/// Records how many terminal devices there are and how many are in use,
/// given for each terminal character device whether it is in use.
pub fn syssec_check_ttys(s: &mut Syssec, active: &Vec<bool>)
    requires
        old(s).wf(),
    ensures
        final(s).wf(),
        final(s).results_view() == appended(old(s).results_view(), ttys_results(active@)),
{
    let ghost base = s.results_view();
    proof { lemma_appended_empty(base); }
    let mut n: u64 = 0;
    let mut i: usize = 0;
    assert(active@.take(0) =~= Seq::<bool>::empty());
    while i < active.len()
        invariant
            i <= active@.len(),
            n == count_true(active@.take(i as int)),
        decreases active@.len() - i,
    {
        proof {
            assert(active@.take(i as int + 1).drop_last() =~= active@.take(i as int));
            lemma_count_true_le(active@.take(i as int));
        }
        if active[i] {
            n = n + 1;
        }
        i += 1;
    }
    assert(active@.take(i as int) =~= active@);
    let mut msg = String::new();
    push_decimal(&mut msg, active.len() as u64);
    msg.append(" TTYs, ");
    push_decimal(&mut msg, n);
    msg.append(" active");
    s.add_planned("TTY", "TTY Summary", msg.as_str(), Severity::Info, Status::Pass, None, Ghost(base), Ghost(Seq::<ResultView>::empty()));
}

// ---------------------------------------------------------------------------
// /sys
// ---------------------------------------------------------------------------

/// The directories of /sys that are counted.
#[derive(Copy, Clone, Debug, PartialEq, Eq, Structural)]
pub enum SysDir {
    Devices,
    Class,
    Module,
}

pub open spec fn spec_sys_path(d: SysDir) -> &'static str {
    match d {
        SysDir::Devices => "/sys/devices",
        SysDir::Class => "/sys/class",
        SysDir::Module => "/sys/module",
    }
}

pub open spec fn spec_sys_unit(d: SysDir) -> &'static str {
    match d {
        SysDir::Devices => "devices",
        SysDir::Class => "classes",
        SysDir::Module => "modules",
    }
}

/// The path of a /sys directory.
pub fn sys_path(d: SysDir) -> (r: &'static str)
    ensures
        r == spec_sys_path(d),
{
    match d {
        SysDir::Devices => "/sys/devices",
        SysDir::Class => "/sys/class",
        SysDir::Module => "/sys/module",
    }
}

fn sys_unit(d: SysDir) -> (r: &'static str)
    ensures
        r == spec_sys_unit(d),
{
    match d {
        SysDir::Devices => "devices",
        SysDir::Class => "classes",
        SysDir::Module => "modules",
    }
}

pub open spec fn sys_results(mounted: bool) -> Seq<ResultView> {
    if mounted {
        seq![]
    } else {
        seq![rv("Sysfs"@, "/sys"@, "Not mounted (expected on FreeBSD)"@, Severity::Info, Status::Pass, Seq::<char>::empty())]
    }
}

/// Records that /sys is not mounted, when it is not.
pub fn syssec_check_sys(s: &mut Syssec, mounted: bool)
    requires
        old(s).wf(),
    ensures
        final(s).wf(),
        final(s).results_view() == appended(old(s).results_view(), sys_results(mounted)),
{
    let ghost base = s.results_view();
    proof { lemma_appended_empty(base); }
    if !mounted {
        s.add_planned("Sysfs", "/sys", "Not mounted (expected on FreeBSD)", Severity::Info, Status::Pass, None, Ghost(base), Ghost(Seq::<ResultView>::empty()));
    }
}

/// How many of `names` do not start with a dot.
pub open spec fn visible_count(names: Seq<Seq<char>>) -> nat
    decreases names.len(),
{
    if names.len() == 0 {
        0
    } else {
        visible_count(names.drop_last()) + if names.last().len() > 0 && names.last()[0] == '.' {
            0nat
        } else {
            1nat
        }
    }
}

proof fn lemma_visible_le(names: Seq<Seq<char>>)
    ensures
        visible_count(names) <= names.len(),
    decreases names.len(),
{
    if names.len() > 0 {
        lemma_visible_le(names.drop_last());
    }
}

pub open spec fn name_views(v: Seq<String>) -> Seq<Seq<char>> {
    v.map_values(|t: String| t@)
}

pub open spec fn sys_dir_results(d: SysDir, names: Seq<Seq<char>>) -> Seq<ResultView> {
    seq![rv("Sysfs"@, spec_sys_path(d)@, decimal(visible_count(names)) + " "@ + spec_sys_unit(d)@, Severity::Info, Status::Pass, Seq::<char>::empty())]
}

/// Records how many entries, other than hidden ones, a /sys directory
/// holds.
pub fn syssec_check_sys_dir(s: &mut Syssec, d: SysDir, names: &Vec<String>)
    requires
        old(s).wf(),
    ensures
        final(s).wf(),
        final(s).results_view() == appended(old(s).results_view(), sys_dir_results(d, name_views(names@))),
{
    let ghost base = s.results_view();
    let ghost nv = name_views(names@);
    proof { lemma_appended_empty(base); }
    let mut count: u64 = 0;
    let mut i: usize = 0;
    assert(nv.take(0) =~= Seq::<Seq<char>>::empty());
    while i < names.len()
        invariant
            i <= names@.len(),
            nv == name_views(names@),
            count == visible_count(nv.take(i as int)),
        decreases names@.len() - i,
    {
        proof {
            assert(nv.take(i as int + 1).drop_last() =~= nv.take(i as int));
            lemma_visible_le(nv.take(i as int));
            assert(nv[i as int] == names@[i as int]@);
        }
        let n = names[i].as_str();
        if !(!n.is_empty() && n.get_char(0) == '.') {
            count = count + 1;
        }
        i += 1;
    }
    assert(nv.take(i as int) =~= nv);
    let mut msg = String::new();
    push_decimal(&mut msg, count);
    msg.append(" ");
    msg.append(sys_unit(d));
    s.add_planned("Sysfs", sys_path(d), msg.as_str(), Severity::Info, Status::Pass, None, Ghost(base), Ghost(Seq::<ResultView>::empty()));
}

// ---------------------------------------------------------------------------
// What each check concludes
// ---------------------------------------------------------------------------

/// The process check: an unreadable table is a warning; otherwise more than
/// ten zombies (state `Z`) or more than five hundred processes is a
/// warning, and anything else passes.
pub proof fn lemma_processes_verdict(states: Option<Seq<u8>>)
    ensures
        processes_results(states).len() == 1,
        states is None ==> processes_results(states)[0].status == Status::Warn,
        states matches Some(st) ==> ({
            let r = processes_results(states)[0];
            &&& r.name == "Process Count"@
            &&& (count_byte(st, 90) > 10 || st.len() > 500) ==> r.severity == Severity::Warning && r.status
                == Status::Warn
            &&& (count_byte(st, 90) <= 10 && st.len() <= 500) ==> r.severity == Severity::Info && r.status
                == Status::Pass
        }),
{
}

proof fn lemma_extra_root_any(us: Seq<UserView>)
    ensures
        extra_root_names(us).len() > 0 <==> exists|i: int|
            0 <= i < us.len() && #[trigger] us[i].uid == 0 && us[i].name != "root"@,
    decreases us.len(),
{
    if us.len() > 0 {
        let pre = us.drop_last();
        lemma_extra_root_any(pre);
        if extra_root_names(pre).len() > 0 {
            let i = choose|i: int| 0 <= i < pre.len() && #[trigger] pre[i].uid == 0 && pre[i].name != "root"@;
            assert(us[i] == pre[i]);
        }
        if exists|i: int| 0 <= i < us.len() && #[trigger] us[i].uid == 0 && us[i].name != "root"@ {
            let i = choose|i: int| 0 <= i < us.len() && #[trigger] us[i].uid == 0 && us[i].name != "root"@;
            if i < us.len() - 1 {
                assert(pre[i] == us[i]);
            }
        }
    }
}

/// The account check: the count of accounts always passes; the UID 0
/// result is a critical failure exactly when some account other than
/// `root` has user id 0.
pub proof fn lemma_users_verdict(us: Seq<UserView>)
    ensures
        ({
            let r = users_results(us);
            let extra = exists|i: int| 0 <= i < us.len() && #[trigger] us[i].uid == 0 && us[i].name != "root"@;
            &&& r.len() >= 2
            &&& r[0].status == Status::Pass
            &&& r[1].name == "UID 0 Users"@
            &&& extra ==> r[1].severity == Severity::Critical && r[1].status == Status::Fail
            &&& !extra ==> r[1].severity == Severity::Info && r[1].status == Status::Pass
        }),
{
    lemma_extra_root_any(us);
}

/// A critical file passes exactly when its permission bits are the expected
/// ones; a missing file, or one that others may write, fails (critical for a
/// critical file); other permissions are a warning.
pub proof fn lemma_file_verdict(path: Seq<char>, expected: u32, name: Seq<char>, critical: bool, mode: Option<u32>)
    ensures
        ({
            let r = file_result(path, expected, name, critical, mode);
            &&& r.name == name && r.category == "Filesystem"@
            &&& mode is None ==> r.status == Status::Fail && r.severity == (if critical {
                Severity::Critical
            } else {
                Severity::Warning
            })
            &&& mode matches Some(m) ==> {
                &&& (r.status == Status::Pass <==> m & 0o777 == expected)
                &&& m & 0o777 != expected && m & 0o002 != 0 ==> r.status == Status::Fail && r.severity == (if critical {
                    Severity::Critical
                } else {
                    Severity::Warning
                })
                &&& m & 0o777 != expected && m & 0o002 == 0 ==> r.status == Status::Warn && r.severity
                    == Severity::Warning
            }
        }),
{
}

/// A temporary directory is reported only when it is a directory: with the
/// sticky bit it passes, without it and writable by others it is a critical
/// failure, and otherwise it passes.
pub proof fn lemma_temp_dir_verdict(dir: Seq<char>, probe: Option<(bool, u32)>)
    ensures
        ({
            let r = temp_dir_result(dir, probe);
            &&& !(probe matches Some((true, _))) ==> r.len() == 0
            &&& probe matches Some((true, m)) ==> {
                &&& r.len() == 1 && r[0].name == dir
                &&& m & 0o1000 != 0 ==> r[0].status == Status::Pass
                &&& m & 0o1000 == 0 && m & 0o002 != 0 ==> r[0].status == Status::Fail && r[0].severity
                    == Severity::Critical
                &&& m & 0o1000 == 0 && m & 0o002 == 0 ==> r[0].status == Status::Pass
            }
        }),
{
}

/// A service that should run passes when it runs and warns when it does
/// not; an insecure service is a critical failure when it runs and passes
/// when it does not.
pub proof fn lemma_service_verdicts(svc: Seq<char>, running: bool)
    ensures
        critical_service_result(svc, running).name == svc,
        running ==> critical_service_result(svc, running).status == Status::Pass,
        !running ==> critical_service_result(svc, running).status == Status::Warn
            && critical_service_result(svc, running).severity == Severity::Warning,
        dangerous_service_result(svc, running).name == svc,
        running ==> dangerous_service_result(svc, running).status == Status::Fail
            && dangerous_service_result(svc, running).severity == Severity::Critical,
        !running ==> dangerous_service_result(svc, running).status == Status::Pass,
{
}

/// The kernel check: a security level of 0 warns and any other passes;
/// ASLR off warns and on passes; a setting that could not be read is not
/// reported.
pub proof fn lemma_security_verdicts(securelevel: Option<i32>, aslr: Option<i32>)
    ensures
        ({
            let r = security_results(securelevel, aslr);
            let k: int = if securelevel is Some { 1 } else { 0 };
            &&& r.len() == k + if aslr is Some { 1int } else { 0 }
            &&& securelevel matches Some(v) ==> (r[0].status == Status::Warn <==> v == 0) && (v != 0 ==> r[0].status
                == Status::Pass)
            &&& aslr matches Some(v) ==> (r[k].status == Status::Warn <==> v == 0) && (v != 0 ==> r[k].status
                == Status::Pass)
        }),
{
}

proof fn lemma_count_false_any(v: Seq<bool>)
    ensures
        count_false(v) > 0 <==> exists|i: int| 0 <= i < v.len() && !#[trigger] v[i],
    decreases v.len(),
{
    if v.len() > 0 {
        let pre = v.drop_last();
        lemma_count_false_any(pre);
        if count_false(pre) > 0 {
            let i = choose|i: int| 0 <= i < pre.len() && !#[trigger] pre[i];
            assert(v[i] == pre[i]);
        }
        if exists|i: int| 0 <= i < v.len() && !#[trigger] v[i] {
            let i = choose|i: int| 0 <= i < v.len() && !#[trigger] v[i];
            if i < v.len() - 1 {
                assert(pre[i] == v[i]);
            }
        }
    }
}

/// The module check: a critical failure exactly when some loaded module has
/// no file.
pub proof fn lemma_modules_verdict(present: Seq<bool>)
    ensures
        modules_results(present).len() == 2,
        modules_results(present)[0].status == Status::Pass,
        (exists|i: int| 0 <= i < present.len() && !#[trigger] present[i]) ==> modules_results(present)[1].status
            == Status::Fail && modules_results(present)[1].severity == Severity::Critical,
        !(exists|i: int| 0 <= i < present.len() && !#[trigger] present[i]) ==> modules_results(present)[1].status
            == Status::Pass,
{
    lemma_count_false_any(present);
}

/// The network check: more than twenty listening ports warn; no firewall
/// (neither PF nor IPFW) is a critical failure; IP forwarding on warns.
pub proof fn lemma_network_verdicts(listening: Option<Seq<char>>, pf: bool, ipfw: bool, forwarding: Option<i32>)
    ensures
        ({
            let r = network_results(listening, pf, ipfw, forwarding);
            let k: int = if listening is Some { 1 } else { 0 };
            &&& r.len() == k + 1 + if forwarding is Some { 1int } else { 0 }
            &&& listening matches Some(out) ==> (r[0].status == Status::Warn <==> count_text(out) > 20) && (
            count_text(out) <= 20 ==> r[0].status == Status::Pass)
            &&& r[k].name == "Firewall"@
            &&& (pf || ipfw) ==> r[k].status == Status::Pass
            &&& !(pf || ipfw) ==> r[k].status == Status::Fail && r[k].severity == Severity::Critical
            &&& forwarding matches Some(v) ==> (r[k + 1].status == Status::Warn <==> v != 0) && (v == 0
                ==> r[k + 1].status == Status::Pass)
        }),
{
}

proof fn lemma_found_logs_none(sizes: Seq<Option<u64>>, n: int)
    requires
        0 <= n <= sizes.len(),
    ensures
        found_logs(sizes, n).len() == 0 <==> forall|i: int| 0 <= i < n ==> #[trigger] sizes[i] is None,
        forall|j: int| 0 <= j < found_logs(sizes, n).len() ==> (#[trigger] found_logs(sizes, n)[j]).status
            == Status::Pass,
    decreases n,
{
    if n > 0 {
        lemma_found_logs_none(sizes, n - 1);
    }
}

/// The log check: each standard log found passes; when none is found, a
/// single warning.
pub proof fn lemma_logs_verdict(sizes: Seq<Option<u64>>)
    requires
        sizes.len() == 5,
    ensures
        (forall|i: int| 0 <= i < 5 ==> #[trigger] sizes[i] is None) ==> logs_results(sizes).len() == 1
            && logs_results(sizes)[0].status == Status::Warn,
        (exists|i: int| 0 <= i < 5 && #[trigger] sizes[i] is Some) ==> forall|j: int|
            0 <= j < logs_results(sizes).len() ==> (#[trigger] logs_results(sizes)[j]).status == Status::Pass,
{
    lemma_found_logs_none(sizes, 5);
}

proof fn lemma_unexpected_any(ls: Seq<Seq<char>>)
    ensures
        unexpected(nonempty(ls)).len() > 0 <==> exists|i: int|
            0 <= i < ls.len() && (#[trigger] ls[i]).len() > 0 && !spec_is_known_suid(ls[i]),
    decreases ls.len(),
{
    if ls.len() > 0 {
        let pre = ls.drop_last();
        lemma_unexpected_any(pre);
        if ls.last().len() > 0 {
            assert(nonempty(ls).drop_last() == nonempty(pre));
            assert(nonempty(ls).last() == ls.last());
        }
        if unexpected(nonempty(pre)).len() > 0 {
            let i = choose|i: int| 0 <= i < pre.len() && (#[trigger] pre[i]).len() > 0 && !spec_is_known_suid(pre[i]);
            assert(ls[i] == pre[i]);
        }
        if exists|i: int| 0 <= i < ls.len() && (#[trigger] ls[i]).len() > 0 && !spec_is_known_suid(ls[i]) {
            let i = choose|i: int| 0 <= i < ls.len() && (#[trigger] ls[i]).len() > 0 && !spec_is_known_suid(ls[i]);
            if i < ls.len() - 1 {
                assert(pre[i] == ls[i]);
            }
        }
    }
}

/// The set-user-id check: a warning exactly when some listed binary is not
/// one of the expected ones, a pass otherwise; nothing when the search
/// could not run.
pub proof fn lemma_suid_verdict(found: Option<Seq<char>>)
    ensures
        found is None ==> suid_results(found).len() == 0,
        found matches Some(text) ==> ({
            let ls = spec_lines(text);
            let odd = exists|i: int| 0 <= i < ls.len() && (#[trigger] ls[i]).len() > 0 && !spec_is_known_suid(ls[i]);
            let r = suid_results(found);
            &&& r.len() == 1
            &&& odd ==> r[0].status == Status::Warn && r[0].severity == Severity::Warning
            &&& !odd ==> r[0].status == Status::Pass
        }),
{
    if let Some(text) = found {
        lemma_unexpected_any(spec_lines(text));
    }
}

/// Entry `e` of /dev is a device node, not hidden, that others may write.
pub open spec fn writable_device(e: DevEntry) -> bool {
    &&& !(e.name@.len() > 0 && e.name@[0] == '.')
    &&& (e.mode & S_IFMT == S_IFCHR || e.mode & S_IFMT == S_IFBLK)
    &&& e.mode & 0o002 != 0
}

proof fn lemma_writable_devices_any(es: Seq<DevEntry>)
    ensures
        dev_stats(es).4.len() > 0 <==> exists|i: int| 0 <= i < es.len() && writable_device(#[trigger] es[i]),
    decreases es.len(),
{
    if es.len() > 0 {
        let pre = es.drop_last();
        lemma_writable_devices_any(pre);
        if dev_stats(pre).4.len() > 0 {
            let i = choose|i: int| 0 <= i < pre.len() && writable_device(#[trigger] pre[i]);
            assert(es[i] == pre[i]);
        }
        if exists|i: int| 0 <= i < es.len() && writable_device(#[trigger] es[i]) {
            let i = choose|i: int| 0 <= i < es.len() && writable_device(#[trigger] es[i]);
            if i < es.len() - 1 {
                assert(pre[i] == es[i]);
            }
        }
    }
}

/// The /dev check: its summary passes, and the world-writable result warns
/// exactly when some device node that is not hidden is writable by others;
/// an unreadable /dev warns.
pub proof fn lemma_dev_verdict(entries: Option<Seq<DevEntry>>)
    ensures
        entries is None ==> dev_results(entries).len() == 1 && dev_results(entries)[0].status == Status::Warn,
        entries matches Some(es) ==> ({
            let r = dev_results(entries);
            let w = exists|i: int| 0 <= i < es.len() && writable_device(#[trigger] es[i]);
            &&& r.len() == 2 && r[0].status == Status::Pass
            &&& w ==> r[1].status == Status::Warn && r[1].severity == Severity::Warning
            &&& !w ==> r[1].status == Status::Pass
        }),
{
    if let Some(es) = entries {
        lemma_writable_devices_any(es);
    }
}

/// Each essential device passes when present and warns when missing, in
/// the order of `essential_devices`.
pub proof fn lemma_essential_verdicts(present: Seq<bool>, i: int)
    requires
        present.len() == 5,
        0 <= i < 5,
    ensures
        essential_results(present).len() == 5,
        present[i] ==> essential_results(present)[i].status == Status::Pass,
        !present[i] ==> essential_results(present)[i].status == Status::Warn,
{
}

} // verus!
