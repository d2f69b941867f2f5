//! Deep parsing of directory trees and the integrity of the standard
//! binaries: what a file's mode makes of it, the counters of a tree walk,
//! and the verdict on each standard binary.

use vstd::prelude::*;
use crate::checks::{base_name, join};
use crate::scanner::{appended, lemma_appended_empty, rv, ResultView, Severity, Status, Syssec, MAX_RESULTS};
use crate::text::{
    chars_of, decimal, eq_ignore_case, push_decimal, push_signed, signed_decimal, rfind, spec_trim, string_of, sub_chars,
    trim_chars, ascii_upper,
};

verus! {

broadcast use vstd::string::group_string_axioms;

pub const PARSER_MAX_ENTRIES: usize = 4096;
pub const PARSER_MAX_PATH: usize = 512;
pub const PARSER_MAX_HASH: usize = 65;

/// At most this many binaries are checked.
pub const INTEGRITY_MAX_BINARIES: usize = 128;

pub const S_IFMT: u32 = 0o170000;
pub const S_IFIFO: u32 = 0o010000;
pub const S_IFCHR: u32 = 0o020000;
pub const S_IFDIR: u32 = 0o040000;
pub const S_IFBLK: u32 = 0o060000;
pub const S_IFREG: u32 = 0o100000;
pub const S_IFLNK: u32 = 0o120000;
pub const S_IFSOCK: u32 = 0o140000;

// ---------------------------------------------------------------------------
// Tree entries
// ---------------------------------------------------------------------------

/// One entry met while walking a tree.
#[derive(Debug)]
pub struct ParsedEntry {
    pub path: String,
    pub name: String,
    pub mode: u32,
    pub uid: u32,
    pub gid: u32,
    pub size: i64,
    pub is_dir: bool,
    pub is_char: bool,
    pub is_block: bool,
    pub is_symlink: bool,
    pub is_fifo: bool,
    pub is_socket: bool,
    pub is_regular: bool,
    pub target: String,
    pub major: i32,
    pub minor: i32,
}

/// The type of a file mode, as the entry flags hold it.
pub open spec fn typed(e: ParsedEntry, mode: u32) -> bool {
    &&& e.is_dir == (mode & S_IFMT == S_IFDIR)
    &&& e.is_char == (mode & S_IFMT == S_IFCHR)
    &&& e.is_block == (mode & S_IFMT == S_IFBLK)
    &&& e.is_symlink == (mode & S_IFMT == S_IFLNK)
    &&& e.is_fifo == (mode & S_IFMT == S_IFIFO)
    &&& e.is_socket == (mode & S_IFMT == S_IFSOCK)
    &&& e.is_regular == (mode & S_IFMT == S_IFREG)
}

/// Sets the type flags of an entry from `mode`, and its device numbers to
/// `dev` for a character or block device and to -1 otherwise.
pub fn classify(entry: &mut ParsedEntry, mode: u32, dev: (i32, i32))
    ensures
        typed(*final(entry), mode),
        (final(entry).is_char || final(entry).is_block) ==> final(entry).major == dev.0 && final(entry).minor
            == dev.1,
        !(final(entry).is_char || final(entry).is_block) ==> final(entry).major == -1 && final(entry).minor
            == -1,
        final(entry).path == old(entry).path,
        final(entry).name == old(entry).name,
        final(entry).mode == old(entry).mode,
        final(entry).uid == old(entry).uid,
        final(entry).gid == old(entry).gid,
        final(entry).size == old(entry).size,
        final(entry).target == old(entry).target,
{
    let ft = mode & S_IFMT;
    entry.is_dir = ft == S_IFDIR;
    entry.is_char = ft == S_IFCHR;
    entry.is_block = ft == S_IFBLK;
    entry.is_symlink = ft == S_IFLNK;
    entry.is_fifo = ft == S_IFIFO;
    entry.is_socket = ft == S_IFSOCK;
    entry.is_regular = ft == S_IFREG;
    if entry.is_char || entry.is_block {
        entry.major = dev.0;
        entry.minor = dev.1;
    } else {
        entry.major = -1;
        entry.minor = -1;
    }
}

pub open spec fn spec_type_str(e: ParsedEntry) -> &'static str {
    if e.is_dir {
        "DIR"
    } else if e.is_symlink {
        "LNK"
    } else if e.is_char {
        "CHR"
    } else if e.is_block {
        "BLK"
    } else if e.is_fifo {
        "FIFO"
    } else if e.is_socket {
        "SOCK"
    } else if e.is_regular {
        "FILE"
    } else {
        "????"
    }
}

/// The short name of an entry's type.
pub fn type_str(e: &ParsedEntry) -> (r: &'static str)
    ensures
        r == spec_type_str(*e),
{
    if e.is_dir {
        "DIR"
    } else if e.is_symlink {
        "LNK"
    } else if e.is_char {
        "CHR"
    } else if e.is_block {
        "BLK"
    } else if e.is_fifo {
        "FIFO"
    } else if e.is_socket {
        "SOCK"
    } else if e.is_regular {
        "FILE"
    } else {
        "????"
    }
}

/// What a walk of a tree found.
#[derive(Debug)]
pub struct ParseResult {
    pub entries: Vec<ParsedEntry>,
    pub dirs: i32,
    pub files: i32,
    pub symlinks: i32,
    pub devices_char: i32,
    pub devices_block: i32,
    pub fifos: i32,
    pub sockets: i32,
    pub setuid: i32,
    pub setgid: i32,
    pub world_writable: i32,
    pub root_owned: i32,
}

/// The counters of a walk, in the order of the fields.
pub open spec fn counters(r: ParseResult) -> Seq<int> {
    seq![
        r.dirs as int,
        r.files as int,
        r.symlinks as int,
        r.devices_char as int,
        r.devices_block as int,
        r.fifos as int,
        r.sockets as int,
        r.setuid as int,
        r.setgid as int,
        r.world_writable as int,
        r.root_owned as int,
    ]
}

/// What one entry adds to each counter.
pub open spec fn entry_counts(e: ParsedEntry) -> Seq<int> {
    seq![
        if e.is_dir { 1int } else { 0 },
        if e.is_regular { 1int } else { 0 },
        if e.is_symlink { 1int } else { 0 },
        if e.is_char { 1int } else { 0 },
        if e.is_block { 1int } else { 0 },
        if e.is_fifo { 1int } else { 0 },
        if e.is_socket { 1int } else { 0 },
        if e.mode & 0o4000 != 0 { 1int } else { 0 },
        if e.mode & 0o2000 != 0 { 1int } else { 0 },
        if e.mode & 0o002 != 0 { 1int } else { 0 },
        if e.uid == 0 { 1int } else { 0 },
    ]
}

/// Each counter's count over the entries `es`.
pub open spec fn counted(es: Seq<ParsedEntry>) -> Seq<int>
    decreases es.len(),
{
    if es.len() == 0 {
        seq![0int, 0, 0, 0, 0, 0, 0, 0, 0, 0, 0]
    } else {
        let c = counted(es.drop_last());
        let d = entry_counts(es.last());
        Seq::new(11, |k: int| c[k] + d[k])
    }
}

/// Counts over a run of entries are the sums of the counts over its parts.
pub proof fn lemma_counted_concat(a: Seq<ParsedEntry>, b: Seq<ParsedEntry>)
    ensures
        counted(a + b) == Seq::new(11, |k: int| counted(a)[k] + counted(b)[k]),
        counted(a).len() == 11,
    decreases a.len() + b.len(),
{
    if a.len() > 0 {
        lemma_counted_concat(a.drop_last(), Seq::empty());
    }
    if b.len() == 0 {
        assert(a + b =~= a);
        assert(counted(a + b) =~= Seq::new(11, |k: int| counted(a)[k] + counted(b)[k]));
    } else {
        lemma_counted_concat(a, b.drop_last());
        assert((a + b).drop_last() =~= a + b.drop_last());
        assert((a + b).last() == b.last());
        assert(counted(a + b) =~= Seq::new(11, |k: int| counted(a)[k] + counted(b)[k]));
    }
}

/// The counters of `r` are the counts over the entries it kept.
pub open spec fn counts_match(r: ParseResult) -> bool {
    counters(r) == counted(r.entries@)
}

impl ParseResult {
    /// A walk that found nothing.
    pub fn new() -> (r: Self)
        ensures
            r.entries@.len() == 0,
            counters(r) == seq![0int, 0, 0, 0, 0, 0, 0, 0, 0, 0, 0],
            counts_match(r),
    {
        ParseResult {
            entries: Vec::new(),
            dirs: 0,
            files: 0,
            symlinks: 0,
            devices_char: 0,
            devices_block: 0,
            fifos: 0,
            sockets: 0,
            setuid: 0,
            setgid: 0,
            world_writable: 0,
            root_owned: 0,
        }
    }

    /// How many entries were kept.
    pub fn count(&self) -> (r: usize)
        ensures
            r == self.entries@.len(),
    {
        self.entries.len()
    }

    /// Each counter counts at most the entries kept.
    pub open spec fn wf(self) -> bool {
        let n = self.entries@.len();
        &&& n <= PARSER_MAX_ENTRIES
        &&& 0 <= self.dirs <= n
        &&& 0 <= self.files <= n
        &&& 0 <= self.symlinks <= n
        &&& 0 <= self.devices_char <= n
        &&& 0 <= self.devices_block <= n
        &&& 0 <= self.fifos <= n
        &&& 0 <= self.sockets <= n
        &&& 0 <= self.setuid <= n
        &&& 0 <= self.setgid <= n
        &&& 0 <= self.world_writable <= n
        &&& 0 <= self.root_owned <= n
    }
}

/// Whether a walk at `depth` goes on: not beyond `max_depth` (0 is no
/// limit), and not once `PARSER_MAX_ENTRIES` are kept.
pub fn walk_continues(result: &ParseResult, depth: i32, max_depth: i32) -> (r: bool)
    ensures
        r == (!(max_depth > 0 && depth > max_depth) && result.entries@.len() < PARSER_MAX_ENTRIES),
{
    !(max_depth > 0 && depth > max_depth) && result.entries.len() < PARSER_MAX_ENTRIES
}

fn bump(x: i32, b: bool) -> (r: i32)
    requires
        0 <= x < i32::MAX,
    ensures
        r == x + if b { 1int } else { 0int },
{
    if b {
        x + 1
    } else {
        x
    }
}

/// Counts one entry met by a walk and keeps it.
pub fn parse_record(result: &mut ParseResult, e: ParsedEntry)
    requires
        old(result).wf(),
        old(result).entries@.len() < PARSER_MAX_ENTRIES,
    ensures
        final(result).wf(),
        final(result).entries@ == old(result).entries@.push(e),
        counters(*final(result)) == (Seq::new(11, |k: int| counters(*old(result))[k] + entry_counts(e)[k])),
        counts_match(*old(result)) ==> counts_match(*final(result)),
{
    let ghost before = counters(*result);
    result.dirs = bump(result.dirs, e.is_dir);
    result.files = bump(result.files, e.is_regular);
    result.symlinks = bump(result.symlinks, e.is_symlink);
    result.devices_char = bump(result.devices_char, e.is_char);
    result.devices_block = bump(result.devices_block, e.is_block);
    result.fifos = bump(result.fifos, e.is_fifo);
    result.sockets = bump(result.sockets, e.is_socket);
    result.setuid = bump(result.setuid, e.mode & 0o4000 != 0);
    result.setgid = bump(result.setgid, e.mode & 0o2000 != 0);
    result.world_writable = bump(result.world_writable, e.mode & 0o002 != 0);
    result.root_owned = bump(result.root_owned, e.uid == 0);
    let ghost ec = entry_counts(e);
    result.entries.push(e);
    assert(counters(*result) =~= Seq::new(11, |k: int| before[k] + ec[k]));
    assert(result.entries@.drop_last() =~= old(result).entries@);
}

/// Adds what another walk found: its entries while fewer than
/// `PARSER_MAX_ENTRIES` are kept, and all of its counters.
pub fn parse_merge(result: &mut ParseResult, tmp: ParseResult)
    requires
        forall|k: int| 0 <= k < 11 ==> #[trigger] counters(*old(result))[k] + counters(tmp)[k] <= i32::MAX,
        forall|k: int| 0 <= k < 11 ==> i32::MIN <= #[trigger] counters(*old(result))[k] + counters(tmp)[k],
        old(result).entries@.len() <= PARSER_MAX_ENTRIES,
    ensures
        forall|k: int| 0 <= k < 11 ==> #[trigger] counters(*final(result))[k] == counters(*old(result))[k] + counters(tmp)[k],
        final(result).entries@ == old(result).entries@ + tmp.entries@.take(
            if old(result).entries@.len() + tmp.entries@.len() <= PARSER_MAX_ENTRIES {
                tmp.entries@.len() as int
            } else {
                PARSER_MAX_ENTRIES - old(result).entries@.len()
            },
        ),
        old(result).entries@.len() + tmp.entries@.len() <= PARSER_MAX_ENTRIES && counts_match(
            *old(result),
        ) && counts_match(tmp) ==> counts_match(*final(result)),
{
    let ghost before = counters(*result);
    let ghost tc = counters(tmp);
    let ghost start = result.entries@;
    let ghost te = tmp.entries@;
    let ParseResult {
        entries,
        dirs,
        files,
        symlinks,
        devices_char,
        devices_block,
        fifos,
        sockets,
        setuid,
        setgid,
        world_writable,
        root_owned,
    } = tmp;
    let mut entries = entries;
    let mut taken: usize = 0;
    assert(te.skip(0) =~= te);
    assert(start + te.take(0) =~= start);
    while result.entries.len() < PARSER_MAX_ENTRIES && entries.len() > 0
        invariant
            result.entries@ == start + te.take(taken as int),
            taken <= te.len(),
            entries@ == te.skip(taken as int),
            start.len() <= PARSER_MAX_ENTRIES,
            result.entries@.len() <= PARSER_MAX_ENTRIES,
            counters(*result) == before,
        decreases entries@.len(),
    {
        let e = entries.remove(0);
        assert(e == te[taken as int]);
        result.entries.push(e);
        taken += 1;
        assert(result.entries@ =~= start + te.take(taken as int));
        assert(entries@ =~= te.skip(taken as int));
    }
    assert(taken as int == (if start.len() + te.len() <= PARSER_MAX_ENTRIES {
        te.len() as int
    } else {
        PARSER_MAX_ENTRIES - start.len()
    }));
    assert(before[0] == result.dirs as int);
    result.dirs = result.dirs + dirs;
    result.files = result.files + files;
    result.symlinks = result.symlinks + symlinks;
    result.devices_char = result.devices_char + devices_char;
    result.devices_block = result.devices_block + devices_block;
    result.fifos = result.fifos + fifos;
    result.sockets = result.sockets + sockets;
    result.setuid = result.setuid + setuid;
    result.setgid = result.setgid + setgid;
    result.world_writable = result.world_writable + world_writable;
    result.root_owned = result.root_owned + root_owned;
    assert(forall|k: int| 0 <= k < 11 ==> #[trigger] counters(*result)[k] == before[k] + tc[k]);
    proof {
        lemma_counted_concat(start, te);
        if start.len() + te.len() <= PARSER_MAX_ENTRIES {
            assert(te.take(te.len() as int) =~= te);
            assert(counters(*result) =~= Seq::new(11, |k: int| before[k] + tc[k]));
        }
    }
}


// ---------------------------------------------------------------------------
// Standard binaries
// ---------------------------------------------------------------------------

/// The standard utilities whose integrity is checked, by path.
pub open spec fn spec_standard_binaries() -> Seq<&'static str> {
    seq![
        "/bin/cat",
        "/bin/chmod",
        "/bin/chown",
        "/bin/cp",
        "/bin/date",
        "/bin/dd",
        "/bin/df",
        "/bin/echo",
        "/bin/ed",
        "/bin/expr",
        "/bin/getfacl",
        "/bin/hostname",
        "/bin/kill",
        "/bin/ln",
        "/bin/ls",
        "/bin/mkdir",
        "/bin/mv",
        "/bin/pax",
        "/bin/ps",
        "/bin/pwd",
        "/bin/rcp",
        "/bin/rm",
        "/bin/rmdir",
        "/bin/setfacl",
        "/bin/sh",
        "/bin/sleep",
        "/bin/stty",
        "/bin/sync",
        "/bin/test",
        "/bin/uuidgen",
        "/sbin/camcontrol",
        "/sbin/devfs",
        "/sbin/dmesg",
        "/sbin/fdisk",
        "/sbin/fsck",
        "/sbin/ifconfig",
        "/sbin/init",
        "/sbin/kldload",
        "/sbin/kldstat",
        "/sbin/kldunload",
        "/sbin/md5",
        "/sbin/mount",
        "/sbin/newfs",
        "/sbin/ping",
        "/sbin/reboot",
        "/sbin/route",
        "/sbin/shutdown",
        "/sbin/sha256",
        "/sbin/sysctl",
        "/sbin/umount",
        "/usr/bin/awk",
        "/usr/bin/basename",
        "/usr/bin/bc",
        "/usr/bin/cmp",
        "/usr/bin/cut",
        "/usr/bin/diff",
        "/usr/bin/dirname",
        "/usr/bin/du",
        "/usr/bin/env",
        "/usr/bin/expand",
        "/usr/bin/file",
        "/usr/bin/find",
        "/usr/bin/finger",
        "/usr/bin/ftp",
        "/usr/bin/grep",
        "/usr/bin/head",
        "/usr/bin/id",
        "/usr/bin/less",
        "/usr/bin/logger",
        "/usr/bin/login",
        "/usr/bin/mail",
        "/usr/bin/more",
        "/usr/bin/netstat",
        "/usr/bin/passwd",
        "/usr/bin/printf",
        "/usr/bin/sed",
        "/usr/bin/sort",
        "/usr/bin/ssh",
        "/usr/bin/su",
        "/usr/local/bin/sudo",
        "/usr/bin/tail",
        "/usr/bin/tar",
        "/usr/bin/tee",
        "/usr/bin/telnet",
        "/usr/bin/top",
        "/usr/bin/tr",
        "/usr/bin/uname",
        "/usr/bin/uniq",
        "/usr/bin/vi",
        "/usr/bin/wc",
        "/usr/bin/who",
        "/usr/bin/whoami",
        "/usr/bin/xargs",
        "/usr/sbin/arp",
        "/usr/sbin/chown",
        "/usr/sbin/cron",
        "/usr/sbin/crond",
        "/usr/sbin/ftpd",
        "/usr/sbin/inetd",
        "/usr/sbin/lsof",
        "/usr/sbin/named",
        "/usr/sbin/newsyslog",
        "/usr/sbin/ntpd",
        "/usr/sbin/pfctl",
        "/usr/sbin/sockstat",
        "/usr/sbin/sshd",
        "/usr/sbin/syslogd",
        "/usr/sbin/tcpdump",
        "/usr/sbin/traceroute"
    ]
}

/// The standard utilities whose integrity is checked, by path; none has a
/// known hash.
pub fn standard_binaries() -> (r: Vec<&'static str>)
    ensures
        r@ == spec_standard_binaries(),
{
    let r = vec![
        "/bin/cat",
        "/bin/chmod",
        "/bin/chown",
        "/bin/cp",
        "/bin/date",
        "/bin/dd",
        "/bin/df",
        "/bin/echo",
        "/bin/ed",
        "/bin/expr",
        "/bin/getfacl",
        "/bin/hostname",
        "/bin/kill",
        "/bin/ln",
        "/bin/ls",
        "/bin/mkdir",
        "/bin/mv",
        "/bin/pax",
        "/bin/ps",
        "/bin/pwd",
        "/bin/rcp",
        "/bin/rm",
        "/bin/rmdir",
        "/bin/setfacl",
        "/bin/sh",
        "/bin/sleep",
        "/bin/stty",
        "/bin/sync",
        "/bin/test",
        "/bin/uuidgen",
        "/sbin/camcontrol",
        "/sbin/devfs",
        "/sbin/dmesg",
        "/sbin/fdisk",
        "/sbin/fsck",
        "/sbin/ifconfig",
        "/sbin/init",
        "/sbin/kldload",
        "/sbin/kldstat",
        "/sbin/kldunload",
        "/sbin/md5",
        "/sbin/mount",
        "/sbin/newfs",
        "/sbin/ping",
        "/sbin/reboot",
        "/sbin/route",
        "/sbin/shutdown",
        "/sbin/sha256",
        "/sbin/sysctl",
        "/sbin/umount",
        "/usr/bin/awk",
        "/usr/bin/basename",
        "/usr/bin/bc",
        "/usr/bin/cmp",
        "/usr/bin/cut",
        "/usr/bin/diff",
        "/usr/bin/dirname",
        "/usr/bin/du",
        "/usr/bin/env",
        "/usr/bin/expand",
        "/usr/bin/file",
        "/usr/bin/find",
        "/usr/bin/finger",
        "/usr/bin/ftp",
        "/usr/bin/grep",
        "/usr/bin/head",
        "/usr/bin/id",
        "/usr/bin/less",
        "/usr/bin/logger",
        "/usr/bin/login",
        "/usr/bin/mail",
        "/usr/bin/more",
        "/usr/bin/netstat",
        "/usr/bin/passwd",
        "/usr/bin/printf",
        "/usr/bin/sed",
        "/usr/bin/sort",
        "/usr/bin/ssh",
        "/usr/bin/su",
        "/usr/local/bin/sudo",
        "/usr/bin/tail",
        "/usr/bin/tar",
        "/usr/bin/tee",
        "/usr/bin/telnet",
        "/usr/bin/top",
        "/usr/bin/tr",
        "/usr/bin/uname",
        "/usr/bin/uniq",
        "/usr/bin/vi",
        "/usr/bin/wc",
        "/usr/bin/who",
        "/usr/bin/whoami",
        "/usr/bin/xargs",
        "/usr/sbin/arp",
        "/usr/sbin/chown",
        "/usr/sbin/cron",
        "/usr/sbin/crond",
        "/usr/sbin/ftpd",
        "/usr/sbin/inetd",
        "/usr/sbin/lsof",
        "/usr/sbin/named",
        "/usr/sbin/newsyslog",
        "/usr/sbin/ntpd",
        "/usr/sbin/pfctl",
        "/usr/sbin/sockstat",
        "/usr/sbin/sshd",
        "/usr/sbin/syslogd",
        "/usr/sbin/tcpdump",
        "/usr/sbin/traceroute"
    ];
    assert(r@ =~= spec_standard_binaries());
    r
}

/// What the file system tells about a file.
#[derive(Copy, Clone, Debug)]
pub struct FileProbe {
    pub mode: u32,
    pub uid: u32,
    pub gid: u32,
    pub size: i64,
    pub is_file: bool,
}

/// The check of one binary.
#[derive(Debug)]
pub struct BinaryCheck {
    pub name: String,
    pub path: String,
    pub expected_hash: String,
    pub actual_hash: String,
    pub exists: bool,
    pub hash_match: bool,
    pub is_setuid: bool,
    pub is_setgid: bool,
    pub is_world_writable: bool,
    pub mode: u32,
    pub uid: u32,
    pub gid: u32,
    pub size: i64,
}

/// The number of bytes UTF-8 takes for `s`.
pub open spec fn utf8_len(s: Seq<char>) -> nat
    decreases s.len(),
{
    if s.len() == 0 {
        0
    } else {
        let c = s.last() as u32;
        utf8_len(s.drop_last()) + if c < 0x80 {
            1nat
        } else if c < 0x800 {
            2nat
        } else if c < 0x10000 {
            3nat
        } else {
            4nat
        }
    }
}

proof fn lemma_utf8_mono(s: Seq<char>, i: int)
    requires
        0 <= i <= s.len(),
    ensures
        utf8_len(s.take(i)) <= utf8_len(s),
    decreases s.len() - i,
{
    if i < s.len() {
        lemma_utf8_mono(s, i + 1);
        assert(s.take(i + 1).drop_last() =~= s.take(i));
    } else {
        assert(s.take(i) =~= s);
    }
}

/// The digest that `sha256 -q` printed: its trimmed output when that is 64
/// bytes long.
pub open spec fn spec_sha256_from_output(out: Seq<char>) -> Option<Seq<char>> {
    let t = spec_trim(out);
    if utf8_len(t) == 64 {
        Some(t)
    } else {
        None
    }
}

/// Reads the digest that `sha256 -q` printed.
pub fn sha256_from_output(out: &str) -> (r: Option<String>)
    ensures
        match r {
            Some(h) => spec_sha256_from_output(out@) == Some(h@),
            None => spec_sha256_from_output(out@) is None,
        },
{
    let c = chars_of(out);
    let t = trim_chars(&c);
    let mut n: u64 = 0;
    let mut i: usize = 0;
    assert(t@.take(0) =~= Seq::<char>::empty());
    while i < t.len() && n <= 64
        invariant
            i <= t@.len(),
            n == utf8_len(t@.take(i as int)),
            n <= 68,
        decreases t@.len() - i,
    {
        assert(t@.take(i as int + 1).drop_last() =~= t@.take(i as int));
        let v = t[i] as u32;
        if v < 0x80 {
            n = n + 1;
        } else if v < 0x800 {
            n = n + 2;
        } else if v < 0x10000 {
            n = n + 3;
        } else {
            n = n + 4;
        }
        i += 1;
    }
    if n > 64 {
        proof { lemma_utf8_mono(t@, i as int); }
        return None;
    }
    assert(t@.take(i as int) =~= t@);
    if n != 64 {
        None
    } else {
        Some(string_of(&t))
    }
}

/// The check of the binary at `path` from what the file system tells
/// (`None` when it does not exist), the digest computed for a regular file
/// and the expected digest: its name is the last component of the path; a
/// regular file matches when no digest is expected (or an empty one) or
/// when the digests agree without regard to letter case.
pub open spec fn binary_check_ok(
    c: BinaryCheck,
    path: Seq<char>,
    expected: Option<Seq<char>>,
    probe: Option<FileProbe>,
    actual: Option<Seq<char>>,
) -> bool {
    &&& c.name@ == base_name(path)
    &&& c.path@ == path
    &&& match probe {
        None => {
            &&& !c.exists
            &&& !c.hash_match && !c.is_setuid && !c.is_setgid && !c.is_world_writable
            &&& c.mode == 0 && c.uid == 0 && c.gid == 0 && c.size == 0
            &&& c.expected_hash@.len() == 0 && c.actual_hash@.len() == 0
        },
        Some(p) => {
            &&& c.exists
            &&& c.mode == p.mode && c.uid == p.uid && c.gid == p.gid && c.size == p.size
            &&& c.is_setuid == (p.mode & 0o4000 != 0)
            &&& c.is_setgid == (p.mode & 0o2000 != 0)
            &&& c.is_world_writable == (p.mode & 0o002 != 0)
            &&& c.actual_hash@ == (if p.is_file {
                match actual {
                    Some(h) => h,
                    None => Seq::<char>::empty(),
                }
            } else {
                Seq::<char>::empty()
            })
            &&& c.expected_hash@ == (match expected {
                Some(e) => if p.is_file && e.len() > 0 { e } else { Seq::<char>::empty() },
                None => Seq::<char>::empty(),
            })
            &&& c.hash_match == (p.is_file && match expected {
                Some(e) => e.len() == 0 || c.actual_hash@.map_values(|x: char| ascii_upper(x))
                    == e.map_values(|x: char| ascii_upper(x)),
                None => true,
            })
        },
    }
}

fn base_of(path: &str) -> (r: String)
    ensures
        r@ == base_name(path@),
{
    crate::checks::suid_base(path)
}

/// Fills in the check of the binary at `path` (see `binary_check_ok`).
pub fn parser_binary_verify(
    path: &str,
    expected_hash: Option<&str>,
    probe: Option<FileProbe>,
    actual: Option<String>,
    check: &mut BinaryCheck,
) -> (r: i32)
    ensures
        r == 0,
        binary_check_ok(
            *final(check),
            path@,
            match expected_hash {
                Some(e) => Some(e@),
                None => None,
            },
            probe,
            match actual {
                Some(h) => Some(h@),
                None => None,
            },
        ),
{
    *check = BinaryCheck {
        name: base_of(path),
        path: path.to_owned(),
        expected_hash: String::new(),
        actual_hash: String::new(),
        exists: false,
        hash_match: false,
        is_setuid: false,
        is_setgid: false,
        is_world_writable: false,
        mode: 0,
        uid: 0,
        gid: 0,
        size: 0,
    };
    let p = match probe {
        None => {
            return 0;
        },
        Some(p) => p,
    };
    check.exists = true;
    check.mode = p.mode;
    check.uid = p.uid;
    check.gid = p.gid;
    check.size = p.size;
    check.is_setuid = p.mode & 0o4000 != 0;
    check.is_setgid = p.mode & 0o2000 != 0;
    check.is_world_writable = p.mode & 0o002 != 0;
    if p.is_file {
        match actual {
            Some(h) => {
                check.actual_hash = h;
            },
            None => {},
        }
        match expected_hash {
            Some(exp) => {
                if !exp.is_empty() {
                    check.expected_hash = exp.to_owned();
                    let a = chars_of(check.actual_hash.as_str());
                    check.hash_match = eq_ignore_case(&a, exp);
                } else {
                    check.hash_match = true;
                }
            },
            None => {
                check.hash_match = true;
            },
        }
    }
    0
}

// ---------------------------------------------------------------------------
// Verdicts
// ---------------------------------------------------------------------------

/// The binaries checked and how many of them were verified, modified,
/// missing or suspicious.
#[derive(Debug)]
pub struct BinaryIntegrity {
    pub binaries: Vec<BinaryCheck>,
    pub verified: i32,
    pub modified: i32,
    pub missing: i32,
    pub suspicious: i32,
}

/// How a binary fares: 0 fine, 1 a warning, 2 a failure.
#[derive(Copy, Clone, Debug, PartialEq, Eq, Structural)]
pub enum Verdict {
    Verified,
    Modified,
    Missing,
    Suspicious,
}

/// The verdict on a binary: missing; suspicious when others may write it,
/// it is not owned by root, or its owner may not execute it; modified when
/// an expected digest does not match; verified otherwise.
pub open spec fn verdict_of(c: BinaryCheck, has_expected: bool) -> Verdict {
    if !c.exists {
        Verdict::Missing
    } else if c.is_world_writable || c.uid != 0 || c.mode & 0o100 == 0 {
        Verdict::Suspicious
    } else if has_expected && !c.hash_match {
        Verdict::Modified
    } else {
        Verdict::Verified
    }
}

/// The level (0 fine, 1 warning, 2 failure) and the note shown for a binary.
pub open spec fn verdict_note(c: BinaryCheck, has_expected: bool) -> (u8, Seq<char>) {
    if !c.exists {
        (2, "MISSING"@)
    } else if c.is_world_writable {
        (2, "WORLD-WRITABLE"@)
    } else if c.uid != 0 {
        (1, "owned by uid "@ + decimal(c.uid as nat))
    } else if c.mode & 0o100 == 0 {
        (1, "not executable"@)
    } else if has_expected && !c.hash_match {
        (2, "HASH MISMATCH"@)
    } else {
        (0, "OK"@)
    }
}

impl BinaryIntegrity {
    /// No binary checked yet.
    pub fn new() -> (r: Self)
        ensures
            r.wf(),
            r.binaries@.len() == 0,
            r.verified == 0 && r.modified == 0 && r.missing == 0 && r.suspicious == 0,
    {
        BinaryIntegrity { binaries: Vec::new(), verified: 0, modified: 0, missing: 0, suspicious: 0 }
    }

    /// The counts of verified, modified, missing and suspicious binaries
    /// are nonnegative and add up to the number of binaries held, at most
    /// `INTEGRITY_MAX_BINARIES`.
    pub open spec fn wf(&self) -> bool {
        &&& self.binaries@.len() <= INTEGRITY_MAX_BINARIES
        &&& 0 <= self.verified && 0 <= self.modified && 0 <= self.missing && 0 <= self.suspicious
        &&& self.verified + self.modified + self.missing + self.suspicious == self.binaries@.len()
    }

    /// The count of verdict `v`.
    pub open spec fn count_of(&self, v: Verdict) -> int {
        match v {
            Verdict::Verified => self.verified as int,
            Verdict::Modified => self.modified as int,
            Verdict::Missing => self.missing as int,
            Verdict::Suspicious => self.suspicious as int,
        }
    }
}

fn level_note(c: &BinaryCheck, has_expected: bool) -> (r: (u8, String))
    ensures
        r.0 == verdict_note(*c, has_expected).0,
        r.1@ == verdict_note(*c, has_expected).1,
{
    if !c.exists {
        (2, String::from_str("MISSING"))
    } else if c.is_world_writable {
        (2, String::from_str("WORLD-WRITABLE"))
    } else if c.uid != 0 {
        let mut n = String::from_str("owned by uid ");
        push_decimal(&mut n, c.uid as u64);
        (1, n)
    } else if c.mode & 0o100 == 0 {
        (1, String::from_str("not executable"))
    } else if has_expected && !c.hash_match {
        (2, String::from_str("HASH MISMATCH"))
    } else {
        (0, String::from_str("OK"))
    }
}

/// Records the check of one more binary, while fewer than
/// `INTEGRITY_MAX_BINARIES` are held: counts its verdict and returns the
/// level and note to show for it. `has_expected` tells whether a digest was
/// expected for it.
pub fn integrity_record(integrity: &mut BinaryIntegrity, bc: BinaryCheck, has_expected: bool) -> (r: Option<(u8, String)>)
    requires
        old(integrity).wf(),
    ensures
        final(integrity).wf(),
        old(integrity).binaries@.len() >= INTEGRITY_MAX_BINARIES ==> r is None && final(integrity).binaries@
            == old(integrity).binaries@ && final(integrity).count_of(Verdict::Verified) == old(integrity).count_of(Verdict::Verified)
            && final(integrity).count_of(Verdict::Modified) == old(integrity).count_of(Verdict::Modified)
            && final(integrity).count_of(Verdict::Missing) == old(integrity).count_of(Verdict::Missing)
            && final(integrity).count_of(Verdict::Suspicious) == old(integrity).count_of(Verdict::Suspicious),
        old(integrity).binaries@.len() < INTEGRITY_MAX_BINARIES ==> {
            &&& final(integrity).binaries@ == old(integrity).binaries@.push(bc)
            &&& forall|v: Verdict| #[trigger] final(integrity).count_of(v) == old(integrity).count_of(v) + if v == verdict_of(bc, has_expected) { 1int } else { 0int }
            &&& r matches Some(x) && x.0 == verdict_note(bc, has_expected).0 && x.1@ == verdict_note(bc, has_expected).1
        },
{
    if integrity.binaries.len() >= INTEGRITY_MAX_BINARIES {
        return None;
    }
    let note = level_note(&bc, has_expected);
    if !bc.exists {
        integrity.missing = integrity.missing + 1;
    } else if bc.is_world_writable || bc.uid != 0 || bc.mode & 0o100 == 0 {
        integrity.suspicious = integrity.suspicious + 1;
    } else if has_expected && !bc.hash_match {
        integrity.modified = integrity.modified + 1;
    } else {
        integrity.verified = integrity.verified + 1;
    }
    integrity.binaries.push(bc);
    Some(note)
}

/// The results that the integrity check reports: a summary (a failure when
/// any binary is missing or modified, a warning when any is suspicious),
/// then one result for each binary that is missing, writable by others, or
/// not owned by root.
pub open spec fn integrity_results(
    n: nat,
    verified: i32,
    modified: i32,
    missing: i32,
    suspicious: i32,
    bins: Seq<BinaryCheck>,
) -> Seq<ResultView> {
    let summary = decimal(n) + " checked, "@ + signed_decimal(verified as int) + " verified, "@ + signed_decimal(modified as int)
        + " modified, "@ + signed_decimal(missing as int) + " missing, "@ + signed_decimal(suspicious as int) + " suspicious"@;
    let head = if missing > 0 || modified > 0 {
        rv("Integrity"@, "Standard Binaries"@, summary, Severity::Critical, Status::Fail, "Reinstall missing or modified binaries from trusted sources"@)
    } else if suspicious > 0 {
        rv("Integrity"@, "Standard Binaries"@, summary, Severity::Warning, Status::Warn, "Review binaries with suspicious permissions"@)
    } else {
        rv("Integrity"@, "Standard Binaries"@, summary, Severity::Info, Status::Pass, Seq::<char>::empty())
    };
    seq![head] + binary_results(bins)
}

pub open spec fn binary_result(c: BinaryCheck) -> Seq<ResultView> {
    if !c.exists {
        seq![rv("Integrity"@, c.name@, c.path@ + " is MISSING"@, Severity::Critical, Status::Fail, "Reinstall from trusted source immediately"@)]
    } else if c.is_world_writable {
        seq![rv("Integrity"@, c.name@, c.path@ + " is WORLD-WRITABLE"@, Severity::Critical, Status::Fail, "Remove world-writable permission immediately"@)]
    } else if c.uid != 0 {
        seq![rv("Integrity"@, c.name@, c.path@ + " owned by uid "@ + decimal(c.uid as nat) + " (not root)"@, Severity::Warning, Status::Warn, "System binaries should be owned by root"@)]
    } else {
        seq![]
    }
}

pub open spec fn binary_results(bins: Seq<BinaryCheck>) -> Seq<ResultView>
    decreases bins.len(),
{
    if bins.len() == 0 {
        seq![]
    } else {
        binary_results(bins.drop_last()) + binary_result(bins.last())
    }
}

fn record_binary(s: &mut Syssec, c: &BinaryCheck, Ghost(base): Ghost<Seq<ResultView>>, Ghost(planned): Ghost<Seq<ResultView>>)
    requires
        old(s).wf(),
        base.len() <= MAX_RESULTS,
        old(s).results_view() == appended(base, planned),
    ensures
        final(s).wf(),
        final(s).results_view() == appended(base, planned + binary_result(*c)),
{
    if !c.exists {
        let mut m = c.path.clone();
        m.append(" is MISSING");
        s.add_planned("Integrity", c.name.as_str(), m.as_str(), Severity::Critical, Status::Fail, Some("Reinstall from trusted source immediately"), Ghost(base), Ghost(planned));
        assert(planned + binary_result(*c) =~= planned.push(binary_result(*c)[0]));
    } else if c.is_world_writable {
        let mut m = c.path.clone();
        m.append(" is WORLD-WRITABLE");
        s.add_planned("Integrity", c.name.as_str(), m.as_str(), Severity::Critical, Status::Fail, Some("Remove world-writable permission immediately"), Ghost(base), Ghost(planned));
        assert(planned + binary_result(*c) =~= planned.push(binary_result(*c)[0]));
    } else if c.uid != 0 {
        let mut m = c.path.clone();
        m.append(" owned by uid ");
        push_decimal(&mut m, c.uid as u64);
        m.append(" (not root)");
        s.add_planned("Integrity", c.name.as_str(), m.as_str(), Severity::Warning, Status::Warn, Some("System binaries should be owned by root"), Ghost(base), Ghost(planned));
        assert(planned + binary_result(*c) =~= planned.push(binary_result(*c)[0]));
    } else {
        assert(planned + binary_result(*c) =~= planned);
    }
}

/// The verdict on a binary: a missing one is missing; one that exists but
/// that others may write, that root does not own, or that its owner may not
/// execute is suspicious; a sound one whose expected digest does not match
/// is modified; any other is verified.
pub proof fn lemma_verdict_cases(c: BinaryCheck, has_expected: bool)
    ensures
        !c.exists ==> verdict_of(c, has_expected) == Verdict::Missing,
        c.exists && (c.is_world_writable || c.uid != 0 || c.mode & 0o100 == 0) ==> verdict_of(c, has_expected)
            == Verdict::Suspicious,
        c.exists && !c.is_world_writable && c.uid == 0 && c.mode & 0o100 != 0 && has_expected && !c.hash_match
            ==> verdict_of(c, has_expected) == Verdict::Modified,
        c.exists && !c.is_world_writable && c.uid == 0 && c.mode & 0o100 != 0 && (!has_expected || c.hash_match)
            ==> verdict_of(c, has_expected) == Verdict::Verified,
{
}

/// The summary that opens the integrity report: it fails, as critical,
/// exactly when some binary is missing or modified; otherwise it warns when
/// some binary is suspicious, and passes when none is. Each binary then
/// adds one result: a critical failure when it is missing or others may
/// write it, a warning when root does not own it, nothing otherwise.
pub proof fn lemma_integrity_verdicts(
    n: nat,
    verified: i32,
    modified: i32,
    missing: i32,
    suspicious: i32,
    bins: Seq<BinaryCheck>,
    c: BinaryCheck,
)
    ensures
        ({
            let h = integrity_results(n, verified, modified, missing, suspicious, bins)[0];
            &&& h.category == "Integrity"@ && h.name == "Standard Binaries"@
            &&& (h.status == Status::Fail <==> (missing > 0 || modified > 0))
            &&& (missing > 0 || modified > 0) ==> h.severity == Severity::Critical
            &&& (missing <= 0 && modified <= 0 && suspicious > 0) ==> h.severity == Severity::Warning
                && h.status == Status::Warn
            &&& (missing <= 0 && modified <= 0 && suspicious <= 0) ==> h.severity == Severity::Info
                && h.status == Status::Pass
        }),
        integrity_results(n, verified, modified, missing, suspicious, bins.push(c))
            == integrity_results(n, verified, modified, missing, suspicious, bins) + binary_result(c),
        !c.exists ==> binary_result(c).len() == 1 && binary_result(c)[0].severity == Severity::Critical
            && binary_result(c)[0].status == Status::Fail,
        c.exists && c.is_world_writable ==> binary_result(c).len() == 1 && binary_result(c)[0].severity
            == Severity::Critical && binary_result(c)[0].status == Status::Fail,
        c.exists && !c.is_world_writable && c.uid != 0 ==> binary_result(c).len() == 1
            && binary_result(c)[0].severity == Severity::Warning && binary_result(c)[0].status == Status::Warn,
        c.exists && !c.is_world_writable && c.uid == 0 ==> binary_result(c).len() == 0,
{
    reveal_strlit("Integrity");
    reveal_strlit("Standard Binaries");
    let h = integrity_results(n, verified, modified, missing, suspicious, bins);
    assert(bins.push(c).drop_last() =~= bins);
    assert(h + binary_result(c) =~= integrity_results(n, verified, modified, missing, suspicious, bins.push(c)));
}

/// Records what the integrity check of the standard binaries found.
pub fn parser_integrity_report(s: &mut Syssec, integrity: &BinaryIntegrity)
    requires
        old(s).wf(),
    ensures
        final(s).wf(),
        final(s).results_view() == appended(
            old(s).results_view(),
            integrity_results(
                integrity.binaries@.len(),
                integrity.verified,
                integrity.modified,
                integrity.missing,
                integrity.suspicious,
                integrity.binaries@,
            ),
        ),
{
    let ghost base = s.results_view();
    proof { lemma_appended_empty(base); }
    let mut summary = String::new();
    push_decimal(&mut summary, integrity.binaries.len() as u64);
    summary.append(" checked, ");
    push_signed(&mut summary, integrity.verified as i64);
    summary.append(" verified, ");
    push_signed(&mut summary, integrity.modified as i64);
    summary.append(" modified, ");
    push_signed(&mut summary, integrity.missing as i64);
    summary.append(" missing, ");
    push_signed(&mut summary, integrity.suspicious as i64);
    summary.append(" suspicious");
    if integrity.missing > 0 || integrity.modified > 0 {
        s.add_planned("Integrity", "Standard Binaries", summary.as_str(), Severity::Critical, Status::Fail, Some("Reinstall missing or modified binaries from trusted sources"), Ghost(base), Ghost(Seq::<ResultView>::empty()));
    } else if integrity.suspicious > 0 {
        s.add_planned("Integrity", "Standard Binaries", summary.as_str(), Severity::Warning, Status::Warn, Some("Review binaries with suspicious permissions"), Ghost(base), Ghost(Seq::<ResultView>::empty()));
    } else {
        s.add_planned("Integrity", "Standard Binaries", summary.as_str(), Severity::Info, Status::Pass, None, Ghost(base), Ghost(Seq::<ResultView>::empty()));
    }
    let ghost all = integrity_results(
        integrity.binaries@.len(),
        integrity.verified,
        integrity.modified,
        integrity.missing,
        integrity.suspicious,
        integrity.binaries@,
    );
    let ghost head = Seq::<ResultView>::empty().push(all[0]);
    let ghost bins = integrity.binaries@;
    let mut i: usize = 0;
    assert(bins.take(0) =~= Seq::<BinaryCheck>::empty());
    assert(head + binary_results(bins.take(0)) =~= head);
    while i < integrity.binaries.len()
        invariant
            i <= bins.len(),
            bins == integrity.binaries@,
            s.wf(),
            base.len() <= MAX_RESULTS,
            s.results_view() == appended(base, head + binary_results(bins.take(i as int))),
        decreases bins.len() - i,
    {
        proof {
            assert(bins.take(i as int + 1).drop_last() =~= bins.take(i as int));
        }
        record_binary(s, &integrity.binaries[i], Ghost(base), Ghost(head + binary_results(bins.take(i as int))));
        assert(head + binary_results(bins.take(i as int)) + binary_result(bins[i as int]) =~= head + binary_results(bins.take(i as int + 1)));
        i += 1;
    }
    assert(bins.take(i as int) =~= bins);
    assert(head + binary_results(bins) =~= all);
}

} // verus!
