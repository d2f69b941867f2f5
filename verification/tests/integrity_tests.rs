use nicwatch::integrity::{
    classify, integrity_record, parse_merge, parse_record, parser_binary_verify,
    parser_integrity_report, sha256_from_output, standard_binaries, type_str, walk_continues,
    BinaryCheck, BinaryIntegrity, FileProbe, ParseResult, ParsedEntry, INTEGRITY_MAX_BINARIES,
    PARSER_MAX_ENTRIES, S_IFCHR, S_IFDIR, S_IFLNK, S_IFREG,
};
use nicwatch::scanner::{Severity, Status, Syssec, SystemInfo};

fn entry(name: &str, mode: u32, uid: u32) -> ParsedEntry {
    let mut e = ParsedEntry {
        path: format!("/dev/{}", name),
        name: name.to_string(),
        mode,
        uid,
        gid: 0,
        size: 0,
        is_dir: false,
        is_char: false,
        is_block: false,
        is_symlink: false,
        is_fifo: false,
        is_socket: false,
        is_regular: false,
        target: String::new(),
        major: 0,
        minor: 0,
    };
    classify(&mut e, mode, (0, 5));
    e
}

#[test]
fn entries_are_typed_by_their_mode() {
    let c = entry("null", S_IFCHR | 0o666, 0);
    assert!(c.is_char && !c.is_dir);
    assert_eq!((c.major, c.minor), (0, 5));
    assert_eq!(type_str(&c), "CHR");
    let d = entry("fd", S_IFDIR | 0o555, 0);
    assert_eq!(type_str(&d), "DIR");
    assert_eq!((d.major, d.minor), (-1, -1));
    assert_eq!(type_str(&entry("log", S_IFLNK | 0o777, 0)), "LNK");
    assert_eq!(type_str(&entry("f", S_IFREG | 0o644, 0)), "FILE");
    assert_eq!(type_str(&entry("odd", 0o644, 0)), "????");
}

#[test]
fn a_walk_counts_what_it_keeps() {
    let mut r = ParseResult::new();
    assert_eq!(r.count(), 0);
    parse_record(&mut r, entry("null", S_IFCHR | 0o666, 0));
    parse_record(&mut r, entry("su", S_IFREG | 0o4755, 0));
    parse_record(&mut r, entry("sub", S_IFDIR | 0o2775, 1001));
    assert_eq!(r.count(), 3);
    assert_eq!((r.devices_char, r.files, r.dirs), (1, 1, 1));
    assert_eq!((r.setuid, r.setgid, r.world_writable, r.root_owned), (1, 1, 1, 2));
    let mut other = ParseResult::new();
    parse_record(&mut other, entry("fifo", 0o010644, 0));
    parse_merge(&mut r, other);
    assert_eq!(r.count(), 4);
    assert_eq!(r.fifos, 1);
    assert_eq!(r.root_owned, 3);
}

#[test]
fn counters_agree_with_the_kept_entries() {
    let mut r = ParseResult::new();
    let modes = [S_IFCHR | 0o666, S_IFREG | 0o4755, S_IFDIR | 0o2777, S_IFLNK | 0o777, 0o140755];
    for (i, m) in modes.iter().enumerate() {
        parse_record(&mut r, entry(&format!("e{}", i), *m, (i % 2) as u32));
    }
    let mut tail = ParseResult::new();
    parse_record(&mut tail, entry("blk", 0o060640, 0));
    parse_merge(&mut r, tail);
    let n = |f: &dyn Fn(&ParsedEntry) -> bool| r.entries.iter().filter(|e| f(e)).count() as i32;
    assert_eq!(r.dirs, n(&|e| e.is_dir));
    assert_eq!(r.files, n(&|e| e.is_regular));
    assert_eq!(r.symlinks, n(&|e| e.is_symlink));
    assert_eq!(r.devices_char, n(&|e| e.is_char));
    assert_eq!(r.devices_block, n(&|e| e.is_block));
    assert_eq!(r.sockets, n(&|e| e.is_socket));
    assert_eq!(r.setuid, n(&|e| e.mode & 0o4000 != 0));
    assert_eq!(r.setgid, n(&|e| e.mode & 0o2000 != 0));
    assert_eq!(r.world_writable, n(&|e| e.mode & 0o002 != 0));
    assert_eq!(r.root_owned, n(&|e| e.uid == 0));
    assert_eq!(r.count(), 6);
}

#[test]
fn walks_stop_at_depth_and_size() {
    let r = ParseResult::new();
    assert!(walk_continues(&r, 3, 3));
    assert!(!walk_continues(&r, 4, 3));
    assert!(walk_continues(&r, 100, 0));
    assert_eq!(PARSER_MAX_ENTRIES, 4096);
}

#[test]
fn sha256_output_is_the_trimmed_digest() {
    let d = "e3b0c44298fc1c149afbf4c8996fb92427ae41e4649b934ca495991b7852b855";
    assert_eq!(sha256_from_output(&format!("{}\n", d)), Some(d.to_string()));
    assert_eq!(sha256_from_output("sha256: /bin/x: No such file\n"), None);
    assert_eq!(sha256_from_output(""), None);
}

fn check(path: &str, expected: Option<&str>, probe: Option<FileProbe>, actual: Option<&str>) -> BinaryCheck {
    let mut c = BinaryCheck {
        name: String::new(),
        path: String::new(),
        expected_hash: String::new(),
        actual_hash: String::new(),
        exists: false,
        hash_match: false,
        is_setuid: false,
        is_setgid: false,
        is_world_writable: false,
        mode: 0,
        uid: 0,
        gid: 0,
        size: 0,
    };
    assert_eq!(parser_binary_verify(path, expected, probe, actual.map(|s| s.to_string()), &mut c), 0);
    c
}

fn probe(mode: u32, uid: u32) -> Option<FileProbe> {
    Some(FileProbe { mode, uid, gid: 0, size: 4096, is_file: true })
}

#[test]
fn binaries_are_checked_by_digest_without_regard_to_case() {
    let c = check("/bin/ls", Some("ABCD"), probe(0o100555, 0), Some("abcd"));
    assert_eq!(c.name, "ls");
    assert!(c.exists && c.hash_match);
    assert_eq!(c.expected_hash, "ABCD");
    let m = check("/bin/ls", Some("ABCD"), probe(0o100555, 0), Some("abce"));
    assert!(!m.hash_match);
    let none = check("/bin/ls", None, probe(0o100555, 0), None);
    assert!(none.hash_match);
    let empty = check("/bin/ls", Some(""), probe(0o100555, 0), Some("x"));
    assert!(empty.hash_match);
    assert_eq!(empty.expected_hash, "");
    let missing = check("/bin/gone", Some("AB"), None, None);
    assert!(!missing.exists && !missing.hash_match);
    assert_eq!(missing.name, "gone");
    let dir = check("/bin/dir", Some("AB"), Some(FileProbe { mode: 0o40755, uid: 0, gid: 0, size: 512, is_file: false }), Some("AB"));
    assert!(dir.exists && !dir.hash_match);
    let suid = check("/usr/bin/su", None, probe(0o104555, 0), None);
    assert!(suid.is_setuid && !suid.is_setgid && !suid.is_world_writable);
}

#[test]
fn verdicts_partition_the_binaries() {
    let mut bi = BinaryIntegrity::new();
    let (lvl, note) = integrity_record(&mut bi, check("/bin/ok", Some("AA"), probe(0o100555, 0), Some("aa")), true).unwrap();
    assert_eq!((lvl, note.as_str()), (0, "OK"));
    let (lvl, note) = integrity_record(&mut bi, check("/bin/gone", None, None, None), false).unwrap();
    assert_eq!((lvl, note.as_str()), (2, "MISSING"));
    let (lvl, note) = integrity_record(&mut bi, check("/bin/ww", None, probe(0o100557, 0), None), false).unwrap();
    assert_eq!((lvl, note.as_str()), (2, "WORLD-WRITABLE"));
    let (lvl, note) = integrity_record(&mut bi, check("/bin/own", None, probe(0o100555, 1001), None), false).unwrap();
    assert_eq!((lvl, note.as_str()), (1, "owned by uid 1001"));
    let (lvl, note) = integrity_record(&mut bi, check("/bin/noexec", None, probe(0o100444, 0), None), false).unwrap();
    assert_eq!((lvl, note.as_str()), (1, "not executable"));
    let (lvl, note) = integrity_record(&mut bi, check("/bin/mod", Some("AA"), probe(0o100555, 0), Some("BB")), true).unwrap();
    assert_eq!((lvl, note.as_str()), (2, "HASH MISMATCH"));
    assert_eq!((bi.verified, bi.modified, bi.missing, bi.suspicious), (1, 1, 1, 3));
    assert_eq!(bi.binaries.len(), 6);

    let mut s = Syssec::new(false, SystemInfo { hostname: None, kernel: None, os_release: None, ncpu: None, cpu_model: None, physmem: None, boot_time: None }, 0, true);
    parser_integrity_report(&mut s, &bi);
    assert_eq!(s.results[0].description, "6 checked, 1 verified, 1 modified, 1 missing, 3 suspicious");
    assert_eq!(s.results[0].severity, Severity::Critical);
    assert_eq!(s.results[1].description, "/bin/gone is MISSING");
    assert_eq!(s.results[2].description, "/bin/ww is WORLD-WRITABLE");
    assert_eq!(s.results[3].description, "/bin/own owned by uid 1001 (not root)");
    assert_eq!(s.results[3].status, Status::Warn);
    assert_eq!(s.results.len(), 4);
}

#[test]
fn integrity_holds_at_most_its_capacity() {
    let mut bi = BinaryIntegrity::new();
    for _ in 0..INTEGRITY_MAX_BINARIES {
        assert!(integrity_record(&mut bi, check("/bin/ok", None, probe(0o100555, 0), None), false).is_some());
    }
    assert!(integrity_record(&mut bi, check("/bin/ok", None, probe(0o100555, 0), None), false).is_none());
    assert_eq!(bi.binaries.len(), INTEGRITY_MAX_BINARIES);
    assert_eq!(bi.verified, INTEGRITY_MAX_BINARIES as i32);
}

#[test]
fn a_clean_integrity_check_passes() {
    let mut bi = BinaryIntegrity::new();
    integrity_record(&mut bi, check("/bin/ok", None, probe(0o100555, 0), None), false);
    let mut s = Syssec::new(false, SystemInfo { hostname: None, kernel: None, os_release: None, ncpu: None, cpu_model: None, physmem: None, boot_time: None }, 0, true);
    parser_integrity_report(&mut s, &bi);
    assert_eq!(s.results.len(), 1);
    assert_eq!(s.results[0].status, Status::Pass);
}

#[test]
fn the_standard_binary_list() {
    let b = standard_binaries();
    assert!(b.len() <= INTEGRITY_MAX_BINARIES);
    assert!(b.contains(&"/bin/sh"));
    assert!(b.contains(&"/usr/sbin/sshd"));
    assert!(b.iter().all(|p| p.starts_with('/')));
}
