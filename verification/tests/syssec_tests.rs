use nicwatch::checks::{
    is_disk_name, is_known_suid, is_tty_name, module_paths, suid_base,
    syssec_check_dev, syssec_check_disks, syssec_check_essential_devices, syssec_check_filesystem,
    syssec_check_information, syssec_check_logs, syssec_check_modules, syssec_check_network,
    syssec_check_physical_disks, syssec_check_processes, syssec_check_security,
    syssec_check_services, syssec_check_ssh, syssec_check_suid, syssec_check_swap,
    syssec_check_sys, syssec_check_sys_dir, syssec_check_ttys,
    syssec_check_updates, syssec_check_users, tty_active, DevEntry, DiskProbe, SysDir, UserEntry,
    S_IFBLK, S_IFCHR, S_IFLNK,
};
use nicwatch::report::{
    critical_positions, ctime_string, exit_code, html_report_string, recommendation_positions,
    summary_tone, LocalTime, SummaryTone,
};
use nicwatch::scanner::{
    mode_to_string, quiet, set_log_level, set_quiet, should_log, shows_items, status_symbol,
    LogConfig, LogLevel, Severity, Status, Syssec, SystemInfo, MAX_RESULTS, SYSSEC_VERSION,
};

fn info() -> SystemInfo {
    SystemInfo {
        hostname: Some("beast".to_string()),
        kernel: Some("FreeBSD".to_string()),
        os_release: None,
        ncpu: Some(4),
        cpu_model: Some("AMD Ryzen 5".to_string()),
        physmem: Some(16 * 1024 * 1024 * 1024),
        boot_time: Some(1_000_000),
    }
}

fn fresh() -> Syssec {
    Syssec::new(false, info(), 1_000_000 + 12 * 86400 + 4 * 3600 + 31 * 60 + 22, true)
}

fn last(s: &Syssec) -> (&str, &str, &str, Severity, Status, &str) {
    let r = s.results.last().expect("a result");
    (r.category.as_str(), r.name.as_str(), r.description.as_str(), r.severity, r.status, r.recommendation.as_str())
}

#[test]
fn a_new_scan_has_no_results_and_defaults_missing_facts() {
    let s = fresh();
    assert!(s.results.is_empty());
    assert_eq!((s.passed, s.warnings, s.failures), (0, 0, 0));
    assert_eq!(s.hostname, "beast");
    assert_eq!(s.os_release, "unknown");
    assert_eq!(s.ncpu, 4);
    let bare = Syssec::new(true, SystemInfo { hostname: None, kernel: None, os_release: None, ncpu: None, cpu_model: None, physmem: None, boot_time: None }, 5, false);
    assert_eq!(bare.hostname, "unknown");
    assert_eq!(bare.kernel, "unknown");
    assert_eq!(bare.cpu_model, "");
    assert_eq!((bare.ncpu, bare.physmem, bare.boot_time), (0, 0, 0));
    assert!(bare.verbose && !bare.is_root);
    assert_eq!(SYSSEC_VERSION, "1.1.0;");
}

#[test]
fn counters_follow_the_results() {
    let mut s = fresh();
    assert!(s.add_result("A", "one", "d", Severity::Info, Status::Pass, None));
    assert!(s.add_result("A", "two", "d", Severity::Warning, Status::Warn, Some("look")));
    assert!(s.add_result("A", "three", "d", Severity::Critical, Status::Fail, Some("fix")));
    assert!(s.add_result("A", "four", "d", Severity::Info, Status::Unknown, None));
    assert_eq!((s.passed, s.warnings, s.failures), (1, 1, 1));
    assert_eq!(s.results.len(), 4);
    assert_eq!(s.results[1].recommendation, "look");
    assert_eq!(s.results[0].recommendation, "");
}

#[test]
fn results_stop_at_the_cap() {
    let mut s = fresh();
    for _ in 0..MAX_RESULTS {
        assert!(s.add_result("A", "n", "d", Severity::Info, Status::Pass, None));
    }
    assert!(!s.add_result("A", "n", "d", Severity::Critical, Status::Fail, None));
    assert_eq!(s.results.len(), MAX_RESULTS);
    assert_eq!(s.passed, MAX_RESULTS as i32);
    assert_eq!(s.failures, 0);
}

#[test]
fn system_information() {
    let mut s = fresh();
    syssec_check_information(&mut s);
    assert_eq!(s.results.len(), 3);
    assert_eq!(s.results[0].description, "4 cores: AMD Ryzen 5");
    assert_eq!(s.results[1].description, "16384 MB total");
    assert_eq!(s.results[2].name, "Uptime");
    assert_eq!(s.results[2].description, "12 days, 04:31:22");
}

#[test]
fn process_table() {
    let mut s = fresh();
    let states: Vec<u8> = b"RRSSSZ".to_vec();
    syssec_check_processes(&mut s, Some(&states));
    assert_eq!(last(&s), ("Processes", "Process Count", "6 total (2 running, 3 sleeping, 1 zombie)", Severity::Info, Status::Pass, ""));
    let zombies = vec![b'Z'; 11];
    syssec_check_processes(&mut s, Some(&zombies));
    assert_eq!(last(&s).4, Status::Warn);
    assert_eq!(last(&s).5, "Many zombie processes - check parent processes");
    let many = vec![b'S'; 501];
    syssec_check_processes(&mut s, Some(&many));
    assert_eq!(last(&s).5, "High process count - check for runaway processes");
    syssec_check_processes(&mut s, None);
    assert_eq!(last(&s), ("Processes", "Process Scan", "Failed to read process list", Severity::Warning, Status::Warn, "Check Permissions"));
}

fn user(name: &str, uid: u32, shell: &str) -> UserEntry {
    UserEntry { name: name.to_string(), uid, shell: shell.to_string() }
}

#[test]
fn user_accounts() {
    let mut s = fresh();
    let users = vec![
        user("root", 0, "/bin/csh"),
        user("toor", 0, "/bin/sh"),
        user("daemon", 1, "/usr/sbin/nologin"),
        user("alice", 1001, "/bin/sh"),
        user("bob", 1001, "/bin/false"),
    ];
    syssec_check_users(&mut s, &users);
    assert_eq!(s.results.len(), 3);
    assert_eq!(s.results[0].description, "5 users (3 with shell)");
    assert_eq!(s.results[1].description, "Found 1 additional UID 0: toor");
    assert_eq!(s.results[1].severity, Severity::Critical);
    assert_eq!(s.results[1].status, Status::Fail);
    assert_eq!(s.results[2].description, "1 duplicate UIDs found");
    let mut t = fresh();
    syssec_check_users(&mut t, &vec![user("root", 0, "/bin/csh")]);
    assert_eq!(t.results.len(), 2);
    assert_eq!(t.results[1].description, "Only root as UID 0");
}

#[test]
fn critical_file_permissions() {
    let mut s = fresh();
    let modes = vec![Some(0o100644), Some(0o100606), None, Some(0o100640)];
    syssec_check_filesystem(&mut s, &modes, &vec![None, None, None]);
    assert_eq!(s.results.len(), 4);
    assert_eq!(s.results[0].description, "Permissions: 644");
    assert_eq!(s.results[0].status, Status::Pass);
    assert_eq!(s.results[1].description, "WORLD-WRITABLE (606)");
    assert_eq!(s.results[1].severity, Severity::Critical);
    assert_eq!(s.results[2].description, "/etc/group does not exist");
    assert_eq!(s.results[2].severity, Severity::Warning);
    assert_eq!(s.results[2].status, Status::Fail);
    assert_eq!(s.results[3].description, "Permissions: 640");
    assert_eq!(s.results[3].status, Status::Warn);
    assert_eq!(s.results[3].recommendation, "Check file permissions");
}

#[test]
fn temporary_directories() {
    let mut s = fresh();
    let modes = vec![Some(0o100644), Some(0o100600), Some(0o100644), Some(0o100440)];
    let probes = vec![Some((true, 0o41777)), Some((true, 0o40777)), None];
    syssec_check_filesystem(&mut s, &modes, &probes);
    assert_eq!(s.results.len(), 6);
    assert!(s.results[..4].iter().all(|r| r.status == Status::Pass));
    assert_eq!(s.results[4].description, "/tmp has sticky bit");
    assert_eq!(s.results[4].category, "Filesystem");
    assert_eq!(s.results[5].description, "/var/tmp world-writable, no sticky bit!");
    assert_eq!(s.results[5].status, Status::Fail);
    assert_eq!(s.results[5].severity, Severity::Critical);
    let mut t = fresh();
    syssec_check_filesystem(&mut t, &modes, &vec![Some((true, 0o40755)), Some((false, 0o777)), None]);
    assert_eq!(t.results.len(), 5);
    assert_eq!(t.results[4].description, "/tmp ok");
}

#[test]
fn kernel_security() {
    let mut s = fresh();
    syssec_check_security(&mut s, Some(-1), Some(0));
    assert_eq!(s.results.len(), 2);
    assert_eq!(s.results[0].description, "Securelevel: -1");
    assert_eq!(s.results[0].status, Status::Pass);
    assert_eq!(s.results[1].name, "ASLR (64-bit)");
    assert_eq!(s.results[1].description, "disabled");
    assert_eq!(s.results[1].status, Status::Warn);
    let mut t = fresh();
    syssec_check_security(&mut t, Some(0), None);
    assert_eq!(last(&t), ("Security", "Securelevel", "Securelevel: 0", Severity::Warning, Status::Warn, "Set kern.securelevel=1 in /etc/sysctl.conf"));
    let mut u = fresh();
    syssec_check_security(&mut u, None, None);
    assert!(u.results.is_empty());
}

#[test]
fn kernel_modules() {
    let mut s = fresh();
    syssec_check_modules(&mut s, &vec![true, false, true]);
    assert_eq!(s.results[0].description, "3 modules loaded");
    assert_eq!(s.results[1].description, "1 modules loaded but NOT in filesystem");
    assert_eq!(s.results[1].status, Status::Fail);
    let mut t = fresh();
    syssec_check_modules(&mut t, &vec![true]);
    assert_eq!(t.results[1].description, "All loaded modules found in filesystem");
    assert_eq!(module_paths("zfs"), ("/boot/kernel/zfs.ko".to_string(), "/boot/modules/zfs.ko".to_string()));
}

#[test]
fn network_basics() {
    let mut s = fresh();
    syssec_check_network(&mut s, Some("  25\n"), false, false, Some(1));
    assert_eq!(s.results[0].description, "25 listening TCP ports");
    assert_eq!(s.results[0].status, Status::Warn);
    assert_eq!(s.results[1].description, "No firewall detected");
    assert_eq!(s.results[1].severity, Severity::Critical);
    assert_eq!(s.results[2].description, "IP forwarding is ENABLED");
    let mut t = fresh();
    syssec_check_network(&mut t, Some("junk"), true, false, None);
    assert_eq!(t.results.len(), 2);
    assert_eq!(t.results[0].description, "0 listening TCP ports");
    assert_eq!(t.results[1].description, "Firewall is running");
    let mut u = fresh();
    syssec_check_network(&mut u, None, false, true, Some(0));
    assert_eq!(u.results.len(), 2);
    assert_eq!(u.results[1].description, "IP forwarding disabled");
}

#[test]
fn services() {
    let mut s = fresh();
    syssec_check_services(&mut s, &vec![true, false, true], &vec![false, true, false, false, false]);
    assert_eq!(s.results.len(), 8);
    let names: Vec<&str> = s.results.iter().map(|r| r.name.as_str()).collect();
    assert_eq!(names, vec!["syslogd", "cron", "sshd", "telnetd", "ftpd", "rlogind", "rshd", "inetd"]);
    assert!(s.results.iter().all(|r| r.category == "Services"));
    assert_eq!(s.results[0].description, "running");
    assert_eq!(s.results[1].description, "Service 'cron' is not running");
    assert_eq!(s.results[1].status, Status::Warn);
    assert_eq!(s.results[3].description, "not running");
    assert_eq!(s.results[4].description, "Insecure service 'ftpd' running!");
    assert_eq!(s.results[4].severity, Severity::Critical);
    assert_eq!(s.results[4].status, Status::Fail);
    assert_eq!((s.passed, s.warnings, s.failures), (6, 1, 1));
}

#[test]
fn update_tools() {
    let mut s = fresh();
    syssec_check_updates(&mut s, true, true);
    assert_eq!(s.results.len(), 2);
    assert_eq!(s.results[0].recommendation, "");
    assert_eq!(s.results[1].name, "pkg");
    assert_eq!(s.results[1].recommendation, "");
    let mut t = fresh();
    syssec_check_updates(&mut t, false, false);
    assert_eq!(t.results.len(), 1);
    assert_eq!(t.results[0].description, "not installed");
    assert_eq!(t.results[0].status, Status::Warn);
    assert_eq!(t.results[0].recommendation, "Consider installing freebsd-update");
}

#[test]
fn system_logs() {
    let mut s = fresh();
    syssec_check_logs(&mut s, &vec![Some(1024), None, None, Some(0), None]);
    assert_eq!(s.results.len(), 2);
    assert_eq!(s.results[0].name, "/var/log/messages");
    assert_eq!(s.results[0].description, "1024 bytes");
    assert_eq!(s.results[1].name, "/var/log/maillog");
    let mut t = fresh();
    syssec_check_logs(&mut t, &vec![None, None, None, None, None]);
    assert_eq!(last(&t), ("Logs", "System Logs", "No standard logs found", Severity::Warning, Status::Warn, "Check syslogd configuration"));
}

#[test]
fn ssh_configuration() {
    let mut s = fresh();
    let cfg = "# PermitRootLogin yes\n  PermitRootLogin YES\nPasswordAuthentication no\nX11Forwarding yes\n";
    syssec_check_ssh(&mut s, Some(cfg));
    assert_eq!(s.results.len(), 3);
    assert_eq!(s.results[0].description, "PermitRootLogin is enabled");
    assert_eq!(s.results[1].description, "Password auth disabled");
    assert_eq!(s.results[2].description, "X11 forwarding enabled");
    let mut t = fresh();
    syssec_check_ssh(&mut t, Some("PermitRootLogin prohibit-password yes\n"));
    assert_eq!(t.results.len(), 2);
    assert_eq!(t.results[0].description, "Root login disabled");
    let mut u = fresh();
    syssec_check_ssh(&mut u, None);
    assert_eq!(last(&u), ("SSH", "Config", "Cannot read /etc/ssh/sshd_config", Severity::Info, Status::Unknown, "Ensure SSH is configured"));
}

#[test]
fn suid_binaries() {
    assert!(is_known_suid("/usr/bin/passwd"));
    assert!(!is_known_suid("/tmp/passwd"));
    assert_eq!(suid_base("/usr/local/bin/evil"), "evil");
    assert_eq!(suid_base("plain"), "plain");
    let mut s = fresh();
    syssec_check_suid(&mut s, Some("/usr/bin/su\n\n/tmp/x/evil\n/usr/sbin/ping\n/opt/y\n"));
    assert_eq!(last(&s), ("SUID", "Unexpected Binaries", "2 unexpected: evil, y", Severity::Warning, Status::Warn, "Review unexpected SUID/SGID binaries"));
    let mut t = fresh();
    syssec_check_suid(&mut t, Some("/usr/bin/su\n/usr/bin/passwd\n"));
    assert_eq!(last(&t).2, "2 SUID/SGID binaries found");
    let mut u = fresh();
    syssec_check_suid(&mut u, None);
    assert!(u.results.is_empty());
}

#[test]
fn disk_usage() {
    let mut s = fresh();
    let df = "Filesystem Size Used Avail Capacity Mounted on\n\
              /dev/ada0p2 100G 96G 4G 96% /\n\
              /dev/ada0p3 50G 41G 9G 82% /usr\n\
              tmpfs 1G 0B 1G 0% /tmp\n\
              short line\n";
    syssec_check_disks(&mut s, Some(df));
    assert_eq!(s.results.len(), 3);
    assert_eq!(s.results[0].name, "/");
    assert_eq!(s.results[0].description, "/: 96G used of 100G (96%)");
    assert_eq!(s.results[0].status, Status::Fail);
    assert_eq!(s.results[1].status, Status::Warn);
    assert_eq!(s.results[2].status, Status::Pass);
}

#[test]
fn swap_usage() {
    let mut s = fresh();
    let out = "Device 1M-blocks Used Avail Capacity\n/dev/ada0p3 2048 1100 948 54%\n/dev/md0 10 x\n";
    syssec_check_swap(&mut s, Some(out));
    assert_eq!(s.results.len(), 1);
    assert_eq!(s.results[0].description, "/dev/ada0p3: 1100 used of 2048 MB (54%)");
    assert_eq!(s.results[0].status, Status::Warn);
}

#[test]
fn physical_disks() {
    assert!(is_disk_name("ada0"));
    assert!(is_disk_name("nvd1"));
    assert!(!is_disk_name("tty0"));
    let mut s = fresh();
    syssec_check_physical_disks(&mut s, &vec![
        DiskProbe { name: "ada0".to_string(), media_size: Some(512 * 1024 * 1024 * 1024) },
        DiskProbe { name: "da1".to_string(), media_size: None },
    ]);
    assert_eq!(s.results[0].description, "524288 MB");
    assert_eq!(s.results[1].description, "unknown size");
}

fn dev(name: &str, mode: u32) -> DevEntry {
    DevEntry { name: name.to_string(), mode }
}

#[test]
fn device_nodes() {
    let mut s = fresh();
    let entries = vec![
        dev("null", S_IFCHR | 0o666),
        dev("ada0", S_IFCHR | 0o640),
        dev("md0", S_IFBLK | 0o602),
        dev("log", S_IFLNK | 0o777),
        dev(".hidden", S_IFCHR | 0o666),
    ];
    syssec_check_dev(&mut s, Some(&entries));
    assert_eq!(s.results[0].description, "4 devices (2 char, 1 block, 1 symlinks)");
    assert_eq!(s.results[1].description, "2 world-writable devices: null, md0");
    let mut t = fresh();
    syssec_check_dev(&mut t, None);
    assert_eq!(last(&t), ("Devices", "/dev", "Cannot open /dev", Severity::Warning, Status::Warn, ""));
    let mut u = fresh();
    syssec_check_essential_devices(&mut u, &vec![true, true, false, true, true]);
    assert_eq!(u.results[0].description, "present");
    assert_eq!(u.results[2].description, "/dev/random missing!");
}

#[test]
fn terminals() {
    assert!(is_tty_name("ttyv0"));
    assert!(!is_tty_name("tty"));
    assert!(!is_tty_name("pts0"));
    assert!(tty_active("alice ttyv0 Jan 1 10:00\nbob pts/1\n", "ttyv0"));
    assert!(!tty_active("alice ttyv0 Jan 1 10:00\n", "ttyv1"));
    let mut s = fresh();
    syssec_check_ttys(&mut s, &vec![true, false, false]);
    assert_eq!(last(&s).2, "3 TTYs, 1 active");
}

#[test]
fn sysfs() {
    let mut s = fresh();
    syssec_check_sys(&mut s, false);
    assert_eq!(last(&s).2, "Not mounted (expected on FreeBSD)");
    let mut t = fresh();
    syssec_check_sys_dir(&mut t, SysDir::Class, &vec!["net".to_string(), ".x".to_string(), "block".to_string()]);
    assert_eq!(last(&t).1, "/sys/class");
    assert_eq!(last(&t).2, "2 classes");
}

#[test]
fn report_selections_and_exit_code() {
    let mut s = fresh();
    s.add_result("A", "ok", "d", Severity::Info, Status::Pass, Some("not shown"));
    s.add_result("A", "warn", "d", Severity::Warning, Status::Warn, Some("look"));
    s.add_result("A", "soft", "d", Severity::Warning, Status::Fail, None);
    assert_eq!(recommendation_positions(&s), vec![1]);
    assert_eq!(critical_positions(&s), Vec::<usize>::new());
    assert_eq!(summary_tone(&s), SummaryTone::Critical);
    // a failure without critical severity does not fail the run
    assert_eq!(exit_code(&s), 0);
    s.add_result("A", "bad", "d", Severity::Critical, Status::Fail, Some("fix"));
    assert_eq!(critical_positions(&s), vec![3]);
    assert_eq!(recommendation_positions(&s), vec![1, 3]);
    assert_eq!(exit_code(&s), 1);
    let mut clean = fresh();
    assert_eq!(summary_tone(&clean), SummaryTone::Clean);
    clean.add_result("A", "w", "d", Severity::Warning, Status::Warn, None);
    assert_eq!(summary_tone(&clean), SummaryTone::Warnings);
    assert_eq!(exit_code(&clean), 0);
}

#[test]
fn ctime_text() {
    let t = LocalTime { wday: 5, mon: 2, mday: 9, hour: 3, min: 4, sec: 5, year: 124 };
    assert_eq!(ctime_string(t), "Fri Mar  9 03:04:05 2024");
    let u = LocalTime { wday: 0, mon: 11, mday: 31, hour: 23, min: 59, sec: 60, year: 99 };
    assert_eq!(ctime_string(u), "Sun Dec 31 23:59:60 1999");
}

#[test]
fn html_report_is_self_contained() {
    let mut s = fresh();
    s.add_result("SSH", "Root Login", "PermitRootLogin <yes>", Severity::Critical, Status::Fail, Some("Set 'PermitRootLogin no'"));
    let html = html_report_string(&s, "Fri Mar  9 03:04:05 2024");
    assert!(html.starts_with("<!DOCTYPE html>"));
    assert!(html.contains("beast"));
    assert!(html.contains("Root Login"));
    assert!(html.trim_end().ends_with("</html>"));
    assert!(!html.contains("<script"));
}

#[test]
fn logging_levels() {
    let mut c = LogConfig::new();
    assert_eq!(c.level, LogLevel::Info);
    assert!(!quiet(&c));
    assert!(should_log(&c, LogLevel::Warning));
    assert!(!should_log(&c, LogLevel::Debug));
    assert!(shows_items(&c));
    set_quiet(&mut c, true);
    assert!(quiet(&c));
    assert!(should_log(&c, LogLevel::Error));
    assert!(!should_log(&c, LogLevel::Warning));
    set_log_level(&mut c, LogLevel::Error);
    assert!(!shows_items(&c));
    assert_eq!(status_symbol(Status::Unknown), "?");
    assert_eq!(status_symbol(Status::Pass), "Y");
}

#[test]
fn permission_texts() {
    assert_eq!(mode_to_string(0o755), "rwxr-xr-x");
    assert_eq!(mode_to_string(0o4755), "rwsr-xr-x");
    assert_eq!(mode_to_string(0o2644), "rw-r-Sr--");
    assert_eq!(mode_to_string(0o1777), "rwxrwxrwt");
    assert_eq!(mode_to_string(0o1776), "rwxrwxrwT");
    assert_eq!(mode_to_string(0), "---------");
}
