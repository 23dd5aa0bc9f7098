use flagfetch::cpuinfo::Cpuinfo;
use flagfetch::distro::Distro;
use flagfetch::info::{
    describe_memory, format_time, get_info_string, get_user, used_and_total, write_field,
    write_labelled, write_usage, Host,
};
use flagfetch::meminfo::Meminfo;
use flagfetch::os_release::OsRelease;
use flagfetch::packages::{count_lines, describe_packages, package_queries, write_tally, NIX_SYSTEM_QUERY, NIX_USER_QUERY};
use flagfetch::passwd::Passwd;
use std::io::BufRead;

fn label(text: &str) -> String {
    format!("\x1b[1m\x1b[36m{}\x1b[39m\x1b[0m", text)
}

fn host() -> Host {
    Host {
        user: "alice".to_string(),
        nodename: "wonderland".to_string(),
        arch: "x86_64".to_string(),
        release: "6.9.1-arch1-1".to_string(),
        uptime: 93784,
    }
}

fn account(name: &str) -> Passwd {
    Passwd {
        name: name.to_string(),
        passwd: "x".to_string(),
        uid: 1000,
        gid: 1000,
        gecos: String::new(),
        dir: "/home".to_string(),
        shell: "/bin/sh".to_string(),
    }
}

#[test]
fn uptime_shows_days_hours_and_minutes() {
    assert_eq!(format_time(93784), "1 days, 2 hours, 3 mins");
    assert_eq!(format_time(2 * 86400 + 23 * 3600 + 59 * 60 + 59), "2 days, 23 hours, 59 mins");
}

#[test]
fn uptime_leaves_out_days_and_hours_that_are_zero() {
    assert_eq!(format_time(0), "0 mins");
    assert_eq!(format_time(59), "0 mins");
    assert_eq!(format_time(60), "1 mins");
    assert_eq!(format_time(3599), "59 mins");
    assert_eq!(format_time(3600), "1 hours, 0 mins");
    assert_eq!(format_time(86400), "1 days, 0 mins");
    assert_eq!(format_time(86400 + 60), "1 days, 1 mins");
    assert_eq!(format_time(7 * 3600 + 5 * 60), "7 hours, 5 mins");
}

#[test]
fn uptime_of_a_long_time() {
    assert_eq!(format_time(i64::MAX), "106751991167300 days, 15 hours, 30 mins");
}

#[test]
fn uptime_below_zero_counts_towards_zero() {
    assert_eq!(format_time(-1), "0 mins");
    assert_eq!(format_time(-61), "-1 mins");
    assert_eq!(format_time(-93784), "-1 days, -2 hours, -3 mins");
    assert_eq!(format_time(i64::MIN), "-106751991167300 days, -15 hours, -30 mins");
}

#[test]
fn the_user_comes_from_the_environment_first() {
    assert_eq!(get_user(Some("alice".to_string()), Some(account("bob"))), "alice");
    assert_eq!(get_user(Some("alice".to_string()), None), "alice");
    assert_eq!(get_user(Some(String::new()), Some(account("bob"))), "");
}

#[test]
fn the_user_comes_from_the_account_next() {
    assert_eq!(get_user(None, Some(account("bob"))), "bob");
}

#[test]
fn the_user_is_unknown_at_last() {
    assert_eq!(get_user(None, None), "unknown");
}

#[test]
fn used_memory_is_what_is_not_free() {
    let mem = Meminfo::parse("MemTotal: 16384 kB\nMemFree: 4096 kB\n");
    assert_eq!(used_and_total(&mem), Some((12288, 16384)));
    let full = Meminfo::parse("MemTotal: 5 kB\nMemFree: 5 kB\n");
    assert_eq!(used_and_total(&full), Some((0, 5)));
}

#[test]
fn memory_use_needs_both_counters() {
    assert_eq!(used_and_total(&Meminfo::parse("MemTotal: 16384 kB\n")), None);
    assert_eq!(used_and_total(&Meminfo::parse("MemFree: 16384 kB\n")), None);
    assert_eq!(used_and_total(&Meminfo::empty()), None);
}

#[test]
fn more_free_memory_than_memory_is_no_memory_use() {
    let mem = Meminfo::parse("MemTotal: 1 kB\nMemFree: 2 kB\n");
    assert_eq!(used_and_total(&mem), None);
    assert_eq!(describe_memory(&mem), "unknown");
}

#[test]
fn memory_is_written_in_binary_units() {
    let mem = Meminfo::parse("MemTotal: 16384 kB\nMemFree: 4096 kB\n");
    assert_eq!(describe_memory(&mem), "12 KiB / 16 KiB");
    let odd = Meminfo::parse("MemTotal: 16252928\nMemFree: 14680064\n");
    assert_eq!(describe_memory(&odd), "1.50 MiB / 15.50 MiB");
    let small = Meminfo::parse("MemTotal: 1023\nMemFree: 1023\n");
    assert_eq!(describe_memory(&small), "0 B / 1023 B");
}

#[test]
fn memory_is_written_as_the_size_crate_writes_it() {
    let mem = Meminfo::parse("MemTotal: 33554431\nMemFree: 123456\n");
    let expected = format!(
        "{} / {}",
        humansize::format_size(33554431u64 - 123456, humansize::BINARY),
        humansize::format_size(33554431u64, humansize::BINARY)
    );
    assert_eq!(describe_memory(&mem), expected);
    assert_ne!(describe_memory(&mem), "33430975 / 33554431");
}

#[test]
fn memory_without_counters_is_unknown() {
    assert_eq!(describe_memory(&Meminfo::empty()), "unknown");
}

#[test]
fn usage_sets_two_sizes_side_by_side() {
    assert_eq!(write_usage("1 GiB", "2 GiB"), "1 GiB / 2 GiB");
    assert_eq!(write_usage("", ""), " / ");
}

#[test]
fn a_labelled_line_ends_with_a_line_feed() {
    let mut report = String::from("before\n");
    write_labelled(&mut report, "Key", "value");
    assert_eq!(report, "before\nKey: value\n");
    write_labelled(&mut report, "", "");
    assert_eq!(report, "before\nKey: value\n: \n");
}

#[test]
fn a_field_has_its_label_highlighted() {
    let mut report = String::new();
    write_field(&mut report, "OS", "Arch Linux");
    assert_eq!(report, format!("{}: Arch Linux\n", label("OS")));
}

#[test]
fn the_report_on_an_arch_machine() {
    let os = OsRelease::parse("NAME=\"Arch Linux\"\nPRETTY_NAME=\"Arch Linux\"\nID=arch\n");
    let mem = Meminfo::parse("MemTotal: 16384 kB\nMemFree: 4096 kB\n");
    let cpu = Cpuinfo::parse("processor: 0\nmodel name: Fast CPU\n\nprocessor: 1\nmodel name: Other CPU\n");
    let out = get_info_string(&Distro::Arch, &os, &host(), &mem, &cpu, &vec![Some(1234)]);
    let expected = format!(
        "{}@{}\n--------------\n{}: Arch Linux\n{}: x86_64\n{}: 6.9.1-arch1-1\n{}: 1 days, 2 hours, 3 mins\n{}: 1234 (pacman)\n{}: 12 KiB / 16 KiB\n{}: Fast CPU\n",
        label("alice"),
        label("wonderland"),
        label("OS"),
        label("Arch"),
        label("Kernel"),
        label("Uptime"),
        label("Packages"),
        label("Memory"),
        label("CPU"),
    );
    assert_eq!(out, expected);
}

#[test]
fn the_report_on_a_nix_machine() {
    let os = OsRelease::parse("PRETTY_NAME=\"NixOS 24.05\"\nID=nixos\n");
    let mem = Meminfo::parse("MemTotal: 2048\nMemFree: 1024\n");
    let cpu = Cpuinfo::parse("model name: Some CPU\n");
    let out = get_info_string(&Distro::Nix, &os, &host(), &mem, &cpu, &vec![Some(900), Some(45)]);
    assert!(out.contains(&format!("{}: 900 (nix system), 45 (nix user)\n", label("Packages"))));
    assert!(out.contains(&format!("{}: NixOS 24.05\n", label("OS"))));
    assert!(out.contains(&format!("{}: 1 KiB / 2 KiB\n", label("Memory"))));
    assert_eq!(out.lines().count(), 9);
}

#[test]
fn the_report_leaves_out_packages_it_cannot_count() {
    let os = OsRelease::parse("PRETTY_NAME=Debian\n");
    let mem = Meminfo::parse("MemTotal: 2048\nMemFree: 1024\n");
    let cpu = Cpuinfo::parse("model name: Some CPU\n");
    let unknown = get_info_string(&Distro::Unknown, &os, &host(), &mem, &cpu, &vec![Some(3)]);
    assert!(!unknown.contains("Packages"));
    assert_eq!(unknown.lines().count(), 8);
    let failed = get_info_string(&Distro::Arch, &os, &host(), &mem, &cpu, &vec![None]);
    assert!(!failed.contains("Packages"));
    assert_eq!(failed.lines().count(), 8);
}

#[test]
fn the_report_says_unknown_where_it_does_not_know() {
    let out = get_info_string(
        &Distro::Unknown,
        &OsRelease::empty(),
        &host(),
        &Meminfo::empty(),
        &Cpuinfo::empty(),
        &Vec::new(),
    );
    let expected = format!(
        "{}@{}\n--------------\n{}: unknown\n{}: x86_64\n{}: 6.9.1-arch1-1\n{}: 1 days, 2 hours, 3 mins\n{}: unknown\n{}: unknown\n",
        label("alice"),
        label("wonderland"),
        label("OS"),
        label("Arch"),
        label("Kernel"),
        label("Uptime"),
        label("Memory"),
        label("CPU"),
    );
    assert_eq!(out, expected);
}

#[test]
fn arch_counts_with_pacman() {
    assert_eq!(describe_packages(&Distro::Arch, &vec![Some(1234)]), Some("1234 (pacman)".to_string()));
    assert_eq!(describe_packages(&Distro::Arch, &vec![Some(0)]), Some("0 (pacman)".to_string()));
    assert_eq!(describe_packages(&Distro::Arch, &vec![Some(1), Some(2)]), Some("1 (pacman)".to_string()));
    assert_eq!(describe_packages(&Distro::Arch, &vec![None]), None);
    assert_eq!(describe_packages(&Distro::Arch, &vec![None, Some(2)]), None);
    assert_eq!(describe_packages(&Distro::Arch, &vec![]), None);
}

#[test]
fn nix_counts_system_and_user_apart() {
    assert_eq!(
        describe_packages(&Distro::Nix, &vec![Some(900), Some(45)]),
        Some("900 (nix system), 45 (nix user)".to_string())
    );
    assert_eq!(describe_packages(&Distro::Nix, &vec![Some(900), None]), Some("900 (nix system)".to_string()));
    assert_eq!(describe_packages(&Distro::Nix, &vec![Some(900)]), Some("900 (nix system)".to_string()));
    assert_eq!(describe_packages(&Distro::Nix, &vec![None, Some(45)]), Some("45 (nix user)".to_string()));
    assert_eq!(describe_packages(&Distro::Nix, &vec![None, None]), None);
    assert_eq!(describe_packages(&Distro::Nix, &vec![]), None);
}

#[test]
fn an_unknown_distribution_has_no_package_line() {
    assert_eq!(describe_packages(&Distro::Unknown, &vec![Some(5), Some(6)]), None);
    assert_eq!(describe_packages(&Distro::Unknown, &vec![]), None);
}

#[test]
fn a_tally_names_what_was_counted() {
    assert_eq!(write_tally(12, "pacman"), "12 (pacman)");
    assert_eq!(write_tally(0, ""), "0 ()");
}

#[test]
fn arch_asks_pacman() {
    let queries = package_queries(&Distro::Arch);
    assert_eq!(queries.len(), 1);
    assert_eq!(queries[0].program, "pacman");
    assert_eq!(queries[0].arguments, vec!["-Q"]);
}

#[test]
fn nix_asks_the_store_twice() {
    let queries = package_queries(&Distro::Nix);
    assert_eq!(queries.len(), 2);
    assert_eq!(queries[0].program, "sh");
    assert_eq!(queries[0].arguments, vec!["-c", NIX_SYSTEM_QUERY]);
    assert_eq!(queries[1].program, "sh");
    assert_eq!(queries[1].arguments, vec!["-c", NIX_USER_QUERY]);
    assert!(NIX_SYSTEM_QUERY.starts_with("nix-store -qR /run/current-system | cut -d- -f2- | grep -o '.\\+[0-9]\\+\\.[0-9a-z.]\\+'"));
    assert!(NIX_USER_QUERY.starts_with("nix-store -qR $HOME/.nix-profile |"));
    assert!(NIX_USER_QUERY.ends_with("| sort | uniq"));
}

#[test]
fn an_unknown_distribution_asks_nobody() {
    assert_eq!(package_queries(&Distro::Unknown).len(), 0);
}

#[test]
fn lines_of_an_output_are_counted() {
    assert_eq!(count_lines(&b"".to_vec()), 0);
    assert_eq!(count_lines(&b"a".to_vec()), 1);
    assert_eq!(count_lines(&b"a\n".to_vec()), 1);
    assert_eq!(count_lines(&b"a\nb".to_vec()), 2);
    assert_eq!(count_lines(&b"a\nb\n".to_vec()), 2);
    assert_eq!(count_lines(&b"\n".to_vec()), 1);
    assert_eq!(count_lines(&b"\n\n\n".to_vec()), 3);
    assert_eq!(count_lines(&b"pkg-a 1.0\npkg-b 2.0\npkg-c 3.0\n".to_vec()), 3);
}

#[test]
fn lines_are_counted_as_the_standard_library_counts_them() {
    let alphabet = [b'a', b'\n', b'\r', 0xff];
    let mut outputs: Vec<Vec<u8>> = vec![Vec::new()];
    let mut round = 0;
    while round < 5 {
        let mut longer: Vec<Vec<u8>> = Vec::new();
        for o in outputs.iter().filter(|o| o.len() == round) {
            for b in alphabet {
                let mut next = o.clone();
                next.push(b);
                longer.push(next);
            }
        }
        outputs.extend(longer);
        round += 1;
    }
    for o in outputs {
        assert_eq!(count_lines(&o), o.as_slice().lines().count(), "{:?}", o);
    }
}
