use metapak::backends::providers::apt::AptProvider;
use metapak::backends::providers::brew::BrewProvider;
use metapak::backends::providers::cargo::CargoProvider;
use metapak::backends::providers::pacman::PacmanProvider;
use metapak::backends::providers::scoop::ScoopProvider;
use metapak::diagnostics::{
    count_lines, format_uptime, package_manager_items, parse_foreign_names, parse_orphan_packages,
    parse_package_groups, parse_package_info, parse_package_size_entries, repository_count,
    sort_package_sizes, PackageSize,
};
use metapak::models::{AppError, OutdatedPackage, PackageSource};
use metapak::services::{
    classify_pacnew, collect_pacnew_files, pacman_log_outcome, parse_available_versions, parse_log_line,
    parse_pacman_log, versions_from_captures, DirEntryInfo, LogOperation, PacnewType,
};

#[test]
fn apt_line_takes_name_before_slash() {
    let p = AptProvider::parse_line("firefox/jammy-updates 120.0+build2 amd64 [installed]").unwrap();
    assert_eq!(p.name, "firefox");
    assert_eq!(p.version, "120.0+build2");
    assert_eq!(p.source, PackageSource::Apt);
    assert!(p.is_installed);
    assert!(AptProvider::parse_line("lonely").is_none());
}

#[test]
fn apt_list_skips_header_and_matches_installed_exactly() {
    let out = "Listing... Done\nvim/jammy 2:8.2 amd64\ncurl/jammy 7.81.0 amd64 [installed,automatic]\n";
    let pkgs = AptProvider::parse_list_output(out);
    assert_eq!(pkgs.len(), 2);
    assert_eq!(pkgs[0].name, "vim");
    assert_eq!(pkgs[0].version, "2:8.2");
    assert!(!pkgs[0].is_installed);
    assert_eq!(pkgs[1].name, "curl");
    assert!(!pkgs[1].is_installed);
    assert!(AptProvider::parse_list_output("").is_empty());
}

#[test]
fn cargo_search_lines() {
    let out = "ripgrep = \"14.1.0\"    # fast grep\nserde = \"1.0.200\"\n... and 120 crates more (use --limit N to see more)\n";
    let pkgs = CargoProvider::parse_cargo_search(out);
    assert_eq!(pkgs.len(), 2);
    assert_eq!(pkgs[0].name, "ripgrep");
    assert_eq!(pkgs[0].version, "14.1.0");
    assert_eq!(pkgs[0].description, "fast grep");
    assert_eq!(pkgs[0].source, PackageSource::Cargo);
    assert_eq!(pkgs[1].name, "serde");
    assert_eq!(pkgs[1].version, "1.0.200");
    assert_eq!(pkgs[1].description, "");
}

#[test]
fn cargo_list_needs_name_and_space() {
    let out = "ripgrep v14.1.0:\n    rg\n";
    assert!(CargoProvider::list_has(out, "ripgrep"));
    assert!(!CargoProvider::list_has(out, "rg"));
    assert!(!CargoProvider::list_has(out, "ripgre"));
}

#[test]
fn brew_search_skips_headings() {
    let pkgs = BrewProvider::parse_search_output("==> Formulae\nwget\n  wget2  \n\n==> Casks\n");
    assert_eq!(pkgs.len(), 2);
    assert_eq!(pkgs[0].name, "wget");
    assert_eq!(pkgs[1].name, "wget2");
    assert_eq!(pkgs[1].version, "latest");
    assert_eq!(pkgs[1].source, PackageSource::Brew);
}

#[test]
fn scoop_search_skips_notes() {
    let out = "Results from local buckets...\n'main' bucket:\n  git 2.43.0\n  solo\n";
    let pkgs = ScoopProvider::parse_search_output(out);
    assert_eq!(pkgs.len(), 1);
    assert_eq!(pkgs[0].name, "git");
    assert_eq!(pkgs[0].version, "2.43.0");
    assert!(ScoopProvider::list_has("Installed apps:\n  git 2.43.0\n", "git"));
    assert!(!ScoopProvider::list_has("Installed apps:\n", "git"));
}

#[test]
fn pacman_search_output_in_pairs() {
    let out = "extra/firefox 121.0-1 [installed]\n    Fast browser\ncore/bash 5.2-2\n    The shell\norphan\n";
    let pkgs = PacmanProvider::parse_search_output(out);
    assert_eq!(pkgs.len(), 2);
    assert_eq!(pkgs[0].name, "firefox");
    assert!(pkgs[0].is_installed);
    assert_eq!(pkgs[0].description, "Fast browser");
    assert_eq!(pkgs[1].name, "bash");
    assert_eq!(pkgs[1].version, "5.2-2");
    assert!(!pkgs[1].is_installed);
}

#[test]
fn pacman_search_failure_cases() {
    assert!(PacmanProvider::search_failure(Some(1), "").unwrap().is_empty());
    assert!(PacmanProvider::search_failure(Some(2), "error: no results found").unwrap().is_empty());
    match PacmanProvider::search_failure(Some(2), "database locked") {
        Err(AppError::Pacman(m)) => assert_eq!(m, "pacman search failed: database locked"),
        other => panic!("unexpected {:?}", other),
    }
}

#[test]
fn pacman_updates_and_outdated_list() {
    let out = "firefox 120.0-1 -> 121.0-1\n\nbash 5.2-1 -> 5.2-2\n";
    assert_eq!(PacmanProvider::count_updates(out), 2);
    assert_eq!(PacmanProvider::count_updates(""), 0);
    let list = PacmanProvider::parse_outdated_list(out);
    assert_eq!(
        list,
        vec![
            ("firefox".to_string(), "120.0-1".to_string()),
            ("bash".to_string(), "5.2-1".to_string())
        ]
    );
}

#[test]
fn pacman_package_info_fills_outdated() {
    let mut pkg = OutdatedPackage::new("yay".into(), "?".into(), "12.3".into(), "unknown".into());
    let info = "Name            : yay\nRepository      : AUR\nInstalled Size  : 8.50 MiB\nDepends On      : pacman>6  git\n";
    let size = PacmanProvider::apply_package_info(&mut pkg, info);
    assert_eq!(size.as_deref(), Some("8.50 MiB"));
    assert_eq!(pkg.repository, "AUR");
    assert!(pkg.is_aur);
    assert_eq!(pkg.new_dependencies, vec!["pacman>6".to_string(), "git".to_string()]);
    assert_eq!(pkg.name, "yay");
    assert_eq!(pkg.new_version, "12.3");
}

#[test]
fn log_line_reads_operation_from_message() {
    let e = parse_log_line("[2026-05-07T10:30:45+0000] [ALPM] info: installed foo").unwrap();
    assert_eq!(e.timestamp, "2026-05-07T10:30:45+0000");
    assert_eq!(e.operation, LogOperation::Installed);
    assert_eq!(e.package, "foo");
    let e = parse_log_line("  [2026-05-07T10:31:02+0000] [ALPM] upgraded bash (5.2-1 -> 5.2-2)").unwrap();
    assert_eq!(e.operation, LogOperation::Upgraded);
    assert_eq!(e.package, "bash");
    let e = parse_log_line("[t] [ALPM] removed vim (9.0-1)").unwrap();
    assert_eq!(e.operation, LogOperation::Removed);
    assert_eq!(e.package, "vim");
    assert!(parse_log_line("[t] [ALPM] transaction started").is_none());
    assert!(parse_log_line("[t] [ALPM] installed").is_none());
    assert!(parse_log_line("[t] [ALPM]").is_none());
    assert!(parse_log_line("no bracket").is_none());
}

#[test]
fn pacman_log_newest_first_and_limited() {
    let content = "[t1] [ALPM] installed a (1)
[t1] [ALPM] running hook
[t2] [ALPM] removed b (2)
[t3] [ALPM] downgraded c (3 -> 2)
";
    let all = parse_pacman_log(content, 10);
    assert_eq!(all.len(), 3);
    assert_eq!(all[0].package, "c");
    assert_eq!(all[0].operation, LogOperation::Downgraded);
    assert_eq!(all[2].package, "a");
    let two = parse_pacman_log(content, 2);
    assert_eq!(two.len(), 2);
    assert_eq!(two[1].package, "b");
    assert_eq!(two[1].operation, LogOperation::Removed);
    assert_eq!(parse_pacman_log(content, 3).len(), 2);
    assert!(parse_pacman_log(content, 0).is_empty());
}

#[test]
fn pacman_log_outcomes() {
    match pacman_log_outcome(false, Ok(String::new()), 5) {
        Err(AppError::Other(m)) => assert_eq!(m, "Pacman log not found"),
        other => panic!("unexpected {:?}", other),
    }
    match pacman_log_outcome(true, Err("permission denied".into()), 5) {
        Err(AppError::Other(m)) => assert_eq!(m, "Failed to read log: permission denied"),
        other => panic!("unexpected {:?}", other),
    }
    let v = pacman_log_outcome(true, Ok("[t] [ALPM] installed foo (1)
".into()), 5).unwrap();
    assert_eq!(v.len(), 1);
    assert_eq!(v[0].package, "foo");
}

#[test]
fn pacman_search_outcomes() {
    let out = "extra/vim 9.1-1
    Editor
".to_string();
    let v = PacmanProvider::search_outcome(true, Some(0), Ok(out), "").unwrap();
    assert_eq!(v.len(), 1);
    assert_eq!(v[0].name, "vim");
    match PacmanProvider::search_outcome(true, Some(0), Err("invalid utf-8 sequence".into()), "") {
        Err(AppError::Pacman(m)) => assert_eq!(m, "Invalid UTF-8 in pacman output: invalid utf-8 sequence"),
        other => panic!("unexpected {:?}", other),
    }
    assert!(PacmanProvider::search_outcome(false, Some(1), Ok(String::new()), "").unwrap().is_empty());
    match PacmanProvider::search_outcome(false, Some(2), Ok(String::new()), "locked") {
        Err(AppError::Pacman(m)) => assert_eq!(m, "pacman search failed: locked"),
        other => panic!("unexpected {:?}", other),
    }
}

fn entry(name: &str, ext: Option<&str>) -> DirEntryInfo {
    DirEntryInfo {
        path: format!("/etc/{}", name),
        file_name: name.to_string(),
        extension: ext.map(|e| e.to_string()),
        modified: None,
    }
}

#[test]
fn pacnew_files_classified_and_sorted() {
    let f = classify_pacnew(entry("pacman.conf.pacnew", Some("pacnew"))).unwrap();
    assert_eq!(f.original_name, "pacman.conf");
    assert_eq!(f.file_type, PacnewType::New);
    assert_eq!(f.path, "/etc/pacman.conf.pacnew");
    assert!(classify_pacnew(entry("hosts", None)).is_none());
    let files = collect_pacnew_files(vec![
        entry("sudoers.pacsave", Some("pacsave")),
        entry("fstab", None),
        entry("makepkg.conf.pacnew", Some("pacnew")),
    ]);
    assert_eq!(files.len(), 2);
    assert_eq!(files[0].original_name, "makepkg.conf");
    assert_eq!(files[1].original_name, "sudoers");
    assert_eq!(files[1].file_type, PacnewType::Save);
}

#[test]
fn archive_versions_newest_first() {
    let html = "<a href=\"2024/01/15/121.0-1/\">a</a> <a href=\"2024/02/01/122.0-1/\">b</a>";
    let v = parse_available_versions(html);
    assert_eq!(v.len(), 2);
    assert_eq!(v[0].version, "122.0-1");
    assert_eq!(v[0].date, "2024/02/01");
    assert_eq!(v[1].version, "121.0-1");
    assert_eq!(v[1].repo, "unknown");
    assert!(parse_available_versions("<html></html>").is_empty());
}

#[test]
fn versions_from_capture_groups() {
    let caps = vec![
        vec![None, Some("2024/03/01".to_string()), Some("1.0-1//".to_string())],
        vec![None, Some("2024/03/02".to_string()), Some("/".to_string())],
        vec![None, Some("2024/03/03".to_string())],
    ];
    let v = versions_from_captures(&caps);
    assert_eq!(v.len(), 1);
    assert_eq!(v[0].version, "1.0-1");
    assert_eq!(v[0].date, "2024/03/01");
}

#[test]
fn uptime_formats() {
    assert_eq!(format_uptime(0), "0h 0m");
    assert_eq!(format_uptime(3 * 3600 + 25 * 60 + 59), "3h 25m");
    assert_eq!(format_uptime(2 * 86400 + 3600 + 60), "2d 1h 1m");
}

#[test]
fn manager_items_for_pacman_and_others() {
    let items = package_manager_items(true, false, true, true, false, false, true);
    let pairs: Vec<(String, String)> = items.into_iter().map(|d| (d.label, d.status)).collect();
    assert_eq!(
        pairs,
        vec![
            ("pacman binary".to_string(), "OK".to_string()),
            ("AUR helper".to_string(), "yay".to_string()),
            ("pacman db lock".to_string(), "LOCKED".to_string()),
        ]
    );
    let items = package_manager_items(false, false, false, false, true, true, false);
    assert_eq!(items.len(), 1);
    assert_eq!(items[0].label, "scoop binary");
    assert!(package_manager_items(false, true, true, false, false, false, true).is_empty());
}

#[test]
fn diagnostics_parsers() {
    let orphans = parse_orphan_packages("vim 9.0\n\nhtop 3.3\n");
    assert_eq!(orphans.len(), 2);
    assert_eq!(orphans[1].name, "htop");

    let sizes = parse_package_size_entries(
        "Name            : vim\nInstalled Size  : 3.50 MiB\nName            : htop\nInstalled Size  : 400.00 KiB\n",
    );
    assert_eq!(
        sizes,
        vec![
            ("vim".to_string(), "3.50 MiB".to_string()),
            ("htop".to_string(), "400.00 KiB".to_string())
        ]
    );

    let (version, source) =
        parse_package_info("Name           : yay\nVersion        : 12.3-1\nRepository    : extra\n");
    assert_eq!(version, "12.3-1");
    assert_eq!(source, "extra");
    let (version, source) = parse_package_info("Version        : 1.0\n");
    assert_eq!(version, "1.0");
    assert_eq!(source, "AUR");

    assert_eq!(parse_foreign_names("  yay  \n\nparu\n"), vec!["yay".to_string(), "paru".to_string()]);
    assert_eq!(count_lines("a\nb\nc"), 3);
    assert_eq!(repository_count(10, 3), 7);
    assert_eq!(repository_count(2, 5), 0);
}

#[test]
fn sizes_and_groups_largest_first() {
    let v = sort_package_sizes(vec![
        PackageSize { name: "a".into(), size_kb: 10, size_formatted: "10 KB".into() },
        PackageSize { name: "b".into(), size_kb: 30, size_formatted: "30 KB".into() },
        PackageSize { name: "c".into(), size_kb: 10, size_formatted: "10 KB".into() },
    ]);
    let names: Vec<&str> = v.iter().map(|p| p.name.as_str()).collect();
    assert_eq!(names, vec!["b", "a", "c"]);

    let groups = parse_package_groups("base-devel gcc\nbase-devel make\nkde a b c\nsolo\n");
    assert_eq!(groups.len(), 3);
    assert_eq!(groups[0].name, "kde");
    assert_eq!(groups[0].member_count, 3);
    assert_eq!(groups[1].name, "base-devel");
    assert_eq!(groups[1].member_count, 1);
}
