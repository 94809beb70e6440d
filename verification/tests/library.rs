use metapak::backends::providers::aur::{AurAction, AurEvent, AurPackage, AurProvider, AurResponse, RetryStep};
use metapak::backends::providers::npm::{NpmLinks, NpmPackage, NpmProvider, NpmResponse, NpmResult, NpmUser};
use metapak::backends::providers::pip::{PipProvider, PypiInfo};
use metapak::commands::{AurHelperCommand, CommandSpec, HelperKind, SafeCommandBuilder};
use metapak::models::{AppConfig, AppError, Package, PackageManager, PackageSource, ProviderKind};
use metapak::pattern::Pattern;
use metapak::query::{QuerySourceFilter, QuerySpec};
use metapak::backends::providers::pacman::PacmanProvider;
use metapak::diagnostics::system_info_items;
use metapak::services::{
    archive_index_url, begin_search, dedup_packages, finish_search, needs_install_check,
    order_results, PackageService, SearchCache, SearchStart, SystemUpdateProvider, MAX_TOTAL_RESULTS,
};
use metapak::text::{i32_to_string, join, split_once, u64_to_string};
use metapak::transaction::{plan_package_transaction, plan_rollback_transaction};
use metapak::utils::{validate_path, CircuitBreaker, PasswordInput};

fn view(c: &CommandSpec) -> (String, Vec<String>) {
    (c.prog.clone(), c.args.clone())
}

fn cmd(prog: &str, args: &[&str]) -> (String, Vec<String>) {
    (prog.to_string(), args.iter().map(|s| s.to_string()).collect())
}

#[test]
fn breaker_opens_at_threshold_and_recovers() {
    let mut b = CircuitBreaker::new();
    assert_eq!(b.state(), CircuitBreaker::STATE_CLOSED);
    for _ in 0..4 {
        b.record_failure_at(100);
    }
    assert_eq!(b.failure_count(), 4);
    assert_eq!(b.state(), CircuitBreaker::STATE_CLOSED);
    assert!(b.is_available_at(101));
    b.record_failure_at(100);
    assert_eq!(b.state(), CircuitBreaker::STATE_OPEN);
    assert!(!b.is_available_at(130));
    assert_eq!(b.state(), CircuitBreaker::STATE_OPEN);
    assert!(b.is_available_at(131));
    assert_eq!(b.state(), CircuitBreaker::STATE_HALF_OPEN);
    assert!(b.is_available_at(0));
    b.record_success();
    assert_eq!(b.state(), CircuitBreaker::STATE_CLOSED);
    assert_eq!(b.failure_count(), 0);
}

#[test]
fn breaker_clock_before_failure_counts_as_no_time() {
    let mut b = CircuitBreaker::new();
    for _ in 0..5 {
        b.record_failure_at(1000);
    }
    assert!(!b.is_available_at(10));
    assert!(b.is_available());
}

#[test]
fn password_pop_undoes_push() {
    let mut p = PasswordInput::from_string("héllo".to_string());
    let before = p.expose_secret().to_string();
    p.push('ß');
    p.pop();
    assert_eq!(p.expose_secret(), before);
    assert_eq!(p.len(), 6);
    assert_eq!(p.masked(), "******█");
    let mut e = PasswordInput::default();
    e.pop();
    assert!(e.is_empty());
    assert_eq!(e.masked(), "█");
    assert_eq!(p.get_secret().expose(), "héllo");
}

#[test]
fn paths_with_parent_or_hidden_parts_refused() {
    assert!(!validate_path("../etc/passwd"));
    assert!(!validate_path("/home/u/a/../../etc"));
    assert!(!validate_path("/home/u/.ssh/id_rsa"));
    assert!(validate_path("/home/u/.config/app/settings.toml"));
    assert!(validate_path("/tmp/.tmpA1b2/file"));
    assert!(validate_path("relative/./path"));
    assert!(validate_path(""));
}

#[test]
fn query_filters_and_text() {
    let q = QuerySpec::parse("firefox  source:aur installed:yes");
    assert_eq!(q.text, "firefox");
    assert_eq!(q.source, QuerySourceFilter::Aur);
    assert_eq!(q.installed, Some(true));
    assert!(!q.is_unconstrained());

    let q = QuerySpec::parse("name:^Fire dep:GLIBC web browser source:pacman installed:0");
    assert_eq!(q.text, "web browser");
    assert_eq!(q.name_prefix.as_deref(), Some("fire"));
    assert_eq!(q.dependency_contains.as_deref(), Some("glibc"));
    assert_eq!(q.source, QuerySourceFilter::Repo);
    assert_eq!(q.installed, Some(false));

    let q = QuerySpec::parse("name:Part foo:bar name:^ depends:");
    assert_eq!(q.text, "foo:bar");
    assert_eq!(q.name_contains.as_deref(), Some("part"));
    assert_eq!(q.name_prefix, None);
    assert_eq!(q.dependency_contains, None);

    let q = QuerySpec::parse("  installed:maybe source:other ");
    assert!(q.is_unconstrained());
    assert_eq!(q.base_query("  installed:maybe source:other "), "installed:maybe source:other");
    let q = QuerySpec::parse("vim");
    assert_eq!(q.base_query("ignored"), "vim");
}

#[test]
fn dedup_merges_same_source_and_name() {
    let a = Package::basic("vim".into(), "9.0".into(), "".into(), PackageSource::Pacman, false);
    let b = Package::basic("vim".into(), "9.1".into(), "Vi IMproved".into(), PackageSource::Pacman, true);
    let c = Package::basic("vim".into(), "9.0".into(), "".into(), PackageSource::Aur, false);
    let d = Package::basic("emacs".into(), "29".into(), "Editor".into(), PackageSource::Pacman, false);
    let r = dedup_packages(vec![a, b, c, d]);
    assert_eq!(r.len(), 3);
    assert_eq!(r[0].name, "vim");
    assert_eq!(r[0].version, "9.0");
    assert_eq!(r[0].description, "Vi IMproved");
    assert!(r[0].is_installed);
    assert_eq!(r[1].source, PackageSource::Aur);
    assert_eq!(r[2].name, "emacs");
    assert!(needs_install_check(&r[1]));
    assert!(!needs_install_check(&r[0]));
}

#[test]
fn cache_put_replaces_and_keeps_others() {
    let mut cache = SearchCache::new();
    cache.put_cached("vim", vec![Package::new("vim", "9.0")]);
    cache.put_cached("git", vec![]);
    cache.put_cached("vim", vec![Package::new("vim", "9.1"), Package::new("gvim", "9.1")]);
    let ttl: u64 = 300;
    let v = cache.get_cached("vim", ttl).unwrap();
    assert_eq!(v.len(), 2);
    assert_eq!(v[0].version, "9.1");
    assert!(cache.get_cached("git", ttl).unwrap().is_empty());
    assert!(cache.get_cached("emacs", ttl).is_none());
    let empty = SearchCache::default();
    assert!(empty.get_cached("vim", ttl).is_none());
}

#[test]
fn service_providers_follow_managers() {
    let s = PackageService::new(AppConfig::default(), &[PackageManager::Unknown, PackageManager::Apt, PackageManager::Pacman]);
    assert_eq!(
        s.providers(),
        &vec![
            ProviderKind::Apt,
            ProviderKind::Pacman,
            ProviderKind::Aur,
            ProviderKind::Npm,
            ProviderKind::Cargo,
            ProviderKind::Pip
        ]
    );
    assert_eq!(s.update_provider(), ProviderKind::Apt);
    assert_eq!(s.config().search.cache_ttl_seconds, 300);
    let s = PackageService::new(AppConfig::default(), &[]);
    assert_eq!(s.providers(), &vec![ProviderKind::Npm, ProviderKind::Cargo, ProviderKind::Pip]);
    assert_eq!(s.update_provider(), ProviderKind::Pacman);
}

#[test]
fn plan_removes_first_then_installs_by_source() {
    let config = AppConfig::with_aur_helper("yay");
    let pkgs = [
        Package::basic("vim".into(), "1".into(), "".into(), PackageSource::Pacman, false),
        Package::basic("yay-bin".into(), "1".into(), "".into(), PackageSource::Aur, false),
        Package::basic("htop".into(), "1".into(), "".into(), PackageSource::Pacman, true),
        Package::basic("git".into(), "1".into(), "".into(), PackageSource::Pacman, false),
        Package::basic("left-pad".into(), "1".into(), "".into(), PackageSource::Npm, true),
        Package::basic("dnfpkg".into(), "1".into(), "".into(), PackageSource::Dnf, false),
    ];
    let cmds: Vec<_> = plan_package_transaction(&pkgs, &config, true, false).iter().map(view).collect();
    assert_eq!(
        cmds,
        vec![
            cmd("sudo", &["pacman", "-Rns", "--noconfirm", "htop"]),
            cmd("npm", &["uninstall", "-g", "left-pad"]),
            cmd("sudo", &["pacman", "-S", "--noconfirm", "vim", "git"]),
            cmd("yay", &["-S", "--noconfirm", "yay-bin"]),
        ]
    );
}

#[test]
fn plan_detects_helper_when_not_configured() {
    let config = AppConfig::default();
    let pkgs = [Package::basic("paru-bin".into(), "1".into(), "".into(), PackageSource::Aur, false)];
    let c = plan_package_transaction(&pkgs, &config, false, true);
    assert_eq!(view(&c[0]), cmd("yay", &["-S", "--noconfirm", "paru-bin"]));
    let c = plan_package_transaction(&pkgs, &config, false, false);
    assert_eq!(view(&c[0]), cmd("sudo", &["pacman", "-S", "--noconfirm", "paru-bin"]));
    assert!(plan_package_transaction(&[], &config, true, true).is_empty());
}

#[test]
fn rollback_undoes_installs_and_removals() {
    let config = AppConfig::with_aur_helper("paru");
    let installed = vec!["vim".to_string(), "git".to_string()];
    let removed = vec!["nano".to_string()];
    let cmds: Vec<_> = plan_rollback_transaction(&installed, &removed, &config, false, false)
        .iter()
        .map(view)
        .collect();
    assert_eq!(
        cmds,
        vec![
            cmd("sudo", &["pacman", "-Rns", "--noconfirm", "vim", "git"]),
            cmd("paru", &["-S", "--noconfirm", "nano"]),
        ]
    );
    assert!(plan_rollback_transaction(&[], &[], &config, false, false).is_empty());
}

#[test]
fn helper_commands_sanitize_names() {
    let h = AurHelperCommand::with_kind(HelperKind::Pacman);
    assert_eq!(h.helper(), HelperKind::Pacman);
    assert_eq!(view(&h.update_command()), cmd("sudo", &["pacman", "-Syu", "--noconfirm"]));
    assert_eq!(
        view(&h.install_command(&["foo;rm", "bar"])),
        cmd("sudo", &["pacman", "-S", "--noconfirm", "foorm", "bar"])
    );
    let h = AurHelperCommand::new(&AppConfig::with_aur_helper("auto"), true, true);
    assert_eq!(h.helper(), HelperKind::Paru);
    assert_eq!(AurHelperCommand::detect_helper("yay", true, false), HelperKind::Yay);
    assert_eq!(AurHelperCommand::detect_helper("other", false, false), HelperKind::Pacman);
    match h.remove_command_validated(&["ok", "bad name", "worse;"]) {
        Err(e) => assert_eq!(e, "Invalid package name: bad name"),
        Ok(_) => panic!("invalid name accepted"),
    }
    assert_eq!(
        view(&h.remove_command_validated(&["ok"]).unwrap()),
        cmd("sudo", &["pacman", "-Rns", "--noconfirm", "ok"])
    );
    let b = SafeCommandBuilder::new("ls").arg("-l").args(&["a;b", "c"]);
    assert_eq!(b.build_display(), "ls -l ab c");
}

#[test]
fn archive_and_search_urls() {
    assert_eq!(archive_index_url("vim"), "https://archive.archlinux.org/packages/v/vim/");
    assert_eq!(
        AurProvider::search_url("c++ lib"),
        "https://aur.archlinux.org/rpc/v5/search/c%2B%2B%20lib"
    );
    assert_eq!(
        NpmProvider::search_url("@types/node"),
        "https://registry.npmjs.org/-/v1/search?text=%40types%2Fnode&size=40"
    );
    assert_eq!(PipProvider::search_url("requests"), "https://pypi.org/pypi/requests/json");
    assert_eq!(PipProvider::search_url("é"), "https://pypi.org/pypi/%C3%A9/json");
}

#[test]
fn aur_retry_and_errors() {
    assert_eq!(AurProvider::retry_step(0, true), RetryStep::Done);
    assert_eq!(AurProvider::retry_step(0, false), RetryStep::RetryAfterMs(250));
    assert_eq!(AurProvider::retry_step(1, false), RetryStep::RetryAfterMs(500));
    assert_eq!(AurProvider::retry_step(2, false), RetryStep::GiveUp);
    match AurProvider::unavailable_error() {
        AppError::Aur(m) => assert_eq!(m, "AUR service temporarily unavailable (circuit breaker open)"),
        e => panic!("unexpected {:?}", e),
    }
    match AurProvider::send_failure_error(None) {
        AppError::Aur(m) => assert_eq!(m, "Failed to send AUR request after 3 attempts: unknown error"),
        e => panic!("unexpected {:?}", e),
    }
    match AurProvider::send_failure_error(Some("timeout")) {
        AppError::Aur(m) => assert_eq!(m, "Failed to send AUR request after 3 attempts: timeout"),
        e => panic!("unexpected {:?}", e),
    }
}

fn aur_pkg() -> AurPackage {
    AurPackage {
        name: "yay".into(),
        version: "12.3.5-1".into(),
        description: None,
        url: Some("https://github.com/Jguer/yay".into()),
        maintainer: Some("jguer".into()),
        depends: Some(vec!["pacman".into(), "git".into()]),
        make_depends: Some(vec!["go".into()]),
        opt_depends: None,
        conflicts: Some(vec!["yay-bin".into()]),
        licenses: Some(vec!["GPL-3.0-or-later".into()]),
        keywords: None,
        provides: None,
        num_votes: Some(2300),
        last_updated: Some(1_700_000_000),
        first_submitted: Some(1_400_000_000),
        out_of_date: Some(1_710_000_000),
        package_base_id: Some(-115973),
    }
}

#[test]
fn aur_results_become_packages() {
    let ps = AurProvider::parse_response(AurResponse { result_count: 1, results: vec![aur_pkg()] });
    assert_eq!(ps.len(), 1);
    let p = &ps[0];
    assert_eq!(p.name, "yay");
    assert_eq!(p.description, "");
    assert_eq!(p.source, PackageSource::Aur);
    assert!(p.is_outdated);
    assert_eq!(p.depends_on, vec!["pacman".to_string(), "git".to_string(), "go".to_string()]);
    assert_eq!(p.maintainers, vec!["jguer".to_string()]);
    assert!(p.opt_depends.is_empty());
    assert_eq!(p.package_base_id.as_deref(), Some("-115973"));
    assert_eq!(p.votes, Some(2300));
    assert_eq!(p.num_votes, Some(2300));
}

#[test]
fn npm_results_become_packages() {
    let user = |n: &str| NpmUser { username: Some(n.to_string()) };
    let pkg = NpmPackage {
        name: "express".into(),
        version: "4.19.2".into(),
        description: Some("web framework".into()),
        keywords: Some(vec!["web".into()]),
        links: Some(NpmLinks { npm: Some("https://www.npmjs.com/package/express".into()) }),
        publisher: Some(user("wesleytodd")),
        maintainers: Some(vec![user("dougwilson"), user("wesleytodd"), NpmUser { username: None }, user("dougwilson")]),
        license: Some("MIT".into()),
    };
    let ps = NpmProvider::parse_npm_response(NpmResponse { objects: vec![NpmResult { package: pkg }] });
    assert_eq!(ps.len(), 1);
    let p = &ps[0];
    assert_eq!(p.source, PackageSource::Npm);
    assert_eq!(p.maintainers, vec!["wesleytodd".to_string(), "dougwilson".to_string()]);
    assert_eq!(p.keywords, vec!["web".to_string(), "npm".to_string()]);
    assert_eq!(p.licenses, vec!["MIT".to_string()]);
    assert_eq!(p.url.as_deref(), Some("https://www.npmjs.com/package/express"));
}

#[test]
fn pypi_info_becomes_package() {
    let p = PipProvider::package_from(PypiInfo {
        name: "requests".into(),
        version: "2.31.0".into(),
        summary: None,
        home_page: Some("https://requests.readthedocs.io".into()),
        project_url: None,
        author: Some("Kenneth Reitz".into()),
        license: None,
    });
    assert_eq!(p.source, PackageSource::Pip);
    assert_eq!(p.description, "");
    assert_eq!(p.url.as_deref(), Some("https://requests.readthedocs.io"));
    assert_eq!(p.maintainers, vec!["Kenneth Reitz".to_string()]);
    assert!(p.licenses.is_empty());
}

#[test]
fn text_helpers_exact() {
    assert_eq!(u64_to_string(0), "0");
    assert_eq!(u64_to_string(18446744073709551615), "18446744073709551615");
    assert_eq!(i32_to_string(-2147483648), "-2147483648");
    assert_eq!(i32_to_string(42), "42");
    assert_eq!(join(&vec!["a".to_string(), "b".to_string()], ", "), "a, b");
    assert_eq!(split_once("k = v = w", " = "), Some(("k".to_string(), "v = w".to_string())));
    assert_eq!(split_once("none", " = "), None);
}

#[test]
fn regex_pattern_calls() {
    let p = Pattern::compile("a(b+)c").unwrap();
    assert!(p.is_match("xxabbbc"));
    assert!(!p.is_match("ac"));
    assert_eq!(p.replace_all("abc abbc", "-"), "- -");
    let caps = p.captures("abc abbc");
    assert_eq!(caps.len(), 2);
    assert_eq!(caps[1][1].as_deref(), Some("bb"));
    assert!(Pattern::compile("(").is_none());
}

#[test]
fn results_ordered_by_name_then_pacman_before_aur() {
    let mk = |n: &str, src: PackageSource| Package::basic(n.into(), "1".into(), "".into(), src, false);
    let r = order_results(vec![
        mk("Zsh", PackageSource::Pacman),
        mk("vim", PackageSource::Aur),
        mk("Vim", PackageSource::Pacman),
        mk("alacritty", PackageSource::Npm),
        mk("vim", PackageSource::Npm),
    ]);
    let got: Vec<(&str, PackageSource)> = r.iter().map(|p| (p.name.as_str(), p.source)).collect();
    assert_eq!(
        got,
        vec![
            ("alacritty", PackageSource::Npm),
            ("Vim", PackageSource::Pacman),
            ("vim", PackageSource::Aur),
            ("vim", PackageSource::Npm),
            ("Zsh", PackageSource::Pacman),
        ]
    );
}

#[test]
fn system_update_provider_keeps_delegate() {
    assert_eq!(SystemUpdateProvider::new(ProviderKind::Apt).inner(), ProviderKind::Apt);
}

#[test]
fn cache_answer_follows_age_and_ttl() {
    let mut cache = SearchCache::new();
    cache.put_cached("vim", vec![Package::new("vim", "9.1")]);
    let fresh = cache.get_cached_aged("vim", 10, 9_999_999_999).unwrap();
    assert_eq!(fresh.len(), 1);
    assert_eq!(fresh[0].version, "9.1");
    assert!(cache.get_cached_aged("vim", 10, 10_000_000_000).is_none());
    assert!(cache.get_cached_aged("vim", 0, 0).is_none());
    assert!(cache.get_cached_aged("git", 10, 0).is_none());
    assert!(cache.get_cached("vim", 0).is_none());
}

#[test]
fn search_start_and_finish() {
    let mut cache = SearchCache::new();
    match begin_search(&cache, "  ", 300) {
        SearchStart::Nothing => {}
        other => panic!("unexpected {:?}", other),
    }
    match begin_search(&cache, " source:aur ", 300) {
        SearchStart::Query(t) => assert_eq!(t, "source:aur"),
        other => panic!("unexpected {:?}", other),
    }
    match begin_search(&cache, "vim editor", 300) {
        SearchStart::Query(t) => assert_eq!(t, "vim editor"),
        other => panic!("unexpected {:?}", other),
    }
    let found = vec![
        Package::basic("vim".into(), "9".into(), "".into(), PackageSource::Aur, false),
        Package::basic("Vim".into(), "9".into(), "Editor".into(), PackageSource::Pacman, true),
        Package::basic("vim".into(), "9".into(), "x".into(), PackageSource::Aur, true),
    ];
    let r = finish_search(&mut cache, "vim editor", found);
    let got: Vec<(&str, PackageSource, bool)> = r.iter().map(|p| (p.name.as_str(), p.source, p.is_installed)).collect();
    assert_eq!(got, vec![("Vim", PackageSource::Pacman, true), ("vim", PackageSource::Aur, true)]);
    assert_eq!(r[1].description, "x");
    match begin_search(&cache, "vim editor", 300) {
        SearchStart::Cached(v) => assert_eq!(v.len(), 2),
        other => panic!("unexpected {:?}", other),
    }
    match begin_search(&cache, "vim editor", 0) {
        SearchStart::Query(_) => {}
        other => panic!("unexpected {:?}", other),
    }
}

#[test]
fn outdated_entries_get_placeholders() {
    let e = PacmanProvider::outdated_entries("firefox 120.0-1 -> 121.0-1

solo
bash 5.2-1 -> 5.2-2
");
    assert_eq!(e.len(), 2);
    assert_eq!(e[0].name, "firefox");
    assert_eq!(e[0].current_version, "?");
    assert_eq!(e[0].new_version, "120.0-1");
    assert_eq!(e[0].repository, "unknown");
    assert!(!e[1].is_aur);
    assert_eq!(e[1].name, "bash");
}

#[test]
fn system_info_items_exact() {
    let items = system_info_items(
        Some("Arch Linux".into()),
        None,
        Some("6.9.1".into()),
        None,
        90061,
        None,
        8,
        "1.5GB / 15.6GB used".into(),
        Some((false, 42)),
    );
    let pairs: Vec<(String, String)> = items.into_iter().map(|d| (d.label, d.status)).collect();
    let want: Vec<(String, String)> = [
        ("OS", "Arch Linux"),
        ("OS Version", "unknown"),
        ("Kernel", "6.9.1"),
        ("Hostname", "unknown"),
        ("Uptime", "1d 1h 1m"),
        ("CPU", "unknown"),
        ("CPU Cores", "8"),
        ("Memory", "1.5GB / 15.6GB used"),
        ("Brew packages", "42"),
    ]
    .iter()
    .map(|(a, b)| (a.to_string(), b.to_string()))
    .collect();
    assert_eq!(pairs, want);
    let items = system_info_items(None, None, None, None, 0, None, 1, String::new(), Some((true, 7)));
    assert_eq!(items[8].label, "Installed packages");
    assert_eq!(items[8].status, "7");
    assert_eq!(system_info_items(None, None, None, None, 0, None, 1, String::new(), None).len(), 8);
}

#[test]
fn validated_names_follow_character_rule() {
    let h = AurHelperCommand::with_kind(HelperKind::Yay);
    match h.remove_command_validated(&["Firefox"]) {
        Err(e) => assert_eq!(e, "Invalid package name: Firefox"),
        Ok(_) => panic!("upper case accepted"),
    }
    assert!(AurHelperCommand::is_valid_package_name("lib32-gcc@1.0_x+y"));
    assert!(!AurHelperCommand::is_valid_package_name(""));
    assert!(!AurHelperCommand::is_valid_package_name("café"));
    assert_eq!(SafeCommandBuilder::sanitize("a;b&c|d<e>f$g`h\"i\nj\rk\0l"), "abcdefghijkl");
}

#[test]
fn aur_search_steps_drive_the_breaker() {
    let mut b = CircuitBreaker::new();
    assert!(matches!(AurProvider::search_step(&mut b, 100, AurEvent::Start), AurAction::Send { attempt: 0 }));
    let a = AurProvider::search_step(&mut b, 100, AurEvent::SendFailed { attempt: 0, error: "e0".into() });
    assert!(matches!(a, AurAction::WaitThenSend { ms: 250, attempt: 1 }));
    let a = AurProvider::search_step(&mut b, 101, AurEvent::SendFailed { attempt: 1, error: "e1".into() });
    assert!(matches!(a, AurAction::WaitThenSend { ms: 500, attempt: 2 }));
    assert_eq!(b.failure_count(), 0);
    match AurProvider::search_step(&mut b, 102, AurEvent::SendFailed { attempt: 2, error: "timed out".into() }) {
        AurAction::Fail(AppError::Aur(m)) => assert_eq!(m, "Failed to send AUR request after 3 attempts: timed out"),
        other => panic!("unexpected {:?}", other),
    }
    assert_eq!(b.failure_count(), 1);
    match AurProvider::search_step(&mut b, 103, AurEvent::Responded { success: false, status: "404 Not Found".into() }) {
        AurAction::Fail(AppError::Aur(m)) => assert_eq!(m, "AUR request failed with status 404 Not Found"),
        other => panic!("unexpected {:?}", other),
    }
    assert_eq!(b.failure_count(), 0);
    assert!(matches!(
        AurProvider::search_step(&mut b, 104, AurEvent::Responded { success: true, status: "200 OK".into() }),
        AurAction::ReadBody
    ));
    match AurProvider::search_step(&mut b, 105, AurEvent::BodyUnreadable { error: "eof".into() }) {
        AurAction::Fail(AppError::Aur(m)) => assert_eq!(m, "Failed to parse AUR response: eof"),
        other => panic!("unexpected {:?}", other),
    }
    for _ in 0..5 {
        b.record_failure_at(1000);
    }
    match AurProvider::search_step(&mut b, 1010, AurEvent::Start) {
        AurAction::Fail(AppError::Aur(m)) => assert_eq!(m, "AUR service temporarily unavailable (circuit breaker open)"),
        other => panic!("unexpected {:?}", other),
    }
    assert_eq!(b.state(), CircuitBreaker::STATE_OPEN);
    assert!(matches!(AurProvider::search_step(&mut b, 1031, AurEvent::Start), AurAction::Send { attempt: 0 }));
    assert_eq!(b.state(), CircuitBreaker::STATE_HALF_OPEN);
    assert!(b.failure_count() >= CircuitBreaker::FAILURE_THRESHOLD);
}

#[test]
fn aur_client_settings_are_the_tuned_ones() {
    let s = AurProvider::client_settings();
    assert_eq!(s.timeout_secs, 30);
    assert_eq!(s.connect_timeout_secs, 10);
    assert_eq!(s.pool_max_idle_per_host, 10);
    assert_eq!(s.pool_idle_timeout_secs, 90);
    assert_eq!(s.tcp_keepalive_secs, 60);
    assert!(s.tcp_nodelay);
}

#[test]
fn search_results_are_capped() {
    let mut cache = SearchCache::new();
    let found: Vec<Package> = (0..MAX_TOTAL_RESULTS + 7)
        .map(|i| Package::basic(format!("pkg{:05}", i), "1".into(), "".into(), PackageSource::Npm, false))
        .collect();
    let r = finish_search(&mut cache, "pkg", found);
    assert_eq!(r.len(), MAX_TOTAL_RESULTS);
    assert_eq!(r[0].name, "pkg00000");
}
