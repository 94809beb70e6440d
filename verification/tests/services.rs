use metapak::backends::providers::pacman::PacmanProvider;
use metapak::commands::{command_display, AurHelperCommand, CommandSpec, SafeCommandBuilder};
use metapak::models::{AppConfig, Package, PackageSource};
use metapak::services::{
    get_aur_clone_command, PackageService, LogEntry, LogOperation, PacnewType,
    SearchCache,
};
use metapak::transaction::plan_package_transaction;

#[test]
fn test_sanitize_input() {
    assert_eq!(SafeCommandBuilder::sanitize("firefox"), "firefox");
    assert_eq!(SafeCommandBuilder::sanitize("rm -rf /"), "rm -rf /");
    assert_eq!(SafeCommandBuilder::sanitize("test; rm -rf /"), "test rm -rf /");
    assert_eq!(
        SafeCommandBuilder::sanitize("test|cat /etc/passwd"),
        "testcat /etc/passwd"
    );
    assert_eq!(SafeCommandBuilder::sanitize("test`whoami`"), "testwhoami");
}

#[test]
fn test_package_name_sanitization() {
    assert_eq!(AurHelperCommand::sanitize_package_name("firefox"), "firefox");
    assert_eq!(
        AurHelperCommand::sanitize_package_name("linux-headers"),
        "linux-headers"
    );
    assert_eq!(
        AurHelperCommand::sanitize_package_name("python-pytest"),
        "python-pytest"
    );
    assert_eq!(
        AurHelperCommand::sanitize_package_name("pkg+name@test"),
        "pkg+name@test"
    );
    assert_eq!(
        AurHelperCommand::sanitize_package_name("test; rm -rf /"),
        "testrm-rf"
    );
}

#[test]
fn test_package_name_validation() {
    assert!(AurHelperCommand::is_valid_package_name("firefox"));
    assert!(AurHelperCommand::is_valid_package_name("linux-headers"));
    assert!(AurHelperCommand::is_valid_package_name("python3"));
    assert!(AurHelperCommand::is_valid_package_name("nodejs-lts-hydrogen"));
    assert!(!AurHelperCommand::is_valid_package_name(""));
    assert!(!AurHelperCommand::is_valid_package_name("test; rm"));
    assert!(!AurHelperCommand::is_valid_package_name("test|grep"));
    assert!(!AurHelperCommand::is_valid_package_name("test\n"));
}

#[test]
fn test_aur_helper_install_validated() {
    let config = AppConfig::default();
    let helper = AurHelperCommand::new(&config, false, false);

    let result = helper.install_command_validated(&["firefox", "vlc"]);
    assert!(result.is_ok());

    let result = helper.install_command_validated(&["test; rm -rf /"]);
    assert!(result.is_err());
    assert!(result.unwrap_err().contains("Invalid package name"));
}

#[test]
fn test_parse_pacman_entry() {
    let header = "core/linux 6.6.1-arch1 (base) [installed]";
    let desc = "The Linux kernel and modules";

    let pkg = PacmanProvider::parse_entry_for_test(header, desc);
    assert!(pkg.is_some());

    let pkg = pkg.unwrap();
    assert_eq!(pkg.name, "linux");
    assert_eq!(pkg.version, "6.6.1-arch1");
    assert!(pkg.is_installed);
}

#[test]
fn test_parse_pacman_entry_not_installed() {
    let header = "community/firefox 120.0-1";
    let desc = "Standalone web browser";

    let pkg = PacmanProvider::parse_entry_for_test(header, desc);
    assert!(pkg.is_some());
    assert!(!pkg.unwrap().is_installed);
}

#[test]
fn test_safe_command_builder() {
    let cmd = SafeCommandBuilder::new("pacman")
        .arg("-S")
        .args(&["firefox", "vlc"]);

    assert_eq!(cmd.build_display(), "pacman -S firefox vlc");
}

#[test]
fn test_search_cache_hit_miss() {
    let mut cache = SearchCache::new();
    let query = "test-query";
    let pkg = Package::new("test-pkg", "1.0");
    let results = vec![pkg];
    let ttl_secs: u64 = 60;

    // Miss initially
    assert!(cache.get_cached(query, ttl_secs).is_none());

    // Put and Hit
    cache.put_cached(query, results);
    let cached = cache.get_cached(query, ttl_secs);
    assert!(cached.is_some());
    assert_eq!(cached.unwrap()[0].name, "test-pkg");

    // Different query miss
    assert!(cache.get_cached("other", ttl_secs).is_none());
}

#[test]
fn test_search_cache_expiry() {
    let mut cache = SearchCache::new();
    let query = "expiry-query";
    let pkg = Package::new("test-pkg", "1.0");
    let results = vec![pkg];

    cache.put_cached(query, results);

    // Immediate hit
    assert!(cache.get_cached(query, 10).is_some());

    // Expired hit (using 0 TTL)
    assert!(cache.get_cached(query, 0).is_none());
}

#[test]
fn test_search_cache_clear() {
    let mut cache = SearchCache::new();
    let query = "clear-query";
    cache.put_cached(query, vec![Package::new("p", "1")]);

    cache.clear();
    assert!(cache.get_cached(query, 60).is_none());
}

#[test]
fn test_get_aur_clone_command() {
    let cmd = get_aur_clone_command("firefox");
    assert_eq!(cmd, "git clone https://aur.archlinux.org/firefox.git");

    let cmd = get_aur_clone_command("polybar");
    assert_eq!(cmd, "git clone https://aur.archlinux.org/polybar.git");
}

#[test]
fn test_log_operation_enum() {
    assert_eq!(LogOperation::Installed, LogOperation::Installed);
    assert_eq!(LogOperation::Removed, LogOperation::Removed);
    assert_eq!(LogOperation::Upgraded, LogOperation::Upgraded);
    assert_eq!(LogOperation::Downgraded, LogOperation::Downgraded);
}

#[test]
fn test_log_entry_creation() {
    let entry = LogEntry {
        timestamp: "2026-05-07T10:30:45+0000".to_string(),
        operation: LogOperation::Installed,
        package: "firefox".to_string(),
    };
    assert_eq!(entry.package, "firefox");
    assert_eq!(entry.operation, LogOperation::Installed);
}

#[test]
fn test_pacnew_type_enum() {
    assert_eq!(PacnewType::New, PacnewType::New);
    assert_eq!(PacnewType::Save, PacnewType::Save);
}

#[test]
fn test_command_spec_display() {
    let spec = CommandSpec {
        prog: "sudo".to_string(),
        args: vec![
            "pacman".to_string(),
            "-S".to_string(),
            "firefox".to_string(),
        ],
    };
    assert_eq!(command_display(&spec), "sudo pacman -S firefox");
}

#[test]
fn test_aur_helper_install_command_paru() {
    let config = AppConfig {
        aur_helper: "paru".to_string(),
        ..Default::default()
    };
    let helper = AurHelperCommand::new(&config, false, false);
    let cmd = helper.install_command(&["firefox"]);
    assert_eq!(cmd.prog, "paru");
}

#[test]
fn test_aur_helper_install_command_yay() {
    let config = AppConfig {
        aur_helper: "yay".to_string(),
        ..Default::default()
    };
    let helper = AurHelperCommand::new(&config, false, false);
    let cmd = helper.install_command(&["vlc"]);
    assert_eq!(cmd.prog, "yay");
}

#[test]
fn test_aur_helper_remove_command() {
    let config = AppConfig::default();
    let helper = AurHelperCommand::new(&config, false, false);
    let cmd = helper.remove_command(&["firefox"]);
    assert!(cmd.args.contains(&"-Rns".to_string()));
}

#[test]
fn test_downgrade_command_builder() {
    let cmd = PackageService::build_downgrade_command("firefox", "120.0-1");
    assert_eq!(cmd.prog, "sudo");
    assert!(cmd.args.contains(&"pacman".to_string()));
    assert!(cmd.args.contains(&"-U".to_string()));
    assert!(cmd.args.iter().any(|a| a.contains("archive.archlinux.org")));
}

#[test]
fn test_plan_package_transaction_ecosystems() {
    let config = AppConfig::default();

    // NPM
    let pkg_npm = Package {
        name: "express".to_string(),
        source: PackageSource::Npm,
        is_installed: false,
        ..Default::default()
    };
    let cmds = plan_package_transaction(&[pkg_npm], &config, false, false);
    assert_eq!(cmds.len(), 1);
    assert_eq!(cmds[0].prog, "npm");
    assert_eq!(cmds[0].args, vec!["install", "-g", "express"]);

    // Cargo
    let pkg_cargo = Package {
        name: "ripgrep".to_string(),
        source: PackageSource::Cargo,
        is_installed: false,
        ..Default::default()
    };
    let cmds = plan_package_transaction(&[pkg_cargo], &config, false, false);
    assert_eq!(cmds.len(), 1);
    assert_eq!(cmds[0].prog, "cargo");
    assert_eq!(cmds[0].args, vec!["install", "ripgrep"]);

    // Pip
    let pkg_pip = Package {
        name: "requests".to_string(),
        source: PackageSource::Pip,
        is_installed: false,
        ..Default::default()
    };
    let cmds = plan_package_transaction(&[pkg_pip], &config, false, false);
    assert_eq!(cmds.len(), 1);
    assert_eq!(cmds[0].prog, "pip");
    assert_eq!(cmds[0].args, vec!["install", "--user", "requests"]);

    // Uninstall NPM
    let pkg_npm_un = Package {
        name: "express".to_string(),
        source: PackageSource::Npm,
        is_installed: true,
        ..Default::default()
    };
    let cmds = plan_package_transaction(&[pkg_npm_un], &config, false, false);
    assert_eq!(cmds.len(), 1);
    assert_eq!(cmds[0].prog, "npm");
    assert_eq!(cmds[0].args, vec!["uninstall", "-g", "express"]);
}
