use shatter::cli::{age_filter_fits, confirm_cleanup, confirms_uninstall, normalize_path, parse_age_filter, paths_match, yes_no, UninstallOptions};
use shatter::error::RepoSweepError;
use shatter::fspath::FsPath;
use shatter::upgrade::{find_asset, missing_asset_message, normalize_requested_tag, release_url, ArchiveKind, PlatformTarget, UpgradeOptions};
use shatter::version::{decide_upgrade, parse_release_version, upgrade_decision, UpgradeDecision, VersionOrder};

#[test]
fn normalize_requested_tag_adds_v_prefix() {
    assert_eq!(normalize_requested_tag(Some("0.3.0")), Some("v0.3.0".into()));
    assert_eq!(normalize_requested_tag(Some("v0.3.0")), Some("v0.3.0".into()));
    assert_eq!(normalize_requested_tag(Some("latest")), None);
    assert_eq!(normalize_requested_tag(Some("  ")), None);
}

#[test]
fn parse_release_version_accepts_v_prefix() {
    let version = parse_release_version("v1.2.3").expect("version should parse");
    assert_eq!(version.major(), 1);
    assert_eq!(version.minor(), 2);
    assert_eq!(version.patch(), 3);
}

#[test]
fn asset_name_matches_release_convention() {
    let linux = PlatformTarget { triple: "x86_64-unknown-linux-gnu", archive_kind: ArchiveKind::TarGz };
    let windows = PlatformTarget { triple: "x86_64-pc-windows-msvc", archive_kind: ArchiveKind::Zip };

    assert_eq!(linux.asset_name("v0.4.0"), "reposweep-v0.4.0-x86_64-unknown-linux-gnu.tar.gz");
    assert_eq!(windows.asset_name("v0.4.0"), "reposweep-v0.4.0-x86_64-pc-windows-msvc.zip");
}

#[test]
fn requested_tags_in_other_forms() {
    assert_eq!(normalize_requested_tag(None), None);
    assert_eq!(normalize_requested_tag(Some(" LaTeSt ")), None);
    assert_eq!(normalize_requested_tag(Some("  1.0.0\n")), Some("v1.0.0".into()));
}

#[test]
fn release_versions_are_read_and_compared() {
    assert!(parse_release_version(" vv2.0.1 ").is_ok());
    match parse_release_version("v1.2") {
        Err(m) => assert_eq!(m, "Release tag v1.2 is not a valid semantic version"),
        Ok(_) => panic!("accepted"),
    }
    let current = parse_release_version("0.3.0").unwrap();
    let newer = parse_release_version("v0.4.0").unwrap();
    let older = parse_release_version("v0.2.9").unwrap();
    let same = parse_release_version("v0.3.0").unwrap();
    let pre = parse_release_version("v0.3.0-rc.1").unwrap();
    assert_eq!(upgrade_decision(&newer, &current, false), UpgradeDecision::Install);
    assert_eq!(upgrade_decision(&older, &current, false), UpgradeDecision::RefuseDowngrade);
    assert_eq!(upgrade_decision(&older, &current, true), UpgradeDecision::Install);
    assert_eq!(upgrade_decision(&same, &current, false), UpgradeDecision::AlreadyCurrent);
    assert_eq!(upgrade_decision(&pre, &current, false), UpgradeDecision::RefuseDowngrade);
    assert_eq!(decide_upgrade(VersionOrder::Newer, false), UpgradeDecision::Install);
}

#[test]
fn platforms_and_assets() {
    let t = PlatformTarget::detect("linux", "aarch64").unwrap();
    assert_eq!(t.triple, "aarch64-unknown-linux-gnu");
    assert_eq!(t.archive_kind, ArchiveKind::TarGz);
    assert_eq!(PlatformTarget::detect("windows", "x86_64").unwrap().archive_kind, ArchiveKind::Zip);
    assert_eq!(PlatformTarget::detect("macos", "x86_64").unwrap().triple, "x86_64-apple-darwin");
    assert_eq!(PlatformTarget::detect("freebsd", "x86_64").unwrap_err(), "`reposweep upgrade` is not available for x86_64 on freebsd yet.");
    assert_eq!(ArchiveKind::Zip.extension(), "zip");
    let names = vec!["a.zip".to_string(), "b.tar.gz".to_string(), "b.tar.gz".to_string()];
    assert_eq!(find_asset(&names, "b.tar.gz"), Some(1));
    assert_eq!(find_asset(&names, "c"), None);
    assert_eq!(
        missing_asset_message("v1.0.0", "c", "x86_64-apple-darwin", &names),
        "Release v1.0.0 does not include c for x86_64-apple-darwin. Available assets: a.zip, b.tar.gz, b.tar.gz"
    );
    assert_eq!(missing_asset_message("v1", "c", "t", &vec![]), "Release v1 does not include c for t. Available assets: ");
    assert_eq!(release_url("o/r", Some("v1.0.0")), "https://api.github.com/repos/o/r/releases/tags/v1.0.0");
    assert_eq!(release_url("o/r", None), "https://api.github.com/repos/o/r/releases/latest");
    let options = UpgradeOptions { requested_version: Some("1.0.0".into()) };
    assert_eq!(options.requested_version.as_deref(), Some("1.0.0"));
}

fn invalid(input: &str) -> String {
    match parse_age_filter(Some(input)) {
        Err(RepoSweepError::InvalidRequest(m)) => m,
        _ => panic!("expected a refusal"),
    }
}

#[test]
fn older_than_values() {
    assert_eq!(parse_age_filter(None).unwrap(), None);
    assert_eq!(parse_age_filter(Some("   ")).unwrap(), None);
    assert_eq!(parse_age_filter(Some("2h")).unwrap(), Some(7200));
    assert_eq!(parse_age_filter(Some("3")).unwrap(), Some(3 * 86400));
    assert_eq!(parse_age_filter(Some(" 1d ")).unwrap(), Some(86400));
    assert_eq!(parse_age_filter(Some("2w")).unwrap(), Some(2 * 604800));
    assert_eq!(parse_age_filter(Some("1m")).unwrap(), Some(2592000));
    assert_eq!(parse_age_filter(Some("1y")).unwrap(), Some(31536000));
    assert_eq!(parse_age_filter(Some("007d")).unwrap(), Some(7 * 86400));
    assert_eq!(invalid("d"), "invalid --older-than value: d");
    assert_eq!(invalid(" 99999999999999999999d"), "invalid --older-than value: 99999999999999999999d");
    assert_eq!(invalid("5 days"), "unsupported duration unit in --older-than: 5 days");
    assert_eq!(invalid("5dd"), "unsupported duration unit in --older-than: 5dd");
    assert!(age_filter_fits(Some("5d")));
    assert!(!age_filter_fits(Some("18446744073709551615y")));
}

#[test]
fn confirmations() {
    assert!(confirm_cleanup(true).is_ok());
    match confirm_cleanup(false) {
        Err(e) => assert_eq!(e.message(), "invalid request: pass --yes to confirm non-interactive cleanup"),
        Ok(()) => panic!("confirmed"),
    }
    for yes in ["y", "Y", "yes", "YES", "Yes", " yes\n"] {
        assert!(confirms_uninstall(yes), "{yes:?}");
    }
    for no in ["", "n", "yEs", "no", "yess"] {
        assert!(!confirms_uninstall(no), "{no:?}");
    }
    assert!(UninstallOptions { yes: true }.yes);
    assert_eq!(yes_no(true), "yes");
    assert_eq!(yes_no(false), "no");
}

#[test]
fn install_paths_compare_normalized() {
    let a = FsPath::parse("/usr/local/bin");
    let b = FsPath::parse("/usr/local/bin/");
    assert!(paths_match(&a, None, &b, None));
    let link = FsPath::parse("/opt/bin");
    assert!(!paths_match(&a, None, &link, None));
    assert!(paths_match(&a, None, &link, Some(FsPath::parse("/usr/local/bin"))));
    assert_eq!(normalize_path(&link, None).display(), "/opt/bin");
}
