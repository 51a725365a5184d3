use chitin::cache::{CacheBacking, HelpCache};
use chitin::dispatch::{
    HelpAction, RequestKind, classify, decide_help_request, exit_code_of, scope_key_of,
    should_cache_capture, version_text,
};
use chitin::installer::{
    install_route, parse_confirm_choice, parse_package_manager_choice, InstallRoute,
    PackageManager,
};
use chitin::rebrand::rebrand_help;
use chitin::runtime::{RuntimeDetector, entry_point_candidates, select_entry_point};
use chitin::errors::LauncherError;

fn strings(items: &[&str]) -> Vec<String> {
    items.iter().map(|s| s.to_string()).collect()
}

#[test]
fn test_runtime_detector() {
    let detector = RuntimeDetector::new();
    // Just check it doesn't panic
    let _ = detector.has_node();
    let _ = detector.has_npm();
    let _ = detector.has_pnpm();
    let _ = detector.has_package_manager();
    let _ = detector.preferred_package_manager();
}

#[test]
fn test_detector_flags() {
    let d = RuntimeDetector::with_flags(true, false, true);
    assert!(d.has_node());
    assert!(!d.has_npm());
    assert!(d.has_pnpm());
    assert!(d.has_package_manager());
    assert_eq!(d.preferred_package_manager(), Some("pnpm"));

    let d = RuntimeDetector::with_flags(true, true, false);
    assert_eq!(d.preferred_package_manager(), Some("npm"));

    let d = RuntimeDetector::with_flags(false, false, false);
    assert!(!d.has_package_manager());
    assert_eq!(d.preferred_package_manager(), None);
}

#[test]
fn test_classify() {
    assert_eq!(classify(false, true, &strings(&["run"])), RequestKind::Version);
    assert_eq!(classify(true, false, &strings(&["run"])), RequestKind::TopHelp);
    assert_eq!(classify(false, false, &strings(&[])), RequestKind::TopHelp);
    assert_eq!(
        classify(false, false, &strings(&["gateway", "--help"])),
        RequestKind::SubcommandHelp
    );
    assert_eq!(
        classify(false, false, &strings(&["gateway", "-h"])),
        RequestKind::SubcommandHelp
    );
    assert_eq!(
        classify(false, false, &strings(&["gateway", "--port", "80"])),
        RequestKind::Delegate
    );
}

#[test]
fn test_scope_key() {
    assert_eq!(scope_key_of(&strings(&["gateway", "--help"])), "gateway".to_string());
    assert_eq!(scope_key_of(&strings(&["--verbose", "agent", "-h"])), "agent".to_string());
    assert_eq!(scope_key_of(&strings(&["-h", "--help"])), String::new());
    assert_eq!(scope_key_of(&strings(&[])), String::new());
    // An empty token carries no flag marker, so it is the scope-key.
    assert_eq!(scope_key_of(&strings(&["", "gateway"])), String::new());
}

#[test]
fn test_exit_code() {
    assert_eq!(exit_code_of(Some(0)), 0);
    assert_eq!(exit_code_of(Some(3)), 3);
    assert_eq!(exit_code_of(None), 1);
}

#[test]
fn test_should_cache_capture() {
    assert!(should_cache_capture(true, "help"));
    assert!(!should_cache_capture(true, ""));
    assert!(!should_cache_capture(false, "help"));
    assert!(!should_cache_capture(false, ""));
}

#[test]
fn test_version_text() {
    assert_eq!(version_text(), "openclaw 2026.2.1\nchitin 0.1.0\n".to_string());
}

#[test]
fn test_decide_help_request() {
    match decide_help_request(Some("text".to_string()), false) {
        HelpAction::Serve(t) => assert_eq!(t, "text".to_string()),
        _ => panic!("serve expected"),
    }
    assert!(matches!(decide_help_request(None, false), HelpAction::RunInstaller));
    assert!(matches!(decide_help_request(None, true), HelpAction::Capture));
}

#[test]
fn test_entry_point_candidates_order() {
    let home = "/home/u";
    let entries = strings(&["other@1.0", "openclaw@2.0.1", "openclaw@2.1.0"]);
    let cands = entry_point_candidates(home, &entries);
    assert_eq!(
        cands,
        strings(&[
            "/home/u/.local/share/pnpm/global/5/.pnpm/openclaw@2.0.1/node_modules/openclaw/openclaw.mjs",
            "/home/u/.local/share/pnpm/global/5/.pnpm/openclaw@2.1.0/node_modules/openclaw/openclaw.mjs",
            "/home/u/.local/share/pnpm/global/5/node_modules/openclaw/openclaw.mjs",
            "/usr/lib/node_modules/openclaw/openclaw.mjs",
            "/home/u/.npm-global/lib/node_modules/openclaw/openclaw.mjs",
            "/home/u/node_modules/openclaw/openclaw.mjs",
        ])
    );
}

#[test]
fn test_select_entry_point() {
    let cands = strings(&["/a", "/b", "/c"]);
    assert_eq!(
        select_entry_point(&cands, &vec![false, true, true]),
        Ok("/b".to_string())
    );
    assert_eq!(
        select_entry_point(&cands, &vec![true, false, false]),
        Ok("/a".to_string())
    );
    assert_eq!(
        select_entry_point(&cands, &vec![false, false, false]),
        Err(LauncherError::NotFound)
    );
}

#[test]
fn test_package_manager() {
    assert_eq!(PackageManager::Pnpm.name(), "pnpm");
    assert_eq!(PackageManager::Npm.name(), "npm");
    let (cmd, args) = PackageManager::Pnpm.install_openclaw_cmd();
    assert_eq!(cmd, "pnpm");
    assert_eq!(args, strings(&["add", "-g", "openclaw@latest"]));
    let (cmd, args) = PackageManager::Npm.install_openclaw_cmd();
    assert_eq!(cmd, "npm");
    assert_eq!(args, strings(&["install", "-g", "openclaw@latest"]));
}

#[test]
fn test_install_route() {
    assert!(matches!(
        install_route(false, true, true, true),
        InstallRoute::ManualInstructions
    ));
    assert!(matches!(
        install_route(true, true, true, false),
        InstallRoute::InstallTool(PackageManager::Pnpm)
    ));
    assert!(matches!(
        install_route(true, true, true, true),
        InstallRoute::InstallTool(PackageManager::Pnpm)
    ));
    assert!(matches!(
        install_route(true, true, false, true),
        InstallRoute::InstallTool(PackageManager::Npm)
    ));
    assert!(matches!(
        install_route(true, true, false, false),
        InstallRoute::ChoosePackageManager
    ));
    assert!(matches!(
        install_route(true, false, true, true),
        InstallRoute::FullSetup
    ));
}

#[test]
fn test_prompt_choices() {
    assert_eq!(parse_package_manager_choice("1"), PackageManager::Pnpm);
    assert_eq!(parse_package_manager_choice(""), PackageManager::Pnpm);
    assert_eq!(parse_package_manager_choice("2"), PackageManager::Npm);
    assert_eq!(parse_package_manager_choice("bogus"), PackageManager::Pnpm);

    assert!(parse_confirm_choice("y", false));
    assert!(parse_confirm_choice("yes", false));
    assert!(!parse_confirm_choice("n", true));
    assert!(!parse_confirm_choice("no", true));
    assert!(parse_confirm_choice("", true));
    assert!(!parse_confirm_choice("", false));
    assert!(parse_confirm_choice("maybe", true));
}

#[test]
fn test_help_flow_end_to_end() {
    // No cache file exists; runtime present. The first top-level help
    // request captures from the tool once; the second, under the same
    // versions, serves from cache without another capture.
    const NOW: u64 = 2_000_000;
    let mut cache = HelpCache::new(CacheBacking::Absent);
    let mut captures: usize = 0;

    for _ in 0..2 {
        let cached = cache.get_cached_help("2026.2.1", "0.1.0", NOW);
        match decide_help_request(cached, true) {
            HelpAction::Serve(text) => {
                assert_eq!(text, "chitin 0.1.0\nopenclaw 2026.2.1\nUsage: chitin [cmd]\n");
            }
            HelpAction::Capture => {
                captures += 1;
                let captured = "\u{1F99E} OpenClaw interactive help\nUsage: openclaw [cmd]\n";
                let rebranded = rebrand_help(captured);
                cache.save_help(&rebranded, "2026.2.1", "0.1.0", NOW);
            }
            HelpAction::RunInstaller => panic!("runtime is present"),
        }
    }
    assert_eq!(captures, 1);
}
