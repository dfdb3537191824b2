use nixcache::cache::{
    flake_packages_kind, nixos_packages_kind, options_kind, plan_refresh, profile_packages_kind,
    refresh_script, RefreshAction, RefreshDecision,
};
use nixcache::version::{channel_divergence, resolve_version, version_urls};

#[test]
fn fresh_cache_returns_existing_path() {
    let d = plan_refresh(
        "/cache/nixospkgs.db",
        &Some(String::from("25.11.20240101.abcd")),
        &Some(String::from("25.11.20240101.abcd")),
        true,
    );
    match d {
        RefreshDecision::Fresh { path } => assert_eq!(path, "/cache/nixospkgs.db"),
        _ => panic!("expected a cache hit"),
    }
}

#[test]
fn fresh_cache_plans_no_actions() {
    let d = plan_refresh(
        "/cache/nixospkgs.db",
        &Some(String::from("25.11")),
        &Some(String::from("25.11")),
        true,
    );
    let acts = refresh_script(&d);
    assert!(acts.is_empty());
}

#[test]
fn stamps_compared_after_trim() {
    let d = plan_refresh(
        "/cache/nixospkgs.db",
        &Some(String::from("25.11.1234\n")),
        &Some(String::from("  25.11.1234")),
        true,
    );
    assert!(matches!(d, RefreshDecision::Fresh { .. }));
}

#[test]
fn differing_stamp_forces_fetch() {
    let d = plan_refresh(
        "/cache/nixospkgs.db",
        &Some(String::from("25.11.2")),
        &Some(String::from("25.11.1")),
        true,
    );
    match d {
        RefreshDecision::FetchNeeded { version } => assert_eq!(version, "25.11.2"),
        _ => panic!("expected a refresh"),
    }
}

#[test]
fn missing_artifact_forces_fetch_despite_matching_stamp() {
    let d = plan_refresh(
        "/cache/nixospkgs.db",
        &Some(String::from("25.11.1")),
        &Some(String::from("25.11.1")),
        false,
    );
    assert!(matches!(d, RefreshDecision::FetchNeeded { .. }));
}

#[test]
fn missing_stamp_counts_as_stale() {
    let d = plan_refresh("/cache/nixospkgs.db", &Some(String::from("25.11.1")), &None, true);
    assert!(matches!(d, RefreshDecision::FetchNeeded { .. }));
}

#[test]
fn resolution_failure_with_cache_degrades_to_stale_artifact() {
    let d = plan_refresh("/cache/nixospkgs.db", &None, &Some(String::from("25.11.1")), true);
    match d {
        RefreshDecision::StaleFallback { path } => assert_eq!(path, "/cache/nixospkgs.db"),
        _ => panic!("expected graceful degradation"),
    }
}

#[test]
fn resolution_failure_without_cache_is_fatal() {
    let d = plan_refresh("/cache/nixospkgs.db", &None, &None, false);
    assert!(matches!(d, RefreshDecision::NoCache));
}

#[test]
fn refresh_script_writes_stamp_after_artifact() {
    let d = plan_refresh(
        "/cache/nixospkgs.db",
        &Some(String::from("25.11.2")),
        &Some(String::from("25.11.1")),
        true,
    );
    let acts = refresh_script(&d);
    assert_eq!(
        acts,
        vec![
            RefreshAction::FetchSnapshot,
            RefreshAction::WriteArtifact,
            RefreshAction::WriteStamp,
        ]
    );
    let fetches = acts.iter().filter(|a| **a == RefreshAction::FetchSnapshot).count();
    assert_eq!(fetches, 1);
    let artifact_at = acts.iter().position(|a| *a == RefreshAction::WriteArtifact).unwrap();
    let stamp_at = acts.iter().position(|a| *a == RefreshAction::WriteStamp).unwrap();
    assert!(artifact_at < stamp_at);
}

#[test]
fn second_refresh_with_same_token_is_hit() {
    // First run: stale stamp, so it fetches, writes the artifact, stamps it.
    let resolved = Some(String::from("25.11.2"));
    let d1 = plan_refresh("/cache/nixpkgs.db", &resolved, &Some(String::from("25.11.1")), true);
    let new_stamp = match d1 {
        RefreshDecision::FetchNeeded { version } => version,
        _ => panic!("expected a refresh"),
    };
    // Second run: same resolved token, stamp now written, artifact in place.
    let d2 = plan_refresh("/cache/nixpkgs.db", &resolved, &Some(new_stamp), true);
    match &d2 {
        RefreshDecision::Fresh { path } => assert_eq!(path, "/cache/nixpkgs.db"),
        _ => panic!("expected a cache hit on the second run"),
    }
    assert!(refresh_script(&d2).is_empty());
}

#[test]
fn artifact_kind_paths_and_urls() {
    let k = nixos_packages_kind();
    assert_eq!(k.stamp_path("/cache"), "/cache/nixospkgs.ver");
    assert_eq!(k.artifact_path("/cache"), "/cache/nixospkgs.db");
    let (primary, fallback) = k.snapshot_urls("25.11\n");
    assert_eq!(
        primary,
        "https://raw.githubusercontent.com/xinux-org/database/main/nixos-25.11/nixpkgs.db.br"
    );
    assert_eq!(
        fallback,
        "https://raw.githubusercontent.com/xinux-org/database/main/nixos-unstable/nixpkgs.db.br"
    );
}

#[test]
fn artifact_kinds_use_distinct_files() {
    assert_eq!(flake_packages_kind().artifact_path("/c"), "/c/flakespkgs.db");
    assert_eq!(profile_packages_kind().artifact_path("/c"), "/c/nixpkgs.db");
    assert_eq!(options_kind().artifact_path("/c"), "/c/nixosoptions.json");
    assert_eq!(options_kind().snapshot_urls("25.05").0,
        "https://channels.nixos.org/nixos-25.05/options.json.br");
}

#[test]
fn version_resolution_prefers_primary() {
    let r = resolve_version(Some(String::from("25.11.1")), Some(String::from("26.05.9")));
    assert_eq!(r.unwrap(), "25.11.1");
}

#[test]
fn version_resolution_falls_back() {
    let r = resolve_version(None, Some(String::from("26.05.9")));
    assert_eq!(r.unwrap(), "26.05.9");
}

#[test]
fn version_resolution_fails_when_both_channels_fail() {
    let r = resolve_version(None, None);
    assert!(r.is_err());
}

#[test]
fn version_urls_built_from_trimmed_channel() {
    let (primary, fallback) = version_urls("25.11\n");
    assert_eq!(
        primary,
        "https://raw.githubusercontent.com/xinux-org/database/refs/heads/main/nixos-25.11/nixpkgs.ver"
    );
    assert_eq!(
        fallback,
        "https://raw.githubusercontent.com/xinux-org/database/refs/heads/main/nixpkgs-unstable/nixpkgs.ver"
    );
}

#[test]
fn channel_divergence_reports_diverged_stamps() {
    let r = channel_divergence("25.11.abc", "25.11.def");
    assert_eq!(r, Some((String::from("25.11.abc"), String::from("25.11.def"))));
}

#[test]
fn channel_divergence_silent_when_stamps_agree() {
    assert_eq!(channel_divergence("25.11.abc", "25.11.abcdef"), None);
}
