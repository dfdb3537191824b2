use nixcache::extract::{
    display_name, extract, normalize_identity, profile_packages, ManifestEntry,
};

/// Read the declared package array out of each document text, as the
/// unverified shell does before calling the extractor.
fn read_docs(texts: &[&str]) -> Vec<Option<Vec<String>>> {
    texts
        .iter()
        .map(|t| nix_editor::read::getarrvals(t, "environment.systemPackages").ok())
        .collect()
}

#[test]
fn extract_merges_documents_and_strips_namespace() {
    let docs = read_docs(&["{ environment.systemPackages = [ pkgs.a b ]; }", "{ malformed"]);
    assert!(docs[0].is_some());
    assert!(docs[1].is_none());
    let mut pkgs = extract(&docs);
    pkgs.sort();
    assert_eq!(pkgs, vec![String::from("a"), String::from("b")]);
}

#[test]
fn extract_deduplicates_across_documents() {
    let docs = read_docs(&[
        "{ environment.systemPackages = [ pkgs.hello git ]; }",
        "{ environment.systemPackages = [ hello pkgs.git vim ]; }",
    ]);
    let mut pkgs = extract(&docs);
    pkgs.sort();
    assert_eq!(pkgs, vec![String::from("git"), String::from("hello"), String::from("vim")]);
}

#[test]
fn extract_skips_unreadable_documents() {
    let docs = vec![Some(vec![String::from("pkgs.a"), String::from("a")]), None];
    assert_eq!(extract(&docs), vec![String::from("a")]);
}

#[test]
fn extract_of_no_documents_is_empty() {
    let docs: Vec<Option<Vec<String>>> = Vec::new();
    assert!(extract(&docs).is_empty());
}

#[test]
fn legacy_attribute_path_drops_two_segments() {
    let r = normalize_identity("legacyPackages.x86_64-linux.foo", "github:ignored/src");
    assert_eq!(r, Some(String::from("foo")));
}

#[test]
fn legacy_attribute_path_keeps_nested_segments() {
    let r = normalize_identity("legacyPackages.x86_64-linux.python3Packages.requests", "u");
    assert_eq!(r, Some(String::from("python3Packages.requests")));
}

#[test]
fn plain_attribute_path_joins_source_url() {
    let r = normalize_identity("bar", "github:x/y");
    assert_eq!(r, Some(String::from("github:x/y#bar")));
}

#[test]
fn short_legacy_attribute_path_yields_no_identity() {
    assert_eq!(normalize_identity("legacyPackages", "github:x/y"), None);
}

#[test]
fn display_name_slices_store_path_hash_prefix() {
    // "/nix/store/" (11) plus a 32-character hash plus "-" makes 44.
    let path = "/nix/store/aaaaaaaaaaaaaaaaaaaaaaaaaaaaaaaa-hello-2.12";
    assert_eq!(display_name(path), Some(String::from("hello-2.12")));
}

#[test]
fn short_store_path_yields_no_name() {
    assert_eq!(display_name("/nix/store/short"), None);
}

#[test]
fn profile_packages_normalizes_and_skips_bad_entries() {
    let entries = vec![
        ManifestEntry {
            attrpath: Some(String::from("legacyPackages.x86_64-linux.hello")),
            originalurl: Some(String::from("flake:nixpkgs")),
            storepaths: vec![String::from(
                "/nix/store/aaaaaaaaaaaaaaaaaaaaaaaaaaaaaaaa-hello-2.12",
            )],
        },
        ManifestEntry {
            attrpath: Some(String::from("bar")),
            originalurl: Some(String::from("github:x/y")),
            storepaths: vec![String::from(
                "/nix/store/bbbbbbbbbbbbbbbbbbbbbbbbbbbbbbbb-bar-1.0",
            )],
        },
        // No attribute path: skipped.
        ManifestEntry {
            attrpath: None,
            originalurl: Some(String::from("github:x/y")),
            storepaths: vec![String::from(
                "/nix/store/cccccccccccccccccccccccccccccccc-baz-1.0",
            )],
        },
        // No store path: skipped.
        ManifestEntry {
            attrpath: Some(String::from("quux")),
            originalurl: Some(String::from("github:x/y")),
            storepaths: Vec::new(),
        },
        // Store path too short: skipped, not fatal.
        ManifestEntry {
            attrpath: Some(String::from("shorty")),
            originalurl: Some(String::from("github:x/y")),
            storepaths: vec![String::from("/nix/store/short")],
        },
    ];
    let pkgs = profile_packages(&entries);
    assert_eq!(pkgs.len(), 2);
    let hello = pkgs.iter().find(|p| p.0 == "hello").expect("hello entry");
    assert_eq!(hello.1.name, "hello-2.12");
    assert_eq!(hello.1.originalurl, "flake:nixpkgs");
    let bar = pkgs.iter().find(|p| p.0 == "github:x/y#bar").expect("bar entry");
    assert_eq!(bar.1.name, "bar-1.0");
}

#[test]
fn profile_packages_last_entry_wins_for_duplicate_identity() {
    let entries = vec![
        ManifestEntry {
            attrpath: Some(String::from("bar")),
            originalurl: Some(String::from("github:x/y")),
            storepaths: vec![String::from(
                "/nix/store/aaaaaaaaaaaaaaaaaaaaaaaaaaaaaaaa-bar-1.0",
            )],
        },
        ManifestEntry {
            attrpath: Some(String::from("bar")),
            originalurl: Some(String::from("github:x/y")),
            storepaths: vec![String::from(
                "/nix/store/bbbbbbbbbbbbbbbbbbbbbbbbbbbbbbbb-bar-2.0",
            )],
        },
    ];
    let pkgs = profile_packages(&entries);
    assert_eq!(pkgs.len(), 1);
    assert_eq!(pkgs[0].1.name, "bar-2.0");
}
