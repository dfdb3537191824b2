//! The staleness-aware cache: artifact kinds, the refresh decision, and the
//! write protocol that keeps a version stamp from ever describing an artifact
//! that is not durably in place.
//!
//! The decision logic is pure: the caller reads the stamp and resolves the
//! latest version, hands both in, and gets back what to do.  A refresh is a
//! fixed script of actions whose order the caller follows; the stamp write
//! always comes after the artifact write.

use vstd::prelude::*;
use crate::text::{str_eq_str, trim_str, trimmed_of};

verus! {

/// One cached artifact kind: its on-disk names and the URL scheme of its
/// remote source.  The primary URL is `primary_prefix` + trimmed channel +
/// `primary_suffix`; the fallback URL is fixed.
pub struct ArtifactKind {
    pub stamp_name: String,
    pub artifact_name: String,
    pub primary_prefix: String,
    pub primary_suffix: String,
    pub fallback_url: String,
}

impl ArtifactKind {
    /// The primary and fallback snapshot endpoints for this kind, with the
    /// channel's surrounding whitespace removed.
    pub fn snapshot_urls(&self, channel: &str) -> (r: (String, String))
        ensures
            r.0@ == self.primary_prefix@ + trimmed_of(channel@) + self.primary_suffix@,
            r.1@ == self.fallback_url@,
    {
        let trimmed = trim_str(channel);
        let primary = self.primary_prefix.clone().concat(trimmed.as_str()).concat(
            self.primary_suffix.as_str(),
        );
        (primary, self.fallback_url.clone())
    }

    /// Where this kind's version stamp lives under `cache_dir`.
    pub fn stamp_path(&self, cache_dir: &str) -> (r: String)
        ensures
            r@ == cache_dir@ + "/"@ + self.stamp_name@,
    {
        String::from_str(cache_dir).concat("/").concat(self.stamp_name.as_str())
    }

    /// Where this kind's artifact lives under `cache_dir`.
    pub fn artifact_path(&self, cache_dir: &str) -> (r: String)
        ensures
            r@ == cache_dir@ + "/"@ + self.artifact_name@,
    {
        String::from_str(cache_dir).concat("/").concat(self.artifact_name.as_str())
    }
}

/// The package snapshot as the running system's flake configuration sees it.
pub fn flake_packages_kind() -> (k: ArtifactKind)
    ensures
        k.stamp_name@ == "flakespkgs.ver"@,
        k.artifact_name@ == "flakespkgs.db"@,
        k.primary_prefix@ == "https://raw.githubusercontent.com/xinux-org/database/main/nixos-"@,
        k.primary_suffix@ == "/nixpkgs.db.br"@,
        k.fallback_url@
            == "https://raw.githubusercontent.com/xinux-org/database/main/nixos-unstable/nixpkgs.db.br"@,
{
    ArtifactKind {
        stamp_name: String::from_str("flakespkgs.ver"),
        artifact_name: String::from_str("flakespkgs.db"),
        primary_prefix: String::from_str(
            "https://raw.githubusercontent.com/xinux-org/database/main/nixos-",
        ),
        primary_suffix: String::from_str("/nixpkgs.db.br"),
        fallback_url: String::from_str(
            "https://raw.githubusercontent.com/xinux-org/database/main/nixos-unstable/nixpkgs.db.br",
        ),
    }
}

/// The system-wide package snapshot, with broken/insecure metadata.
pub fn nixos_packages_kind() -> (k: ArtifactKind)
    ensures
        k.stamp_name@ == "nixospkgs.ver"@,
        k.artifact_name@ == "nixospkgs.db"@,
        k.primary_prefix@ == "https://raw.githubusercontent.com/xinux-org/database/main/nixos-"@,
        k.primary_suffix@ == "/nixpkgs.db.br"@,
        k.fallback_url@
            == "https://raw.githubusercontent.com/xinux-org/database/main/nixos-unstable/nixpkgs.db.br"@,
{
    ArtifactKind {
        stamp_name: String::from_str("nixospkgs.ver"),
        artifact_name: String::from_str("nixospkgs.db"),
        primary_prefix: String::from_str(
            "https://raw.githubusercontent.com/xinux-org/database/main/nixos-",
        ),
        primary_suffix: String::from_str("/nixpkgs.db.br"),
        fallback_url: String::from_str(
            "https://raw.githubusercontent.com/xinux-org/database/main/nixos-unstable/nixpkgs.db.br",
        ),
    }
}

/// The profile-level package snapshot.
pub fn profile_packages_kind() -> (k: ArtifactKind)
    ensures
        k.stamp_name@ == "nixpkgs.ver"@,
        k.artifact_name@ == "nixpkgs.db"@,
        k.primary_prefix@ == "https://raw.githubusercontent.com/xinux-org/database/main/nixos-"@,
        k.primary_suffix@ == "/nixpkgs.db.br"@,
        k.fallback_url@
            == "https://raw.githubusercontent.com/xinux-org/database/main/nixos-unstable/nixpkgs.db.br"@,
{
    ArtifactKind {
        stamp_name: String::from_str("nixpkgs.ver"),
        artifact_name: String::from_str("nixpkgs.db"),
        primary_prefix: String::from_str(
            "https://raw.githubusercontent.com/xinux-org/database/main/nixos-",
        ),
        primary_suffix: String::from_str("/nixpkgs.db.br"),
        fallback_url: String::from_str(
            "https://raw.githubusercontent.com/xinux-org/database/main/nixos-unstable/nixpkgs.db.br",
        ),
    }
}

/// The options document.
pub fn options_kind() -> (k: ArtifactKind)
    ensures
        k.stamp_name@ == "nixosoptions.ver"@,
        k.artifact_name@ == "nixosoptions.json"@,
        k.primary_prefix@ == "https://channels.nixos.org/nixos-"@,
        k.primary_suffix@ == "/options.json.br"@,
        k.fallback_url@ == "https://channels.nixos.org/nixos-unstable/options.json.br"@,
{
    ArtifactKind {
        stamp_name: String::from_str("nixosoptions.ver"),
        artifact_name: String::from_str("nixosoptions.json"),
        primary_prefix: String::from_str("https://channels.nixos.org/nixos-"),
        primary_suffix: String::from_str("/options.json.br"),
        fallback_url: String::from_str("https://channels.nixos.org/nixos-unstable/options.json.br"),
    }
}

/// What a refresh run decides to do, as ghost data.
pub enum RefreshDecisionModel {
    /// The stamp matches the resolved version and the artifact exists: hand
    /// back the existing path, fetch nothing, write nothing.
    Fresh { path: Seq<char> },
    /// Resolution failed but something is cached: degrade gracefully to the
    /// stale artifact.
    StaleFallback { path: Seq<char> },
    /// Resolution failed and nothing is cached.
    NoCache,
    /// The cache is stale or incomplete: fetch, then write the artifact, then
    /// stamp it with the resolved token.
    FetchNeeded { version: Seq<char> },
}

/// What a refresh run decides to do.
pub enum RefreshDecision {
    Fresh { path: String },
    StaleFallback { path: String },
    NoCache,
    FetchNeeded { version: String },
}

impl View for RefreshDecision {
    type V = RefreshDecisionModel;

    open spec fn view(&self) -> RefreshDecisionModel {
        match self {
            RefreshDecision::Fresh { path } => (RefreshDecisionModel::Fresh { path: path@ }),
            RefreshDecision::StaleFallback { path } => (RefreshDecisionModel::StaleFallback {
                path: path@,
            }),
            RefreshDecision::NoCache => RefreshDecisionModel::NoCache,
            RefreshDecision::FetchNeeded { version } => (RefreshDecisionModel::FetchNeeded {
                version: version@,
            }),
        }
    }
}

/// The refresh decision for one artifact: fresh exactly when the stored stamp
/// and the resolved token agree after trimming and the artifact file exists.
/// A missing or unreadable stamp counts as stale.
pub open spec fn plan_refresh_spec(
    artifact_path: Seq<char>,
    resolved: Option<Seq<char>>,
    stamp: Option<Seq<char>>,
    artifact_exists: bool,
) -> RefreshDecisionModel {
    match resolved {
        Option::None => if artifact_exists {
            (RefreshDecisionModel::StaleFallback { path: artifact_path })
        } else {
            RefreshDecisionModel::NoCache
        },
        Option::Some(v) => if stamp is Some && trimmed_of(stamp.unwrap()) == trimmed_of(v)
            && artifact_exists {
            (RefreshDecisionModel::Fresh { path: artifact_path })
        } else {
            (RefreshDecisionModel::FetchNeeded { version: v })
        },
    }
}

/// Decide what a refresh run must do.
///
/// `resolved` is the latest version token, when resolution succeeded; `stamp`
/// is the stored stamp, when it could be read; `artifact_exists` says whether
/// the artifact file is present under `artifact_path`.
pub fn plan_refresh(
    artifact_path: &str,
    resolved: &Option<String>,
    stamp: &Option<String>,
    artifact_exists: bool,
) -> (d: RefreshDecision)
    ensures
        d@ == plan_refresh_spec(artifact_path@, resolved.deep_view(), stamp.deep_view(), artifact_exists),
{
    match resolved {
        None => {
            if artifact_exists {
                RefreshDecision::StaleFallback { path: artifact_path.to_owned() }
            } else {
                RefreshDecision::NoCache
            }
        },
        Some(v) => {
            let hit = match stamp {
                Some(s) => {
                    let st = trim_str(s.as_str());
                    let vt = trim_str(v.as_str());
                    str_eq_str(st.as_str(), vt.as_str()) && artifact_exists
                },
                None => false,
            };
            if hit {
                RefreshDecision::Fresh { path: artifact_path.to_owned() }
            } else {
                RefreshDecision::FetchNeeded { version: v.clone() }
            }
        },
    }
}

/// One step of a refresh run, in the order the caller performs them.
#[derive(PartialEq, Eq, Structural, Clone, Copy, Debug)]
pub enum RefreshAction {
    /// Download and decompress the snapshot.
    FetchSnapshot,
    /// Replace the artifact file with the decoded bytes.
    WriteArtifact,
    /// Overwrite the version stamp with the resolved token.
    WriteStamp,
}

/// The actions a decision asks for, in order.  Only a stale cache fetches and
/// writes; every other decision leaves the disk alone.
pub open spec fn script_spec(d: RefreshDecisionModel) -> Seq<RefreshAction> {
    if d is FetchNeeded {
        seq![
            RefreshAction::FetchSnapshot,
            RefreshAction::WriteArtifact,
            RefreshAction::WriteStamp,
        ]
    } else {
        Seq::empty()
    }
}

/// The number of fetch attempts a decision asks for.
pub open spec fn fetch_count(d: RefreshDecisionModel) -> nat {
    if d is FetchNeeded {
        1nat
    } else {
        0nat
    }
}

/// The actions the caller must perform for `d`, in order.
pub fn refresh_script(d: &RefreshDecision) -> (acts: Vec<RefreshAction>)
    ensures
        acts@ == script_spec(d@),
{
    match d {
        RefreshDecision::FetchNeeded { .. } => {
            let mut acts: Vec<RefreshAction> = Vec::new();
            acts.push(RefreshAction::FetchSnapshot);
            acts.push(RefreshAction::WriteArtifact);
            acts.push(RefreshAction::WriteStamp);
            proof {
                assert(acts@ =~= script_spec(d@));
            }
            acts
        },
        _ => {
            let acts: Vec<RefreshAction> = Vec::new();
            proof {
                assert(acts@ =~= script_spec(d@));
            }
            acts
        },
    }
}

/// A matching stamp over an existing artifact is a cache hit: for any two
/// version tokens that agree after trimming, the decision hands back the
/// existing path and plans no fetch and no write.
pub proof fn lemma_fresh_cache_no_fetch(
    path: Seq<char>,
    stored: Seq<char>,
    resolved: Seq<char>,
)
    requires
        trimmed_of(stored) == trimmed_of(resolved),
    ensures
        plan_refresh_spec(path, Option::Some(resolved), Option::Some(stored), true)
            == (RefreshDecisionModel::Fresh { path }),
        fetch_count(plan_refresh_spec(path, Option::Some(resolved), Option::Some(stored), true))
            == 0,
        script_spec(plan_refresh_spec(path, Option::Some(resolved), Option::Some(stored), true))
            =~= Seq::<RefreshAction>::empty(),
{
}

/// Distinct version tokens force a refresh: the decision plans exactly one
/// fetch attempt sequence, and its script writes the stamp only after the
/// artifact.
pub proof fn lemma_stale_cache_fetches_once(
    path: Seq<char>,
    stored: Seq<char>,
    resolved: Seq<char>,
    artifact_exists: bool,
)
    requires
        trimmed_of(stored) != trimmed_of(resolved),
    ensures
        plan_refresh_spec(path, Option::Some(resolved), Option::Some(stored), artifact_exists)
            == (RefreshDecisionModel::FetchNeeded { version: resolved }),
        fetch_count(
            plan_refresh_spec(path, Option::Some(resolved), Option::Some(stored), artifact_exists),
        ) == 1,
{
}

/// In every refresh script the stamp write comes strictly after the artifact
/// write, so an interrupted run can leave a stale cache but never a stamp
/// that describes an artifact which is not in place.
pub proof fn lemma_stamp_written_after_artifact(d: RefreshDecisionModel)
    ensures
        forall|i: int|
            0 <= i < script_spec(d).len() && #[trigger] script_spec(d)[i] is WriteStamp
                ==> exists|j: int| 0 <= j < i && #[trigger] script_spec(d)[j] is WriteArtifact,
{
    if d is FetchNeeded {
        assert forall|i: int|
            0 <= i < script_spec(d).len() && #[trigger] script_spec(d)[i] is WriteStamp
                implies exists|j: int| 0 <= j < i && #[trigger] script_spec(d)[j] is WriteArtifact by {
            assert(script_spec(d)[1] is WriteArtifact);
            assert(i == 2);
        }
    }
}

/// Refreshing is idempotent: once a run has resolved token `v` — whether it
/// hit the cache or fetched, wrote the artifact and then stamped it with `v`
/// — a second run that resolves the same token is a cache hit on the same
/// path and performs no fetch and no write.
pub proof fn lemma_second_refresh_is_hit(
    path: Seq<char>,
    v: Seq<char>,
    stamp0: Option<Seq<char>>,
    artifact_exists0: bool,
)
    ensures
        ({
            let d1 = plan_refresh_spec(path, Option::Some(v), stamp0, artifact_exists0);
            let stamp1 = if d1 is FetchNeeded {
                Option::Some(v)
            } else {
                stamp0
            };
            let artifact_exists1 = if d1 is FetchNeeded {
                true
            } else {
                artifact_exists0
            };
            let d2 = plan_refresh_spec(path, Option::Some(v), stamp1, artifact_exists1);
            d2 == (RefreshDecisionModel::Fresh { path }) && script_spec(d2)
                =~= Seq::<RefreshAction>::empty()
        }),
{
}

} // verus!
