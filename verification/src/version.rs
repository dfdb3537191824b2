//! Version resolution: building the primary and fallback version endpoints
//! from the host's release channel, choosing between their answers, and
//! comparing stored channel stamps.

use vstd::prelude::*;
use crate::AuditError;
use crate::text::{
    has_prefix, last_dot_segment, last_segment, str_starts_with, trim_str, trimmed_of,
};

verus! {

/// The primary and fallback version endpoints for a release channel.
///
/// The primary URL is derived from the host's two-part release number, with
/// surrounding whitespace removed; the fallback points at the rolling
/// channel.
pub fn version_urls(short_version: &str) -> (r: (String, String))
    ensures
        r.0@ == "https://raw.githubusercontent.com/xinux-org/database/refs/heads/main/nixos-"@
            + trimmed_of(short_version@) + "/nixpkgs.ver"@,
        r.1@
            == "https://raw.githubusercontent.com/xinux-org/database/refs/heads/main/nixpkgs-unstable/nixpkgs.ver"@,
{
    let trimmed = trim_str(short_version);
    let primary = String::from_str(
        "https://raw.githubusercontent.com/xinux-org/database/refs/heads/main/nixos-",
    ).concat(trimmed.as_str()).concat("/nixpkgs.ver");
    let fallback = String::from_str(
        "https://raw.githubusercontent.com/xinux-org/database/refs/heads/main/nixpkgs-unstable/nixpkgs.ver",
    );
    (primary, fallback)
}

/// Pick the resolved version token out of the two channel answers.
///
/// The primary channel's answer wins when it exists; otherwise the fallback's
/// is taken; when both calls failed the resolution as a whole fails with
/// `VersionResolutionError`.
pub fn resolve_version(primary: Option<String>, fallback: Option<String>) -> (r: Result<
    String,
    AuditError,
>)
    ensures
        primary is Some ==> r == Result::<String, AuditError>::Ok(primary.unwrap()),
        primary is None && fallback is Some ==> r == Result::<String, AuditError>::Ok(
            fallback.unwrap(),
        ),
        primary is None && fallback is None ==> (r matches Result::Err(e) && e
            is VersionResolutionError),
{
    match primary {
        Some(v) => Ok(v),
        None => match fallback {
            Some(v) => Ok(v),
            None => Err(AuditError::VersionResolutionError),
        },
    }
}

/// Compare two stored channel stamps by their last dot-separated segment.
///
/// The pair `(flakes_ver, nixos_ver)` is handed back exactly when the last
/// segment of `nixos_ver` does not start with the last segment of
/// `flakes_ver`, that is, when the two stamps have diverged.
pub fn channel_divergence(flakes_ver: &str, nixos_ver: &str) -> (r: Option<(String, String)>)
    ensures
        match r {
            Option::Some(p) => !has_prefix(
                last_dot_segment(nixos_ver@),
                last_dot_segment(flakes_ver@),
            ) && p.0@ == flakes_ver@ && p.1@ == nixos_ver@,
            Option::None => has_prefix(
                last_dot_segment(nixos_ver@),
                last_dot_segment(flakes_ver@),
            ),
        },
{
    let flakes_last = last_segment(flakes_ver);
    let nixos_last = last_segment(nixos_ver);
    if !str_starts_with(nixos_last.as_str(), flakes_last.as_str()) {
        Some((flakes_ver.to_owned(), nixos_ver.to_owned()))
    } else {
        None
    }
}

} // verus!
