//! Deriving the installed-package set: merging the array-valued fields that
//! the caller has read out of its configuration documents, and normalizing
//! profile-manifest entries into package identities.
//!
//! The document parsing itself is the caller's: it hands in, per document,
//! the array at the well-known field or `None` where the document could not
//! be read, and the merge tolerates the latter.

use vstd::prelude::*;
use crate::assoc::{assoc_keys_distinct, assoc_map};
use crate::text::{
    contains_string, drop_two_dot_segments, drop_two_segments, has_prefix, seq_has_string,
    str_starts_with, strings_distinct, strip_or_keep, without_prefix,
};

verus! {

/// A raw entry with the well-known namespace prefix stripped, so that
/// `pkgs.foo` and `foo` name the same identity.
pub open spec fn stripped_namespace(v: Seq<char>) -> Seq<char> {
    without_prefix(v, "pkgs."@)
}

/// The first `upto` entries of an array, stripped, as a set.
pub open spec fn vals_pkgs_upto(vals: Seq<Seq<char>>, upto: int) -> Set<Seq<char>> {
    Set::new(|x: Seq<char>| exists|m: int| 0 <= m < upto && stripped_namespace(vals[m]) == x)
}

/// The identities one document contributes: the entries of the array its
/// field held, stripped; nothing when the document could not be read.
pub open spec fn document_pkgs(vals: Option<Seq<Seq<char>>>) -> Set<Seq<char>> {
    match vals {
        Option::None => Set::empty(),
        Option::Some(vs) => vals_pkgs_upto(vs, vs.len() as int),
    }
}

/// The union of the identities all documents declare.
pub open spec fn documents_pkgs(docs: Seq<Option<Vec<String>>>) -> Set<Seq<char>>
    decreases docs.len(),
{
    if docs.len() == 0 {
        Set::empty()
    } else {
        documents_pkgs(docs.drop_last()).union(document_pkgs(docs.last().deep_view()))
    }
}

/// Merge the package identities declared across the given documents into one
/// deduplicated listing.
///
/// Each element of `documents` is the array-valued field read out of one
/// document, `None` where the document failed to parse or lacks the field —
/// such a document is skipped, never fatal to the whole extraction.  Each
/// entry contributes with the namespace prefix stripped; the result holds
/// every declared identity exactly once, in no promised order.
pub fn extract(documents: &Vec<Option<Vec<String>>>) -> (r: Vec<String>)
    ensures
        strings_distinct(r@),
        forall|k: int|
            0 <= k < r@.len() ==> documents_pkgs(documents@).contains(#[trigger] r@[k]@),
        forall|x: Seq<char>|
            #[trigger] documents_pkgs(documents@).contains(x) ==> seq_has_string(r@, x),
{
    let mut out: Vec<String> = Vec::new();
    proof {
        assert(documents@.subrange(0, 0) =~= Seq::<Option<Vec<String>>>::empty());
    }
    let mut d: usize = 0;
    while d < documents.len()
        invariant
            d <= documents@.len(),
            strings_distinct(out@),
            forall|k: int|
                0 <= k < out@.len() ==> documents_pkgs(documents@.subrange(0, d as int)).contains(
                    #[trigger] out@[k]@,
                ),
            forall|x: Seq<char>|
                #[trigger] documents_pkgs(documents@.subrange(0, d as int)).contains(x)
                    ==> seq_has_string(out@, x),
        decreases documents@.len() - d,
    {
        let ghost pre_set = documents_pkgs(documents@.subrange(0, d as int));
        proof {
            let t = documents@.subrange(0, d as int + 1);
            assert(t.drop_last() =~= documents@.subrange(0, d as int));
            assert(t.last() == documents@[d as int]);
        }
        match &documents[d] {
            None => {
                proof {
                    assert(document_pkgs(documents@[d as int].deep_view()) =~= Set::<
                        Seq<char>,
                    >::empty());
                    assert(documents_pkgs(documents@.subrange(0, d as int + 1)) =~= pre_set);
                }
            },
            Some(vals) => {
                let ghost vseq = vals.deep_view();
                let mut m: usize = 0;
                proof {
                    assert(vals_pkgs_upto(vseq, 0) =~= Set::<Seq<char>>::empty());
                    assert(pre_set.union(vals_pkgs_upto(vseq, 0)) =~= pre_set);
                }
                while m < vals.len()
                    invariant
                        m <= vals@.len(),
                        vseq == vals.deep_view(),
                        strings_distinct(out@),
                        forall|k: int|
                            0 <= k < out@.len() ==> pre_set.union(
                                vals_pkgs_upto(vseq, m as int),
                            ).contains(#[trigger] out@[k]@),
                        forall|x: Seq<char>|
                            #[trigger] pre_set.union(vals_pkgs_upto(vseq, m as int)).contains(x)
                                ==> seq_has_string(out@, x),
                    decreases vals@.len() - m,
                {
                    let v = strip_or_keep(vals[m].as_str(), "pkgs.");
                    proof {
                        assert(vseq[m as int] == vals@[m as int]@);
                        assert(stripped_namespace(vseq[m as int]) == v@);
                        assert(vals_pkgs_upto(vseq, m as int + 1) =~= vals_pkgs_upto(
                            vseq,
                            m as int,
                        ).insert(v@));
                    }
                    let ghost preout = out@;
                    if !contains_string(&out, v.as_str()) {
                        out.push(v);
                        proof {
                            assert(forall|k: int| 0 <= k < preout.len() ==> out@[k] == preout[k]);
                            assert(out@[preout.len() as int]@ == stripped_namespace(
                                vseq[m as int],
                            ));
                            assert(strings_distinct(out@));
                        }
                    }
                    proof {
                        assert(seq_has_string(out@, v@));
                        assert forall|x: Seq<char>|
                            #[trigger] pre_set.union(vals_pkgs_upto(vseq, m as int + 1)).contains(
                                x,
                            ) implies seq_has_string(out@, x) by {
                            if x == v@ {
                                assert(seq_has_string(out@, v@));
                            } else {
                                assert(pre_set.union(vals_pkgs_upto(vseq, m as int)).contains(x));
                                assert(seq_has_string(preout, x));
                                let k = choose|k: int| 0 <= k < preout.len() && preout[k]@ == x;
                                assert(out@[k]@ == x);
                            }
                        }
                    }
                    m = m + 1;
                }
                proof {
                    assert(vals_pkgs_upto(vseq, vseq.len() as int) =~= document_pkgs(
                        documents@[d as int].deep_view(),
                    ));
                    assert(documents_pkgs(documents@.subrange(0, d as int + 1))
                        =~= pre_set.union(vals_pkgs_upto(vseq, vseq.len() as int)));
                }
            },
        }
        d = d + 1;
    }
    proof {
        assert(documents@.subrange(0, documents@.len() as int) =~= documents@);
    }
    out
}

/// The fixed length of the store-path hash prefix that a display name is
/// sliced off after.  A store path shorter than this cannot yield a name;
/// such an entry is skipped, never fatal to the whole listing.
pub const STORE_PATH_HASH_PREFIX_LEN: usize = 44;

/// Information about one package installed in the user profile.
pub struct ProfilePkg {
    pub name: String,
    pub originalurl: String,
}

/// The ghost reading of a profile package.
pub struct ProfilePkgModel {
    pub name: Seq<char>,
    pub originalurl: Seq<char>,
}

impl View for ProfilePkg {
    type V = ProfilePkgModel;

    open spec fn view(&self) -> ProfilePkgModel {
        ProfilePkgModel { name: self.name@, originalurl: self.originalurl@ }
    }
}

/// One entry of the profile manifest, already reduced to plain values.
pub struct ManifestEntry {
    pub attrpath: Option<String>,
    pub originalurl: Option<String>,
    pub storepaths: Vec<String>,
}

/// The normalized identity of a manifest entry: a legacy-namespace attribute
/// path loses its first two dot-separated segments; any other path becomes
/// `originalurl#attrpath`.  A legacy path without enough segments yields no
/// identity.
pub open spec fn normalized_identity(attrpath: Seq<char>, originalurl: Seq<char>) -> Option<
    Seq<char>,
> {
    if has_prefix(attrpath, "legacyPackages"@) {
        drop_two_segments(attrpath)
    } else {
        Option::Some(originalurl + "#"@ + attrpath)
    }
}

/// Normalize one attribute path against its originating source.
pub fn normalize_identity(attrpath: &str, originalurl: &str) -> (r: Option<String>)
    ensures
        match r {
            Option::Some(t) => normalized_identity(attrpath@, originalurl@) == Option::Some(t@),
            Option::None => normalized_identity(attrpath@, originalurl@) is None,
        },
{
    if str_starts_with(attrpath, "legacyPackages") {
        drop_two_dot_segments(attrpath)
    } else {
        Some(String::from_str(originalurl).concat("#").concat(attrpath))
    }
}

/// The display name a store path yields: everything after the fixed-length
/// hash prefix, or nothing when the path is too short.
pub open spec fn display_name_of(store_path: Seq<char>) -> Option<Seq<char>> {
    if store_path.len() >= STORE_PATH_HASH_PREFIX_LEN {
        Option::Some(store_path.skip(STORE_PATH_HASH_PREFIX_LEN as int))
    } else {
        Option::None
    }
}

/// Slice the display name off a store path.
pub fn display_name(store_path: &str) -> (r: Option<String>)
    ensures
        match r {
            Option::Some(t) => display_name_of(store_path@) == Option::Some(t@),
            Option::None => display_name_of(store_path@) is None,
        },
{
    let n = store_path.unicode_len();
    if n >= STORE_PATH_HASH_PREFIX_LEN {
        Some(store_path.substring_char(STORE_PATH_HASH_PREFIX_LEN, n).to_owned())
    } else {
        None
    }
}

/// What one manifest entry contributes: its identity and profile package, or
/// nothing when a field is missing, the legacy path is too short, or the
/// first store path cannot yield a name.
pub open spec fn entry_record(e: ManifestEntry) -> Option<(Seq<char>, ProfilePkgModel)> {
    if e.attrpath is Some && e.originalurl is Some && e.storepaths@.len() > 0 {
        match normalized_identity(e.attrpath.unwrap()@, e.originalurl.unwrap()@) {
            Option::None => Option::None,
            Option::Some(id) => match display_name_of(e.storepaths@[0]@) {
                Option::None => Option::None,
                Option::Some(nm) => Option::Some(
                    (id, ProfilePkgModel { name: nm, originalurl: e.originalurl.unwrap()@ }),
                ),
            },
        }
    } else {
        Option::None
    }
}

/// The mapping the whole manifest denotes: entries in order, a later entry
/// overwriting an earlier one under the same identity, skipped entries
/// contributing nothing.
pub open spec fn profile_map(entries: Seq<ManifestEntry>) -> Map<Seq<char>, ProfilePkgModel>
    decreases entries.len(),
{
    if entries.len() == 0 {
        Map::empty()
    } else {
        let m = profile_map(entries.drop_last());
        match entry_record(entries.last()) {
            Option::None => m,
            Option::Some(p) => m.insert(p.0, p.1),
        }
    }
}

/// Turn the manifest entries into the profile-package listing, keyed by
/// normalized identity.
pub fn profile_packages(entries: &Vec<ManifestEntry>) -> (r: Vec<(String, ProfilePkg)>)
    ensures
        assoc_keys_distinct(r@),
        assoc_map(r@) == profile_map(entries@),
{
    let mut out: Vec<(String, ProfilePkg)> = Vec::new();
    proof {
        assert(entries@.subrange(0, 0) =~= Seq::<ManifestEntry>::empty());
        assert(assoc_map(out@) =~= profile_map(entries@.subrange(0, 0)));
    }
    let mut d: usize = 0;
    while d < entries.len()
        invariant
            d <= entries@.len(),
            assoc_keys_distinct(out@),
            assoc_map(out@) == profile_map(entries@.subrange(0, d as int)),
        decreases entries@.len() - d,
    {
        proof {
            let t = entries@.subrange(0, d as int + 1);
            assert(t.drop_last() =~= entries@.subrange(0, d as int));
            assert(t.last() == entries@[d as int]);
        }
        let e = &entries[d];
        match (&e.attrpath, &e.originalurl) {
            (Some(ap), Some(url)) => {
                if e.storepaths.len() > 0 {
                    match normalize_identity(ap.as_str(), url.as_str()) {
                        Some(id) => {
                            match display_name(e.storepaths[0].as_str()) {
                                Some(nm) => {
                                    crate::assoc::assoc_upsert(
                                        &mut out,
                                        id,
                                        ProfilePkg { name: nm, originalurl: url.clone() },
                                    );
                                },
                                None => {},
                            }
                        },
                        None => {},
                    }
                }
            },
            _ => {},
        }
        d = d + 1;
    }
    proof {
        assert(entries@.subrange(0, entries@.len() as int) =~= entries@);
    }
    out
}

} // verus!
