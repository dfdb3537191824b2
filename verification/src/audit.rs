//! The availability audit: reconcile each installed identity against the
//! alias oracle's answer and the package table, and keep only the problems.
//!
//! An identity that is a known alias whose evaluation currently fails gets an
//! alias verdict first; the database verdict — absent, broken, insecure — is
//! layered after it, so when both apply the database verdict is the one
//! retained.  An identity that is present, unbroken and secure contributes no
//! entry at all: the report lists problems, not the full set.

use vstd::prelude::*;
use crate::assoc::{assoc_get, assoc_keys_distinct, assoc_map, assoc_upsert};
use crate::db::{PackageDatabase, RecordModel};
use crate::text::{strip_or_keep, trim_str, trimmed_of, without_prefix};

verus! {

/// What the alias oracle answered for one identity: whether it is a known
/// alias, whether evaluating it currently fails, and the raw error text when
/// it does.
pub struct OracleReply {
    pub known_alias: bool,
    pub eval_fails: bool,
    pub error_text: String,
}

/// The classification of one installed identity.
pub enum AvailabilityVerdict {
    /// The identity is absent from the latest snapshot.
    NotFoundInLatestSnapshot,
    /// The snapshot marks the package broken.
    MarkedBroken,
    /// The snapshot marks the package insecure.
    MarkedInsecure,
    /// The identity is a known alias and evaluating it fails; the message is
    /// the oracle's error text, cleaned.
    AliasEvaluationError { message: String },
}

/// The ghost reading of a verdict.
pub enum VerdictModel {
    NotFoundInLatestSnapshot,
    MarkedBroken,
    MarkedInsecure,
    AliasEvaluationError { message: Seq<char> },
}

impl View for AvailabilityVerdict {
    type V = VerdictModel;

    open spec fn view(&self) -> VerdictModel {
        match self {
            AvailabilityVerdict::NotFoundInLatestSnapshot => VerdictModel::NotFoundInLatestSnapshot,
            AvailabilityVerdict::MarkedBroken => VerdictModel::MarkedBroken,
            AvailabilityVerdict::MarkedInsecure => VerdictModel::MarkedInsecure,
            AvailabilityVerdict::AliasEvaluationError { message } => (
            VerdictModel::AliasEvaluationError { message: message@ }),
        }
    }
}

/// An oracle error message, cleaned: the fixed `error: ` prefix stripped when
/// present, surrounding whitespace trimmed.
pub open spec fn cleaned_message(raw: Seq<char>) -> Seq<char> {
    trimmed_of(without_prefix(raw, "error: "@))
}

/// Clean an oracle error message.
pub fn clean_error_message(raw: &str) -> (r: String)
    ensures
        r@ == cleaned_message(raw@),
{
    let stripped = strip_or_keep(raw, "error: ");
    trim_str(stripped.as_str())
}

/// The verdict the alias layer contributes: an alias-evaluation error exactly
/// when the identity is a known alias whose evaluation fails.
pub open spec fn alias_verdict(reply: OracleReply) -> Option<VerdictModel> {
    if reply.known_alias && reply.eval_fails {
        Option::Some(
            (VerdictModel::AliasEvaluationError { message: cleaned_message(reply.error_text@) }),
        )
    } else {
        Option::None
    }
}

/// The verdict the database layer contributes: absent, broken or insecure;
/// nothing for a present, unbroken, secure package.
pub open spec fn db_verdict(db: Map<Seq<char>, RecordModel>, identity: Seq<char>) -> Option<
    VerdictModel,
> {
    if !db.contains_key(identity) {
        Option::Some(VerdictModel::NotFoundInLatestSnapshot)
    } else if db[identity].broken {
        Option::Some(VerdictModel::MarkedBroken)
    } else if db[identity].insecure {
        Option::Some(VerdictModel::MarkedInsecure)
    } else {
        Option::None
    }
}

/// The verdict retained for one identity.  The database layer runs after the
/// alias layer and writes last, so its verdict wins whenever both apply; the
/// alias verdict survives only where the database has none.
pub open spec fn subject_verdict(
    reply: OracleReply,
    db: Map<Seq<char>, RecordModel>,
    identity: Seq<char>,
) -> Option<VerdictModel> {
    match db_verdict(db, identity) {
        Option::Some(v) => Option::Some(v),
        Option::None => alias_verdict(reply),
    }
}

/// The full report for a subject listing: one pass per subject in order, each
/// binding its identity to its retained verdict, identities without a
/// problem contributing nothing.
pub open spec fn audit_map(
    subjects: Seq<(String, OracleReply)>,
    db: Map<Seq<char>, RecordModel>,
) -> Map<Seq<char>, VerdictModel>
    decreases subjects.len(),
{
    if subjects.len() == 0 {
        Map::empty()
    } else {
        let m = audit_map(subjects.drop_last(), db);
        match subject_verdict(subjects.last().1, db, subjects.last().0@) {
            Option::None => m,
            Option::Some(v) => m.insert(subjects.last().0@, v),
        }
    }
}

/// The verdicts per identity, spelled out: an identity absent from the
/// snapshot is reported not found; one present and marked broken, broken;
/// one present, unbroken and marked insecure, insecure; and one present with
/// both flags clear is reported only when it is a failing alias, with the
/// oracle's cleaned message — otherwise it contributes no entry at all.
pub proof fn lemma_verdict_cases(
    reply: OracleReply,
    db: Map<Seq<char>, RecordModel>,
    identity: Seq<char>,
)
    ensures
        !db.contains_key(identity) ==> subject_verdict(reply, db, identity) == Option::Some(
            VerdictModel::NotFoundInLatestSnapshot,
        ),
        db.contains_key(identity) && db[identity].broken ==> subject_verdict(reply, db, identity)
            == Option::Some(VerdictModel::MarkedBroken),
        db.contains_key(identity) && !db[identity].broken && db[identity].insecure
            ==> subject_verdict(reply, db, identity) == Option::Some(VerdictModel::MarkedInsecure),
        db.contains_key(identity) && !db[identity].broken && !db[identity].insecure
            && reply.known_alias && reply.eval_fails ==> subject_verdict(reply, db, identity)
            == Option::Some(
            (VerdictModel::AliasEvaluationError { message: cleaned_message(reply.error_text@) }),
        ),
        db.contains_key(identity) && !db[identity].broken && !db[identity].insecure && !(
        reply.known_alias && reply.eval_fails) ==> subject_verdict(reply, db, identity) is None,
{
}

/// What the report holds, when the audited identities are distinct: exactly
/// the retained verdict of each subject whose verdict exists, and no entry
/// for any other identity.
pub proof fn lemma_audit_map_characterized(
    subjects: Seq<(String, OracleReply)>,
    db: Map<Seq<char>, RecordModel>,
)
    requires
        forall|i: int, j: int| 0 <= i < j < subjects.len() ==> subjects[i].0@ != subjects[j].0@,
    ensures
        forall|i: int|
            0 <= i < subjects.len() ==> match subject_verdict(
                subjects[i].1,
                db,
                #[trigger] subjects[i].0@,
            ) {
                Option::Some(v) => audit_map(subjects, db).contains_key(subjects[i].0@)
                    && audit_map(subjects, db)[subjects[i].0@] == v,
                Option::None => !audit_map(subjects, db).contains_key(subjects[i].0@),
            },
        forall|k: Seq<char>|
            #[trigger] audit_map(subjects, db).contains_key(k) ==> exists|i: int|
                0 <= i < subjects.len() && subjects[i].0@ == k,
    decreases subjects.len(),
{
    if subjects.len() > 0 {
        let t = subjects.drop_last();
        let last = subjects.last();
        assert(forall|i: int| 0 <= i < t.len() ==> t[i] == subjects[i]);
        lemma_audit_map_characterized(t, db);
        let m = audit_map(t, db);
        assert forall|k: Seq<char>| #[trigger] audit_map(subjects, db).contains_key(k) implies
            exists|i: int| 0 <= i < subjects.len() && subjects[i].0@ == k by {
            if k == last.0@ {
                assert(subjects[subjects.len() - 1].0@ == k);
            } else {
                assert(m.contains_key(k));
                let i = choose|i: int| 0 <= i < t.len() && t[i].0@ == k;
                assert(subjects[i].0@ == k);
            }
        }
        assert forall|i: int| 0 <= i < subjects.len() implies match subject_verdict(
            subjects[i].1,
            db,
            #[trigger] subjects[i].0@,
        ) {
            Option::Some(v) => audit_map(subjects, db).contains_key(subjects[i].0@) && audit_map(
                subjects,
                db,
            )[subjects[i].0@] == v,
            Option::None => !audit_map(subjects, db).contains_key(subjects[i].0@),
        } by {
            if i == subjects.len() - 1 {
                if subject_verdict(last.1, db, last.0@) is None {
                    if m.contains_key(last.0@) {
                        let n = choose|n: int| 0 <= n < t.len() && t[n].0@ == last.0@;
                        assert(subjects[n].0@ != subjects[subjects.len() - 1].0@);
                        assert(false);
                    }
                }
            } else {
                assert(t[i] == subjects[i]);
                assert(subjects[i].0@ != last.0@);
                if subject_verdict(subjects[i].1, db, subjects[i].0@) is None {
                    if audit_map(subjects, db).contains_key(subjects[i].0@) {
                        assert(m.contains_key(subjects[i].0@));
                    }
                }
            }
        }
    }
}

fn classify(identity: &str, reply: &OracleReply, db: &PackageDatabase) -> (r: Option<
    AvailabilityVerdict,
>)
    requires
        db.wf(),
    ensures
        match r {
            Option::Some(v) => subject_verdict(*reply, db@, identity@) == Option::Some(v@),
            Option::None => subject_verdict(*reply, db@, identity@) is None,
        },
{
    match db.lookup(identity) {
        None => Some(AvailabilityVerdict::NotFoundInLatestSnapshot),
        Some(rec) => {
            if rec.broken {
                Some(AvailabilityVerdict::MarkedBroken)
            } else if rec.insecure {
                Some(AvailabilityVerdict::MarkedInsecure)
            } else if reply.known_alias && reply.eval_fails {
                Some(
                    AvailabilityVerdict::AliasEvaluationError {
                        message: clean_error_message(reply.error_text.as_str()),
                    },
                )
            } else {
                None
            }
        },
    }
}

/// The problems an audit run found: a mapping from identity to verdict.
/// Identities absent from the report are implicitly available.
pub struct AuditReport {
    entries: Vec<(String, AvailabilityVerdict)>,
}

impl View for AuditReport {
    type V = Map<Seq<char>, VerdictModel>;

    closed spec fn view(&self) -> Map<Seq<char>, VerdictModel> {
        assoc_map(self.entries@)
    }
}

impl AuditReport {
    /// Each identity carries at most one verdict.
    pub closed spec fn wf(&self) -> bool {
        assoc_keys_distinct(self.entries@)
    }

    /// The verdict recorded for one identity, if any.
    pub fn get(&self, identity: &str) -> (r: Option<&AvailabilityVerdict>)
        requires
            self.wf(),
        ensures
            match r {
                Option::Some(v) => self@.contains_key(identity@) && self@[identity@] == v@,
                Option::None => !self@.contains_key(identity@),
            },
    {
        assoc_get(&self.entries, identity)
    }

    /// The recorded problems, one entry per identity.
    pub fn problems(&self) -> (r: &Vec<(String, AvailabilityVerdict)>)
        requires
            self.wf(),
        ensures
            assoc_keys_distinct(r@),
            assoc_map(r@) == self@,
    {
        &self.entries
    }

    /// How many identities have a problem.
    pub fn problem_count(&self) -> (r: usize)
        requires
            self.wf(),
        ensures
            r == self.entries_len(),
    {
        self.entries.len()
    }

    /// The number of recorded entries.
    pub closed spec fn entries_len(&self) -> nat {
        self.entries@.len()
    }
}

/// Audit the installed identities.
///
/// Each subject pairs an identity with the oracle's answer for it; `db` is
/// the loaded snapshot.  The report binds every identity whose retained
/// verdict exists — database verdict first, else the alias verdict — and no
/// other; a later subject overwrites an earlier one under the same identity.
pub fn audit(subjects: &Vec<(String, OracleReply)>, db: &PackageDatabase) -> (r: AuditReport)
    requires
        db.wf(),
    ensures
        r.wf(),
        r@ == audit_map(subjects@, db@),
{
    let mut entries: Vec<(String, AvailabilityVerdict)> = Vec::new();
    proof {
        assert(subjects@.subrange(0, 0) =~= Seq::<(String, OracleReply)>::empty());
        assert(assoc_map(entries@) =~= audit_map(subjects@.subrange(0, 0), db@));
    }
    let mut i: usize = 0;
    while i < subjects.len()
        invariant
            i <= subjects@.len(),
            db.wf(),
            assoc_keys_distinct(entries@),
            assoc_map(entries@) == audit_map(subjects@.subrange(0, i as int), db@),
        decreases subjects@.len() - i,
    {
        proof {
            let t = subjects@.subrange(0, i as int + 1);
            assert(t.drop_last() =~= subjects@.subrange(0, i as int));
            assert(t.last() == subjects@[i as int]);
        }
        let subject = &subjects[i];
        match classify(subject.0.as_str(), &subject.1, db) {
            Some(v) => {
                assoc_upsert(&mut entries, subject.0.clone(), v);
            },
            None => {},
        }
        i = i + 1;
    }
    proof {
        assert(subjects@.subrange(0, subjects@.len() as int) =~= subjects@);
    }
    AuditReport { entries }
}

/// The user-facing message for a verdict.
pub open spec fn verdict_message(v: VerdictModel) -> Seq<char> {
    match v {
        VerdictModel::NotFoundInLatestSnapshot => "Package not found in newer version of nixpkgs"@,
        VerdictModel::MarkedBroken => "Package is marked as broken"@,
        VerdictModel::MarkedInsecure => "Package is marked as insecure"@,
        VerdictModel::AliasEvaluationError { message } => message,
    }
}

impl AvailabilityVerdict {
    /// Render this verdict as its user-facing message.
    pub fn describe(&self) -> (r: String)
        ensures
            r@ == verdict_message(self@),
    {
        match self {
            AvailabilityVerdict::NotFoundInLatestSnapshot => String::from_str(
                "Package not found in newer version of nixpkgs",
            ),
            AvailabilityVerdict::MarkedBroken => String::from_str("Package is marked as broken"),
            AvailabilityVerdict::MarkedInsecure => String::from_str(
                "Package is marked as insecure",
            ),
            AvailabilityVerdict::AliasEvaluationError { message } => message.clone(),
        }
    }
}

} // verus!
