//! The queryable package table: one record per attribute, attribute unique.
//!
//! The on-disk artifact is an embedded database; materializing and querying
//! it is the caller's business.  This module owns the record model: a table
//! is built from plain records, refuses duplicate keys, answers lookups, and
//! encodes itself as CSV for the producer-side bulk import.

use vstd::prelude::*;
use crate::AuditError;
use crate::text::{str_eq_str, strings_distinct, seq_has_string};

verus! {

/// One known package: attribute (the unique key), version, and the two
/// advisory flags.
pub struct PackageRecord {
    pub attribute: String,
    pub version: String,
    pub broken: bool,
    pub insecure: bool,
}

/// The ghost reading of a record.
pub struct RecordModel {
    pub attribute: Seq<char>,
    pub version: Seq<char>,
    pub broken: bool,
    pub insecure: bool,
}

impl View for PackageRecord {
    type V = RecordModel;

    open spec fn view(&self) -> RecordModel {
        RecordModel {
            attribute: self.attribute@,
            version: self.version@,
            broken: self.broken,
            insecure: self.insecure,
        }
    }
}

/// No two records share an attribute.
pub open spec fn records_distinct(s: Seq<PackageRecord>) -> bool {
    forall|i: int, j: int| 0 <= i < j < s.len() ==> s[i].attribute@ != s[j].attribute@
}

/// The mapping a record table denotes.
pub open spec fn records_map(s: Seq<PackageRecord>) -> Map<Seq<char>, RecordModel>
    decreases s.len(),
{
    if s.len() == 0 {
        Map::empty()
    } else {
        records_map(s.drop_last()).insert(s.last().attribute@, s.last()@)
    }
}

/// With distinct attributes, the denoted map holds exactly the listed
/// attributes, each at its record.
proof fn lemma_records_map_index(s: Seq<PackageRecord>)
    requires
        records_distinct(s),
    ensures
        forall|k: Seq<char>|
            #[trigger] records_map(s).contains_key(k) <==> exists|i: int|
                0 <= i < s.len() && s[i].attribute@ == k,
        forall|i: int|
            0 <= i < s.len() ==> records_map(s).contains_key(#[trigger] s[i].attribute@)
                && records_map(s)[s[i].attribute@] == s[i]@,
    decreases s.len(),
{
    if s.len() > 0 {
        let t = s.drop_last();
        assert(forall|i: int| 0 <= i < t.len() ==> t[i] == s[i]);
        lemma_records_map_index(t);
        assert forall|k: Seq<char>| #[trigger] records_map(s).contains_key(k) implies exists|i: int|
            0 <= i < s.len() && s[i].attribute@ == k by {
            if k == s.last().attribute@ {
                assert(s[s.len() - 1].attribute@ == k);
            } else {
                assert(records_map(t).contains_key(k));
                let i = choose|i: int| 0 <= i < t.len() && t[i].attribute@ == k;
                assert(t[i] == s[i]);
                assert(s[i].attribute@ == k);
            }
        }
        assert forall|k: Seq<char>| (exists|i: int| 0 <= i < s.len() && s[i].attribute@ == k)
            implies #[trigger] records_map(s).contains_key(k) by {
            let i = choose|i: int| 0 <= i < s.len() && s[i].attribute@ == k;
            if i < s.len() - 1 {
                assert(t[i].attribute@ == k);
            }
        }
        assert forall|i: int| 0 <= i < s.len() implies records_map(s).contains_key(
            #[trigger] s[i].attribute@,
        ) && records_map(s)[s[i].attribute@] == s[i]@ by {
            if i < s.len() - 1 {
                assert(t[i] == s[i]);
                assert(s[i].attribute@ != s.last().attribute@);
            }
        }
    }
}

/// A loaded snapshot generation: immutable once built, replaced wholesale on
/// refresh, never patched in place.
pub struct PackageDatabase {
    records: Vec<PackageRecord>,
}

impl View for PackageDatabase {
    type V = Map<Seq<char>, RecordModel>;

    closed spec fn view(&self) -> Map<Seq<char>, RecordModel> {
        records_map(self.records@)
    }
}

impl PackageDatabase {
    /// The table's attributes are pairwise distinct, as the unique-key schema
    /// demands.
    pub closed spec fn wf(&self) -> bool {
        records_distinct(self.records@)
    }

    /// Materialize a table from plain records.
    ///
    /// Succeeds exactly when the attributes are pairwise distinct; a
    /// duplicate key is a `DatabaseBuildError`, surfaced rather than silently
    /// resolved.
    pub fn from_records(records: Vec<PackageRecord>) -> (r: Result<PackageDatabase, AuditError>)
        ensures
            match r {
                Result::Ok(db) => db.wf() && records_distinct(records@) && db@ == records_map(
                    records@,
                ),
                Result::Err(e) => e is DatabaseBuildError && !records_distinct(records@),
            },
    {
        let n = records.len();
        let mut i: usize = 0;
        while i < n
            invariant
                n == records@.len(),
                i <= n,
                forall|a: int, b: int| 0 <= a < b < i ==> records@[a].attribute@ != records@[b].attribute@,
            decreases n - i,
        {
            let mut j: usize = 0;
            while j < i
                invariant
                    i < n == records@.len(),
                    j <= i,
                    forall|m: int| 0 <= m < j ==> records@[m].attribute@ != records@[i as int].attribute@,
                decreases i - j,
            {
                if str_eq_str(records[j].attribute.as_str(), records[i].attribute.as_str()) {
                    proof {
                        assert(records@[j as int].attribute@ == records@[i as int].attribute@);
                        assert(!records_distinct(records@));
                    }
                    return Err(AuditError::DatabaseBuildError);
                }
                j = j + 1;
            }
            i = i + 1;
        }
        Ok(PackageDatabase { records })
    }

    /// Look one attribute up: at most one record can match, by construction.
    pub fn lookup(&self, attribute: &str) -> (r: Option<&PackageRecord>)
        requires
            self.wf(),
        ensures
            match r {
                Option::Some(rec) => self@.contains_key(attribute@) && self@[attribute@] == rec@
                    && rec.attribute@ == attribute@,
                Option::None => !self@.contains_key(attribute@),
            },
    {
        proof {
            lemma_records_map_index(self.records@);
        }
        let mut i: usize = 0;
        while i < self.records.len()
            invariant
                i <= self.records@.len(),
                self.wf(),
                self@ == records_map(self.records@),
                forall|m: int| 0 <= m < i ==> self.records@[m].attribute@ != attribute@,
                forall|k: Seq<char>|
                    #[trigger] self@.contains_key(k) <==> exists|n: int|
                        0 <= n < self.records@.len() && self.records@[n].attribute@ == k,
                forall|n: int|
                    0 <= n < self.records@.len() ==> self@.contains_key(
                        #[trigger] self.records@[n].attribute@,
                    ) && self@[self.records@[n].attribute@] == self.records@[n]@,
            decreases self.records@.len() - i,
        {
            if str_eq_str(self.records[i].attribute.as_str(), attribute) {
                return Some(&self.records[i]);
            }
            i = i + 1;
        }
        None
    }

    /// The versions of the given attributes, restricted to the ones the table
    /// knows: the joined listing behind the installed-package version report.
    pub fn versions_of(&self, attributes: &Vec<String>) -> (r: Vec<(String, String)>)
        requires
            self.wf(),
            strings_distinct(attributes@),
        ensures
            forall|i: int|
                0 <= i < r@.len() ==> seq_has_string(attributes@, #[trigger] r@[i].0@)
                    && self@.contains_key(r@[i].0@) && r@[i].1@ == self@[r@[i].0@].version,
            forall|j: int|
                0 <= j < attributes@.len() && self@.contains_key(#[trigger] attributes@[j]@)
                    ==> exists|i: int| 0 <= i < r@.len() && r@[i].0@ == attributes@[j]@,
            forall|i: int, j: int| 0 <= i < j < r@.len() ==> r@[i].0@ != r@[j].0@,
    {
        let mut out: Vec<(String, String)> = Vec::new();
        let mut j: usize = 0;
        while j < attributes.len()
            invariant
                j <= attributes@.len(),
                self.wf(),
                strings_distinct(attributes@),
                forall|i: int|
                    0 <= i < out@.len() ==> seq_has_string(attributes@, #[trigger] out@[i].0@)
                        && self@.contains_key(out@[i].0@) && out@[i].1@ == self@[out@[i].0@].version,
                forall|m: int|
                    0 <= m < j && self@.contains_key(#[trigger] attributes@[m]@) ==> exists|i: int|
                        0 <= i < out@.len() && out@[i].0@ == attributes@[m]@,
                forall|i: int|
                    0 <= i < out@.len() ==> exists|m: int|
                        0 <= m < j && #[trigger] out@[i].0@ == attributes@[m]@,
                forall|i: int, k: int| 0 <= i < k < out@.len() ==> out@[i].0@ != out@[k].0@,
            decreases attributes@.len() - j,
        {
            let attr = &attributes[j];
            match self.lookup(attr.as_str()) {
                Some(rec) => {
                    let ghost pre = out@;
                    out.push((attr.clone(), rec.version.clone()));
                    proof {
                        assert(forall|i: int| 0 <= i < pre.len() ==> out@[i] == pre[i]);
                        assert(out@[pre.len() as int].0@ == attributes@[j as int]@);
                        assert forall|i: int, k: int| 0 <= i < k < out@.len() implies out@[i].0@
                            != out@[k].0@ by {
                            if k == out@.len() - 1 {
                                let m = choose|m: int|
                                    0 <= m < j && out@[i].0@ == attributes@[m]@;
                                assert(attributes@[m]@ != attributes@[j as int]@);
                            }
                        }
                    }
                },
                None => {},
            }
            j = j + 1;
        }
        out
    }
}

/// A CSV field must be quoted when it holds the quote, the delimiter, or a
/// line-ending character.
pub open spec fn csv_needs_quotes(f: Seq<char>) -> bool {
    exists|i: int|
        0 <= i < f.len() && (f[i] == '"' || f[i] == ',' || f[i] == '\r' || f[i] == '\n')
}

/// `f` with every quote doubled.
pub open spec fn csv_escaped(f: Seq<char>) -> Seq<char>
    decreases f.len(),
{
    if f.len() == 0 {
        f
    } else if f[0] == '"' {
        seq!['"', '"'] + csv_escaped(f.drop_first())
    } else {
        seq![f[0]] + csv_escaped(f.drop_first())
    }
}

/// One CSV field: enclosed in quotes, with inner quotes doubled, exactly
/// when the field needs it.
pub open spec fn csv_field_of(f: Seq<char>) -> Seq<char> {
    if csv_needs_quotes(f) {
        seq!['"'] + csv_escaped(f) + seq!['"']
    } else {
        f
    }
}

/// What `csv::Writer::serialize` produces for one `(attribute, version)`
/// pair: the two fields, comma-separated, newline-terminated.
pub open spec fn csv_line_of(attribute: Seq<char>, version: Seq<char>) -> Seq<char> {
    csv_field_of(attribute) + seq![','] + csv_field_of(version) + seq!['\n']
}

/// Relies on `csv::Writer` over an in-memory buffer, at its defaults: comma
/// delimiter, `"` quote, `\n` terminator, quotes escaped by doubling, and a
/// field quoted exactly when it holds a quote, a comma, `\r` or `\n` — the
/// characters its writer core marks as requiring quotes.  With a `Vec`
/// writer no I/O error can occur, two string fields raise no serde or
/// record-length error, the flush in `into_inner` cannot fail, and the
/// output of UTF-8 fields is valid UTF-8 — the call always returns.
#[verifier::external_body]
fn csv_encode_pair(attribute: &String, version: &String) -> (r: String)
    ensures
        r@ == csv_line_of(attribute@, version@),
{
    let mut w = csv::Writer::from_writer(Vec::new());
    w.serialize((attribute.as_str(), version.as_str())).expect("in-memory csv write");
    let bytes = w.into_inner().expect("in-memory csv flush");
    String::from_utf8(bytes).expect("csv of utf-8 fields")
}

/// The CSV table for a record sequence, one line per record in order.
pub open spec fn csv_table_of(s: Seq<PackageRecord>) -> Seq<char>
    decreases s.len(),
{
    if s.len() == 0 {
        Seq::empty()
    } else {
        csv_table_of(s.drop_last()) + csv_line_of(s.last().attribute@, s.last().version@)
    }
}

/// Encode a record table as CSV for the bulk import that materializes the
/// embedded database file: one line per record, in order.
pub fn encode_records_csv(records: &Vec<PackageRecord>) -> (r: String)
    ensures
        r@ == csv_table_of(records@),
{
    let mut table = String::new();
    let mut i: usize = 0;
    proof {
        assert(records@.subrange(0, 0) =~= Seq::<PackageRecord>::empty());
    }
    while i < records.len()
        invariant
            i <= records@.len(),
            table@ == csv_table_of(records@.subrange(0, i as int)),
        decreases records@.len() - i,
    {
        let line = csv_encode_pair(&records[i].attribute, &records[i].version);
        proof {
            let t = records@.subrange(0, i as int + 1);
            assert(t.drop_last() =~= records@.subrange(0, i as int));
            assert(t.last() == records@[i as int]);
        }
        table.append(line.as_str());
        i = i + 1;
    }
    proof {
        assert(records@.subrange(0, records@.len() as int) =~= records@);
    }
    table
}

} // verus!
