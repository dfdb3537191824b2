use nixcache::db::{encode_records_csv, PackageDatabase, PackageRecord};

fn rec(attribute: &str, version: &str, broken: bool, insecure: bool) -> PackageRecord {
    PackageRecord {
        attribute: String::from(attribute),
        version: String::from(version),
        broken,
        insecure,
    }
}

#[test]
fn lookup_finds_loaded_record() {
    let db = PackageDatabase::from_records(vec![
        rec("hello", "2.12", false, false),
        rec("git", "2.44", true, false),
    ])
    .unwrap();
    let hello = db.lookup("hello").expect("hello present");
    assert_eq!(hello.version, "2.12");
    assert!(!hello.broken);
    let git = db.lookup("git").expect("git present");
    assert!(git.broken);
    assert!(db.lookup("ghost-pkg").is_none());
}

#[test]
fn duplicate_attribute_refuses_to_build() {
    let r = PackageDatabase::from_records(vec![
        rec("hello", "2.12", false, false),
        rec("hello", "2.13", false, false),
    ]);
    assert!(r.is_err());
}

#[test]
fn versions_of_joins_known_attributes_only() {
    let db = PackageDatabase::from_records(vec![
        rec("hello", "2.12", false, false),
        rec("git", "2.44", false, false),
    ])
    .unwrap();
    let asked = vec![String::from("hello"), String::from("ghost-pkg"), String::from("git")];
    let mut got = db.versions_of(&asked);
    got.sort();
    assert_eq!(
        got,
        vec![
            (String::from("git"), String::from("2.44")),
            (String::from("hello"), String::from("2.12")),
        ]
    );
}

#[test]
fn csv_encoding_renders_one_line_per_record() {
    let records = vec![rec("hello", "2.12", false, false), rec("git", "2.44", false, false)];
    let table = encode_records_csv(&records);
    assert_eq!(table, "hello,2.12\ngit,2.44\n");
}

#[test]
fn csv_encoding_quotes_fields_that_need_it() {
    let records = vec![rec("odd", "1,0", false, false)];
    let table = encode_records_csv(&records);
    assert_eq!(table, "odd,\"1,0\"\n");
}

#[test]
fn csv_encoding_doubles_inner_quotes() {
    let records = vec![rec("odd", "say \"hi\"", false, false)];
    let table = encode_records_csv(&records);
    assert_eq!(table, "odd,\"say \"\"hi\"\"\"\n");
}

#[test]
fn csv_encoding_quotes_line_breaks() {
    let records = vec![rec("odd", "two\nlines", false, false), rec("cr", "a\rb", false, false)];
    let table = encode_records_csv(&records);
    assert_eq!(table, "odd,\"two\nlines\"\ncr,\"a\rb\"\n");
}
