//! Query, iterator, and materializer behavior.

use librpm::config::{read_file, GlobalState};
use librpm::db::{find, installed_packages, Database};
use librpm::package::TransientRecord;
use librpm::{Index, MacroContext, Package};

fn record(name: &str, version: &str, license: &str) -> TransientRecord {
    TransientRecord {
        name: String::from(name),
        version: String::from(version),
        license: String::from(license),
        summary: format!("{} summary", name),
        description: format!("{} description", name),
        provide_names: vec![String::from(name), format!("lib{}", name)],
        installed_filenames: vec![format!("/usr/bin/{}", name)],
    }
}

fn drain(mut it: librpm::db::Iter) -> Vec<Package> {
    let mut out: Vec<Package> = Vec::new();
    while let Some(p) = it.next() {
        out.push(p);
    }
    out
}

#[test]
fn index_tags_match_the_native_table() {
    assert_eq!(Index::Name.tag(), 1000);
    assert_eq!(Index::Version.tag(), 1001);
    assert_eq!(Index::Summary.tag(), 1004);
    assert_eq!(Index::Description.tag(), 1005);
    assert_eq!(Index::License.tag(), 1014);
    assert_eq!(Index::ProvideName.tag(), 1047);
    assert_eq!(Index::InstFilenames.tag(), 5040);
}

#[test]
fn installed_packages_yields_one_package_per_record() {
    let db = Database::new(vec![
        record("alpha", "1.0", "MIT"),
        record("beta", "2.1", "GPL"),
        record("gamma", "0.3", "MIT"),
    ]);
    assert_eq!(db.len(), 3);
    let packages = drain(installed_packages(&db));
    assert_eq!(packages.len(), 3);
    assert_eq!(*packages[0].name(), String::from("alpha"));
    assert_eq!(*packages[1].name(), String::from("beta"));
    assert_eq!(*packages[2].name(), String::from("gamma"));
}

#[test]
fn installed_packages_is_stable_across_full_drains() {
    let db = Database::new(vec![
        record("alpha", "1.0", "MIT"),
        record("beta", "2.1", "GPL"),
    ]);
    let first = drain(installed_packages(&db));
    let second = drain(installed_packages(&db));
    assert_eq!(first.len(), second.len());
    for (a, b) in first.iter().zip(second.iter()) {
        assert_eq!(a.name, b.name);
        assert_eq!(a.version, b.version);
        assert_eq!(a.license, b.license);
        assert_eq!(a.summary, b.summary);
        assert_eq!(a.description, b.description);
        assert_eq!(a.provide_names, b.provide_names);
        assert_eq!(a.installed_filenames, b.installed_filenames);
    }
}

#[test]
fn find_matches_byte_exactly_on_every_field() {
    let db = Database::new(vec![
        record("alpha", "1.0", "MIT"),
        record("beta", "2.1", "GPL"),
        record("gamma", "1.0", "MIT"),
    ]);
    let by_name = drain(find(&db, Index::Name, "alpha"));
    assert_eq!(by_name.len(), 1);
    assert_eq!(*by_name[0].version(), String::from("1.0"));

    let by_version = drain(find(&db, Index::Version, "1.0"));
    assert_eq!(by_version.len(), 2);
    assert_eq!(by_version[0].name, String::from("alpha"));
    assert_eq!(by_version[1].name, String::from("gamma"));

    let by_license = drain(find(&db, Index::License, "MIT"));
    assert_eq!(by_license.len(), 2);

    let by_summary = drain(find(&db, Index::Summary, "beta summary"));
    assert_eq!(by_summary.len(), 1);
    assert_eq!(by_summary[0].name, String::from("beta"));

    let by_description = drain(find(&db, Index::Description, "gamma description"));
    assert_eq!(by_description.len(), 1);
    assert_eq!(by_description[0].name, String::from("gamma"));

    // No partial, case-folded, or glob matching.
    assert_eq!(drain(find(&db, Index::Name, "alph")).len(), 0);
    assert_eq!(drain(find(&db, Index::License, "mit")).len(), 0);
    assert_eq!(drain(find(&db, Index::Name, "alpha*")).len(), 0);
}

#[test]
fn find_matches_list_valued_fields_by_membership() {
    let db = Database::new(vec![
        record("alpha", "1.0", "MIT"),
        record("beta", "2.1", "GPL"),
    ]);
    let provides = drain(find(&db, Index::ProvideName, "libalpha"));
    assert_eq!(provides.len(), 1);
    assert_eq!(provides[0].name, String::from("alpha"));

    let files = drain(find(&db, Index::InstFilenames, "/usr/bin/beta"));
    assert_eq!(files.len(), 1);
    assert_eq!(files[0].name, String::from("beta"));

    assert_eq!(drain(find(&db, Index::ProvideName, "libnothing")).len(), 0);
}

#[test]
fn index_find_matches_free_find() {
    let db = Database::new(vec![record("alpha", "1.0", "MIT")]);
    let via_method = drain(Index::Name.find(&db, "alpha"));
    let via_free = drain(find(&db, Index::Name, "alpha"));
    assert_eq!(via_method.len(), 1);
    assert_eq!(via_free.len(), 1);
    assert_eq!(via_method[0].name, via_free[0].name);
}

#[test]
fn exhaustion_is_permanent() {
    let db = Database::new(vec![record("alpha", "1.0", "MIT")]);
    let mut it = installed_packages(&db);
    assert!(it.next().is_some());
    assert!(it.next().is_none());
    assert!(it.next().is_none());
    assert!(it.next().is_none());

    let empty = Database::new(Vec::new());
    let mut none = installed_packages(&empty);
    assert!(none.next().is_none());
    assert!(none.next().is_none());
}

#[test]
fn materialized_package_outlives_the_iterator() {
    let db = Database::new(vec![
        record("alpha", "1.0", "MIT"),
        record("beta", "2.1", "GPL"),
    ]);
    let mut it = installed_packages(&db);
    let alpha = it.next().unwrap();
    // Advancing — and even exhausting and dropping — the iterator leaves the
    // materialized package untouched.
    let beta = it.next().unwrap();
    assert!(it.next().is_none());
    drop(it);
    assert_eq!(alpha.name, String::from("alpha"));
    assert_eq!(alpha.version, String::from("1.0"));
    assert_eq!(alpha.license, String::from("MIT"));
    assert_eq!(beta.name, String::from("beta"));
}

#[test]
fn to_package_copies_every_field() {
    let rec = record("alpha", "1.0", "MIT");
    let p = rec.to_package();
    assert_eq!(p.name, rec.name);
    assert_eq!(p.version, rec.version);
    assert_eq!(p.license, rec.license);
    assert_eq!(p.summary, rec.summary);
    assert_eq!(p.description, rec.description);
    assert_eq!(p.provide_names, rec.provide_names);
    assert_eq!(p.installed_filenames, rec.installed_filenames);
    assert_eq!(*p.summary(), String::from("alpha summary"));
    assert_eq!(*p.description(), String::from("alpha description"));
    assert_eq!(*p.license(), String::from("MIT"));
}

#[test]
fn configured_snapshot_scenario() {
    // A prepared database holding exactly one record named foo at version
    // 1.0, reached through the macro-defined path and a one-shot read.
    let mut ctx = MacroContext::new();
    assert_eq!(ctx.define("_dbpath /tmp/testdb", 0), Ok(()));
    assert_eq!(
        ctx.lookup_body(&String::from("_dbpath")),
        Some(String::from("/tmp/testdb"))
    );
    let mut state = GlobalState::new();
    assert_eq!(read_file(&mut state, None, false, 0), Ok(()));

    let db = Database::new(vec![record("foo", "1.0", "MIT")]);
    let matches = drain(find(&db, Index::Name, "foo"));
    assert_eq!(matches.len(), 1);
    assert_eq!(*matches[0].version(), String::from("1.0"));
}
