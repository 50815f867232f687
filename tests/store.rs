use proto_index::model::find_method;
use proto_index::file::parse_file;
use proto_index::store::{ScanError, ScanStore};

fn names(store: &ScanStore, id: &str) -> Vec<String> {
    store.services(id).iter().map(|s| s.fq_service.clone()).collect()
}

#[test]
fn unknown_root_is_an_error() {
    let mut store = ScanStore::new();
    assert_eq!(store.root_path("nope"), Err(ScanError::RootNotFound));
    assert_eq!(store.publish_scan("nope", &Vec::new(), &Vec::new()), Err(ScanError::RootNotFound));
    assert!(store.files("nope").is_empty());
    assert!(store.services("nope").is_empty());
}

#[test]
fn registered_root_before_any_scan() {
    let mut store = ScanStore::new();
    store.register_root("r1", "/defs");
    assert_eq!(store.root_path("r1"), Ok("/defs".to_string()));
    assert!(store.files("r1").is_empty());
    assert!(store.services("r1").is_empty());
}

#[test]
fn latest_scan_replaces_previous() {
    let mut store = ScanStore::new();
    store.register_root("r1", "/defs");
    let files = vec!["/defs/a.proto".to_string(), "/defs/b.proto".to_string()];
    let contents = vec![
        Some("service A { rpc M(X) returns (Y); }".to_string()),
        Some("package p; service B { }".to_string()),
    ];
    assert_eq!(store.publish_scan("r1", &files, &contents), Ok(()));
    assert_eq!(store.files("r1"), vec!["a.proto".to_string(), "b.proto".to_string()]);
    assert_eq!(names(&store, "r1"), vec!["A".to_string(), "p.B".to_string()]);

    let files2 = vec!["/defs/c.proto".to_string()];
    let contents2 = vec![Some("service C { }".to_string())];
    assert_eq!(store.publish_scan("r1", &files2, &contents2), Ok(()));
    assert_eq!(store.files("r1"), vec!["c.proto".to_string()]);
    assert_eq!(names(&store, "r1"), vec!["C".to_string()]);
}

#[test]
fn roots_are_independent() {
    let mut store = ScanStore::new();
    store.register_root("a", "/a");
    store.register_root("b", "/b");
    let fa = vec!["/a/x.proto".to_string()];
    let ca = vec![Some("service X { }".to_string())];
    assert_eq!(store.publish_scan("a", &fa, &ca), Ok(()));
    assert_eq!(names(&store, "a"), vec!["X".to_string()]);
    assert!(store.services("b").is_empty());
    let mut ids = store.root_ids();
    ids.sort();
    assert_eq!(ids, vec!["a".to_string(), "b".to_string()]);
}

#[test]
fn removed_root_is_forgotten() {
    let mut store = ScanStore::new();
    store.register_root("a", "/a");
    let fa = vec!["/a/x.proto".to_string()];
    let ca = vec![Some("service X { }".to_string())];
    assert_eq!(store.publish_scan("a", &fa, &ca), Ok(()));
    store.remove_root("a");
    assert_eq!(store.root_path("a"), Err(ScanError::RootNotFound));
    assert!(store.services("a").is_empty());
    assert!(store.files("a").is_empty());
    assert!(store.root_ids().is_empty());
}

#[test]
fn registering_again_clears_result() {
    let mut store = ScanStore::new();
    store.register_root("a", "/a");
    let fa = vec!["/a/x.proto".to_string()];
    let ca = vec![Some("service X { }".to_string())];
    assert_eq!(store.publish_scan("a", &fa, &ca), Ok(()));
    store.register_root("a", "/other");
    assert_eq!(store.root_path("a"), Ok("/other".to_string()));
    assert!(store.services("a").is_empty());
    assert_eq!(store.root_ids().len(), 1);
}

#[test]
fn method_lookup() {
    let services = parse_file(
        "f.proto",
        "package p; service S { rpc A(X) returns (Y); rpc B(Z) returns (stream W); } service T { rpc B(Q) returns (R); }",
    );
    assert_eq!(find_method(&services, "p.S", "B"), Some((0, 1)));
    assert_eq!(find_method(&services, "p.T", "B"), Some((1, 0)));
    assert_eq!(find_method(&services, "p.S", "C"), None);
    assert_eq!(find_method(&services, "S", "A"), None);
    let (i, j) = find_method(&services, "p.S", "B").unwrap();
    assert_eq!(services[i].methods[j].input_type, "Z");
    assert!(services[i].methods[j].streaming);
}
