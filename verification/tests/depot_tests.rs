use steam_cdn::depot::{AppDepots, Branch, Depot, Manifest};
use steam_cdn::error::Error;
use steam_cdn::kv::{parse_u64, KvValue};

fn leaf(s: &str) -> KvValue {
    KvValue::Str(s.to_string())
}

fn obj(entries: Vec<(&str, Vec<KvValue>)>) -> KvValue {
    KvValue::Obj(entries.into_iter().map(|(k, v)| (k.to_string(), v)).collect())
}

fn branch_obj(gid: &str, size: &str, download: &str) -> KvValue {
    obj(vec![
        ("gid", vec![leaf(gid)]),
        ("size", vec![leaf(size)]),
        ("download", vec![leaf(download)]),
    ])
}

fn depot_value() -> Vec<KvValue> {
    vec![obj(vec![
        (
            "manifests",
            vec![obj(vec![
                ("public", vec![branch_obj("9071851182114336641", "100", "60")]),
                ("beta", vec![branch_obj("42", "7", "5")]),
            ])],
        ),
        (
            "encryptedmanifests",
            vec![obj(vec![("secret", vec![branch_obj("77", "9", "9")])])],
        ),
    ])]
}

#[test]
fn depot_parse_reads_both_subtrees() {
    let mut depot = Depot::new(730, 2347771);
    depot.parse(&depot_value()).unwrap();
    assert_eq!(depot.manifests.len(), 3);
    assert_eq!(depot.manifests[0].branch, "public");
    assert_eq!(depot.manifests[0].gid, "9071851182114336641");
    assert_eq!(depot.manifests[0].size, "100");
    assert_eq!(depot.manifests[0].download, "60");
    assert!(!depot.manifests[0].encrypted);
    assert_eq!(depot.manifests[1].branch, "beta");
    assert_eq!(depot.manifests[2].branch, "secret");
    assert!(depot.manifests[2].encrypted);
}

#[test]
fn depot_parse_skips_missing_subtrees() {
    let mut depot = Depot::new(1, 2);
    depot.parse(&vec![obj(vec![])]).unwrap();
    assert!(depot.manifests.is_empty());
}

#[test]
fn depot_parse_rejects_malformed_head() {
    let mut depot = Depot::new(1, 2);
    assert!(matches!(depot.parse(&vec![leaf("x")]), Err(Error::NoneOption)));
    assert!(matches!(depot.parse(&Vec::new()), Err(Error::NoneOption)));
}

#[test]
fn depot_parse_rejects_branch_without_object() {
    let tree = vec![obj(vec![(
        "manifests",
        vec![obj(vec![("public", vec![leaf("oops")])])],
    )])];
    let mut depot = Depot::new(1, 2);
    assert!(matches!(depot.parse(&tree), Err(Error::NoneOption)));
}

#[test]
fn missing_branch_fields_default_to_empty() {
    let tree = vec![obj(vec![(
        "manifests",
        vec![obj(vec![("public", vec![obj(vec![("gid", vec![leaf("5")])])])])],
    )])];
    let mut depot = Depot::new(1, 2);
    depot.parse(&tree).unwrap();
    assert_eq!(depot.manifests[0].gid, "5");
    assert_eq!(depot.manifests[0].size, "");
    assert_eq!(depot.manifests[0].download, "");
}

#[test]
fn manifest_gid_parses_decimal() {
    let m = Manifest {
        branch: "public".to_string(),
        gid: "9071851182114336641".to_string(),
        size: String::new(),
        download: String::new(),
        encrypted: false,
    };
    assert_eq!(m.gid(), Some(9071851182114336641));
}

#[test]
fn parse_u64_accepts_digits_and_plus() {
    assert_eq!(parse_u64("0"), Some(0));
    assert_eq!(parse_u64("+123"), Some(123));
    assert_eq!(parse_u64("18446744073709551615"), Some(u64::MAX));
    assert_eq!(parse_u64("18446744073709551616"), None);
    assert_eq!(parse_u64(""), None);
    assert_eq!(parse_u64("+"), None);
    assert_eq!(parse_u64("12x"), None);
    assert_eq!(parse_u64("-1"), None);
}

#[test]
fn app_depots_collects_numeric_keys_only() {
    let tree = vec![obj(vec![(
        "depots",
        vec![obj(vec![
            ("2347771", depot_value()),
            ("branches", vec![obj(vec![])]),
            ("731", vec![obj(vec![])]),
        ])],
    )])];
    let mut apps = AppDepots::new(730);
    apps.parse(&tree).unwrap();
    assert_eq!(apps.depots.len(), 2);
    assert_eq!(apps.depots[0].app_id, 730);
    assert_eq!(apps.depots[0].depot_id, 2347771);
    assert_eq!(apps.depots[0].manifests.len(), 3);
    assert_eq!(apps.depots[1].depot_id, 731);
    assert!(apps.depots[1].manifests.is_empty());
}

#[test]
fn app_depots_without_subtree_is_empty() {
    let mut apps = AppDepots::new(730);
    apps.parse(&vec![obj(vec![])]).unwrap();
    assert!(apps.depots.is_empty());
}

#[test]
fn branch_new_starts_empty() {
    let b = Branch::new("public".to_string());
    assert_eq!(b.name, "public");
    assert_eq!(b.buildid, None);
    assert_eq!(b.description, None);
    assert!(!b.pwdrequired);
    assert_eq!(b.timeupdated, None);
    assert_eq!(b.sc_schinese, None);
}
