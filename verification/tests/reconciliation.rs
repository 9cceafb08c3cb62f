use secret_spread::classify::{classify, ReplicaClass};
use secret_spread::model::{upsert_pair, Config, SecretObject};
use secret_spread::reconcile::{requeue_for, triage, Error, Triage};
use secret_spread::resolver::resolve_targets;
use secret_spread::sync::{build_replica, sync_decision, SyncAction};

fn cfg() -> Config {
    Config::default_keys()
}

fn pairs(entries: &[(&str, &str)]) -> Vec<(String, String)> {
    entries.iter().map(|(k, v)| (k.to_string(), v.to_string())).collect()
}

fn payload(entries: &[(&str, &[u8])]) -> Vec<(String, Vec<u8>)> {
    entries.iter().map(|(k, v)| (k.to_string(), v.to_vec())).collect()
}

fn source(directive: Option<&str>) -> SecretObject {
    SecretObject {
        name: "creds".to_string(),
        namespace: Some("default".to_string()),
        uid: Some("uid-123".to_string()),
        labels: pairs(&[("app", "demo")]),
        annotations: match directive {
            Some(d) => pairs(&[("eu.fitzek.spread.target-namespace", d)]),
            None => Vec::new(),
        },
        finalizers: None,
        deletion_pending: false,
        type_tag: Some("Opaque".to_string()),
        payload: payload(&[("token", b"s3cr3t")]),
    }
}

fn names(v: &[&str]) -> Vec<String> {
    v.iter().map(|s| s.to_string()).collect()
}

#[test]
fn directive_list_resolves_in_order() {
    let t = resolve_targets("ns-a,ns-b", "default", &Vec::new());
    assert_eq!(t, names(&["ns-a", "ns-b"]));
}

#[test]
fn directive_list_excludes_source_namespace() {
    let t = resolve_targets("ns-a,default,ns-b", "default", &Vec::new());
    assert_eq!(t, names(&["ns-a", "ns-b"]));
}

#[test]
fn directive_keeps_empty_fields() {
    let t = resolve_targets("ns-a,,ns-b", "default", &Vec::new());
    assert_eq!(t, names(&["ns-a", "", "ns-b"]));
}

#[test]
fn wildcard_expands_to_cluster_minus_source() {
    let cluster = names(&["default", "ns-a", "ns-b"]);
    let t = resolve_targets("*", "default", &cluster);
    assert_eq!(t, names(&["ns-a", "ns-b"]));
}

#[test]
fn wildcard_is_exact_not_prefix() {
    let t = resolve_targets("*x", "default", &names(&["ns-a"]));
    assert_eq!(t, names(&["*x"]));
}

#[test]
fn classify_absent_managed_foreign() {
    let c = cfg();
    assert_eq!(classify(&None, c.owner_label_key.as_str()), ReplicaClass::Absent);
    let mut replica = source(None);
    replica.labels = pairs(&[("eu.fitzek.spread.owner", "uid-123")]);
    assert_eq!(
        classify(&Some(replica), c.owner_label_key.as_str()),
        ReplicaClass::Managed
    );
    let foreign = source(None);
    assert_eq!(
        classify(&Some(foreign), c.owner_label_key.as_str()),
        ReplicaClass::Foreign
    );
}

#[test]
fn classify_marker_key_is_case_insensitive() {
    let c = cfg();
    let mut replica = source(None);
    replica.labels = pairs(&[("EU.Fitzek.Spread.OWNER", "anything")]);
    assert_eq!(
        classify(&Some(replica), c.owner_label_key.as_str()),
        ReplicaClass::Managed
    );
}

#[test]
fn missing_replica_is_created_with_marker() {
    let c = cfg();
    let src = source(Some("ns-a"));
    match sync_decision(&src, "ns-a", &None, &c, "uid-123") {
        SyncAction::Create(r) => {
            assert_eq!(r.name, "creds");
            assert_eq!(r.namespace.as_deref(), Some("ns-a"));
            assert!(r
                .labels
                .iter()
                .any(|(k, v)| k == "eu.fitzek.spread.owner" && v == "uid-123"));
            assert!(r.labels.iter().any(|(k, v)| k == "app" && v == "demo"));
            assert_eq!(r.payload, src.payload);
            assert_eq!(r.type_tag.as_deref(), Some("Opaque"));
            assert!(r.finalizers.is_none());
            assert!(!r.deletion_pending);
        }
        _ => panic!("expected a create"),
    }
}

#[test]
fn matching_replica_is_left_alone() {
    let c = cfg();
    let src = source(Some("ns-a"));
    let replica = build_replica(&src, "ns-a", "uid-123", &c);
    match sync_decision(&src, "ns-a", &Some(replica), &c, "uid-123") {
        SyncAction::Noop => {}
        _ => panic!("expected no action"),
    }
}

#[test]
fn drifted_replica_payload_is_restored() {
    let c = cfg();
    let src = source(Some("ns-a"));
    let mut replica = build_replica(&src, "ns-a", "uid-123", &c);
    replica.payload = payload(&[("token", b"tampered")]);
    match sync_decision(&src, "ns-a", &Some(replica.clone()), &c, "uid-123") {
        SyncAction::PatchPayload(p) => {
            assert_eq!(p, src.payload);
            replica.payload = p;
        }
        _ => panic!("expected a payload patch"),
    }
    match sync_decision(&src, "ns-a", &Some(replica), &c, "uid-123") {
        SyncAction::Noop => {}
        _ => panic!("expected no action after the patch"),
    }
}

#[test]
fn foreign_object_is_skipped() {
    let c = cfg();
    let src = source(Some("ns-a"));
    let mut foreign = source(None);
    foreign.payload = payload(&[("token", b"unrelated")]);
    match sync_decision(&src, "ns-a", &Some(foreign), &c, "uid-123") {
        SyncAction::SkipForeign => {}
        _ => panic!("a foreign object must never be touched"),
    }
}

#[test]
fn finalizer_add_creates_singleton_list() {
    let p = secret_spread::finalizer::add(&None, "secretspreading.fitzek.eu/finalizer");
    assert_eq!(p, Some(names(&["secretspreading.fitzek.eu/finalizer"])));
}

#[test]
fn finalizer_add_appends_to_existing_list() {
    let fins = Some(names(&["other.example.com/guard"]));
    let p = secret_spread::finalizer::add(&fins, "secretspreading.fitzek.eu/finalizer");
    assert_eq!(
        p,
        Some(names(&[
            "other.example.com/guard",
            "secretspreading.fitzek.eu/finalizer"
        ]))
    );
}

#[test]
fn finalizer_add_is_idempotent() {
    let tok = "secretspreading.fitzek.eu/finalizer";
    let first = secret_spread::finalizer::add(&None, tok);
    assert!(first.is_some());
    let second = secret_spread::finalizer::add(&first, tok);
    assert_eq!(second, None);
}

#[test]
fn finalizer_add_matches_case_insensitively() {
    let fins = Some(names(&["SECRETSPREADING.FITZEK.EU/FINALIZER"]));
    let p = secret_spread::finalizer::add(&fins, "secretspreading.fitzek.eu/finalizer");
    assert_eq!(p, None);
}

#[test]
fn finalizer_rm_filters_token_case_insensitively() {
    let fins = Some(names(&[
        "other.example.com/guard",
        "SecretSpreading.Fitzek.EU/finalizer",
    ]));
    let p = secret_spread::finalizer::rm(&fins, "secretspreading.fitzek.eu/finalizer");
    assert_eq!(p, Some(names(&["other.example.com/guard"])));
}

#[test]
fn finalizer_rm_patches_empty_list_to_force_removal() {
    let fins = Some(names(&["secretspreading.fitzek.eu/finalizer"]));
    let p = secret_spread::finalizer::rm(&fins, "secretspreading.fitzek.eu/finalizer");
    assert_eq!(p, Some(Vec::new()));
}

#[test]
fn finalizer_rm_skips_when_field_absent() {
    let p = secret_spread::finalizer::rm(&None, "secretspreading.fitzek.eu/finalizer");
    assert_eq!(p, None);
}

#[test]
fn triage_without_directive_waits() {
    let c = cfg();
    let src = source(None);
    let t = triage(&src, &c);
    assert!(matches!(t, Triage::AwaitDirective));
    assert_eq!(requeue_for(&t), Some(300));
}

#[test]
fn triage_annotation_key_is_case_insensitive() {
    let c = cfg();
    let mut src = source(None);
    src.annotations = pairs(&[("EU.FITZEK.SPREAD.TARGET-NAMESPACE", "ns-a")]);
    match triage(&src, &c) {
        Triage::Live { directive, namespace, uid } => {
            assert_eq!(directive, "ns-a");
            assert_eq!(namespace, "default");
            assert_eq!(uid, "uid-123");
        }
        _ => panic!("expected the live path"),
    }
}

#[test]
fn triage_live_requeues_quickly() {
    let c = cfg();
    let t = triage(&source(Some("ns-a")), &c);
    assert!(matches!(t, Triage::Live { .. }));
    assert_eq!(requeue_for(&t), Some(60));
}

#[test]
fn triage_missing_namespace_is_rejected() {
    let c = cfg();
    let mut src = source(Some("ns-a"));
    src.namespace = None;
    let t = triage(&src, &c);
    assert!(matches!(t, Triage::Reject(Error::MissingNamespace)));
    assert_eq!(requeue_for(&t), Some(5));
}

#[test]
fn triage_missing_uid_is_rejected() {
    let c = cfg();
    let mut src = source(Some("ns-a"));
    src.uid = None;
    let t = triage(&src, &c);
    assert!(matches!(t, Triage::Reject(Error::MissingUid)));
}

#[test]
fn triage_deletion_wins_even_without_directive() {
    let c = cfg();
    let mut src = source(None);
    src.deletion_pending = true;
    match triage(&src, &c) {
        Triage::Cleanup { namespace, uid } => {
            assert_eq!(namespace, "default");
            assert_eq!(uid, "uid-123");
        }
        _ => panic!("expected the cleanup path"),
    }
}

#[test]
fn cleanup_is_terminal() {
    let c = cfg();
    let mut src = source(Some("ns-a"));
    src.deletion_pending = true;
    let t = triage(&src, &c);
    assert_eq!(requeue_for(&t), None);
}

#[test]
fn upsert_replaces_existing_key_in_place() {
    let labels = pairs(&[("eu.fitzek.spread.owner", "stale"), ("app", "demo")]);
    let out = upsert_pair(&labels, "eu.fitzek.spread.owner", "uid-123");
    assert_eq!(
        out,
        pairs(&[("eu.fitzek.spread.owner", "uid-123"), ("app", "demo")])
    );
}

#[test]
fn second_live_pass_issues_no_writes() {
    // Idempotence end to end: run the live decisions once, carry them
    // out, run them again and watch every write disappear.
    let c = cfg();
    let src = source(Some("ns-a,ns-b"));
    let tok = c.finalizer_token.as_str();

    let fins_patch = secret_spread::finalizer::add(&src.finalizers, tok);
    assert!(fins_patch.is_some());
    let targets = resolve_targets("ns-a,ns-b", "default", &Vec::new());
    let mut cluster: Vec<(String, SecretObject)> = Vec::new();
    for ns in &targets {
        match sync_decision(&src, ns.as_str(), &None, &c, "uid-123") {
            SyncAction::Create(r) => cluster.push((ns.clone(), r)),
            _ => panic!("first pass must create"),
        }
    }

    // Second pass: finalizer present, replicas in place.
    assert_eq!(secret_spread::finalizer::add(&fins_patch, tok), None);
    for (ns, r) in cluster {
        match sync_decision(&src, ns.as_str(), &Some(r), &c, "uid-123") {
            SyncAction::Noop => {}
            _ => panic!("second pass must not write"),
        }
    }
}

#[test]
fn round_trip_replicate_then_collect() {
    let c = cfg();
    let src = source(Some("ns-a,ns-b"));
    let uid = "uid-123";

    // Live: two managed replicas appear, each carrying the marker.
    let mut listed: Vec<SecretObject> = Vec::new();
    for ns in resolve_targets("ns-a,ns-b", "default", &Vec::new()) {
        match sync_decision(&src, ns.as_str(), &None, &c, uid) {
            SyncAction::Create(r) => {
                assert!(r
                    .labels
                    .iter()
                    .any(|(k, v)| k == "eu.fitzek.spread.owner" && v == uid));
                listed.push(r);
            }
            _ => panic!("expected creates"),
        }
    }
    assert_eq!(listed.len(), 2);

    // Deletion: both replicas are enumerated for removal, then the
    // finalizer is released.
    let targets = secret_spread::gc::gc_targets(&listed, &c, uid);
    assert_eq!(
        targets,
        vec![
            ("ns-a".to_string(), "creds".to_string()),
            ("ns-b".to_string(), "creds".to_string())
        ]
    );
    let fins = Some(names(&["secretspreading.fitzek.eu/finalizer"]));
    assert_eq!(
        secret_spread::finalizer::rm(&fins, c.finalizer_token.as_str()),
        Some(Vec::new())
    );
}

#[test]
fn narrowed_directive_still_collects_all_replicas() {
    // Replicas exist in ns-a and ns-b; the directive now names ns-a
    // only. Collection goes by marker, so both are removed.
    let c = cfg();
    let src = source(Some("ns-a"));
    let uid = "uid-123";
    let listed = vec![
        build_replica(&src, "ns-a", uid, &c),
        build_replica(&src, "ns-b", uid, &c),
    ];
    let targets = secret_spread::gc::gc_targets(&listed, &c, uid);
    assert_eq!(
        targets,
        vec![
            ("ns-a".to_string(), "creds".to_string()),
            ("ns-b".to_string(), "creds".to_string())
        ]
    );
}

#[test]
fn collection_never_touches_unmarked_objects() {
    let c = cfg();
    let src = source(Some("ns-a"));
    let uid = "uid-123";
    let mut foreign = source(None);
    foreign.namespace = Some("ns-b".to_string());
    let other_uid = build_replica(&src, "ns-c", "uid-999", &c);
    let listed = vec![build_replica(&src, "ns-a", uid, &c), foreign, other_uid];
    let targets = secret_spread::gc::gc_targets(&listed, &c, uid);
    assert_eq!(targets, vec![("ns-a".to_string(), "creds".to_string())]);
}

#[test]
fn owner_selector_is_key_equals_uid() {
    let c = cfg();
    let s = secret_spread::gc::owner_selector(&c, "uid-123");
    assert_eq!(s, "eu.fitzek.spread.owner=uid-123");
}
