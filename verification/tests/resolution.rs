use rotato::crypto::field::encrypt_text;
use rotato::error::Error;
use rotato::logic::resolution::{resolve_collection_id, resolve_collection_ids, resolve_value};
use rotato::models::keys::{FileSource, KeyDefinition, KeyType};
use rotato::vaultwarden::models::Collection;

fn collection(id: &str, name: &str) -> Collection {
    Collection { id: id.into(), name: name.into(), external_id: None, organization_id: "".into() }
}

fn key64() -> Vec<u8> {
    (100u8..164).collect()
}

#[test]
fn test_resolve_static() {
    let def = KeyDefinition {
        name: "test".to_string(),
        key_type: KeyType::Static,
        value: Some("static-val".to_string()),
        length: None,
        generator: None,
        source: None,
    };

    let res = resolve_value(
        &def,
        None,
        |_, _| panic!("Should not call file"),
        |_| panic!("Should not call k8s"),
        |_| panic!("Should not call random"),
        || panic!("Should not call ssh"),
    )
    .unwrap();

    assert_eq!(res.0, "static-val");
    assert_eq!(res.1, false);
}

#[test]
fn test_resolve_random_new() {
    let def = KeyDefinition {
        name: "test".to_string(),
        key_type: KeyType::Random,
        value: None,
        length: Some(10),
        generator: None,
        source: None,
    };

    // Mock random generator
    let res = resolve_value(
        &def,
        None,
        |_, _| panic!("no file"),
        |_| panic!("no k8s"),
        |len| "a".repeat(len),
        || panic!("no ssh"),
    )
    .unwrap();

    assert_eq!(res.0, "aaaaaaaaaa");
    assert_eq!(res.1, true); // is_new
}

#[test]
fn test_resolve_random_existing() {
    let def = KeyDefinition {
        name: "test".to_string(),
        key_type: KeyType::Random,
        value: None,
        length: Some(10),
        generator: None,
        source: None,
    };

    // Mock random generator
    let res = resolve_value(
        &def,
        Some("existing".to_string()),
        |_, _| panic!("no file"),
        |_| panic!("no k8s"),
        |_| panic!("no random needed"),
        || panic!("no ssh"),
    )
    .unwrap();

    assert_eq!(res.0, "existing");
    assert_eq!(res.1, false);
    assert_eq!(res.2, None);
}

#[test]
fn test_resolve_file() {
    let def = KeyDefinition {
        name: "test".to_string(),
        key_type: KeyType::File,
        value: None,
        length: None,
        generator: None,
        source: Some(FileSource { path: "p".into(), key_path: "k".into() }),
    };

    let res = resolve_value(
        &def,
        None,
        |p, k| Ok(format!("{}:{}", p, k)),
        |_| panic!("no k8s"),
        |_| panic!("no random"),
        || panic!("no ssh"),
    )
    .unwrap();

    assert_eq!(res.0, "p:k");
}

#[test]
fn resolve_random_takes_32_by_default() {
    let def = KeyDefinition { name: "test".to_string(), key_type: KeyType::Random, ..Default::default() };
    let res = resolve_value(
        &def,
        None,
        |_, _| panic!("no file"),
        |_| panic!("no k8s"),
        |len| "x".repeat(len),
        || panic!("no ssh"),
    )
    .unwrap();
    assert_eq!(res.0.len(), 32);
    assert!(res.1);
}

#[test]
fn resolve_reports_keys_without_what_they_need() {
    let mut def = KeyDefinition { name: "k".to_string(), key_type: KeyType::Static, ..Default::default() };
    let err = resolve_value(&def, None, |_, _| panic!(), |_| panic!(), |_| panic!(), || panic!());
    assert_eq!(err, Err(Error::StaticWithoutValue));
    def.key_type = KeyType::File;
    let err = resolve_value(&def, None, |_, _| panic!(), |_| panic!(), |_| panic!(), || panic!());
    assert_eq!(err, Err(Error::FileWithoutSource));
    def.source = Some(FileSource { path: "p".into(), key_path: "k".into() });
    let err = resolve_value(
        &def,
        None,
        |_, _| Err(Error::KeyPathNotFound),
        |_| panic!(),
        |_| panic!(),
        || panic!(),
    );
    assert_eq!(err, Err(Error::KeyPathNotFound));
}

#[test]
fn resolve_cluster_key_asks_by_name() {
    let def = KeyDefinition { name: "token".to_string(), key_type: KeyType::K8s, ..Default::default() };
    let res = resolve_value(
        &def,
        Some("ignored".to_string()),
        |_, _| panic!(),
        |name| Ok(format!("value-of-{}", name)),
        |_| panic!(),
        || panic!(),
    )
    .unwrap();
    assert_eq!(res, ("value-of-token".to_string(), false, None));
    let err = resolve_value(&def, None, |_, _| panic!(), |_| Err(Error::ToolFailed), |_| panic!(), || panic!());
    assert_eq!(err, Err(Error::ToolFailed));
}

#[test]
fn resolve_ssh_is_always_new_and_brings_the_public_half() {
    let def = KeyDefinition { name: "deploy".to_string(), key_type: KeyType::Ssh, ..Default::default() };
    let res = resolve_value(
        &def,
        Some("old private".to_string()),
        |_, _| panic!(),
        |_| panic!(),
        |_| panic!(),
        || Ok(("PRIVATE".to_string(), "PUBLIC".to_string())),
    )
    .unwrap();
    assert_eq!(res.0, "PRIVATE");
    assert!(res.1);
    assert_eq!(res.2, Some(vec![("public_key".to_string(), "PUBLIC".to_string())]));
    let err = resolve_value(&def, None, |_, _| panic!(), |_| panic!(), |_| panic!(), || Err(Error::ToolFailed));
    assert_eq!(err, Err(Error::ToolFailed));
}

#[test]
fn test_resolve_by_id() {
    let collections = vec![collection("col-123", "EncryptedStuff"), collection("col-456", "Startups")];
    let reqs = vec!["col-123".to_string()];
    let ids = resolve_collection_ids(&reqs, &collections, &[]);
    assert_eq!(ids, vec!["col-123"]);
}

#[test]
fn test_resolve_by_plaintext_name() {
    let collections = vec![collection("col-123", "Security/Prod"), collection("col-456", "Other")];
    let reqs = vec!["Security/Prod".to_string()];
    let ids = resolve_collection_ids(&reqs, &collections, &[]);
    assert_eq!(ids, vec!["col-123"]);
}

#[test]
fn test_resolve_not_found() {
    let collections = vec![collection("col-123", "Stuff")];
    let reqs = vec!["Missing".to_string()];
    let ids = resolve_collection_ids(&reqs, &collections, &[]);
    assert!(ids.is_empty());
}

#[test]
fn test_resolve_mixed() {
    let collections = vec![collection("id-1", "Name1"), collection("id-2", "Name2")];
    let reqs = vec!["id-1".to_string(), "Name2".to_string(), "Missing".to_string()];
    let ids = resolve_collection_ids(&reqs, &collections, &[]);

    // Order is not guaranteed to be preserved if implementation changes, but currently it appends
    assert_eq!(ids.len(), 2);
    assert!(ids.contains(&"id-1".to_string()));
    assert!(ids.contains(&"id-2".to_string()));
}

#[test]
fn resolve_by_encrypted_name() {
    let key = key64();
    let sealed = encrypt_text("Security/Prod", &key).unwrap();
    let other = encrypt_text("Other", &key).unwrap();
    let collections = vec![collection("col-1", &other), collection("col-2", &sealed)];
    let ids = resolve_collection_ids(&["Security/Prod".to_string()], &collections, &key);
    assert_eq!(ids, vec!["col-2"]);
    let mut wrong = key64();
    wrong[0] ^= 1;
    wrong[33] ^= 1;
    assert!(resolve_collection_ids(&["Security/Prod".to_string()], &collections, &wrong).is_empty());
    // A name without the tag is not decrypted.
    let untagged = vec![collection("col-3", &sealed[2..])];
    assert!(resolve_collection_ids(&["Security/Prod".to_string()], &untagged, &key).is_empty());
}

#[test]
fn resolution_prefers_id_then_name_then_encrypted_name() {
    let key = key64();
    let sealed = encrypt_text("target", &key).unwrap();
    let collections = vec![
        collection("by-sealed-name", &sealed),
        collection("by-name", "target"),
        collection("target", "something else"),
    ];
    assert_eq!(resolve_collection_id("target", &collections, &key), Some("target".to_string()));
    assert_eq!(
        resolve_collection_id("target", &collections[..2], &key),
        Some("by-name".to_string())
    );
    assert_eq!(
        resolve_collection_id("target", &collections[..1], &key),
        Some("by-sealed-name".to_string())
    );
    assert_eq!(resolve_collection_id("target", &[], &key), None);
}

#[test]
fn each_request_gives_at_most_one_id() {
    let collections = vec![collection("a", "same"), collection("b", "same"), collection("same", "x")];
    let reqs = vec!["same".to_string(), "same".to_string(), "a".to_string(), "none".to_string()];
    let ids = resolve_collection_ids(&reqs, &collections, &[]);
    assert_eq!(ids, vec!["same", "same", "a"]);
    let by_name = resolve_collection_ids(&["same".to_string()], &collections[..2], &[]);
    assert_eq!(by_name, vec!["a"]);
}
