use base64::Engine;
use rotato::commands::cleanup::prune_config::{folders_to_delete, prune_from_config, prune_name};
use rotato::commands::cleanup::purge_vault::purge_all;
use rotato::commands::cleanup::types as cleanup;
use rotato::commands::create_items::access::{
    find_member_id, grant_access, grant_collection_access, target_member_ids, CollectionUser,
};
use rotato::commands::create_items::builder::{build_payload, fetched_values, item_label, key_names};
use rotato::commands::create_items::existence::{check_exists_and_update_folder, known_cipher_id};
use rotato::commands::create_items::process::{
    collection_inputs, collections_to_create, ensure_step, process_secret, CreateDecision,
    EnsureAction, EnsureState, SkipReason,
};
use rotato::commands::create_items::types::{KeyConfig, KeyDef, SecretConfig, VaultwardenConfig};
use rotato::crypto::aes::encrypt_aes256_cbc_hmac;
use rotato::crypto::field::{decrypt_text, encrypt_text};
use rotato::error::Error;
use rotato::text_map::TextMap;
use rotato::vaultwarden::item::VaultItem;
use rotato::vaultwarden::models::{Cipher, Member};

fn key64() -> Vec<u8> {
    (50u8..114).collect()
}

fn vault_config() -> VaultwardenConfig {
    VaultwardenConfig { cipher_id: None, collection_ids: None, collections: None, folder: None, notes: None }
}

fn secret(name: &str, env: Option<&str>) -> SecretConfig {
    SecretConfig {
        name: name.to_string(),
        env: env.map(|e| e.to_string()),
        vaultwarden: Some(vault_config()),
        keys: None,
        source_files: None,
        namespace: None,
        secret_name: None,
        argocd_app: None,
        notes: None,
        repo: None,
        path: None,
        access_users: None,
    }
}

fn member(id: &str, name: Option<&str>, email: Option<&str>) -> Member {
    Member {
        id: id.to_string(),
        user_id: None,
        name: name.map(|n| n.to_string()),
        email: email.map(|e| e.to_string()),
        status: 2,
        member_type: 0,
    }
}

fn user(id: Option<&str>, hide: Option<bool>) -> CollectionUser {
    CollectionUser { id: id.map(|i| i.to_string()), hide_passwords: hide, read_only: Some(true), manage: None }
}

#[test]
fn the_label_moves_the_environment_to_the_end() {
    assert_eq!(item_label("prod-grafana", Some("prod")), "grafana/prod");
    assert_eq!(item_label("grafana", Some("prod")), "grafana/prod");
    assert_eq!(item_label("prod-", Some("prod")), "/prod");
    assert_eq!(item_label("prod", Some("prod")), "prod/prod");
    assert_eq!(item_label("prod-grafana", None), "prod-grafana");
    assert_eq!(item_label("", Some("")), "/");
}

#[test]
fn key_names_come_from_keys_or_source_files() {
    let mut s = secret("app", None);
    assert!(key_names(&s).is_empty());
    s.source_files = Some(vec![("b".to_string(), "f1".to_string()), ("a".to_string(), "f2".to_string())]);
    assert_eq!(key_names(&s), vec!["b", "a"]);
    s.keys = Some(vec![
        KeyConfig::Name("username".to_string()),
        KeyConfig::Def(KeyDef { name: "password".to_string(), type_: None, length: None, value: None, generator: None }),
    ]);
    assert_eq!(key_names(&s), vec!["username", "password"]);
}

#[test]
fn fetched_values_leave_out_what_the_cluster_lacks() {
    let engine = base64::engine::general_purpose::STANDARD;
    let data = Some(vec![
        ("username".to_string(), Some(engine.encode("admin"))),
        ("broken".to_string(), Some("###".to_string())),
    ]);
    let names = vec!["username".to_string(), "broken".to_string(), "missing".to_string()];
    let values = fetched_values(&names, &data);
    assert_eq!(values.entries, vec![("username".to_string(), "admin".to_string())]);
    assert!(fetched_values(&names, &None).entries.is_empty());
}

#[test]
fn the_payload_holds_two_hidden_fields_for_every_key() {
    let key = key64();
    let mut values = TextMap::new();
    values.insert("username".to_string(), "admin".to_string());
    values.insert("token".to_string(), "t0ken".to_string());
    let names = vec!["username".to_string(), "token".to_string(), "password".to_string()];
    let payload = build_payload(
        &secret("prod-app", Some("prod")),
        "org-1",
        &key,
        &vec!["col-1".to_string()],
        Some("folder-1".to_string()),
        Some("kept notes".to_string()),
        &names,
        &values,
    )
    .unwrap();
    let plain = |s: &String| decrypt_text(s, &key).unwrap();
    assert_eq!(payload.cipher_type, 1);
    assert_eq!(plain(&payload.name), "app/prod");
    assert_eq!(plain(&payload.notes), "kept notes");
    assert_eq!(plain(&payload.username), "admin");
    assert_eq!(plain(&payload.password), "");
    assert_eq!(payload.organization_id, "org-1");
    assert_eq!(payload.collection_ids, vec!["col-1"]);
    assert_eq!(payload.folder_id.as_deref(), Some("folder-1"));
    let fields: Vec<(String, String, i64)> =
        payload.fields.iter().map(|f| (plain(&f.name), plain(&f.value), f.field_type)).collect();
    assert_eq!(fields, vec![
        ("app/prod:username:current".to_string(), "admin".to_string(), 1),
        ("app/prod:username:previous".to_string(), String::new(), 1),
        ("app/prod:token:current".to_string(), "t0ken".to_string(), 1),
        ("app/prod:token:previous".to_string(), String::new(), 1),
        ("app/prod:password:current".to_string(), String::new(), 1),
        ("app/prod:password:previous".to_string(), String::new(), 1),
    ]);
    let short = build_payload(&secret("a", None), "o", &key[..63], &vec![], None, None, &vec![], &values);
    assert_eq!(short.err(), Some(Error::KeyTooShort));
    let bare = build_payload(&secret("a", None), "o", &key, &vec![], None, None, &vec![], &TextMap::new()).unwrap();
    assert!(bare.fields.is_empty());
    assert_eq!(plain(&bare.notes), "");
    assert_eq!(bare.folder_id, None);
}

#[test]
fn members_are_found_by_email_name_or_id() {
    let members = vec![
        member("m-1", Some("Alice"), Some("alice@example.com")),
        member("m-2", None, Some("bob@example.com")),
        member("alice@example.com", None, None),
    ];
    assert_eq!(find_member_id(&members, "alice@example.com"), Some("m-1".to_string()));
    assert_eq!(find_member_id(&members, "Alice"), Some("m-1".to_string()));
    assert_eq!(find_member_id(&members, "m-2"), Some("m-2".to_string()));
    assert_eq!(find_member_id(&members[1..], "alice@example.com"), Some("alice@example.com".to_string()));
    assert_eq!(find_member_id(&members, "nobody"), None);
    let users = vec!["bob@example.com".to_string(), "nobody".to_string(), "Alice".to_string()];
    assert_eq!(target_member_ids(&users, &members), vec!["m-2", "m-1"]);
    assert!(target_member_ids(&users, &[]).is_empty());
}

#[test]
fn access_unhides_passwords_or_adds_the_member() {
    let mut users = vec![user(Some("m-1"), Some(true)), user(None, None), user(Some("m-2"), Some(false)), user(Some("m-3"), None)];
    assert!(grant_access(&mut users, "m-1"));
    assert_eq!(users[0].hide_passwords, Some(false));
    assert_eq!(users[0].read_only, Some(true));
    assert!(!grant_access(&mut users, "m-2"));
    assert_eq!(users[2].hide_passwords, Some(false));
    assert!(grant_access(&mut users, "m-3"));
    assert_eq!(users[3].hide_passwords, Some(false));
    assert_eq!(users.len(), 4);
    assert!(grant_access(&mut users, "m-4"));
    assert_eq!(users.len(), 5);
    assert_eq!(users[4].id.as_deref(), Some("m-4"));
    assert_eq!(users[4].hide_passwords, Some(false));
    assert_eq!(users[4].read_only, Some(false));
    assert_eq!(users[4].manage, Some(false));
    assert!(!grant_access(&mut users, "m-4"));
}

#[test]
fn access_for_many_members_says_whether_anything_changed() {
    let mut users = vec![user(Some("m-1"), Some(false))];
    assert!(!grant_collection_access(&mut users, &[]));
    assert!(!grant_collection_access(&mut users, &["m-1".to_string()]));
    assert_eq!(users.len(), 1);
    assert!(grant_collection_access(&mut users, &["m-1".to_string(), "m-2".to_string(), "m-2".to_string()]));
    assert_eq!(users.len(), 2);
    assert_eq!(users[1].id.as_deref(), Some("m-2"));
}

#[test]
fn an_existing_cipher_is_moved_into_the_wanted_folder() {
    let mut item = VaultItem {
        id: Some("c-1".to_string()),
        name: None,
        notes: None,
        login: None,
        fields: None,
        folder_id: Some("f-old".to_string()),
        collection_ids: None,
        has_collections: true,
    };
    assert!(!check_exists_and_update_folder(&mut item, None));
    assert!(!check_exists_and_update_folder(&mut item, Some(&"f-old".to_string())));
    assert_eq!(item.folder_id.as_deref(), Some("f-old"));
    assert!(check_exists_and_update_folder(&mut item, Some(&"f-new".to_string())));
    assert_eq!(item.folder_id.as_deref(), Some("f-new"));
    item.folder_id = None;
    assert!(check_exists_and_update_folder(&mut item, Some(&"f-new".to_string())));
    assert!(item.has_collections);
    let mut s = secret("app", None);
    assert_eq!(known_cipher_id(&s), None);
    s.vaultwarden.as_mut().unwrap().cipher_id = Some(String::new());
    assert_eq!(known_cipher_id(&s), None);
    s.vaultwarden.as_mut().unwrap().cipher_id = Some("c-1".to_string());
    assert_eq!(known_cipher_id(&s), Some(&"c-1".to_string()));
    s.vaultwarden = None;
    assert_eq!(known_cipher_id(&s), None);
}

#[test]
fn a_cipher_is_created_only_with_collections_and_without_a_cipher() {
    let mut s = secret("app", None);
    let ids = vec!["col-1".to_string()];
    assert_eq!(process_secret(&s, &ids, false), CreateDecision::Skip(SkipReason::NoCollections));
    s.vaultwarden.as_mut().unwrap().collections = Some(vec!["Team".to_string()]);
    assert_eq!(process_secret(&s, &ids, false), CreateDecision::Create);
    assert_eq!(process_secret(&s, &ids, true), CreateDecision::Skip(SkipReason::Exists));
    assert_eq!(process_secret(&s, &vec![], false), CreateDecision::Skip(SkipReason::NoCollectionResolved));
    assert_eq!(collection_inputs(s.vaultwarden.as_ref().unwrap()), Some(vec!["Team".to_string()]));
    s.vaultwarden.as_mut().unwrap().collection_ids = Some(vec!["id-1".to_string()]);
    assert_eq!(collection_inputs(s.vaultwarden.as_ref().unwrap()), Some(vec!["id-1".to_string()]));
    assert_eq!(collection_inputs(&vault_config()), None);
    s.vaultwarden = None;
    assert_eq!(process_secret(&s, &ids, false), CreateDecision::Skip(SkipReason::NoVaultSection));
}

#[test]
fn a_missing_collection_is_created_by_the_vault_or_by_the_client() {
    let inputs = vec!["Team".to_string(), "Ops".to_string()];
    assert_eq!(collections_to_create(&inputs, &vec![]), inputs);
    assert!(collections_to_create(&inputs, &vec!["col-1".to_string()]).is_empty());
    assert!(collections_to_create(&vec![], &vec![]).is_empty());
    assert_eq!(ensure_step(EnsureState::CreatingByApi, true, false), (EnsureState::Finished, EnsureAction::Use));
    assert_eq!(
        ensure_step(EnsureState::CreatingByApi, false, true),
        (EnsureState::CreatingByCli, EnsureAction::CreateByCli)
    );
    assert_eq!(ensure_step(EnsureState::CreatingByApi, false, false), (EnsureState::Finished, EnsureAction::Skip));
    assert_eq!(ensure_step(EnsureState::CreatingByCli, true, true), (EnsureState::Finished, EnsureAction::Use));
    assert_eq!(ensure_step(EnsureState::CreatingByCli, false, true), (EnsureState::Finished, EnsureAction::Skip));
    assert_eq!(ensure_step(EnsureState::Finished, true, true), (EnsureState::Finished, EnsureAction::Skip));
}

fn cleanup_secret(name: &str, env: Option<&str>, vw: Option<cleanup::VaultwardenConfig>) -> cleanup::SecretConfig {
    cleanup::SecretConfig { name: name.to_string(), env: env.map(|e| e.to_string()), vaultwarden: vw }
}

fn cleanup_vault(id: Option<&str>, name: Option<&str>, folder: Option<&str>) -> cleanup::VaultwardenConfig {
    cleanup::VaultwardenConfig {
        cipher_id: id.map(|s| s.to_string()),
        name: name.map(|s| s.to_string()),
        folder: folder.map(|s| s.to_string()),
    }
}

#[test]
fn cleanup_finds_ciphers_by_id_or_by_name() {
    let key = key64();
    let ciphers = vec![
        Cipher { id: "c-1".to_string(), name: encrypt_text("grafana/prod", &key).unwrap() },
        Cipher { id: "c-2".to_string(), name: encrypt_text("Shown", &key).unwrap() },
    ];
    let by_id = cleanup_secret("x", None, Some(cleanup_vault(Some("given"), Some("Shown"), None)));
    assert_eq!(prune_from_config(&by_id, &ciphers, &key), Some("given".to_string()));
    let by_name = cleanup_secret("x", None, Some(cleanup_vault(None, Some("Shown"), None)));
    assert_eq!(prune_name(&by_name), "Shown");
    assert_eq!(prune_from_config(&by_name, &ciphers, &key), Some("c-2".to_string()));
    let by_label = cleanup_secret("prod-grafana", Some("prod"), Some(cleanup_vault(None, None, None)));
    assert_eq!(prune_name(&by_label), "grafana/prod");
    assert_eq!(prune_from_config(&by_label, &ciphers, &key), Some("c-1".to_string()));
    let unknown = cleanup_secret("other", None, Some(cleanup_vault(None, None, None)));
    assert_eq!(prune_from_config(&unknown, &ciphers, &key), None);
    let no_vault = cleanup_secret("prod-grafana", Some("prod"), None);
    assert_eq!(prune_from_config(&no_vault, &ciphers, &key), None);
}

#[test]
fn cleanup_deletes_each_folder_once() {
    let config = cleanup::Config {
        secrets: vec![
            cleanup_secret("a", None, Some(cleanup_vault(None, None, Some("Infra")))),
            cleanup_secret("b", None, None),
            cleanup_secret("c", None, Some(cleanup_vault(None, None, Some("Apps")))),
            cleanup_secret("d", None, Some(cleanup_vault(None, None, Some("Infra")))),
            cleanup_secret("e", None, Some(cleanup_vault(None, None, None))),
        ],
    };
    assert_eq!(folders_to_delete(&config), vec!["Infra", "Apps"]);
    assert!(folders_to_delete(&cleanup::Config { secrets: vec![] }).is_empty());
}

#[test]
fn deleted_items_are_shown_by_name_where_it_decrypts() {
    let key = key64();
    let engine = base64::engine::general_purpose::STANDARD;
    assert_eq!(purge_all(&encrypt_text("Grafana", &key).unwrap(), &key, true), "Grafana");
    assert_eq!(purge_all("2.garbage", &key, true), "<decryption failed>");
    assert_eq!(purge_all("2.garbage", &key, false), "<decryption failed>");
    let binary = encrypt_aes256_cbc_hmac(&[0xff, 0xfe, 0xfd], &key).unwrap();
    assert_eq!(purge_all(&binary, &key, true), "???");
    let sealed = encrypt_text("Legacy", &key).unwrap();
    let parts: Vec<&str> = sealed[2..].split('|').collect();
    let mut bytes = engine.decode(parts[0]).unwrap();
    bytes.extend(engine.decode(parts[1]).unwrap());
    let raw = engine.encode(&bytes);
    assert_eq!(purge_all(&raw, &key, true), "Legacy");
    assert_eq!(purge_all(&raw, &key, false), "<decryption failed>");
}
