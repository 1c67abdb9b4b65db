use rotato::commands::rotate::item_ops::{
    prepare_updated_item, produce_value, set_item_value, store_item_value,
};
use rotato::crypto::field::{decrypt_text, decrypt_text_or_raw, encrypt_text};
use rotato::error::Error;
use rotato::infra::random::get_random_string;
use rotato::logic::parsing::find_existing_encrypted_value;
use rotato::models::config::SecretDefinition;
use rotato::models::k8s::KubernetesTarget;
use rotato::models::keys::{FileSource, KeyDefinition, KeyType};
use rotato::models::vaultwarden_target::VaultwardenTarget;
use rotato::text_map::TextMap;
use rotato::vaultwarden::item::{ItemField, ItemLogin, VaultItem, HIDDEN_FIELD};

fn key64() -> Vec<u8> {
    (1u8..65).collect()
}

fn empty_item() -> VaultItem {
    VaultItem {
        id: Some("cipher-1".to_string()),
        name: Some("2.name".to_string()),
        notes: None,
        login: None,
        fields: None,
        folder_id: None,
        collection_ids: None,
        has_collections: true,
    }
}

fn secret(keys: Vec<KeyDefinition>) -> SecretDefinition {
    SecretDefinition {
        name: "demo".to_string(),
        description: None,
        vaultwarden: VaultwardenTarget {
            cipher_id: Some("cipher-1".to_string()),
            name: None,
            collection_ids: None,
            collections: None,
            folder: None,
            notes: None,
            fields: None,
        },
        kubernetes: KubernetesTarget {
            namespace: "ns".to_string(),
            secret_name: "sec".to_string(),
            path: "apps/demo/sealed.yaml".to_string(),
            labels: None,
        },
        additional_kubernetes: None,
        authentik: None,
        keys,
        policy: None,
        hooks: None,
        access_users: None,
    }
}

fn random_key(name: &str, length: usize) -> KeyDefinition {
    KeyDefinition { name: name.to_string(), key_type: KeyType::Random, length: Some(length), ..Default::default() }
}

fn static_key(name: &str, value: &str) -> KeyDefinition {
    KeyDefinition {
        name: name.to_string(),
        key_type: KeyType::Static,
        value: Some(value.to_string()),
        ..Default::default()
    }
}

fn no_file(_: &str, _: &str) -> Result<String, Error> {
    panic!("no file")
}

fn no_cluster(_: &str) -> Result<String, Error> {
    panic!("no cluster")
}

fn no_ssh() -> Result<(String, String), Error> {
    panic!("no ssh")
}

#[test]
fn test_get_random_string() {
    let s = get_random_string(10);
    assert_eq!(s.len(), 10);
    let s2 = get_random_string(10);
    assert_ne!(s, s2); // Extremely unlikely to collide
}

#[test]
fn random_strings_are_letters_and_digits() {
    assert_eq!(get_random_string(0), "");
    let s = get_random_string(200);
    assert_eq!(s.chars().count(), 200);
    assert!(s.chars().all(|c| c.is_ascii_alphanumeric()));
}

#[test]
fn existing_value_comes_from_the_login_block() {
    let key = key64();
    let mut item = empty_item();
    item.login = Some(ItemLogin {
        username: Some(encrypt_text("existing_user", &key).unwrap()),
        password: Some(encrypt_text("existing_pass", &key).unwrap()),
    });
    assert_eq!(find_existing_encrypted_value(&item, "username", &key), Some("existing_user".to_string()));
    assert_eq!(find_existing_encrypted_value(&item, "password", &key), Some("existing_pass".to_string()));
    assert_eq!(find_existing_encrypted_value(&item, "other", &key), None);
    // Plain text in the login block does not decrypt.
    item.login = Some(ItemLogin { username: Some("existing_user".to_string()), password: Some(String::new()) });
    assert_eq!(find_existing_encrypted_value(&item, "username", &key), None);
    assert_eq!(find_existing_encrypted_value(&item, "password", &key), None);
}

#[test]
fn existing_value_comes_from_the_field_with_the_encrypted_name() {
    let key = key64();
    let mut item = empty_item();
    item.fields = Some(vec![
        ItemField { name: None, value: Some("x".to_string()), field_type: Some(0) },
        ItemField { name: Some("plain".to_string()), value: Some("x".to_string()), field_type: Some(0) },
        ItemField {
            name: Some(encrypt_text("api_token", &key).unwrap()),
            value: None,
            field_type: Some(1),
        },
        ItemField {
            name: Some(encrypt_text("api_token", &key).unwrap()),
            value: Some(encrypt_text("t0ken", &key).unwrap()),
            field_type: Some(1),
        },
        ItemField {
            name: Some(encrypt_text("username", &key).unwrap()),
            value: Some(encrypt_text("from-field", &key).unwrap()),
            field_type: Some(1),
        },
    ]);
    assert_eq!(find_existing_encrypted_value(&item, "api_token", &key), Some("t0ken".to_string()));
    assert_eq!(find_existing_encrypted_value(&item, "missing", &key), None);
    // With no login block, a login key is looked up among the fields.
    assert_eq!(find_existing_encrypted_value(&item, "username", &key), Some("from-field".to_string()));
    // A value that does not decrypt ends the search.
    item.fields.as_mut().unwrap()[3].value = Some("garbage".to_string());
    assert_eq!(find_existing_encrypted_value(&item, "api_token", &key), None);
}

#[test]
fn set_value_updates_the_login_block() {
    let key = key64();
    let mut item = empty_item();
    set_item_value(&mut item, "password", "ENC-P".to_string(), "unused".to_string(), &key);
    let login = item.login.as_ref().unwrap();
    assert_eq!(login.password.as_deref(), Some("ENC-P"));
    assert_eq!(login.username, None);
    set_item_value(&mut item, "username", "ENC-U".to_string(), "unused".to_string(), &key);
    let login = item.login.as_ref().unwrap();
    assert_eq!(login.password.as_deref(), Some("ENC-P"));
    assert_eq!(login.username.as_deref(), Some("ENC-U"));
    assert!(item.fields.is_none());
}

#[test]
fn set_value_updates_the_first_field_with_the_name_or_appends() {
    let key = key64();
    let mut item = empty_item();
    let name_a = encrypt_text("a", &key).unwrap();
    item.fields = Some(vec![
        ItemField { name: Some("other".to_string()), value: Some("keep".to_string()), field_type: Some(0) },
        ItemField { name: Some(name_a.clone()), value: None, field_type: Some(0) },
        ItemField { name: Some(name_a.clone()), value: Some("second".to_string()), field_type: Some(0) },
    ]);
    set_item_value(&mut item, "a", "ENC-A".to_string(), "NEW-NAME".to_string(), &key);
    let fields = item.fields.as_ref().unwrap();
    assert_eq!(fields.len(), 3);
    assert_eq!(fields[0].value.as_deref(), Some("keep"));
    assert_eq!(fields[1].name.as_deref(), Some(name_a.as_str()));
    assert_eq!(fields[1].value.as_deref(), Some("ENC-A"));
    assert_eq!(fields[1].field_type, Some(HIDDEN_FIELD));
    assert_eq!(fields[2].value.as_deref(), Some("second"));
    assert_eq!(fields[2].field_type, Some(0));
    set_item_value(&mut item, "b", "ENC-B".to_string(), "NAME-B".to_string(), &key);
    let fields = item.fields.as_ref().unwrap();
    assert_eq!(fields.len(), 4);
    assert_eq!(fields[3].name.as_deref(), Some("NAME-B"));
    assert_eq!(fields[3].value.as_deref(), Some("ENC-B"));
    assert_eq!(fields[3].field_type, Some(1));
}

#[test]
fn stored_values_are_found_again() {
    let key = key64();
    let mut item = empty_item();
    store_item_value(&mut item, "api_token", "one", &key).unwrap();
    store_item_value(&mut item, "password", "two", &key).unwrap();
    store_item_value(&mut item, "other", "three", &key).unwrap();
    store_item_value(&mut item, "api_token", "four", &key).unwrap();
    assert_eq!(find_existing_encrypted_value(&item, "api_token", &key), Some("four".to_string()));
    assert_eq!(find_existing_encrypted_value(&item, "password", &key), Some("two".to_string()));
    assert_eq!(find_existing_encrypted_value(&item, "other", &key), Some("three".to_string()));
    assert_eq!(item.fields.as_ref().unwrap().len(), 2);
    let field = &item.fields.as_ref().unwrap()[0];
    assert_eq!(decrypt_text(field.name.as_ref().unwrap(), &key), Some("api_token".to_string()));
    assert_eq!(field.field_type, Some(1));
}

#[test]
fn storing_needs_a_key_of_64_bytes() {
    let mut item = empty_item();
    assert_eq!(store_item_value(&mut item, "api_token", "v", &key64()[..32]), Err(Error::KeyTooShort));
    assert!(item.fields.is_none());
    assert!(item.login.is_none());
}

#[test]
fn random_rotation_preserves_username() {
    let key = key64();
    let mut item = empty_item();
    item.login = Some(ItemLogin {
        username: Some(encrypt_text("admin", &key).unwrap()),
        password: Some(encrypt_text("oldpass", &key).unwrap()),
    });
    let secret = secret(vec![random_key("password", 20), static_key("username", "admin")]);
    let data = prepare_updated_item(&mut item, &secret, &key, true, no_file, no_cluster, get_random_string, no_ssh)
        .unwrap();
    let login = item.login.as_ref().unwrap();
    assert_eq!(decrypt_text(login.username.as_ref().unwrap(), &key), Some("admin".to_string()));
    let password = decrypt_text(login.password.as_ref().unwrap(), &key).unwrap();
    assert_eq!(password.len(), 20);
    assert!(password.chars().all(|c| c.is_ascii_alphanumeric()));
    assert_ne!(password, "oldpass");
    assert_eq!(data.get("password"), Some(&password));
    assert_eq!(data.get("username"), Some(&"admin".to_string()));
    let notes = item.notes.as_ref().unwrap();
    let first_line = notes.lines().next().unwrap();
    assert!(first_line.starts_with("Last Rotated: "));
    let stamp = &first_line["Last Rotated: ".len()..];
    assert!(chrono::DateTime::parse_from_rfc3339(stamp).is_ok());
    assert_eq!(&stamp[4..5], "-");
    assert_eq!(&stamp[10..11], "T");
    assert_eq!(item.id.as_deref(), Some("cipher-1"));
    assert!(item.has_collections);
}

#[test]
fn custom_key_becomes_hidden_field() {
    let key = key64();
    let mut item = empty_item();
    let secret = secret(vec![random_key("api_token", 16)]);
    prepare_updated_item(&mut item, &secret, &key, false, no_file, no_cluster, get_random_string, no_ssh).unwrap();
    let fields = item.fields.as_ref().unwrap();
    assert_eq!(fields.len(), 1);
    assert_eq!(decrypt_text(fields[0].name.as_ref().unwrap(), &key), Some("api_token".to_string()));
    assert_eq!(decrypt_text(fields[0].value.as_ref().unwrap(), &key).unwrap().len(), 16);
    assert_eq!(fields[0].field_type, Some(1));
}

#[test]
fn a_second_rotation_keeps_random_values_unless_forced() {
    let key = key64();
    let mut item = empty_item();
    let secret = secret(vec![random_key("password", 24), random_key("api_token", 12)]);
    let first = prepare_updated_item(&mut item, &secret, &key, false, no_file, no_cluster, get_random_string, no_ssh)
        .unwrap();
    let second = prepare_updated_item(&mut item, &secret, &key, false, no_file, no_cluster, get_random_string, no_ssh)
        .unwrap();
    assert_eq!(first.get("password"), second.get("password"));
    assert_eq!(first.get("api_token"), second.get("api_token"));
    assert_eq!(item.fields.as_ref().unwrap().len(), 1);
    let forced = prepare_updated_item(&mut item, &secret, &key, true, no_file, no_cluster, get_random_string, no_ssh)
        .unwrap();
    assert_ne!(first.get("password"), forced.get("password"));
    assert_ne!(first.get("api_token"), forced.get("api_token"));
    assert_eq!(forced.get("password").unwrap().len(), 24);
    assert_eq!(item.notes.as_ref().unwrap().matches("Last Rotated:").count(), 1);
}

#[test]
fn ssh_keys_are_always_new_and_store_both_halves() {
    let key = key64();
    let mut item = empty_item();
    let secret = secret(vec![KeyDefinition { name: "deploy".to_string(), key_type: KeyType::Ssh, ..Default::default() }]);
    let counter = std::cell::Cell::new(0);
    let ssh = || {
        counter.set(counter.get() + 1);
        Ok((format!("private-{}", counter.get()), format!("public-{}", counter.get())))
    };
    let first = prepare_updated_item(&mut item, &secret, &key, false, no_file, no_cluster, get_random_string, &ssh)
        .unwrap();
    let second = prepare_updated_item(&mut item, &secret, &key, false, no_file, no_cluster, get_random_string, &ssh)
        .unwrap();
    assert_eq!(first.get("deploy"), Some(&"private-1".to_string()));
    assert_eq!(first.get("public_key"), Some(&"public-1".to_string()));
    assert_eq!(second.get("deploy"), Some(&"private-2".to_string()));
    assert_eq!(second.get("public_key"), Some(&"public-2".to_string()));
    assert_eq!(find_existing_encrypted_value(&item, "deploy", &key), Some("private-2".to_string()));
    assert_eq!(find_existing_encrypted_value(&item, "public_key", &key), Some("public-2".to_string()));
    assert_eq!(item.fields.as_ref().unwrap().len(), 2);
}

#[test]
fn file_and_cluster_keys_ask_their_resolvers() {
    let key = key64();
    let mut item = empty_item();
    let secret = secret(vec![
        KeyDefinition {
            name: "db_user".to_string(),
            key_type: KeyType::File,
            source: Some(FileSource { path: "values.yaml".to_string(), key_path: "db.user".to_string() }),
            ..Default::default()
        },
        KeyDefinition { name: "token".to_string(), key_type: KeyType::K8s, ..Default::default() },
    ]);
    let data = prepare_updated_item(
        &mut item,
        &secret,
        &key,
        false,
        |path, key_path| Ok(format!("{}#{}", path, key_path)),
        |name| Ok(format!("cluster:{}", name)),
        get_random_string,
        no_ssh,
    )
    .unwrap();
    assert_eq!(data.entries, vec![
        ("db_user".to_string(), "values.yaml#db.user".to_string()),
        ("token".to_string(), "cluster:token".to_string()),
    ]);
    let failed = prepare_updated_item(
        &mut item,
        &secret,
        &key,
        false,
        |_, _| Err(Error::FileFailed),
        |_| panic!("not reached"),
        get_random_string,
        no_ssh,
    );
    assert_eq!(failed.unwrap_err(), Error::FileFailed);
}

#[test]
fn produce_value_reuses_only_random_keys() {
    let key = key64();
    let mut item = empty_item();
    store_item_value(&mut item, "password", "kept", &key).unwrap();
    let random = random_key("password", 8);
    let reused = produce_value(&item, &random, &key, false, no_file, no_cluster, get_random_string, no_ssh).unwrap();
    assert_eq!(reused, ("kept".to_string(), false, None));
    let forced = produce_value(&item, &random, &key, true, no_file, no_cluster, get_random_string, no_ssh).unwrap();
    assert_eq!(forced.0.len(), 8);
    assert!(forced.1);
    let fixed = static_key("password", "from-manifest");
    let value = produce_value(&item, &fixed, &key, false, no_file, no_cluster, get_random_string, no_ssh).unwrap();
    assert_eq!(value, ("from-manifest".to_string(), false, None));
}

#[test]
fn text_fields_decrypt_to_text_or_nothing() {
    let key = key64();
    let sealed = encrypt_text("name", &key).unwrap();
    assert_eq!(decrypt_text_or_raw(&sealed, &key), Some("name".to_string()));
    assert_eq!(decrypt_text("not a cipher string", &key), None);
    assert_eq!(decrypt_text_or_raw("not a cipher string", &key), None);
    let mut data = TextMap::new();
    data.insert("a".to_string(), "1".to_string());
    data.insert("b".to_string(), "2".to_string());
    data.insert("a".to_string(), "3".to_string());
    assert_eq!(data.entries, vec![("a".to_string(), "3".to_string()), ("b".to_string(), "2".to_string())]);
    assert_eq!(data.get("b"), Some(&"2".to_string()));
    assert_eq!(data.get("c"), None);
    assert_eq!(data.len(), 2);
}

fn no_random(_: usize) -> String {
    panic!("no generator")
}

#[test]
fn settled_keys_need_nothing_from_outside() {
    let key = key64();

    let mut item = empty_item();
    let data = prepare_updated_item(&mut item, &secret(vec![]), &key, false, no_file, no_cluster, no_random, no_ssh)
        .unwrap();
    assert!(data.entries.is_empty());
    assert!(item.notes.as_deref().unwrap().starts_with("Last Rotated: "));

    let mut item = empty_item();
    store_item_value(&mut item, "password", "kept", &key).unwrap();
    let keys = vec![
        static_key("username", "admin"),
        random_key("password", 20),
        static_key("region", "eu"),
        static_key("username", "root"),
    ];
    let data = prepare_updated_item(&mut item, &secret(keys), &key, false, no_file, no_cluster, no_random, no_ssh)
        .unwrap();
    assert_eq!(data.entries, vec![
        ("username".to_string(), "root".to_string()),
        ("password".to_string(), "kept".to_string()),
        ("region".to_string(), "eu".to_string()),
    ]);
    assert_eq!(find_existing_encrypted_value(&item, "username", &key), Some("root".to_string()));
    assert_eq!(find_existing_encrypted_value(&item, "password", &key), Some("kept".to_string()));
    assert_eq!(find_existing_encrypted_value(&item, "region", &key), Some("eu".to_string()));
}

#[test]
fn the_first_key_without_a_value_ends_the_preparation() {
    let key = key64();
    let without_value = KeyDefinition { name: "token".to_string(), key_type: KeyType::Static, ..Default::default() };
    let without_source = KeyDefinition { name: "db".to_string(), key_type: KeyType::File, ..Default::default() };

    let mut item = empty_item();
    item.notes = Some("as before".to_string());
    let keys = vec![static_key("username", "admin"), without_value.clone(), without_source.clone()];
    let failed = prepare_updated_item(&mut item, &secret(keys), &key, true, no_file, no_cluster, no_random, no_ssh);
    assert_eq!(failed.unwrap_err(), Error::StaticWithoutValue);
    assert_eq!(item.notes.as_deref(), Some("as before"));
    assert_eq!(item.id.as_deref(), Some("cipher-1"));

    let mut item = empty_item();
    let keys = vec![without_source, without_value];
    let failed = prepare_updated_item(&mut item, &secret(keys), &key, true, no_file, no_cluster, no_random, no_ssh);
    assert_eq!(failed.unwrap_err(), Error::FileWithoutSource);
    assert_eq!(item.notes, None);

    let mut item = empty_item();
    let keys = vec![static_key("username", "admin")];
    let failed =
        prepare_updated_item(&mut item, &secret(keys), &key[..63], true, no_file, no_cluster, no_random, no_ssh);
    assert_eq!(failed.unwrap_err(), Error::KeyTooShort);
    assert_eq!(item.notes, None);
    assert!(item.login.is_none());
}

#[test]
fn a_forced_random_key_gets_what_the_generator_returns() {
    let key = key64();
    let mut item = empty_item();
    store_item_value(&mut item, "password", "oldpass", &key).unwrap();
    store_item_value(&mut item, "username", "admin", &key).unwrap();
    let fields_before = item.fields.as_ref().map(|f| f.len());
    let keys = vec![random_key("password", 20), static_key("username", "admin")];
    let data = prepare_updated_item(
        &mut item,
        &secret(keys),
        &key,
        true,
        no_file,
        no_cluster,
        |n| "Ab3".repeat(n).chars().take(n).collect(),
        no_ssh,
    )
    .unwrap();
    assert_eq!(data.entries, vec![
        ("password".to_string(), "Ab3Ab3Ab3Ab3Ab3Ab3Ab".to_string()),
        ("username".to_string(), "admin".to_string()),
    ]);
    assert_eq!(find_existing_encrypted_value(&item, "password", &key), Some("Ab3Ab3Ab3Ab3Ab3Ab3Ab".to_string()));
    assert_eq!(find_existing_encrypted_value(&item, "username", &key), Some("admin".to_string()));
    // Both keys live in the login block: the custom fields stay as they were.
    assert_eq!(item.fields.as_ref().map(|f| f.len()), fields_before);
}

#[test]
fn a_new_custom_key_gets_one_hidden_field() {
    let key = key64();
    let mut item = empty_item();
    store_item_value(&mut item, "username", "admin", &key).unwrap();
    let login_before = item.login.as_ref().map(|l| (l.username.clone(), l.password.clone()));
    let keys = vec![random_key("api_token", 16)];
    let data = prepare_updated_item(&mut item, &secret(keys.clone()), &key, false, no_file, no_cluster, get_random_string, no_ssh)
        .unwrap();
    let token = data.entries[0].1.clone();
    assert_eq!(token.len(), 16);
    assert!(token.chars().all(|c| c.is_ascii_alphanumeric()));
    let fields = item.fields.as_ref().unwrap();
    assert_eq!(fields.len(), 1);
    assert_eq!(fields[0].field_type, Some(HIDDEN_FIELD));
    assert_eq!(decrypt_text(fields[0].name.as_ref().unwrap(), &key), Some("api_token".to_string()));
    assert_eq!(decrypt_text(fields[0].value.as_ref().unwrap(), &key), Some(token.clone()));
    assert_eq!(item.login.as_ref().map(|l| (l.username.clone(), l.password.clone())), login_before);
    // A second rotation keeps the value and makes no second field.
    let again = prepare_updated_item(&mut item, &secret(keys), &key, false, no_file, no_cluster, no_random, no_ssh)
        .unwrap();
    assert_eq!(again.entries, vec![("api_token".to_string(), token)]);
    assert_eq!(item.fields.as_ref().unwrap().len(), 1);
}
