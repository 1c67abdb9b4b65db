use base64::Engine;
use rotato::commands::rotate::authentik::{blueprint_secret, generate_blueprint};
use rotato::commands::rotate::hooks::{execute_hooks, hook_invocation};
use rotato::commands::rotate::kube::{
    build_secret_manifest, generate_and_write_secret, sealing_certificate_path,
};
use rotato::commands::rotate::run::{
    collect_manifests, commit_message, commit_step, filter_secrets, manifest_file_name, run_result,
    summarize, CommitAction, CommitEvent, CommitState, Summary, CONCURRENCY,
};
use rotato::commands::rotate::process::RotationOutcome;
use rotato::commands::rotate::user::{django_hash, process_user};
use rotato::error::{Error, ErrorKind};
use rotato::infra::fs::{get_file_value, YamlValue};
use rotato::infra::k8s::get_k8s_secret;
use rotato::infra::ssh::generate_ssh_keypair;
use rotato::models::authentik::{default_secret_field, AuthentikMetadata, AuthentikTarget};
use rotato::models::config::{HookCommand, RotationManifest, SecretDefinition};
use rotato::models::k8s::KubernetesTarget;
use rotato::models::user::UserDefinition;
use rotato::models::vaultwarden_target::VaultwardenTarget;
use rotato::text_map::TextMap;
use rotato::vaultwarden::client::{members_or_none, retry, ResponseDecision};

fn scalar(s: &str) -> YamlValue {
    YamlValue::Scalar(s.to_string())
}

fn mapping(entries: Vec<(&str, YamlValue)>) -> YamlValue {
    YamlValue::Mapping(entries.into_iter().map(|(k, v)| (k.to_string(), v)).collect())
}

fn values_yaml() -> YamlValue {
    // db:
    //   auth:
    //     user: admin
    //     port: 5432
    mapping(vec![(
        "db",
        mapping(vec![("auth", mapping(vec![("user", scalar("admin")), ("port", scalar("5432"))]))]),
    )])
}

fn target() -> KubernetesTarget {
    KubernetesTarget {
        namespace: "prod".to_string(),
        secret_name: "app-credentials".to_string(),
        path: "apps/app/sealed.yaml".to_string(),
        labels: None,
    }
}

fn vault_target() -> VaultwardenTarget {
    VaultwardenTarget {
        cipher_id: None,
        name: None,
        collection_ids: None,
        collections: None,
        folder: None,
        notes: None,
        fields: None,
    }
}

fn secret_named(name: &str) -> SecretDefinition {
    SecretDefinition {
        name: name.to_string(),
        description: None,
        vaultwarden: vault_target(),
        kubernetes: target(),
        additional_kubernetes: None,
        authentik: None,
        keys: vec![],
        policy: None,
        hooks: None,
        access_users: None,
    }
}

fn data(pairs: &[(&str, &str)]) -> TextMap {
    let mut map = TextMap::new();
    for (k, v) in pairs {
        map.insert(k.to_string(), v.to_string());
    }
    map
}

#[test]
fn test_get_file_value_yaml_traversal() {
    let doc = values_yaml();

    let val = get_file_value(&doc, "db.auth.user").unwrap();
    assert_eq!(val, "admin");

    let port = get_file_value(&doc, "db.auth.port").unwrap();
    assert_eq!(port, "5432");

    assert!(get_file_value(&doc, "db.missing").is_err());
}

#[test]
fn test_generate_blueprint() {
    let target = AuthentikTarget {
        path: "blueprint.yaml".to_string(),
        metadata: AuthentikMetadata {
            name: "test-auth".to_string(),
            model: "authentik_providers_oauth2.oauth2provider".to_string(),
            identifiers: vec![("slug".to_string(), "test-slug".to_string())],
            secret_field: "client_secret".to_string(),
        },
    };

    let blueprint = generate_blueprint(&target, "my-super-secret");

    assert_eq!(blueprint.path, "blueprint.yaml");
    assert_eq!(blueprint.version, 1);
    assert_eq!(blueprint.model, "authentik_providers_oauth2.oauth2provider");
    assert_eq!(blueprint.identifiers, vec![("slug".to_string(), "test-slug".to_string())]);
    assert_eq!(blueprint.secret_field, "client_secret");
    assert_eq!(blueprint.secret_value, "my-super-secret");
}

#[test]
fn file_values_follow_the_key_path() {
    let doc = values_yaml();
    assert_eq!(get_file_value(&doc, "db.auth.user").unwrap(), "admin");
    assert_eq!(get_file_value(&doc, "db.auth.port").unwrap(), "5432");
    assert_eq!(get_file_value(&doc, "db.missing"), Err(Error::KeyPathNotFound));
    assert_eq!(get_file_value(&doc, "db.auth"), Err(Error::NotAScalar));
    assert_eq!(get_file_value(&doc, ""), Err(Error::KeyPathNotFound));
    assert_eq!(get_file_value(&doc, "db.auth.user.more"), Err(Error::KeyPathNotFound));
    assert_eq!(get_file_value(&doc, "db..auth"), Err(Error::KeyPathNotFound));
    assert_eq!(get_file_value(&scalar("x"), "a"), Err(Error::KeyPathNotFound));
    assert_eq!(get_file_value(&YamlValue::Null, "a").unwrap_err().kind(), ErrorKind::Config);
}

#[test]
fn file_values_look_through_tags_on_the_way_only() {
    let doc = YamlValue::Tagged(Box::new(mapping(vec![
        ("a", YamlValue::Tagged(Box::new(scalar("tagged")))),
        ("b", scalar("plain")),
        ("list", YamlValue::Sequence),
        ("a", scalar("second entry of the same key")),
    ])));
    assert_eq!(get_file_value(&doc, "b").unwrap(), "plain");
    assert_eq!(get_file_value(&doc, "a"), Err(Error::NotAScalar));
    assert_eq!(get_file_value(&doc, "list"), Err(Error::NotAScalar));
    assert_eq!(get_file_value(&doc, "list.0"), Err(Error::KeyPathNotFound));
}

#[test]
fn cluster_secrets_are_base64_with_line_feeds() {
    let engine = base64::engine::general_purpose::STANDARD;
    let encoded = engine.encode("s3cr3t value");
    let broken = format!("{}\n{}\n", &encoded[..5], &encoded[5..]);
    let data = Some(vec![
        ("username".to_string(), Some(engine.encode("admin"))),
        ("password".to_string(), Some(broken)),
        ("number".to_string(), None),
        ("binary".to_string(), Some(engine.encode([0xffu8, 0xfe]))),
        ("plain".to_string(), Some("not base64!".to_string())),
    ]);
    assert_eq!(get_k8s_secret(&data, "username").unwrap(), "admin");
    assert_eq!(get_k8s_secret(&data, "password").unwrap(), "s3cr3t value");
    assert_eq!(get_k8s_secret(&data, "number"), Err(Error::SecretKeyNotFound));
    assert_eq!(get_k8s_secret(&data, "missing"), Err(Error::SecretKeyNotFound));
    assert_eq!(get_k8s_secret(&data, "binary"), Err(Error::InvalidUtf8));
    assert_eq!(get_k8s_secret(&data, "plain"), Err(Error::InvalidBase64));
    assert_eq!(get_k8s_secret(&None, "username"), Err(Error::SecretWithoutData));
}

#[test]
fn ssh_key_files_are_trimmed() {
    let pair = generate_ssh_keypair("-----BEGIN KEY-----\nabc\n-----END KEY-----\n", "  ssh-ed25519 AAAA host \n\n");
    assert_eq!(pair.0, "-----BEGIN KEY-----\nabc\n-----END KEY-----");
    assert_eq!(pair.1, "ssh-ed25519 AAAA host");
    assert_eq!(generate_ssh_keypair(" \t\u{a0}\u{3000}", ""), (String::new(), String::new()));
}

#[test]
fn hooks_get_the_values_in_their_environment() {
    let hook = HookCommand {
        command: "kubectl".to_string(),
        args: Some(vec!["rollout".to_string(), "restart".to_string()]),
        env: Some(vec![("MODE".to_string(), "prod".to_string())]),
        shell: None,
    };
    let values = data(&[("api_token", "t0ken"), ("password", "P@ss")]);
    let inv = hook_invocation(&hook, "/repo", &values);
    assert_eq!(inv.program, "kubectl");
    assert_eq!(inv.args, vec!["rollout", "restart"]);
    assert_eq!(inv.cwd, "/repo");
    assert_eq!(inv.env, vec![
        ("ROTATOR_KEY_API_TOKEN".to_string(), "t0ken".to_string()),
        ("ROTATOR_KEY_PASSWORD".to_string(), "P@ss".to_string()),
        ("MODE".to_string(), "prod".to_string()),
    ]);
}

#[test]
fn hook_variables_are_named_in_upper_case() {
    let values = data(&[("straße", "a"), ("MiXed_9", "b")]);
    let hook = HookCommand { command: "true".to_string(), args: None, env: None, shell: None };
    let inv = hook_invocation(&hook, ".", &values);
    assert_eq!(inv.env, vec![
        ("ROTATOR_KEY_STRASSE".to_string(), "a".to_string()),
        ("ROTATOR_KEY_MIXED_9".to_string(), "b".to_string()),
    ]);
}

#[test]
fn shell_hooks_run_as_one_command_line() {
    let hook = HookCommand {
        command: "echo".to_string(),
        args: Some(vec!["a b".to_string(), "c".to_string()]),
        env: None,
        shell: Some(true),
    };
    let inv = hook_invocation(&hook, ".", &TextMap::new());
    assert_eq!(inv.program, "sh");
    assert_eq!(inv.args, vec!["-c", "echo a b c"]);
    assert!(inv.env.is_empty());
    let bare = HookCommand { command: "true".to_string(), args: None, env: None, shell: Some(true) };
    assert_eq!(hook_invocation(&bare, ".", &TextMap::new()).args, vec!["-c", "true"]);
    let direct = HookCommand { command: "true".to_string(), args: None, env: None, shell: Some(false) };
    let inv = hook_invocation(&direct, ".", &TextMap::new());
    assert_eq!(inv.program, "true");
    assert!(inv.args.is_empty());
}

#[test]
fn a_dry_run_executes_no_hook() {
    let hooks = vec![
        HookCommand { command: "one".to_string(), args: None, env: None, shell: None },
        HookCommand { command: "two".to_string(), args: None, env: None, shell: None },
    ];
    assert!(execute_hooks(&hooks, "/repo", true, &TextMap::new()).is_empty());
    let run = execute_hooks(&hooks, "/repo", false, &TextMap::new());
    assert_eq!(run.len(), 2);
    assert_eq!(run[0].program, "one");
    assert_eq!(run[1].program, "two");
    assert!(execute_hooks(&[], "/repo", false, &TextMap::new()).is_empty());
}

#[test]
fn sealed_secret_carries_values_and_labels() {
    let values = data(&[("password", "P@ssw0rd!")]);
    let write = generate_and_write_secret(&target(), &values, "/repo", false).unwrap();
    assert_eq!(write.git_root, "/repo");
    assert_eq!(write.path, "apps/app/sealed.yaml");
    assert_eq!(write.manifest.name, "app-credentials");
    assert_eq!(write.manifest.namespace, "prod");
    assert_eq!(write.manifest.string_data, vec![("password".to_string(), "P@ssw0rd!".to_string())]);
    assert_eq!(write.manifest.labels, vec![("managed-by".to_string(), "rotator-helper".to_string())]);
    assert!(generate_and_write_secret(&target(), &values, "/repo", true).is_none());
    assert_eq!(
        sealing_certificate_path(),
        "apps/security/sealed-secrets/secrets/sealed-secrets-public-key.crt"
    );
}

#[test]
fn labels_of_the_target_are_added_to_the_secret() {
    let mut labelled = target();
    labelled.labels = Some(vec![
        ("team".to_string(), "infra".to_string()),
        ("managed-by".to_string(), "someone-else".to_string()),
        ("team".to_string(), "platform".to_string()),
    ]);
    let manifest = build_secret_manifest(&labelled, &TextMap::new());
    assert_eq!(manifest.labels, vec![
        ("managed-by".to_string(), "someone-else".to_string()),
        ("team".to_string(), "platform".to_string()),
    ]);
    assert!(manifest.string_data.is_empty());
}

#[test]
fn blueprint_names_model_identifiers_and_secret() {
    let target = AuthentikTarget {
        path: "blueprints/app.yaml".to_string(),
        metadata: AuthentikMetadata {
            name: "test-auth".to_string(),
            model: "authentik_providers_oauth2.oauth2provider".to_string(),
            identifiers: vec![("slug".to_string(), "test-slug".to_string())],
            secret_field: default_secret_field(),
        },
    };
    let blueprint = generate_blueprint(&target, "my-super-secret");
    assert_eq!(blueprint.path, "blueprints/app.yaml");
    assert_eq!(blueprint.version, 1);
    assert_eq!(blueprint.model, "authentik_providers_oauth2.oauth2provider");
    assert_eq!(blueprint.identifiers, vec![("slug".to_string(), "test-slug".to_string())]);
    assert_eq!(blueprint.secret_field, "client_secret");
    assert_eq!(blueprint.secret_value, "my-super-secret");
}

#[test]
fn blueprint_takes_client_secret_then_password_then_secret() {
    let all = data(&[("secret", "3"), ("password", "2"), ("client_secret", "1")]);
    assert_eq!(blueprint_secret(&all), Some(&"1".to_string()));
    let two = data(&[("secret", "3"), ("password", "2")]);
    assert_eq!(blueprint_secret(&two), Some(&"2".to_string()));
    let one = data(&[("secret", "3"), ("other", "x")]);
    assert_eq!(blueprint_secret(&one), Some(&"3".to_string()));
    assert_eq!(blueprint_secret(&data(&[("other", "x")])), None);
}

#[test]
fn user_rotation_hashes_the_new_password() {
    let user = UserDefinition {
        username: "alice".to_string(),
        email: "alice@example.com".to_string(),
        groups: vec![],
        authentik: Some(AuthentikTarget {
            path: "blueprints/alice.yaml".to_string(),
            metadata: AuthentikMetadata {
                name: "alice".to_string(),
                model: "authentik_core.user".to_string(),
                identifiers: vec![("username".to_string(), "alice".to_string())],
                secret_field: "password".to_string(),
            },
        }),
        vaultwarden: vault_target(),
    };
    let rotation = process_user(&user);
    assert_eq!(rotation.password.len(), 32);
    assert!(rotation.password.chars().all(|c| c.is_ascii_alphanumeric()));
    let parts: Vec<&str> = rotation.django_hash.split('$').collect();
    assert_eq!(parts.len(), 4);
    assert_eq!(parts[0], "pbkdf2_sha256");
    assert_eq!(parts[1], "260000");
    assert_eq!(parts[2].len(), 12);
    assert_eq!(parts[3].len(), 44);
    assert_eq!(rotation.django_hash, django_hash(&rotation.password, parts[2]));
    let blueprint = rotation.blueprint.unwrap();
    assert_eq!(blueprint.secret_field, "password");
    assert_eq!(blueprint.secret_value, rotation.django_hash);
    let mut plain = user;
    plain.authentik = None;
    assert!(process_user(&plain).blueprint.is_none());
}

#[test]
fn django_hash_matches_a_value_made_elsewhere() {
    assert_eq!(
        django_hash("password", "salt"),
        "pbkdf2_sha256$260000$salt$BOAEc9gQ0CEXQRxBUdHBbIFI/Fh0OEwXzUsCN5cI+kQ="
    );
}

#[test]
fn cluster_secret_with_a_known_encoding() {
    let data = Some(vec![("username".to_string(), Some("YWRtaW4=".to_string()))]);
    assert_eq!(get_k8s_secret(&data, "username").unwrap(), "admin");
}

#[test]
fn django_hash_matches_a_known_value() {
    let mut expected = [0u8; 32];
    pbkdf2::pbkdf2_hmac::<sha2::Sha256>(b"password", b"salt", 260000, &mut expected);
    let encoded = base64::engine::general_purpose::STANDARD.encode(expected);
    assert_eq!(django_hash("password", "salt"), format!("pbkdf2_sha256$260000$salt${}", encoded));
}

#[test]
fn manifests_are_put_together_in_order() {
    let manifests = vec![
        RotationManifest { version: "v1".to_string(), secrets: vec![secret_named("a"), secret_named("b")], users: vec![] },
        RotationManifest { version: "v1".to_string(), secrets: vec![], users: vec![] },
        RotationManifest { version: "v1".to_string(), secrets: vec![secret_named("c")], users: vec![] },
    ];
    let (secrets, users) = collect_manifests(manifests).unwrap();
    let names: Vec<&str> = secrets.iter().map(|s| s.name.as_str()).collect();
    assert_eq!(names, vec!["a", "b", "c"]);
    assert!(users.is_empty());
    assert_eq!(collect_manifests(vec![]).err(), Some(Error::NoManifests));
    let empty = vec![RotationManifest { version: "v1".to_string(), secrets: vec![], users: vec![] }];
    assert_eq!(collect_manifests(empty).err(), Some(Error::NoManifests));
    assert_eq!(manifest_file_name(), "rotation.yaml");
}

#[test]
fn the_filter_keeps_secrets_whose_names_hold_the_pattern() {
    let secrets = || vec![secret_named("app-db"), secret_named("app-cache"), secret_named("mail"), secret_named("db")];
    let names = |v: Vec<SecretDefinition>| v.into_iter().map(|s| s.name).collect::<Vec<_>>();
    assert_eq!(names(filter_secrets(secrets(), Some("db"))), vec!["app-db", "db"]);
    assert_eq!(names(filter_secrets(secrets(), Some("app-"))), vec!["app-db", "app-cache"]);
    assert_eq!(names(filter_secrets(secrets(), Some(""))), vec!["app-db", "app-cache", "mail", "db"]);
    assert!(filter_secrets(secrets(), Some("nothing")).is_empty());
    assert_eq!(names(filter_secrets(secrets(), None)), vec!["app-db", "app-cache", "mail", "db"]);
}

#[test]
fn the_summary_counts_skipped_secrets_as_successes() {
    let outcomes = [
        RotationOutcome::Done,
        RotationOutcome::Failed(Error::CipherNotFound),
        RotationOutcome::Skipped,
        RotationOutcome::Failed(Error::ToolFailed),
    ];
    let summary = summarize(&outcomes);
    assert_eq!(summary, Summary { success: 2, failure: 2 });
    assert_eq!(run_result(&summary), Err(Error::RotationsFailed));
    let fine = summarize(&[RotationOutcome::Done, RotationOutcome::Skipped]);
    assert_eq!(fine, Summary { success: 2, failure: 0 });
    assert_eq!(run_result(&fine), Ok(()));
    assert_eq!(summarize(&[]), Summary { success: 0, failure: 0 });
    assert_eq!(CONCURRENCY, 5);
}

#[test]
fn the_commit_is_made_only_where_something_is_staged() {
    let (state, action) = commit_step(false, CommitState::Start, CommitEvent::Begin);
    assert_eq!((state, action), (CommitState::AwaitingStatus, CommitAction::Status));
    let (state, action) = commit_step(false, state, CommitEvent::Status { changed: true });
    assert_eq!((state, action), (CommitState::AwaitingAdd, CommitAction::Add));
    let (state, action) = commit_step(false, state, CommitEvent::Added);
    assert_eq!((state, action), (CommitState::AwaitingDiff, CommitAction::DiffCached));
    let (state, action) = commit_step(false, state, CommitEvent::Diff { staged: true });
    assert_eq!((state, action), (CommitState::AwaitingCommit, CommitAction::Commit));
    let (state, action) = commit_step(false, state, CommitEvent::Committed);
    assert_eq!((state, action), (CommitState::Finished, CommitAction::Done));
    assert_eq!(commit_message(), "Rotate secrets (Decentralized) [skip ci]");

    assert_eq!(
        commit_step(true, CommitState::Start, CommitEvent::Begin),
        (CommitState::Finished, CommitAction::Done)
    );
    assert_eq!(
        commit_step(false, CommitState::AwaitingStatus, CommitEvent::Status { changed: false }),
        (CommitState::Finished, CommitAction::Done)
    );
    assert_eq!(
        commit_step(false, CommitState::AwaitingDiff, CommitEvent::Diff { staged: false }),
        (CommitState::Finished, CommitAction::Done)
    );
    assert_eq!(
        commit_step(false, CommitState::AwaitingAdd, CommitEvent::Failed(Error::ToolFailed)),
        (CommitState::Finished, CommitAction::Fail(Error::ToolFailed))
    );
    assert_eq!(
        commit_step(false, CommitState::Start, CommitEvent::Committed),
        (CommitState::Finished, CommitAction::Fail(Error::OutOfTurn))
    );
}

#[test]
fn answers_of_the_vault_are_retried_within_bounds() {
    assert_eq!(retry(200, 0), ResponseDecision::Success);
    assert_eq!(retry(204, 3), ResponseDecision::Success);
    assert_eq!(retry(401, 0), ResponseDecision::Fail(Error::Unauthorized));
    assert_eq!(retry(404, 0), ResponseDecision::Fail(Error::NotFound));
    assert_eq!(retry(429, 0), ResponseDecision::RetryAfter { seconds: 2 });
    assert_eq!(retry(429, 1), ResponseDecision::RetryAfter { seconds: 4 });
    assert_eq!(retry(429, 4), ResponseDecision::RetryAfter { seconds: 10 });
    assert_eq!(retry(429, 5), ResponseDecision::Fail(Error::RateLimited));
    assert_eq!(retry(429, u32::MAX), ResponseDecision::Fail(Error::RateLimited));
    assert_eq!(retry(500, 0), ResponseDecision::RetryAfter { seconds: 0 });
    assert_eq!(retry(503, 1), ResponseDecision::Fail(Error::RequestFailed));
    assert_eq!(retry(400, 0), ResponseDecision::Fail(Error::RequestFailed));
    assert_eq!(retry(302, 0), ResponseDecision::Fail(Error::RequestFailed));
    assert_eq!(Error::Unauthorized.kind(), ErrorKind::Auth);
    assert_eq!(Error::NotFound.kind(), ErrorKind::Resolution);
    assert_eq!(Error::RateLimited.kind(), ErrorKind::Transport);
}

#[test]
fn a_member_list_that_is_not_found_counts_as_empty() {
    assert_eq!(members_or_none::<u8>(Err(Error::NotFound)), Ok(vec![]));
    assert_eq!(members_or_none(Ok(vec![1u8, 2])), Ok(vec![1u8, 2]));
    assert_eq!(members_or_none::<u8>(Err(Error::Unauthorized)), Err(Error::Unauthorized));
}
