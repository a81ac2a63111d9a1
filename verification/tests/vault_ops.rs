use sheesy_vault::error::VaultError;
use sheesy_vault::types::{VaultSpec, WriteMode};
use sheesy_vault::vault::Vault;
use sheesy_vault::keys::KeyInfo;

fn key(fpr: &str, uid: &str) -> KeyInfo {
    KeyInfo { fingerprint: Some(fpr.to_string()), user_ids: vec![uid.to_string()] }
}

fn fresh_vault(fprs: &[&str]) -> Vault {
    let keys: Vec<KeyInfo> = fprs.iter().map(|f| key(f, "user")).collect();
    let export_ok = vec![true; keys.len()];
    Vault::init(
        "vault".to_string(),
        "secrets".to_string(),
        ".gpg-keys".to_string(),
        ".recipients".to_string(),
        &keys,
        &export_ok,
    )
    .expect("init must succeed when every key has a fingerprint and exports")
}

fn spec_for(dst: &str) -> VaultSpec {
    VaultSpec { src: format!("{}.plain", dst), dst: dst.to_string() }
}

#[test]
fn init_builds_ledger_and_mirror() {
    let v = fresh_vault(&["F1"]);
    assert_eq!(v.ledger, vec!["F1".to_string()]);
    assert_eq!(v.key_mirror, vec!["F1".to_string()]);
    assert!(v.resources.is_empty());
}

#[test]
fn init_fails_without_fingerprint() {
    let keys = vec![KeyInfo { fingerprint: None, user_ids: vec!["nobody".to_string()] }];
    let r = Vault::init(
        "vault".to_string(),
        "secrets".to_string(),
        ".gpg-keys".to_string(),
        ".recipients".to_string(),
        &keys,
        &vec![true],
    );
    assert_eq!(r.unwrap_err(), VaultError::FingerprintUnavailable);
}

#[test]
fn init_fails_when_export_fails() {
    let keys = vec![key("F1", "alice")];
    let r = Vault::init(
        "vault".to_string(),
        "secrets".to_string(),
        ".gpg-keys".to_string(),
        ".recipients".to_string(),
        &keys,
        &vec![false],
    );
    match r.unwrap_err() {
        VaultError::KeyExportFailed { fingerprint } => assert_eq!(fingerprint, "F1"),
        other => panic!("unexpected error: {:?}", other),
    }
}

#[test]
fn add_and_show_round_trip() {
    let mut v = fresh_vault(&["F1"]);
    let r = v.resource_add(
        &spec_for("db.secret"),
        b"pw=abc".to_vec(),
        WriteMode::RefuseOverwrite,
        true,
    );
    assert!(r.is_ok());
    let shown = v.resource_show(&"db.secret".to_string(), &"F1".to_string()).unwrap();
    assert_eq!(shown, b"pw=abc".to_vec());
}

#[test]
fn show_refuses_non_recipient() {
    let mut v = fresh_vault(&["F1"]);
    v.resource_add(&spec_for("db.secret"), b"pw=abc".to_vec(), WriteMode::RefuseOverwrite, true)
        .unwrap();
    match v.resource_show(&"db.secret".to_string(), &"F9".to_string()).unwrap_err() {
        VaultError::DecryptionFailed { path } => assert_eq!(path, "db.secret"),
        other => panic!("unexpected error: {:?}", other),
    }
}

#[test]
fn show_missing_resource_fails() {
    let v = fresh_vault(&["F1"]);
    match v.resource_show(&"absent".to_string(), &"F1".to_string()).unwrap_err() {
        VaultError::ResourceNotFound { path } => assert_eq!(path, "absent"),
        other => panic!("unexpected error: {:?}", other),
    }
}

#[test]
fn refuse_overwrite_leaves_destination_unchanged() {
    let mut v = fresh_vault(&["F1"]);
    v.resource_add(&spec_for("db.secret"), b"pw=abc".to_vec(), WriteMode::RefuseOverwrite, true)
        .unwrap();
    let r = v.resource_add(
        &spec_for("db.secret"),
        b"pw=NEW".to_vec(),
        WriteMode::RefuseOverwrite,
        true,
    );
    match r.unwrap_err() {
        VaultError::WouldOverwrite { path } => assert_eq!(path, "db.secret"),
        other => panic!("unexpected error: {:?}", other),
    }
    let shown = v.resource_show(&"db.secret".to_string(), &"F1".to_string()).unwrap();
    assert_eq!(shown, b"pw=abc".to_vec());
}

#[test]
fn allow_overwrite_replaces_destination_entirely() {
    let mut v = fresh_vault(&["F1"]);
    v.resource_add(&spec_for("db.secret"), b"pw=abc".to_vec(), WriteMode::RefuseOverwrite, true)
        .unwrap();
    v.resource_add(&spec_for("db.secret"), b"pw=NEW".to_vec(), WriteMode::AllowOverwrite, true)
        .unwrap();
    let shown = v.resource_show(&"db.secret".to_string(), &"F1".to_string()).unwrap();
    assert_eq!(shown, b"pw=NEW".to_vec());
    assert_eq!(v.resources.len(), 1);
}

#[test]
fn encryption_failure_changes_nothing() {
    let mut v = fresh_vault(&["F1"]);
    let r = v.resource_add(
        &spec_for("db.secret"),
        b"pw=abc".to_vec(),
        WriteMode::RefuseOverwrite,
        false,
    );
    match r.unwrap_err() {
        VaultError::EncryptionFailed { path } => assert_eq!(path, "db.secret"),
        other => panic!("unexpected error: {:?}", other),
    }
    assert!(v.resources.is_empty());
}

#[test]
fn remove_deletes_ciphertext() {
    let mut v = fresh_vault(&["F1"]);
    v.resource_add(&spec_for("db.secret"), b"pw=abc".to_vec(), WriteMode::RefuseOverwrite, true)
        .unwrap();
    v.resource_remove(&spec_for("db.secret")).unwrap();
    assert!(v.resources.is_empty());
    match v.resource_remove(&spec_for("db.secret")).unwrap_err() {
        VaultError::ResourceNotFound { path } => assert_eq!(path, "db.secret"),
        other => panic!("unexpected error: {:?}", other),
    }
}

#[test]
fn list_names_resources_in_order() {
    let mut v = fresh_vault(&["F1"]);
    v.resource_add(&spec_for("a"), b"1".to_vec(), WriteMode::RefuseOverwrite, true).unwrap();
    v.resource_add(&spec_for("b"), b"2".to_vec(), WriteMode::RefuseOverwrite, true).unwrap();
    assert_eq!(v.list(), vec!["a".to_string(), "b".to_string()]);
    assert_eq!(v.recipients_list(), vec!["F1".to_string()]);
}

#[test]
fn recipient_add_sweeps_and_commits() {
    let mut v = fresh_vault(&["F1"]);
    v.resource_add(&spec_for("db.secret"), b"pw=abc".to_vec(), WriteMode::RefuseOverwrite, true)
        .unwrap();
    let report = v
        .recipients_add(&vec![key("F2", "bob")], &vec![true], &vec![true])
        .expect("sweep of one resource must commit when it succeeds");
    assert_eq!(report.len(), 1);
    assert!(report[0].success);
    assert_eq!(report[0].name, "db.secret");
    assert_eq!(v.ledger, vec!["F1".to_string(), "F2".to_string()]);
    let via_f1 = v.resource_show(&"db.secret".to_string(), &"F1".to_string()).unwrap();
    let via_f2 = v.resource_show(&"db.secret".to_string(), &"F2".to_string()).unwrap();
    assert_eq!(via_f1, b"pw=abc".to_vec());
    assert_eq!(via_f2, b"pw=abc".to_vec());
}

#[test]
fn failed_sweep_withholds_ledger_and_keeps_each_resource_whole() {
    let mut v = fresh_vault(&["F1"]);
    v.resource_add(&spec_for("a"), b"1".to_vec(), WriteMode::RefuseOverwrite, true).unwrap();
    v.resource_add(&spec_for("b"), b"2".to_vec(), WriteMode::RefuseOverwrite, true).unwrap();
    v.resource_add(&spec_for("c"), b"3".to_vec(), WriteMode::RefuseOverwrite, true).unwrap();
    let r = v.recipients_add(&vec![key("F2", "bob")], &vec![true], &vec![true, false, true]);
    let report = match r.unwrap_err() {
        VaultError::SweepIncomplete { report } => report,
        other => panic!("unexpected error: {:?}", other),
    };
    // the ledger is exactly what it was before the operation
    assert_eq!(v.ledger, vec!["F1".to_string()]);
    // resource "a" was swept and is fully under the new set; "b" failed and
    // "c" was never reached, so both are fully under the old set
    assert_eq!(v.resources[0].recipients, vec!["F1".to_string(), "F2".to_string()]);
    assert_eq!(v.resources[1].recipients, vec!["F1".to_string()]);
    assert_eq!(v.resources[2].recipients, vec!["F1".to_string()]);
    // contents are intact either way
    assert_eq!(v.resources[0].plaintext, b"1".to_vec());
    assert_eq!(v.resources[1].plaintext, b"2".to_vec());
    assert_eq!(v.resources[2].plaintext, b"3".to_vec());
    // the report names each resource and says which ones converged
    let got: Vec<(String, bool)> = report.iter().map(|o| (o.name.clone(), o.success)).collect();
    assert_eq!(
        got,
        vec![
            ("a".to_string(), true),
            ("b".to_string(), false),
            ("c".to_string(), false),
        ]
    );
    // the new key was still mirrored: only the ledger commit was withheld
    assert_eq!(v.key_mirror, vec!["F1".to_string(), "F2".to_string()]);
}

#[test]
fn recipient_add_export_failure_keeps_ledger_and_resources() {
    let mut v = fresh_vault(&["F1"]);
    v.resource_add(&spec_for("a"), b"1".to_vec(), WriteMode::RefuseOverwrite, true).unwrap();
    let r = v.recipients_add(&vec![key("F2", "bob")], &vec![false], &vec![true]);
    match r.unwrap_err() {
        VaultError::KeyExportFailed { fingerprint } => assert_eq!(fingerprint, "F2"),
        other => panic!("unexpected error: {:?}", other),
    }
    assert_eq!(v.ledger, vec!["F1".to_string()]);
    assert_eq!(v.resources[0].recipients, vec!["F1".to_string()]);
}

#[test]
fn export_key_mirrors_under_fingerprint_path() {
    let mut v = fresh_vault(&["F1"]);
    let (fpr, path) = v.export_key(&key("F2", "bob"), true).unwrap();
    assert_eq!(fpr, "F2");
    assert_eq!(path, ".gpg-keys/F2");
    assert_eq!(v.key_mirror, vec!["F1".to_string(), "F2".to_string()]);
    // a second export of the same key overwrites its file; the mirror set is unchanged
    v.export_key(&key("F2", "bob"), true).unwrap();
    assert_eq!(v.key_mirror, vec!["F1".to_string(), "F2".to_string()]);
}
