use sheesy_vault::commands::{CommandEnv, CommandOutput};
use sheesy_vault::edit::EditOutcome;
use sheesy_vault::error::VaultError;
use sheesy_vault::keys::KeyInfo;
use sheesy_vault::types::{CreateMode, SigningMode, VaultCommand, VaultSpec, WriteMode};
use sheesy_vault::vault::Vault;

fn key(fpr: &str, uid: &str) -> KeyInfo {
    KeyInfo { fingerprint: Some(fpr.to_string()), user_ids: vec![uid.to_string()] }
}

fn env() -> CommandEnv {
    CommandEnv {
        resolved_keys: Vec::new(),
        truncated: false,
        export_ok: Vec::new(),
        sweep_results: Vec::new(),
        plaintexts: Vec::new(),
        encrypt_ok: true,
        requester_fpr: String::new(),
        edit_outcome: EditOutcome::Saved,
        edited_plaintext: Vec::new(),
    }
}

fn fresh_vault() -> Vault {
    Vault::init(
        "vault".to_string(),
        "secrets".to_string(),
        ".gpg-keys".to_string(),
        ".recipients".to_string(),
        &vec![key("F1", "alice")],
        &vec![true],
    )
    .unwrap()
}

#[test]
fn commands_add_show_list_remove() {
    let mut v = fresh_vault();
    let specs = vec![VaultSpec { src: "db.plain".to_string(), dst: "db.secret".to_string() }];
    let mut e = env();
    e.plaintexts = vec![b"pw=abc".to_vec()];
    v.execute(&VaultCommand::ResourceAdd { specs: specs.clone() }, e).unwrap();

    let mut e = env();
    e.requester_fpr = "F1".to_string();
    match v.execute(&VaultCommand::ResourceShow { spec: "db.secret".to_string() }, e).unwrap() {
        CommandOutput::Shown(p) => assert_eq!(p, b"pw=abc".to_vec()),
        _ => panic!("show must hand the plaintext back"),
    }

    match v.execute(&VaultCommand::List, env()).unwrap() {
        CommandOutput::Names(n) => assert_eq!(n, vec!["db.secret".to_string()]),
        _ => panic!("list must name the resources"),
    }

    match v.execute(&VaultCommand::RecipientsList, env()).unwrap() {
        CommandOutput::Recipients(l) => assert_eq!(l, vec!["F1".to_string()]),
        _ => panic!("recipients listing must hand the ledger back"),
    }

    v.execute(&VaultCommand::ResourceRemove { specs }, env()).unwrap();
    match v.execute(&VaultCommand::List, env()).unwrap() {
        CommandOutput::Names(n) => assert!(n.is_empty()),
        _ => panic!("list must name the resources"),
    }
}

#[test]
fn command_recipients_add_commits_ledger() {
    let mut v = fresh_vault();
    let mut e = env();
    e.resolved_keys = vec![key("F2", "bob")];
    e.export_ok = vec![true];
    let cmd = VaultCommand::RecipientsAdd {
        gpg_key_ids: vec!["bob".to_string()],
        signing_key_id: None,
        sign: SigningMode::NoSign,
    };
    match v.execute(&cmd, e).unwrap() {
        CommandOutput::SweepReport(report) => assert!(report.is_empty()),
        _ => panic!("a recipient change must hand the sweep report back"),
    }
    assert_eq!(v.ledger, vec!["F1".to_string(), "F2".to_string()]);
}

#[test]
fn command_recipients_add_refuses_truncated_listing() {
    let mut v = fresh_vault();
    let mut e = env();
    e.resolved_keys = vec![key("F2", "bob")];
    e.export_ok = vec![true];
    e.truncated = true;
    let cmd = VaultCommand::RecipientsAdd {
        gpg_key_ids: vec!["bob".to_string()],
        signing_key_id: None,
        sign: SigningMode::NoSign,
    };
    assert_eq!(v.execute(&cmd, e).unwrap_err(), VaultError::TruncatedKeyList);
    assert_eq!(v.ledger, vec!["F1".to_string()]);
}

#[test]
fn command_recipients_init_is_ambiguous_without_selectors() {
    let mut v = fresh_vault();
    let mut e = env();
    e.resolved_keys = vec![key("F2", "bob"), key("F3", "carol")];
    e.export_ok = vec![true, true];
    let cmd = VaultCommand::RecipientsInit { gpg_key_ids: vec![] };
    match v.execute(&cmd, e).unwrap_err() {
        VaultError::AmbiguousKeySelection { candidates } => {
            assert_eq!(candidates, vec!["bob".to_string(), "carol".to_string()]);
        },
        other => panic!("unexpected error: {:?}", other),
    }
    // the failed selection mutated nothing
    assert_eq!(v.ledger, vec!["F1".to_string()]);
    assert_eq!(v.key_mirror, vec!["F1".to_string()]);
}

#[test]
fn command_init_replaces_the_vault() {
    let mut v = fresh_vault();
    let mut e = env();
    e.resolved_keys = vec![key("F9", "dora")];
    e.export_ok = vec![true];
    let cmd = VaultCommand::Init {
        gpg_key_ids: vec!["dora".to_string()],
        gpg_keys_dir: "keys".to_string(),
        secrets: "sec".to_string(),
        recipients_file: "rec".to_string(),
    };
    v.execute(&cmd, e).unwrap();
    assert_eq!(v.ledger, vec!["F9".to_string()]);
    assert_eq!(v.gpg_keys_dir, "keys");
    assert_eq!(v.secrets_dir, "sec");
    assert_eq!(v.recipients_file, "rec");
    assert!(v.resources.is_empty());
}

#[test]
fn command_edit_with_failing_editor_changes_nothing() {
    let mut v = fresh_vault();
    let mut e = env();
    e.plaintexts = vec![b"pw=abc".to_vec()];
    let specs = vec![VaultSpec { src: "db.plain".to_string(), dst: "db.secret".to_string() }];
    v.execute(&VaultCommand::ResourceAdd { specs }, e).unwrap();

    let mut e = env();
    e.edit_outcome = EditOutcome::EditorFailed;
    e.edited_plaintext = b"tampered".to_vec();
    let cmd = VaultCommand::ResourceEdit {
        editor: "vi".to_string(),
        spec: "db.secret".to_string(),
        mode: CreateMode::NoCreate,
    };
    assert_eq!(v.execute(&cmd, e).unwrap_err(), VaultError::EditorFailed);

    let mut e = env();
    e.requester_fpr = "F1".to_string();
    match v.execute(&VaultCommand::ResourceShow { spec: "db.secret".to_string() }, e).unwrap() {
        CommandOutput::Shown(p) => assert_eq!(p, b"pw=abc".to_vec()),
        _ => panic!("show must hand the plaintext back"),
    }
}

#[test]
fn command_add_refuses_overwrite() {
    let mut v = fresh_vault();
    let specs = vec![VaultSpec { src: "db.plain".to_string(), dst: "db.secret".to_string() }];
    let mut e = env();
    e.plaintexts = vec![b"one".to_vec()];
    v.execute(&VaultCommand::ResourceAdd { specs: specs.clone() }, e).unwrap();
    let mut e = env();
    e.plaintexts = vec![b"two".to_vec()];
    match v.execute(&VaultCommand::ResourceAdd { specs }, e).unwrap_err() {
        VaultError::WouldOverwrite { path } => assert_eq!(path, "db.secret"),
        other => panic!("unexpected error: {:?}", other),
    }
    assert_eq!(v.resources[0].plaintext, b"one".to_vec());
}

// the add command refuses to overwrite by default, so its write mode is
// exercised here once more through the underlying operation
#[test]
fn write_mode_is_honoured_by_the_core() {
    let mut v = fresh_vault();
    let spec = VaultSpec { src: "x".to_string(), dst: "x".to_string() };
    v.resource_add(&spec, b"one".to_vec(), WriteMode::RefuseOverwrite, true).unwrap();
    v.resource_add(&spec, b"two".to_vec(), WriteMode::AllowOverwrite, true).unwrap();
    assert_eq!(v.resources[0].plaintext, b"two".to_vec());
}
