use sheesy_vault::types::WriteMode;
use sheesy_vault::util::strip_ext;

#[test]
fn strip_ext_drops_the_encryption_extension() {
    assert_eq!(strip_ext(&"secrets/db.secret.gpg".to_string()), "secrets/db.secret");
    assert_eq!(strip_ext(&"db.gpg".to_string()), "db");
}

#[test]
fn strip_ext_keeps_a_name_without_extension() {
    assert_eq!(strip_ext(&"secrets/plain".to_string()), "secrets/plain");
}

#[test]
fn strip_ext_keeps_a_leading_dot() {
    // a dot that leads the file name does not begin an extension
    assert_eq!(strip_ext(&"a/.gpg".to_string()), "a/.gpg");
    assert_eq!(strip_ext(&".hidden.gpg".to_string()), ".hidden");
}

#[test]
fn strip_ext_cuts_only_the_last_extension() {
    assert_eq!(strip_ext(&"dir.d/archive.tar.gz".to_string()), "dir.d/archive.tar");
}

#[test]
fn write_modes_refuse_or_allow() {
    assert!(WriteMode::RefuseOverwrite.refuse_overwrite());
    assert!(!WriteMode::AllowOverwrite.refuse_overwrite());
}
