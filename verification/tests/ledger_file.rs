use sheesy_vault::ledger::{parse_ledger, serialize_ledger};

#[test]
fn serialize_writes_one_fingerprint_per_line() {
    let l = vec!["F1".to_string(), "F2".to_string()];
    assert_eq!(serialize_ledger(&l), "F1\nF2\n");
    assert_eq!(serialize_ledger(&Vec::new()), "");
}

#[test]
fn parse_reads_nonempty_lines() {
    let r = parse_ledger(&"F1\nF2\n".to_string());
    assert_eq!(r, vec!["F1".to_string(), "F2".to_string()]);
}

#[test]
fn parse_ignores_blank_lines_and_missing_final_newline() {
    let r = parse_ledger(&"\nF1\n\nF2".to_string());
    assert_eq!(r, vec!["F1".to_string(), "F2".to_string()]);
    assert_eq!(parse_ledger(&"".to_string()), Vec::<String>::new());
}

#[test]
fn ledger_file_round_trips() {
    let l = vec!["AAAA1111".to_string(), "BBBB2222".to_string(), "CCCC3333".to_string()];
    assert_eq!(parse_ledger(&serialize_ledger(&l)), l);
}
