use schedhint::sysno_args::parse_sysnos;

fn args(a: &[&str]) -> Vec<String> {
    a.iter().map(|s| s.to_string()).collect()
}

#[test]
fn decimal_arguments_are_accepted() {
    assert_eq!(
        parse_sysnos(&args(&["0", "113", "+7", "007", "4294967295"])),
        (vec![0, 113, 7, 7, u32::MAX], vec![])
    );
}

#[test]
fn non_decimal_arguments_are_rejected() {
    for s in ["", "+", "-1", "-0", "4294967296", " 1", "1 ", "0x10", "1e3", "++1", "١"] {
        assert_eq!(parse_sysnos(&args(&[s, "5"])), (vec![5], vec![0]), "{s:?}");
    }
}

#[test]
fn defaults_without_args() {
    assert_eq!(parse_sysnos(&args(&[])), (vec![22, 64, 113], vec![]));
}

#[test]
fn valid_args_are_used_in_order() {
    assert_eq!(parse_sysnos(&args(&["98", "63"])), (vec![98, 63], vec![]));
}

#[test]
fn invalid_args_are_skipped_and_reported() {
    assert_eq!(parse_sysnos(&args(&["x", "5", "-3", "6"])), (vec![5, 6], vec![0, 2]));
}

#[test]
fn all_invalid_falls_back_to_defaults() {
    assert_eq!(parse_sysnos(&args(&["abc", ""])), (vec![22, 64, 113], vec![0, 1]));
}
