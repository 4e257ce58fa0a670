use regreet::sysutil::NormalUser;

fn parse_login_defs(text: &str) -> NormalUser {
    NormalUser::parse_login_defs(text)
}

fn parse_number(num: &str) -> Option<u64> {
    NormalUser::parse_number(num)
}

#[test]
fn both_configured() {
    let text = ["UID_MIN 1", "UID_MAX 10"].join("\n");
    assert_eq!(parse_login_defs(&text), NormalUser { uid_min: 1, uid_max: 10 });
}

#[test]
fn reverse_order() {
    let text = ["UID_MAX 10", "UID_MIN 1"].join("\n");
    assert_eq!(parse_login_defs(&text), NormalUser { uid_min: 1, uid_max: 10 });
}

#[test]
fn complex_file() {
    let text = ["OTHER 20", "# Comment", "", "UID_MAX 10", "UID_MIN 1", "MORE_TEXT 40"].join("\n");
    assert_eq!(parse_login_defs(&text), NormalUser { uid_min: 1, uid_max: 10 });
}

#[test]
fn no_space() {
    assert_eq!(parse_login_defs("UID_MAX10"), NormalUser::default());
}

#[test]
fn invalid_field_with_prefix() {
    assert_eq!(parse_login_defs("SUB_UID_MAX 10"), NormalUser::default());
}

#[test]
fn invalid_field_with_suffix() {
    assert_eq!(parse_login_defs("UID_MAX_BLAH 10"), NormalUser::default());
}

#[test]
fn first_parsable_entry_wins() {
    let text = "  UID_MIN\tbad\nUID_MIN 0x10\r\nUID_MIN 7\nUID_MAX 0777  ";
    assert_eq!(parse_login_defs(text), NormalUser { uid_min: 16, uid_max: 0o777 });
}

#[test]
fn empty_text_gives_defaults() {
    assert_eq!(parse_login_defs(""), NormalUser { uid_min: 1000, uid_max: 60000 });
}

#[test]
fn parse_number_empty() {
    assert_eq!(parse_number(""), None);
}

#[test]
fn parse_number_string() {
    assert_eq!(parse_number("no"), None);
}

#[test]
fn parse_number_zero() {
    assert_eq!(parse_number("0"), Some(0));
}

#[test]
fn parse_number_bare_hex_prefix() {
    assert_eq!(parse_number("0x"), None);
}

#[test]
fn parse_number_decimal() {
    assert_eq!(parse_number("10"), Some(10));
}

#[test]
fn parse_number_octal() {
    assert_eq!(parse_number("0777"), Some(0o777));
}

#[test]
fn parse_number_hex() {
    assert_eq!(parse_number("0xDeadBeef"), Some(0xdead_beef));
}

#[test]
fn parse_number_overflow() {
    assert_eq!(parse_number("18446744073709551615"), Some(u64::MAX));
    assert_eq!(parse_number("18446744073709551616"), None);
}

#[test]
fn parse_number_plus_sign_and_bad_octal_digit() {
    assert_eq!(parse_number(" +42 "), Some(42));
    assert_eq!(parse_number("08"), None);
}

#[test]
fn normal_user_bounds_are_inclusive() {
    let n = NormalUser { uid_min: 1000, uid_max: 60000 };
    assert!(n.is_normal_user(1000));
    assert!(n.is_normal_user(60000));
    assert!(!n.is_normal_user(999));
    assert!(!n.is_normal_user(60001));
    assert!(!n.is_normal_user(0));
}
