use gpam::auth::{account_of, account_or_default, config_file, parse_ini_value};

#[test]
fn parses_ini_account() {
    let body = "[core]\naccount = me@example.com\nproject = foo\n";
    assert_eq!(
        parse_ini_value(body, "core", "account").as_deref(),
        Some("me@example.com")
    );
}

#[test]
fn ignores_other_sections() {
    let body = "[other]\naccount = wrong\n[core]\naccount = right\n";
    assert_eq!(
        parse_ini_value(body, "core", "account").as_deref(),
        Some("right")
    );
}

#[test]
fn returns_none_when_missing() {
    let body = "[core]\nproject = foo\n";
    assert!(parse_ini_value(body, "core", "account").is_none());
}

#[test]
fn ini_comments_case_and_carriage_returns() {
    let body = "; note\r\n[ CORE ]\r\n# account = commented\r\n  Account\t=  a = b \r\n";
    assert_eq!(parse_ini_value(body, "core", "account").as_deref(), Some("a = b"));
    assert_eq!(parse_ini_value("account = x\n", "core", "account"), None);
    assert_eq!(parse_ini_value("[\naccount = x\n", "", "account"), None);
    assert_eq!(parse_ini_value("[]\naccount = x\n", "", "account").as_deref(), Some("x"));
    assert_eq!(parse_ini_value("[core]\naccount\n", "core", "account"), None);
}

#[test]
fn active_configuration_and_account() {
    assert_eq!(config_file(" default \n").as_deref(), Some("config_default"));
    assert_eq!(config_file(" \n"), None);
    assert_eq!(account_of("[core]\naccount=me\n").as_deref(), Some("me"));
    assert_eq!(account_or_default(None), "default");
    assert_eq!(account_or_default(Some("me".to_string())), "me");
}
