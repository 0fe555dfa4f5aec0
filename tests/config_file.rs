use reminder_bot::config::{decimal, AppConfig};

#[test]
fn settings_are_read_from_lines() {
    let text = "# comment\n\nOPENAI_API_KEY = sk-test \nexport RUN_MODE=\"api\"\nNAME='bot'\nEMPTY=\n";
    let config = AppConfig::parse(text).expect("valid settings");
    assert_eq!(config.get("OPENAI_API_KEY"), Some("sk-test".to_string()));
    assert_eq!(config.get("RUN_MODE"), Some("api".to_string()));
    assert_eq!(config.get("NAME"), Some("bot".to_string()));
    assert_eq!(config.get("EMPTY"), Some(String::new()));
    assert_eq!(config.get("MISSING"), None);
}

#[test]
fn later_setting_wins_and_values_may_hold_equals() {
    let config = AppConfig::parse("A=1\nA=2\nURL=http://x?a=b\r\n").unwrap();
    assert_eq!(config.get("A"), Some("2".to_string()));
    assert_eq!(config.get("URL"), Some("http://x?a=b".to_string()));
}

#[test]
fn line_without_equals_is_reported() {
    let err = AppConfig::parse("A=1\n\nthis is wrong\nB=2").unwrap_err();
    assert_eq!(err, "Invalid config line 3: this is wrong");
}

#[test]
fn lone_quote_is_kept() {
    let config = AppConfig::parse("Q=\"").unwrap();
    assert_eq!(config.get("Q"), Some("\"".to_string()));
}

#[test]
fn empty_settings() {
    assert_eq!(AppConfig::new().get("A"), None);
    assert_eq!(AppConfig::parse("").unwrap().get("A"), None);
}

#[test]
fn decimal_numbers() {
    assert_eq!(decimal(0), "0");
    assert_eq!(decimal(7), "7");
    assert_eq!(decimal(10), "10");
    assert_eq!(decimal(1203), "1203");
}
