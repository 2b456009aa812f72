use sendlist::config::{find_var, get_env, ConfigError, EnvConfig};

fn vars(pairs: &[(&str, &str)]) -> Vec<(String, String)> {
    pairs.iter().map(|(k, v)| (k.to_string(), v.to_string())).collect()
}

fn mandatory() -> Vec<(String, String)> {
    vars(&[
        ("HOST", "smtp.example.org"),
        ("USER", "mailer"),
        ("PASSWORD", "secret"),
        ("FROM", "Sender <sender@example.org>"),
    ])
}

fn with(extra: &[(&str, &str)]) -> Vec<(String, String)> {
    let mut all = mandatory();
    all.extend(vars(extra));
    all
}

fn html_of(value: &str) -> bool {
    EnvConfig::check_or_default(&with(&[("HTML", value)])).unwrap().html_enabled()
}

#[test]
fn defaults_apply_where_nothing_is_set() {
    let config = EnvConfig::check_or_default(&mandatory()).unwrap();
    assert_eq!(config.smtp_host, "smtp.example.org");
    assert_eq!(config.smtp_port, 465);
    assert_eq!(config.smtp_user, "mailer");
    assert_eq!(config.smtp_pass, "secret");
    assert_eq!(config.smtp_from, "Sender <sender@example.org>");
    assert_eq!(config.reply_to, "");
    assert_eq!(config.cc, "");
    assert_eq!(config.bcc, "");
    assert_eq!(config.subject, "");
    assert_eq!(config.html, "");
    assert_eq!(config.attachment, "");
    assert_eq!(config.delay, 1);
    assert!(!config.html_enabled());
    assert!(!config.has_attachment());
}

#[test]
fn settings_override_defaults() {
    let config = EnvConfig::check_or_default(&with(&[
        ("PORT", "587"),
        ("REPLY_TO", "reply@example.org"),
        ("CC", "cc@example.org"),
        ("BCC", "bcc@example.org"),
        ("SUBJECT", "Hello {{name}}"),
        ("HTML", "yes"),
        ("ATTACHMENT", "files/flyer.pdf"),
        ("DELAY", "0"),
    ]))
    .unwrap();
    assert_eq!(config.smtp_port, 587);
    assert_eq!(config.reply_to, "reply@example.org");
    assert_eq!(config.cc, "cc@example.org");
    assert_eq!(config.bcc, "bcc@example.org");
    assert_eq!(config.subject, "Hello {{name}}");
    assert_eq!(config.html, "yes");
    assert_eq!(config.attachment, "files/flyer.pdf");
    assert_eq!(config.delay, 0);
    assert!(config.html_enabled());
    assert!(config.has_attachment());
}

#[test]
fn empty_port_and_delay_fall_back_to_defaults() {
    let config = EnvConfig::check_or_default(&with(&[("PORT", ""), ("DELAY", "")])).unwrap();
    assert_eq!(config.smtp_port, 465);
    assert_eq!(config.delay, 1);
}

#[test]
fn a_mandatory_setting_may_be_empty_but_not_absent() {
    let config = EnvConfig::check_or_default(&vars(&[
        ("HOST", ""),
        ("USER", ""),
        ("PASSWORD", ""),
        ("FROM", ""),
    ]))
    .unwrap();
    assert_eq!(config.smtp_host, "");
    assert_eq!(config.smtp_from, "");
}

#[test]
fn missing_host_is_reported() {
    let settings = vars(&[("USER", "u"), ("PASSWORD", "p"), ("FROM", "a@b.c")]);
    assert_eq!(EnvConfig::check_or_default(&settings).unwrap_err(), ConfigError::MissingHost);
}

#[test]
fn missing_user_is_reported() {
    let settings = vars(&[("HOST", "h"), ("PASSWORD", "p"), ("FROM", "a@b.c")]);
    assert_eq!(EnvConfig::check_or_default(&settings).unwrap_err(), ConfigError::MissingUser);
}

#[test]
fn missing_password_is_reported() {
    let settings = vars(&[("HOST", "h"), ("USER", "u"), ("FROM", "a@b.c")]);
    assert_eq!(EnvConfig::check_or_default(&settings).unwrap_err(), ConfigError::MissingPassword);
}

#[test]
fn missing_sender_is_reported() {
    let settings = vars(&[("HOST", "h"), ("USER", "u"), ("PASSWORD", "p")]);
    assert_eq!(EnvConfig::check_or_default(&settings).unwrap_err(), ConfigError::MissingFrom);
}

#[test]
fn nothing_set_reports_the_host_first() {
    assert_eq!(EnvConfig::check_or_default(&Vec::new()).unwrap_err(), ConfigError::MissingHost);
}

#[test]
fn invalid_port_is_reported() {
    for port in ["smtp", "65536", "-1", "4 65", "465 ", "+", "0x1f"] {
        assert_eq!(
            EnvConfig::check_or_default(&with(&[("PORT", port)])).unwrap_err(),
            ConfigError::InvalidPort
        );
    }
}

#[test]
fn port_comes_before_user_among_the_errors() {
    let settings = vars(&[("HOST", "h"), ("PORT", "none")]);
    assert_eq!(EnvConfig::check_or_default(&settings).unwrap_err(), ConfigError::InvalidPort);
}

#[test]
fn port_limits() {
    assert_eq!(EnvConfig::check_or_default(&with(&[("PORT", "65535")])).unwrap().smtp_port, 65535);
    assert_eq!(EnvConfig::check_or_default(&with(&[("PORT", "0")])).unwrap().smtp_port, 0);
    assert_eq!(EnvConfig::check_or_default(&with(&[("PORT", "+25")])).unwrap().smtp_port, 25);
    assert_eq!(EnvConfig::check_or_default(&with(&[("PORT", "00025")])).unwrap().smtp_port, 25);
}

#[test]
fn invalid_delay_is_reported() {
    for delay in ["soon", "1.5", "-3", "18446744073709551616"] {
        assert_eq!(
            EnvConfig::check_or_default(&with(&[("DELAY", delay)])).unwrap_err(),
            ConfigError::InvalidDelay
        );
    }
}

#[test]
fn delay_limits() {
    let config = EnvConfig::check_or_default(&with(&[("DELAY", "18446744073709551615")])).unwrap();
    assert_eq!(config.delay, u64::MAX);
}

#[test]
fn html_is_plain_for_the_five_values() {
    for value in ["", "no", "0", "false", "unset"] {
        assert!(!html_of(value), "{value:?}");
    }
}

#[test]
fn html_is_on_for_every_other_value() {
    for value in ["1", "true", "yes", "No", "FALSE", " ", "00", "unset ", "html"] {
        assert!(html_of(value), "{value:?}");
    }
}

#[test]
fn the_first_of_two_settings_counts() {
    let settings = with(&[("DELAY", "7"), ("DELAY", "9")]);
    assert_eq!(find_var(&settings, "DELAY"), Some(&"7".to_string()));
    assert_eq!(EnvConfig::check_or_default(&settings).unwrap().delay, 7);
}

#[test]
fn find_var_tells_absent_from_empty() {
    let settings = vars(&[("CC", "")]);
    assert_eq!(find_var(&settings, "CC"), Some(&String::new()));
    assert_eq!(find_var(&settings, "BCC"), None);
    assert_eq!(find_var(&settings, "cc"), None);
}

#[test]
fn get_env_gives_the_default_for_absent_and_empty() {
    let settings = vars(&[("CC", ""), ("BCC", "b@example.org")]);
    assert_eq!(get_env(&settings, "CC", "fallback"), "fallback");
    assert_eq!(get_env(&settings, "SUBJECT", "fallback"), "fallback");
    assert_eq!(get_env(&settings, "BCC", "fallback"), "b@example.org");
}
