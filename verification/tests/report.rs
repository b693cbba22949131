use errbit_rs::{build_report, ErrbitClient, NotifierConfig};

fn placeholder() -> Vec<(String, u32, String, String)> {
    vec![("filename".to_string(), 42, "function_name".to_string(), "text".to_string())]
}

#[test]
fn unset_configuration_gives_the_defaults() {
    let report = build_report("K", &NotifierConfig::unset(), "disk full", Some("web-1"));
    assert_eq!(report.api_key, "K");
    assert_eq!(report.environment, "production");
    assert_eq!(report.app_name, "MyApp");
    assert_eq!(report.node_name, "hostname");
    assert_eq!(report.component_name, "MyComponent");
    assert_eq!(report.source_url, "https://web-1");
    assert_eq!(report.version, "1.0");
    assert_eq!(report.exc_class, "disk full");
    assert_eq!(report.message, "disk full");
    assert_eq!(report.backtrace, Some(placeholder()));
}

#[test]
fn unknown_host_gives_the_bare_scheme() {
    let report = build_report("K", &NotifierConfig::unset(), "e", None);
    assert_eq!(report.source_url, "https://");
}

#[test]
fn configured_values_replace_the_defaults() {
    let config = NotifierConfig {
        environment: Some("staging".to_string()),
        app_name: Some("Shop".to_string()),
        node_name: Some("node-7".to_string()),
        component_name: Some("Checkout".to_string()),
        source_url: Some("http://shop.example:8080".to_string()),
    };
    let report = build_report("key", &config, "boom", Some("ignored"));
    assert_eq!(report.environment, "staging");
    assert_eq!(report.app_name, "Shop");
    assert_eq!(report.node_name, "node-7");
    assert_eq!(report.component_name, "Checkout");
    assert_eq!(report.source_url, "http://shop.example:8080");
    assert_eq!(report.version, "1.0");
    assert_eq!(report.backtrace, Some(placeholder()));
}

#[test]
fn each_setting_falls_back_on_its_own() {
    let mut config = NotifierConfig::unset();
    config.app_name = Some("Shop".to_string());
    let report = build_report("key", &config, "boom", Some("h"));
    assert_eq!(report.app_name, "Shop");
    assert_eq!(report.environment, "production");
    assert_eq!(report.node_name, "hostname");
    assert_eq!(report.component_name, "MyComponent");
    assert_eq!(report.source_url, "https://h");
}

#[test]
fn empty_settings_are_kept_as_they_are() {
    let mut config = NotifierConfig::unset();
    config.environment = Some(String::new());
    config.source_url = Some(String::new());
    let report = build_report("", &config, "", None);
    assert_eq!(report.api_key, "");
    assert_eq!(report.environment, "");
    assert_eq!(report.source_url, "");
    assert_eq!(report.message, "");
}

#[test]
fn client_report_looks_the_host_up_only_when_needed() {
    let client = ErrbitClient::new("http://localhost:3000", "K");
    let looked_up = client.report(&NotifierConfig::unset(), "disk full");
    assert!(looked_up.source_url.starts_with("https://"));
    assert_eq!(looked_up.api_key, "K");
    assert_eq!(looked_up.environment, "production");
    assert_eq!(looked_up.message, "disk full");
    assert_eq!(looked_up.exc_class, "disk full");

    let mut config = NotifierConfig::unset();
    config.source_url = Some("https://configured".to_string());
    let configured = client.report(&config, "disk full");
    assert_eq!(configured.source_url, "https://configured");
}

#[test]
fn client_report_agrees_with_the_builder() {
    let client = ErrbitClient::new("http://localhost:3000", "K");
    let looked_up = client.report(&NotifierConfig::unset(), "oops");
    let host = looked_up.source_url.strip_prefix("https://").unwrap().to_string();
    let built = build_report("K", &NotifierConfig::unset(), "oops", Some(host.as_str()));
    assert_eq!(looked_up.source_url, built.source_url);
    assert_eq!(looked_up.app_name, built.app_name);
    assert_eq!(looked_up.node_name, built.node_name);
    assert_eq!(looked_up.component_name, built.component_name);
    assert_eq!(looked_up.backtrace, built.backtrace);
}
