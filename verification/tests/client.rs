use errbit_rs::client::status_is_success;
use errbit_rs::{classify, generate_errbit_xml, ErrbitClient, Method, NotifierConfig, NotifyError, Reply};

fn configured() -> NotifierConfig {
    let mut config = NotifierConfig::unset();
    config.source_url = Some("https://reporter.example".to_string());
    config
}

#[test]
fn new_keeps_endpoint_and_key() {
    let client = ErrbitClient::new("http://localhost:3000", "generate-app-key-in-errbit");
    assert_eq!(client.endpoint(), "http://localhost:3000");
    assert_eq!(client.api_key(), "generate-app-key-in-errbit");
}

#[test]
fn new_does_not_normalize_the_endpoint() {
    let client = ErrbitClient::new("http://localhost:3000/", "");
    assert_eq!(client.endpoint(), "http://localhost:3000/");
    assert_eq!(client.api_key(), "");
    let request = client.notify(&configured(), "e");
    assert_eq!(request.url, "http://localhost:3000//notifier_api/v2/notices");
}

#[test]
fn notify_prepares_the_post_for_an_error() {
    let client = ErrbitClient::new("http://localhost:3000", "K");
    let request = client.notify(&NotifierConfig::unset(), "disk full");
    assert_eq!(request.method, Method::Post);
    assert_eq!(request.url, "http://localhost:3000/notifier_api/v2/notices");
    assert_eq!(
        request.headers,
        vec![
            ("X-Airbrake-Token".to_string(), "K".to_string()),
            ("Content-Type".to_string(), "application/xml".to_string()),
        ]
    );
    assert!(request.body.contains("<class>disk full</class><message>disk full</message>"));
    assert!(request.body.contains("<api-key>K</api-key>"));
    assert!(request.body.starts_with("<notice version=\"2.0\">\n"));
    assert!(request.body.ends_with("</notice>"));
    assert!(request
        .body
        .contains("<line method=\"function_name\" file=\"filename\" number=\"42\"/>"));
}

#[test]
fn notify_sends_the_document_of_the_report() {
    let client = ErrbitClient::new("https://errbit.example", "secret");
    let config = configured();
    let request = client.notify(&config, "a < b");
    let report = client.report(&config, "a < b");
    assert_eq!(request.body, generate_errbit_xml(&report));
    let again = client.request_for(&report);
    assert_eq!(again.url, request.url);
    assert_eq!(again.headers, request.headers);
    assert_eq!(again.body, request.body);
    assert!(request.body.contains("<message>a &lt; b</message>"));
}

#[test]
fn success_statuses_mean_the_notice_arrived() {
    assert_eq!(classify(Reply::<String>::Status(200)), Ok(()));
    assert_eq!(classify(Reply::<String>::Status(201)), Ok(()));
    assert_eq!(classify(Reply::<String>::Status(204)), Ok(()));
    assert_eq!(classify(Reply::<String>::Status(299)), Ok(()));
}

#[test]
fn other_statuses_are_rejections_that_name_the_status() {
    for status in [100u16, 199, 300, 301, 404, 422, 500, 503, 599, 0, 600, u16::MAX] {
        assert_eq!(
            classify(Reply::<String>::Status(status)),
            Err(NotifyError::ServerRejected(status))
        );
    }
}

#[test]
fn every_status_is_classified_by_its_range() {
    for status in 0..=u16::MAX {
        let accepted = (200..=299).contains(&status);
        assert_eq!(status_is_success(status), accepted);
        assert_eq!(classify(Reply::<()>::Status(status)).is_ok(), accepted);
    }
}

#[test]
fn server_returns_422() {
    let client = ErrbitClient::new("http://localhost:3000", "K");
    let _request = client.notify(&configured(), "disk full");
    let outcome = classify(Reply::<String>::Status(422));
    assert_eq!(outcome, Err(NotifyError::ServerRejected(422)));
}

#[test]
fn server_down_is_a_transport_error() {
    let client = ErrbitClient::new("http://localhost:1", "K");
    let _request = client.notify(&configured(), "disk full");
    let outcome = classify(Reply::Failed("connection refused".to_string()));
    assert_eq!(outcome, Err(NotifyError::TransportError("connection refused".to_string())));
}

#[test]
fn the_two_kinds_of_failure_differ() {
    let rejected = classify(Reply::<u16>::Status(500));
    let failed = classify(Reply::Failed(500u16));
    assert_ne!(rejected, failed);
    assert!(matches!(rejected, Err(NotifyError::ServerRejected(500))));
    assert!(matches!(failed, Err(NotifyError::TransportError(500))));
}
