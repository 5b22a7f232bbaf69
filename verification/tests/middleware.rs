use modrepo::middleware::{level_for, logged_addr, Level, Report, Tracing};

#[test]
fn server_errors_are_errors_client_errors_warnings() {
    assert_eq!(level_for(500), Level::Error);
    assert_eq!(level_for(503), Level::Error);
    assert_eq!(level_for(599), Level::Error);
    assert_eq!(level_for(400), Level::Warn);
    assert_eq!(level_for(401), Level::Warn);
    assert_eq!(level_for(499), Level::Warn);
    assert_eq!(level_for(200), Level::Debug);
    assert_eq!(level_for(303), Level::Debug);
    assert_eq!(level_for(399), Level::Debug);
    assert_eq!(level_for(600), Level::Debug);
    assert_eq!(level_for(100), Level::Debug);
}

#[test]
fn proxy_address_goes_before_the_peer() {
    assert_eq!(logged_addr(Some("10.0.0.1".to_string()), "127.0.0.1:80".to_string()), "10.0.0.1");
    assert_eq!(logged_addr(None, "127.0.0.1:80".to_string()), "127.0.0.1:80");
}

#[test]
fn wrapped_endpoint_is_kept_and_outcomes_are_reported() {
    let endpoint = Tracing::default().transform("inner");
    assert_eq!(*endpoint.inner(), "inner");
    assert_eq!(endpoint.report(Ok(200)), Report { level: Level::Debug, message: "response" });
    assert_eq!(endpoint.report(Ok(404)), Report { level: Level::Warn, message: "response" });
    assert_eq!(endpoint.report(Ok(500)), Report { level: Level::Error, message: "response" });
    assert_eq!(endpoint.report(Err(401)), Report { level: Level::Warn, message: "error" });
    assert_eq!(endpoint.report(Err(500)), Report { level: Level::Error, message: "error" });
    assert_eq!(endpoint.report(Err(303)), Report { level: Level::Debug, message: "error" });
}
