use srp::{healthcheck_client, HealthPing};

#[test]
fn urls_of_each_ping() {
    let c = healthcheck_client::new("https://hc-ping.com", "abc-123");
    assert_eq!(c.url(HealthPing::Success), "https://hc-ping.com/abc-123");
    assert_eq!(c.url(HealthPing::Start), "https://hc-ping.com/abc-123/start");
    assert_eq!(c.url(HealthPing::Stop), "https://hc-ping.com/abc-123/stop");
    assert_eq!(c.url(HealthPing::Fail), "https://hc-ping.com/abc-123/fail");
}

#[test]
fn trailing_slashes_of_base_are_dropped() {
    let c = healthcheck_client::new("https://hc-ping.com///", "id");
    assert_eq!(c.url(HealthPing::Success), "https://hc-ping.com/id");
}

#[test]
fn base_of_slashes_only_becomes_empty() {
    let c = healthcheck_client::new("//", "id");
    assert_eq!(c.url(HealthPing::Fail), "/id/fail");
}

#[test]
fn inner_slashes_are_kept() {
    let c = healthcheck_client::new("http://h/a/b/", "x");
    assert_eq!(c.url(HealthPing::Start), "http://h/a/b/x/start");
}

#[test]
fn periodic_ping_follows_health() {
    assert_eq!(HealthPing::for_health(true), HealthPing::Success);
    assert_eq!(HealthPing::for_health(false), HealthPing::Fail);
}
