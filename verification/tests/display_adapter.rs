use media_gateway::display_adapter::{CapabilityError, DisplayContext, GatewayMediaCapability};
use media_gateway::security::UrlParts;

fn context() -> DisplayContext {
    DisplayContext::new("session".into(), "item".into(), 3, "tv".into(), 2)
}

fn capability(url: &str) -> Result<GatewayMediaCapability, CapabilityError> {
    GatewayMediaCapability::from_gateway(UrlParts::parse(url).unwrap(), context())
}

#[test]
fn gateway_urls_become_display_capabilities() {
    let cap = capability("http://127.0.0.1:8787/stream/t/s/i/1/r?range=1").unwrap();
    assert_eq!(cap.url().as_str(), "http://127.0.0.1:8787/stream/t/s/i/1/r?range=1");
    assert_eq!(cap.context.display_generation, 2);
    assert!(capability("https://gateway.test/media?cookiejar=1").is_ok());
}

#[test]
fn urls_with_credentials_or_other_schemes_are_refused() {
    for url in [
        "ftp://gateway.test/media",
        "http://user@gateway.test/media",
        "http://user:pw@gateway.test/media",
        "http://gateway.test/media#frag",
        "http://gateway.test/media?Cookie=a",
        "http://gateway.test/media?x=1&authorization=b",
        "http://gateway.test/media?PROXY-AUTHORIZATION",
        "http://gateway.test/media?%63ookie=1",
        "data:text/plain,hello",
    ] {
        assert_eq!(
            capability(url).err(),
            Some(CapabilityError::InvalidUrl),
            "{url}"
        );
    }
}
