use phpmailer_rs::oauth::SimpleOAuthTokenProvider;
use phpmailer_rs::OAuthTokenProvider;

#[test]
fn provider_keeps_its_credentials() {
    let provider = SimpleOAuthTokenProvider::new("alice@example.com".to_string(), "ya29.token".to_string());
    assert_eq!(provider.user_name(), "alice@example.com");
    assert_eq!(provider.access_token(), "ya29.token");
    let copy = provider.clone();
    assert_eq!(copy.user_name(), "alice@example.com");
}

#[test]
fn oauth64_is_base64_of_xoauth2_credentials() {
    let provider = SimpleOAuthTokenProvider::new("alice@example.com".to_string(), "ya29.token".to_string());
    assert_eq!(
        provider.get_oauth64(),
        "dXNlcj1hbGljZUBleGFtcGxlLmNvbQFhdXRoPUJlYXJlciB5YTI5LnRva2VuAQE="
    );
}
