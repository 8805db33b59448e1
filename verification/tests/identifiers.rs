use modelrelay::identifiers::{MessageRole, MessageRoleExt, ProviderId, TierCode};

#[test]
fn provider_id_from_string() {
    let id = ProviderId::parse("openai").unwrap();
    assert_eq!(id, ProviderId::Openai);
}

#[test]
fn tier_code_validates_pattern() {
    assert!(TierCode::parse("pro").is_ok());
    assert!(TierCode::parse("free-tier").is_ok());
    assert!(TierCode::parse("Pro").is_err());
    assert!(TierCode::parse("123").is_err());
}

#[test]
fn tier_code_round_trips_text() {
    let t = TierCode::parse("enterprise_2").unwrap();
    assert_eq!(t.to_string(), "enterprise_2");
    assert_eq!(t.as_str(), "enterprise_2");
    assert!(TierCode::parse("").is_err());
    assert!(TierCode::parse("a b").is_err());
}

#[test]
fn message_role_as_str() {
    assert_eq!(MessageRole::User.as_str(), "user");
    assert_eq!(MessageRole::Assistant.as_str(), "assistant");
    assert_eq!(MessageRole::System.as_str(), "system");
    assert_eq!(MessageRole::Tool.as_str(), "tool");
}

#[test]
fn message_role_display() {
    assert_eq!(MessageRole::User.to_string(), "user");
    assert_eq!(MessageRole::Assistant.to_string(), "assistant");
}

#[test]
fn provider_text_round_trips() {
    for p in [ProviderId::Anthropic, ProviderId::Openai] {
        assert_eq!(ProviderId::parse(p.as_str()), Some(p));
    }
    assert_eq!(ProviderId::parse("Anthropic"), None);
}
