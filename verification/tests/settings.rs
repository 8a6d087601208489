use hcwatch::settings::{Settings, SettingsError};

#[test]
fn resolve_needs_a_credential() {
    assert_eq!(Settings::resolve(None, None).err(), Some(SettingsError::MissingCredential));
    assert_eq!(
        Settings::resolve(None, Some("agent".to_string())).err(),
        Some(SettingsError::MissingCredential)
    );
}

#[test]
fn resolve_turns_down_an_empty_credential() {
    assert_eq!(
        Settings::resolve(Some(String::new()), None).err(),
        Some(SettingsError::MissingCredential)
    );
}

#[test]
fn resolve_keeps_credential_and_user_agent() {
    let settings = Settings::resolve(Some("token".to_string()), Some("agent/1".to_string())).unwrap();
    assert_eq!(settings.token(), "token");
    assert_eq!(settings.user_agent(), &Some("agent/1".to_string()));
}

#[test]
fn resolve_goes_without_a_user_agent() {
    let settings = Settings::resolve(Some("not-a-uuid".to_string()), None).unwrap();
    assert_eq!(settings.token(), "not-a-uuid");
    assert_eq!(settings.user_agent(), &None);
}

#[test]
fn resolve_takes_an_empty_user_agent_as_it_is() {
    let settings = Settings::resolve(Some("t".to_string()), Some(String::new())).unwrap();
    assert_eq!(settings.user_agent(), &Some(String::new()));
}
