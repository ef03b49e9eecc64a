use chat_rs::auth::{auth_code, new_auth_email, prepare_auth_email, Error, StatusCode, AUTH_CODE_LEN, FROM, SUBJECT};
use chat_rs::domain::KeyringCredentialStore;
use chat_rs::ffi::{loaded_refresh_token, spike, target_sample_rate, CoreError, TARGET_RATE};

#[test]
fn sign_in_mail_for_valid_address() {
    let mail = prepare_auth_email("ann@example.com", &vec!['a', 'b', '7', 'z', 'Q', 'x']).expect("valid");
    assert_eq!(mail.code, "AB7ZQX");
    assert_eq!(mail.html, "Your login code is: AB7ZQX");
    assert_eq!(auth_code(&vec!['k', '2']), "K2");
    assert_eq!((FROM, SUBJECT), ("login@vitorakiyama.com", "Login Code"));
}

#[test]
fn address_without_at_is_refused() {
    match prepare_auth_email("not-an-address", &vec!['a']) {
        Err(e @ Error::EmailValidation(_)) => {
            assert_eq!(e.status(), (StatusCode::InvalidArgument, "Invalid email."));
        }
        other => panic!("unexpected {other:?}"),
    }
    assert_eq!(Error::Api("down".to_string()).status(), (StatusCode::Internal, "An unknown error ocurred."));
}

#[test]
fn mobile_bridge_values() {
    assert_eq!(spike(), 48_000);
    assert_eq!(TARGET_RATE, 48_000);
    assert_eq!(target_sample_rate(), 48_000);
    assert_eq!(CoreError::NotInitialized.message(), "chat-core not initialized");
    assert_eq!(CoreError::Network { message: "timeout".to_string() }.message(), "network error: timeout");
    assert_eq!(loaded_refresh_token(Some("tok".to_string())), Ok("tok".to_string()));
    assert_eq!(loaded_refresh_token(None), Err("no refresh token stored".to_string()));
    let store = KeyringCredentialStore::new("chat".to_string(), "refresh".to_string());
    assert_eq!((store.service.as_str(), store.user.as_str()), ("chat", "refresh"));
}

#[test]
fn fresh_code_is_six_upper_alphanumerics() {
    let mail = new_auth_email("bob@example.org").expect("valid");
    assert_eq!(mail.code.chars().count(), AUTH_CODE_LEN);
    assert!(mail.code.chars().all(|c| c.is_ascii_uppercase() || c.is_ascii_digit()));
    assert_eq!(mail.html, format!("Your login code is: {}", mail.code));
    assert!(matches!(new_auth_email("nobody"), Err(Error::EmailValidation(_))));
}
