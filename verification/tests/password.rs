use newsletter::routes::admin::password::post::{
    change_password, AuthError, FlashLevel, FlashMessage, FormData, PasswordAction,
    PasswordEvent, PASSWORD_FLOOR,
};
use newsletter::routes::login;
use newsletter::routes::subscriptions_confirm::ErrorChain;
use newsletter::utils::{see_other, Redirect, STATUS_SEE_OTHER};

fn form(new_password: &str, new_password_check: &str) -> FormData {
    FormData {
        current_password: "current".to_string(),
        new_password: new_password.to_string(),
        new_password_check: new_password_check.to_string(),
    }
}

fn sent_back(text: &str) -> PasswordAction {
    PasswordAction::Redirect {
        flash: FlashMessage { level: FlashLevel::Error, content: text.to_string() },
        to: Redirect { status: 303, location: "/admin/password".to_string() },
    }
}

fn failure() -> ErrorChain {
    ErrorChain { message: "pool timed out".to_string(), causes: vec![] }
}

#[test]
fn see_other_is_a_303() {
    assert_eq!(STATUS_SEE_OTHER, 303);
    assert_eq!(see_other("/x"), Redirect { status: 303, location: "/x".to_string() });
}

#[test]
fn login_sends_the_client_home() {
    let form = login::FormData { username: "u".to_string(), password: "p".to_string() };
    assert_eq!(login::login(&form), Redirect { status: 303, location: "/".to_string() });
}

#[test]
fn different_new_passwords_are_refused() {
    assert_eq!(
        change_password(&form("a-long-enough-password", "another-password"), PasswordEvent::Submitted),
        sent_back("You entered two different new passwords - the field values must match.")
    );
    assert_eq!(
        change_password(&form("short", "other"), PasswordEvent::Submitted),
        sent_back("You entered two different new passwords - the field values must match.")
    );
}

#[test]
fn new_password_must_be_longer_than_twelve_bytes() {
    assert_eq!(PASSWORD_FLOOR, 12);
    assert_eq!(
        change_password(&form("123456789012", "123456789012"), PasswordEvent::Submitted),
        sent_back("New password should be greater than 12 characters.")
    );
    assert_eq!(
        change_password(&form("", ""), PasswordEvent::Submitted),
        sent_back("New password should be greater than 12 characters.")
    );
    assert_eq!(
        change_password(&form("1234567890123", "1234567890123"), PasswordEvent::Submitted),
        PasswordAction::FetchUsername
    );
}

#[test]
fn password_length_counts_bytes() {
    let seven_letters = "\u{e9}\u{e9}\u{e9}\u{e9}\u{e9}\u{e9}\u{e9}";
    assert_eq!(seven_letters.len(), 14);
    assert_eq!(
        change_password(&form(seven_letters, seven_letters), PasswordEvent::Submitted),
        PasswordAction::FetchUsername
    );
    let six_letters = "\u{e9}\u{e9}\u{e9}\u{e9}\u{e9}\u{e9}";
    assert_eq!(
        change_password(&form(six_letters, six_letters), PasswordEvent::Submitted),
        sent_back("New password should be greater than 12 characters.")
    );
}

#[test]
fn current_password_is_checked_for_the_fetched_user() {
    let f = form("1234567890123", "1234567890123");
    assert_eq!(
        change_password(&f, PasswordEvent::UsernameFetched(Ok("admin".to_string()))),
        PasswordAction::ValidateCredentials {
            username: "admin".to_string(),
            password: "current".to_string(),
        }
    );
    assert_eq!(
        change_password(&f, PasswordEvent::UsernameFetched(Err(failure()))),
        PasswordAction::InternalServerError
    );
}

#[test]
fn wrong_current_password_is_refused() {
    let f = form("1234567890123", "1234567890123");
    assert_eq!(
        change_password(
            &f,
            PasswordEvent::CredentialsChecked(Err(AuthError::InvalidCredentials(failure())))
        ),
        sent_back("The current password is incorrect.")
    );
    assert_eq!(
        change_password(
            &f,
            PasswordEvent::CredentialsChecked(Err(AuthError::UnexpectedError(failure())))
        ),
        PasswordAction::InternalServerError
    );
}

#[test]
fn new_password_is_stored_after_the_check() {
    let f = form("1234567890123", "1234567890123");
    assert_eq!(
        change_password(&f, PasswordEvent::CredentialsChecked(Ok(()))),
        PasswordAction::StorePassword("1234567890123".to_string())
    );
    assert_eq!(
        change_password(&f, PasswordEvent::PasswordStored(Ok(()))),
        sent_back("Your password has been changed.")
    );
    assert_eq!(
        change_password(&f, PasswordEvent::PasswordStored(Err(failure()))),
        PasswordAction::InternalServerError
    );
}

#[test]
fn a_refused_password_is_never_stored() {
    let refusals = [
        (
            form("a-long-enough-password", "another-password"),
            "You entered two different new passwords - the field values must match.",
        ),
        (form("short", "other"), "You entered two different new passwords - the field values must match."),
        (form("123456789012", "123456789012"), "New password should be greater than 12 characters."),
    ];
    for (f, text) in refusals {
        let events = vec![
            PasswordEvent::Submitted,
            PasswordEvent::UsernameFetched(Ok("admin".to_string())),
            PasswordEvent::UsernameFetched(Err(failure())),
            PasswordEvent::CredentialsChecked(Ok(())),
            PasswordEvent::CredentialsChecked(Err(AuthError::InvalidCredentials(failure()))),
            PasswordEvent::CredentialsChecked(Err(AuthError::UnexpectedError(failure()))),
            PasswordEvent::PasswordStored(Ok(())),
            PasswordEvent::PasswordStored(Err(failure())),
        ];
        for event in events {
            assert_eq!(change_password(&f, event), sent_back(text));
        }
    }
}
