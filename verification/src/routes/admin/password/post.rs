//! The steps of a password change: the new password is checked at every
//! step, then the current one, and only then is the new one stored.

use crate::routes::subscriptions_confirm::ErrorChain;
use crate::utils::{see_other, Redirect, STATUS_SEE_OTHER};
use vstd::prelude::*;
use vstd::string::*;
use vstd::utf8::encode_utf8;

verus! {

/// A submitted password form.
#[derive(Clone, Debug, PartialEq, Eq)]
pub struct FormData {
    pub current_password: String,
    pub new_password: String,
    pub new_password_check: String,
}

/// A new password must be longer than this many bytes.
pub const PASSWORD_FLOOR: usize = 12;

/// Where every answer to the form sends the client.
pub open spec fn form_location() -> Seq<char> {
    "/admin/password"@
}

/// Why the current credentials were not accepted.
#[derive(Clone, Debug, PartialEq, Eq)]
pub enum AuthError {
    /// The password is not the user's.
    InvalidCredentials(ErrorChain),
    /// The check itself failed.
    UnexpectedError(ErrorChain),
}

/// The severity of a message shown on the next page.
#[derive(Clone, Copy, Debug, PartialEq, Eq, Structural)]
pub enum FlashLevel {
    Debug,
    Info,
    Success,
    Warning,
    Error,
}

/// A message shown once, on the page the client is sent to.
#[derive(Clone, Debug, PartialEq, Eq)]
pub struct FlashMessage {
    pub level: FlashLevel,
    pub content: String,
}

/// What has happened so far in the handling of a password form.
#[derive(Debug, PartialEq, Eq)]
pub enum PasswordEvent {
    /// The form has arrived, from a logged-in user.
    Submitted,
    /// The user's name was fetched, or could not be.
    UsernameFetched(Result<String, ErrorChain>),
    /// The current password was checked against the user's credentials.
    CredentialsChecked(Result<(), AuthError>),
    /// The new password was stored, or could not be.
    PasswordStored(Result<(), ErrorChain>),
}

/// What the handler is to do next.
#[derive(Debug, PartialEq, Eq)]
pub enum PasswordAction {
    /// Fetch the name of the logged-in user.
    FetchUsername,
    /// Check the current password against this user's credentials.
    ValidateCredentials { username: String, password: String },
    /// Store this password as the user's new one.
    StorePassword(String),
    /// Show the message and send the client back to the form.
    Redirect { flash: FlashMessage, to: Redirect },
    /// Answer with an internal server error.
    InternalServerError,
}

/// `action` sends the client back to the form with the error message `text`.
pub open spec fn sends_back(action: PasswordAction, text: Seq<char>) -> bool {
    &&& action matches PasswordAction::Redirect { flash, to }
    &&& flash.level == FlashLevel::Error
    &&& flash.content@ == text
    &&& to.status == STATUS_SEE_OTHER
    &&& to.location@ == form_location()
}

/// The new password of the form passes the checks made before anything else:
/// it was typed the same twice and is longer than [`PASSWORD_FLOOR`] bytes.
pub open spec fn acceptable(form: FormData) -> bool {
    &&& form.new_password@ == form.new_password_check@
    &&& encode_utf8(form.new_password@).len() > PASSWORD_FLOOR
}

/// `action` refuses the form for its new password: for two different
/// entries first, else for one that is too short.
pub open spec fn refuses(form: FormData, action: PasswordAction) -> bool {
    if form.new_password@ != form.new_password_check@ {
        sends_back(
            action,
            "You entered two different new passwords - the field values must match."@,
        )
    } else {
        sends_back(action, "New password should be greater than 12 characters."@)
    }
}

/// The step that follows `event` in the handling of `form`. Whatever has
/// happened, a form whose new password is not acceptable is refused; for an
/// acceptable one the step goes by the event.
pub open spec fn password_step(form: FormData, event: PasswordEvent, action: PasswordAction) -> bool {
    if !acceptable(form) {
        refuses(form, action)
    } else {
        match event {
            PasswordEvent::Submitted => action == PasswordAction::FetchUsername,
            PasswordEvent::UsernameFetched(Ok(name)) => {
                &&& action matches PasswordAction::ValidateCredentials { username, password }
                &&& username@ == name@
                &&& password@ == form.current_password@
            },
            PasswordEvent::UsernameFetched(Err(_)) => action == PasswordAction::InternalServerError,
            PasswordEvent::CredentialsChecked(Ok(())) => {
                &&& action matches PasswordAction::StorePassword(password)
                &&& password@ == form.new_password@
            },
            PasswordEvent::CredentialsChecked(Err(AuthError::InvalidCredentials(_))) => sends_back(
                action,
                "The current password is incorrect."@,
            ),
            PasswordEvent::CredentialsChecked(Err(AuthError::UnexpectedError(_))) => action
                == PasswordAction::InternalServerError,
            PasswordEvent::PasswordStored(Ok(())) => sends_back(
                action,
                "Your password has been changed."@,
            ),
            PasswordEvent::PasswordStored(Err(_)) => action == PasswordAction::InternalServerError,
        }
    }
}

/// An error message for the form page, with the redirect to it.
fn send_back(text: &str) -> (action: PasswordAction)
    ensures
        sends_back(action, text@),
{
    PasswordAction::Redirect {
        flash: FlashMessage { level: FlashLevel::Error, content: String::from_str(text) },
        to: see_other("/admin/password"),
    }
}

/// Changes the password of the logged-in user, one step at a time. A new
/// password that was typed differently the second time, or that is not longer
/// than [`PASSWORD_FLOOR`] bytes, is refused at every step, whatever has
/// happened before: no step asks to store such a password. For an acceptable
/// one the user's name is fetched and the current password checked: a wrong
/// one is refused. Only then is the new password stored. Every refusal, and
/// the success too, sends the client back to the form with a message; a
/// failure of the server's own is answered as such.
pub fn change_password(form: &FormData, event: PasswordEvent) -> (action: PasswordAction)
    ensures
        password_step(*form, event, action),
        action is StorePassword ==> acceptable(*form),
{
    if !(form.new_password == form.new_password_check) {
        return send_back("You entered two different new passwords - the field values must match.");
    }
    if form.new_password.as_str().as_bytes().len() <= PASSWORD_FLOOR {
        return send_back("New password should be greater than 12 characters.");
    }
    match event {
        PasswordEvent::Submitted => PasswordAction::FetchUsername,
        PasswordEvent::UsernameFetched(Ok(username)) => PasswordAction::ValidateCredentials {
            username,
            password: form.current_password.clone(),
        },
        PasswordEvent::UsernameFetched(Err(_)) => PasswordAction::InternalServerError,
        PasswordEvent::CredentialsChecked(Ok(())) => PasswordAction::StorePassword(
            form.new_password.clone(),
        ),
        PasswordEvent::CredentialsChecked(Err(AuthError::InvalidCredentials(_))) => send_back(
            "The current password is incorrect.",
        ),
        PasswordEvent::CredentialsChecked(Err(AuthError::UnexpectedError(_))) =>
            PasswordAction::InternalServerError,
        PasswordEvent::PasswordStored(Ok(())) => send_back("Your password has been changed."),
        PasswordEvent::PasswordStored(Err(_)) => PasswordAction::InternalServerError,
    }
}

/// No password that the form checks refuse is ever stored: a step that asks
/// to store one was taken on an acceptable form, and asks for that form's new
/// password.
pub proof fn lemma_only_acceptable_passwords_are_stored(
    form: FormData,
    event: PasswordEvent,
    action: PasswordAction,
)
    requires
        password_step(form, event, action),
        action is StorePassword,
    ensures
        acceptable(form),
        event matches PasswordEvent::CredentialsChecked(Ok(_)),
        action matches PasswordAction::StorePassword(password) && password@ == form.new_password@,
{
}

} // verus!
