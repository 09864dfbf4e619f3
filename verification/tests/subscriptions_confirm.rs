use newsletter::routes::subscriptions_confirm::{
    confirm, error_chain_fmt, ConfirmAction, ConfirmEvent, ErrorChain, Parameters,
    SubscribeConfirmError, STATUS_INTERNAL_SERVER_ERROR, STATUS_OK, STATUS_UNAUTHORIZED,
};
use uuid::Uuid;

fn parameters() -> Parameters {
    Parameters::new("jlvZsAa3O5GvG6uJunnT1To0Z".to_string())
}

fn database_error() -> ErrorChain {
    ErrorChain {
        message: "error returned from database".to_string(),
        causes: vec!["column \"subscription_token\" does not exist".to_string()],
    }
}

fn status_of(action: &ConfirmAction) -> u16 {
    match action {
        ConfirmAction::Respond(Ok(status)) => *status,
        ConfirmAction::Respond(Err(e)) => e.status_code(),
        other => panic!("not an answer: {other:?}"),
    }
}

#[test]
fn parameters_keep_their_token() {
    assert_eq!(parameters().subscription_token(), "jlvZsAa3O5GvG6uJunnT1To0Z");
}

#[test]
fn a_request_starts_with_the_lookup_of_its_token() {
    assert_eq!(
        confirm(&parameters(), ConfirmEvent::Requested),
        ConfirmAction::LookUpToken("jlvZsAa3O5GvG6uJunnT1To0Z".to_string())
    );
}

#[test]
fn the_link_returned_by_subscribe_returns_a_200_if_called() {
    let action = confirm(&parameters(), ConfirmEvent::SubscriberConfirmed(Ok(())));
    assert_eq!(action, ConfirmAction::Respond(Ok(STATUS_OK)));
    assert_eq!(status_of(&action), 200);
}

#[test]
fn clicking_on_the_confirmation_link_confirms_a_subscriber() {
    let id = Uuid::from_u128(0x1234_5678_9abc_def0_1234_5678_9abc_def0);
    let action = confirm(&parameters(), ConfirmEvent::TokenLookedUp(Ok(Some(id))));
    assert_eq!(action, ConfirmAction::ConfirmSubscriber(id));
    let action = confirm(&parameters(), ConfirmEvent::SubscriberConfirmed(Ok(())));
    assert_eq!(status_of(&action), 200);
}

#[test]
fn clicking_on_the_confirmation_link_returns_unathorized_if_token_not_found() {
    let action = confirm(&parameters(), ConfirmEvent::TokenLookedUp(Ok(None)));
    assert_eq!(action, ConfirmAction::Respond(Err(SubscribeConfirmError::SubscribeTokenError)));
    assert_eq!(status_of(&action), 401);
}

#[test]
fn clicking_on_the_confirmation_link_fails_if_database_error() {
    let action = confirm(&parameters(), ConfirmEvent::TokenLookedUp(Err(database_error())));
    assert_eq!(
        action,
        ConfirmAction::Respond(Err(SubscribeConfirmError::UnexpectedError(ErrorChain {
            message: "Failed to get subscriber id associated with the provided token."
                .to_string(),
            causes: vec![
                "error returned from database".to_string(),
                "column \"subscription_token\" does not exist".to_string(),
            ],
        })))
    );
    assert_eq!(status_of(&action), 500);
}

#[test]
fn a_failed_update_is_an_unexpected_error() {
    let action = confirm(&parameters(), ConfirmEvent::SubscriberConfirmed(Err(database_error())));
    assert_eq!(
        action,
        ConfirmAction::Respond(Err(SubscribeConfirmError::UnexpectedError(ErrorChain {
            message: "Failed to update subscription status to succeeded.".to_string(),
            causes: vec![
                "error returned from database".to_string(),
                "column \"subscription_token\" does not exist".to_string(),
            ],
        })))
    );
    assert_eq!(status_of(&action), 500);
}

#[test]
fn status_codes_have_their_values() {
    assert_eq!(STATUS_OK, 200);
    assert_eq!(STATUS_UNAUTHORIZED, 401);
    assert_eq!(STATUS_INTERNAL_SERVER_ERROR, 500);
    assert_eq!(SubscribeConfirmError::SubscribeTokenError.status_code(), 401);
    assert_eq!(SubscribeConfirmError::UnexpectedError(database_error()).status_code(), 500);
}

#[test]
fn context_puts_the_old_message_first_among_the_causes() {
    let plain = ErrorChain { message: "inner".to_string(), causes: vec![] };
    assert_eq!(
        plain.context("outer"),
        ErrorChain { message: "outer".to_string(), causes: vec!["inner".to_string()] }
    );
    assert_eq!(
        database_error().context("outer").context("outermost"),
        ErrorChain {
            message: "outermost".to_string(),
            causes: vec![
                "outer".to_string(),
                "error returned from database".to_string(),
                "column \"subscription_token\" does not exist".to_string(),
            ],
        }
    );
}

#[test]
fn error_without_causes_is_written_with_an_empty_line() {
    assert_eq!(error_chain_fmt("boom", &vec![]), "boom\n\n");
    assert_eq!(error_chain_fmt("", &vec![]), "\n\n");
}

#[test]
fn error_chain_is_written_cause_by_cause() {
    assert_eq!(
        error_chain_fmt("top", &vec!["middle".to_string(), "bottom".to_string()]),
        "top\n\nCaused by:\n\tmiddle\nCaused by:\n\tbottom\n"
    );
}

#[test]
fn unknown_token_has_a_fixed_message() {
    let e = SubscribeConfirmError::SubscribeTokenError;
    assert_eq!(e.message(), "There is no subscriber associated with the provided token.");
    assert_eq!(
        e.debug_text(),
        "There is no subscriber associated with the provided token.\n\n"
    );
}

#[test]
fn unexpected_error_shows_its_chain() {
    let e = SubscribeConfirmError::UnexpectedError(database_error().context("while confirming"));
    assert_eq!(e.message(), "while confirming");
    assert_eq!(
        e.debug_text(),
        "while confirming\n\nCaused by:\n\terror returned from database\nCaused by:\n\tcolumn \"subscription_token\" does not exist\n"
    );
}
