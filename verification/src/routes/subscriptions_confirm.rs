//! Confirmation of a pending subscription: the steps of the handler, the
//! errors it answers with, and how an error and its causes are written out.

use uuid::Uuid;
use vstd::prelude::*;
use vstd::string::*;

verus! {

/// `uuid::Uuid`, a subscriber's identifier, made known so that it can stand in
/// signatures. It is handed on as it came and never looked into; nothing is
/// assumed of it.
#[verifier::external_type_specification]
#[verifier::external_body]
pub struct ExUuid(Uuid);

/// The query parameters of a confirmation request.
#[derive(Clone, Debug, PartialEq, Eq)]
pub struct Parameters {
    subscription_token: String,
}

impl Parameters {
    pub closed spec fn token(&self) -> Seq<char> {
        self.subscription_token@
    }

    pub fn new(subscription_token: String) -> (p: Parameters)
        ensures
            p.token() == subscription_token@,
    {
        Parameters { subscription_token }
    }

    pub fn subscription_token(&self) -> (t: &str)
        ensures
            t@ == self.token(),
    {
        self.subscription_token.as_str()
    }
}

/// The mathematical value of an [`ErrorChain`].
pub struct ErrorChainModel {
    pub message: Seq<char>,
    pub causes: Seq<Seq<char>>,
}

impl ErrorChainModel {
    /// The chain under one more message: what was the message is now the
    /// first cause.
    pub open spec fn context(self, context: Seq<char>) -> ErrorChainModel {
        ErrorChainModel { message: context, causes: seq![self.message] + self.causes }
    }
}

/// An error by what it says: its own message, then the messages of its
/// causes, the nearest first.
#[derive(Clone, Debug, PartialEq, Eq)]
pub struct ErrorChain {
    pub message: String,
    pub causes: Vec<String>,
}

/// The values of a list of messages, in order.
pub open spec fn message_views(messages: Seq<String>) -> Seq<Seq<char>> {
    messages.map_values(|m: String| m@)
}

impl View for ErrorChain {
    type V = ErrorChainModel;

    open spec fn view(&self) -> ErrorChainModel {
        ErrorChainModel { message: self.message@, causes: message_views(self.causes@) }
    }
}

impl ErrorChain {
    /// Wraps the error in a message that says what was being done.
    pub fn context(self, context: &str) -> (wrapped: ErrorChain)
        ensures
            wrapped@ == self@.context(context@),
    {
        let mut causes: Vec<String> = Vec::new();
        causes.push(self.message);
        let mut i: usize = 0;
        while i < self.causes.len()
            invariant
                i <= self.causes@.len(),
                causes@.len() == i + 1,
                causes@[0]@ == self.message@,
                forall|j: int| 0 <= j < i ==> causes@[j + 1]@ == self.causes@[j]@,
            decreases self.causes@.len() - i,
        {
            causes.push(self.causes[i].clone());
            i += 1;
        }
        let wrapped = ErrorChain { message: String::from_str(context), causes };
        assert(wrapped@.causes =~= self@.context(context@).causes);
        wrapped
    }
}

/// Why a confirmation was refused.
#[derive(Clone, Debug, PartialEq, Eq)]
pub enum SubscribeConfirmError {
    /// The token belongs to no subscriber.
    SubscribeTokenError,
    /// Something else went wrong; the chain says what.
    UnexpectedError(ErrorChain),
}

/// The status of an answer that confirms the subscription.
pub const STATUS_OK: u16 = 200;

/// The status of an answer to a token that belongs to no subscriber.
pub const STATUS_UNAUTHORIZED: u16 = 401;

/// The status of an answer to a failure of the server's own.
pub const STATUS_INTERNAL_SERVER_ERROR: u16 = 500;

/// What each cause contributes to a written chain, the causes before it
/// followed by its own heading, message and line end.
pub open spec fn causes_text(causes: Seq<Seq<char>>) -> Seq<char>
    decreases causes.len(),
{
    if causes.len() == 0 {
        Seq::<char>::empty()
    } else {
        causes_text(causes.drop_last()) + "Caused by:\n\t"@ + causes.last() + "\n"@
    }
}

/// An error written out with its causes: the message and an empty line, then
/// each cause under its heading.
pub open spec fn chain_text(message: Seq<char>, causes: Seq<Seq<char>>) -> Seq<char> {
    message + "\n\n"@ + causes_text(causes)
}

/// Writes out an error with its chain of causes, the nearest cause first.
pub fn error_chain_fmt(message: &str, causes: &Vec<String>) -> (text: String)
    ensures
        text@ == chain_text(message@, message_views(causes@)),
{
    let mut text = String::from_str(message);
    text.append("\n\n");
    let mut i: usize = 0;
    proof {
        assert(message_views(causes@).take(0) =~= Seq::<Seq<char>>::empty());
        assert(text@ =~= chain_text(message@, message_views(causes@).take(0)));
    }
    while i < causes.len()
        invariant
            i <= causes@.len(),
            text@ == chain_text(message@, message_views(causes@).take(i as int)),
        decreases causes@.len() - i,
    {
        proof {
            let all = message_views(causes@);
            assert(all.take(i + 1).drop_last() =~= all.take(i as int));
            assert(all.take(i + 1).last() == causes@[i as int]@);
        }
        text.append("Caused by:\n\t");
        text.append(causes[i].as_str());
        text.append("\n");
        proof {
            let all = message_views(causes@);
            assert(text@ =~= chain_text(message@, all.take(i + 1)));
        }
        i += 1;
    }
    proof {
        let all = message_views(causes@);
        assert(all.take(causes@.len() as int) =~= all);
    }
    text
}

impl SubscribeConfirmError {
    /// What the error says of itself: the fixed sentence for an unknown
    /// token, else the message of the chain.
    pub open spec fn message_text(self) -> Seq<char> {
        match self {
            SubscribeConfirmError::SubscribeTokenError =>
                "There is no subscriber associated with the provided token."@,
            SubscribeConfirmError::UnexpectedError(chain) => chain.message@,
        }
    }

    /// The messages of the error's causes, the nearest first.
    pub open spec fn cause_texts(self) -> Seq<Seq<char>> {
        match self {
            SubscribeConfirmError::SubscribeTokenError => Seq::<Seq<char>>::empty(),
            SubscribeConfirmError::UnexpectedError(chain) => message_views(chain.causes@),
        }
    }

    /// The status the error is answered with.
    pub open spec fn status(self) -> u16 {
        match self {
            SubscribeConfirmError::SubscribeTokenError => STATUS_UNAUTHORIZED,
            SubscribeConfirmError::UnexpectedError(_) => STATUS_INTERNAL_SERVER_ERROR,
        }
    }

    /// The error in one line, as a user-facing message shows it.
    pub fn message(&self) -> (text: String)
        ensures
            text@ == self.message_text(),
    {
        match self {
            SubscribeConfirmError::SubscribeTokenError => String::from_str(
                "There is no subscriber associated with the provided token.",
            ),
            SubscribeConfirmError::UnexpectedError(chain) => chain.message.clone(),
        }
    }

    /// The error with its chain of causes, as the log shows it.
    pub fn debug_text(&self) -> (text: String)
        ensures
            text@ == chain_text(self.message_text(), self.cause_texts()),
    {
        match self {
            SubscribeConfirmError::SubscribeTokenError => {
                let none: Vec<String> = Vec::new();
                assert(message_views(none@) =~= Seq::<Seq<char>>::empty());
                error_chain_fmt(
                    "There is no subscriber associated with the provided token.",
                    &none,
                )
            },
            SubscribeConfirmError::UnexpectedError(chain) => error_chain_fmt(
                chain.message.as_str(),
                &chain.causes,
            ),
        }
    }

    /// The status the error is answered with: unauthorized for an unknown
    /// token, internal server error for anything else.
    pub fn status_code(&self) -> (code: u16)
        ensures
            code == self.status(),
    {
        match self {
            SubscribeConfirmError::SubscribeTokenError => STATUS_UNAUTHORIZED,
            SubscribeConfirmError::UnexpectedError(_) => STATUS_INTERNAL_SERVER_ERROR,
        }
    }
}

/// What has happened so far in the handling of a confirmation request.
#[derive(Debug, PartialEq, Eq)]
pub enum ConfirmEvent {
    /// The request has arrived.
    Requested,
    /// The token was looked up: the subscriber it belongs to, if any.
    TokenLookedUp(Result<Option<Uuid>, ErrorChain>),
    /// The subscriber was marked as confirmed, or the update failed.
    SubscriberConfirmed(Result<(), ErrorChain>),
}

/// What the handler is to do next.
#[derive(Debug, PartialEq, Eq)]
pub enum ConfirmAction {
    /// Look up the subscriber that the token belongs to.
    LookUpToken(String),
    /// Mark this subscriber as confirmed.
    ConfirmSubscriber(Uuid),
    /// Answer the request: a status, or the error to answer with.
    Respond(Result<u16, SubscribeConfirmError>),
}

/// The step that follows `event` in the handling of a request with the token
/// `token`.
pub open spec fn confirm_step(token: Seq<char>, event: ConfirmEvent, action: ConfirmAction) -> bool {
    match event {
        ConfirmEvent::Requested => action matches ConfirmAction::LookUpToken(t) && t@ == token,
        ConfirmEvent::TokenLookedUp(Ok(Some(id))) => action == ConfirmAction::ConfirmSubscriber(id),
        ConfirmEvent::TokenLookedUp(Ok(None)) => action == ConfirmAction::Respond(
            Err(SubscribeConfirmError::SubscribeTokenError),
        ),
        ConfirmEvent::TokenLookedUp(Err(e)) => {
            &&& action matches ConfirmAction::Respond(
                Err(SubscribeConfirmError::UnexpectedError(chain)),
            )
            &&& chain@ == e@.context(
                "Failed to get subscriber id associated with the provided token."@,
            )
        },
        ConfirmEvent::SubscriberConfirmed(Ok(())) => action == ConfirmAction::Respond(
            Ok(STATUS_OK),
        ),
        ConfirmEvent::SubscriberConfirmed(Err(e)) => {
            &&& action matches ConfirmAction::Respond(
                Err(SubscribeConfirmError::UnexpectedError(chain)),
            )
            &&& chain@ == e@.context("Failed to update subscription status to succeeded."@)
        },
    }
}

/// Confirms a pending subscriber, one step at a time: look up the token; an
/// unknown token is refused, a known one has its subscriber marked as
/// confirmed; then answer. A failure of either query is answered as an
/// unexpected error that says which of the two failed.
pub fn confirm(parameters: &Parameters, event: ConfirmEvent) -> (action: ConfirmAction)
    ensures
        confirm_step(parameters.token(), event, action),
{
    match event {
        ConfirmEvent::Requested => ConfirmAction::LookUpToken(
            String::from_str(parameters.subscription_token()),
        ),
        ConfirmEvent::TokenLookedUp(Ok(Some(subscriber_id))) => ConfirmAction::ConfirmSubscriber(
            subscriber_id,
        ),
        ConfirmEvent::TokenLookedUp(Ok(None)) => ConfirmAction::Respond(
            Err(SubscribeConfirmError::SubscribeTokenError),
        ),
        ConfirmEvent::TokenLookedUp(Err(e)) => ConfirmAction::Respond(
            Err(
                SubscribeConfirmError::UnexpectedError(
                    e.context("Failed to get subscriber id associated with the provided token."),
                ),
            ),
        ),
        ConfirmEvent::SubscriberConfirmed(Ok(())) => ConfirmAction::Respond(Ok(STATUS_OK)),
        ConfirmEvent::SubscriberConfirmed(Err(e)) => ConfirmAction::Respond(
            Err(
                SubscribeConfirmError::UnexpectedError(
                    e.context("Failed to update subscription status to succeeded."),
                ),
            ),
        ),
    }
}

} // verus!
