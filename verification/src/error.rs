//! The bot's error type and the conversions into it.
use vstd::prelude::*;
use crate::fake_user::FakeUserError;

verus! {

broadcast use vstd::string::group_string_axioms;

/// Everything that can go wrong while handling a command or an event.
#[derive(Debug)]
pub enum BotError {
    /// The Discord client library failed.
    Serenity(poise::serenity_prelude::Error),
    /// A message for the user, built at run time.
    String(String),
    /// A fixed message for the user.
    Str(&'static str),
    /// Acting as another user failed.
    FakeUser(FakeUserError),
}

/// Conversion of a fallible result into one that fails with a [`BotError`].
pub trait BotErrorExt<V>: Sized {
    fn bot_err(self) -> Result<V, BotError>;
}

/// Conversion of an optional value into a result that fails with the
/// given message.
pub trait BotErrorMsgExt<V>: Sized {
    fn bot_err(self, err: &str) -> Result<V, BotError>;
}

impl<V> BotErrorExt<V> for Result<V, poise::serenity_prelude::Error> {
    /// Keeps the value, and wraps a client library error.
    fn bot_err(self) -> (r: Result<V, BotError>)
        ensures
            match self {
                Ok(v) => r == Ok::<V, BotError>(v),
                Err(e) => r == Err::<V, BotError>(BotError::Serenity(e)),
            },
    {
        match self {
            Ok(v) => Ok(v),
            Err(e) => Err(BotError::Serenity(e)),
        }
    }
}

impl<V> BotErrorExt<V> for Result<V, std::sync::PoisonError<V>> {
    /// Keeps the value, and turns a poisoned lock into the text of its error.
    fn bot_err(self) -> (r: Result<V, BotError>)
        ensures
            match self {
                Ok(v) => r == Ok::<V, BotError>(v),
                Err(e) => r matches Err(BotError::String(s))
                    && vstd::string::to_string_from_display_ensures::<std::sync::PoisonError<V>>(&e, s),
            },
    {
        match self {
            Ok(v) => Ok(v),
            Err(e) => Err(BotError::String(e.to_string())),
        }
    }
}

impl<V> BotErrorMsgExt<V> for Option<V> {
    /// `Some(v)` gives `Ok(v)`; `None` fails with `err` as a message.
    fn bot_err(self, err: &str) -> (r: Result<V, BotError>)
        ensures
            match self {
                Some(v) => r == Ok::<V, BotError>(v),
                None => r matches Err(BotError::String(s)) && s@ == err@,
            },
    {
        match self {
            Some(v) => Ok(v),
            None => Err(BotError::String(err.to_string())),
        }
    }
}

} // verus!
