//! Declarations of the Discord client library's types that the library's
//! values carry through without looking inside them.
use vstd::prelude::*;

verus! {

/// The error type of the Discord client library (`serenity::Error`).
#[verifier::external_type_specification]
#[verifier::external_body]
pub struct ExSerenityError(poise::serenity_prelude::Error);

/// A client for the Discord HTTP API (`serenity::http::Http`).
#[verifier::external_type_specification]
#[verifier::external_body]
pub struct ExHttp(poise::serenity_prelude::Http);

/// A Discord channel identifier (`serenity::model::id::ChannelId`).
#[verifier::external_type_specification]
#[verifier::external_body]
pub struct ExChannelId(poise::serenity_prelude::ChannelId);

/// A webhook message under construction (`serenity::builder::ExecuteWebhook`).
#[verifier::external_type_specification]
#[verifier::external_body]
pub struct ExExecuteWebhook(poise::serenity_prelude::ExecuteWebhook);

/// The error of a poisoned lock (`std::sync::PoisonError`).
#[verifier::external_type_specification]
#[verifier::external_body]
#[verifier::reject_recursive_types(T)]
pub struct ExPoisonError<T>(std::sync::PoisonError<T>);

} // verus!
