//! The library behind a small Discord bot that lets server members create
//! characters and speak as them through webhooks: the rules for character
//! IDs and avatars, the per-server data and its changes, fuzzy phrase
//! matching, autocompletion order, logging decisions and the bot's texts.
pub mod outside;
pub mod text;
pub mod error;
pub mod fake_user;
pub mod servers;
pub mod fuzzy;
pub mod autocomplete;
pub mod commands;
pub mod logger;
pub mod events;
pub mod say_as;
