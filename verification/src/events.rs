//! Which Discord events the bot reacts to.
use vstd::prelude::*;
use crate::text::{ascii_only, chars_of, keep_ascii, string_of};

verus! {

/// The channel whose messages are matched against the phrase groups.
pub const FUZZY_CHANNEL: u64 = 1057519403408822283;

/// Phrases announcing a ban.
pub const BANNING_PHRASES: [&'static str; 2] = ["i'm banning you", "you're getting banned"];

/// Phrases calling for the moderators.
pub const MOD_MENTION_PHRASES: [&'static str; 3] = ["bob", "moderators", "mods"];

/// The text of a new message to match against the phrase groups: only
/// messages of others in [`FUZZY_CHANNEL`], with non-ASCII characters
/// removed.
pub fn fuzzy_text(author: u64, bot_user: u64, channel: u64, content: &str) -> (r: Option<String>)
    ensures
        r is Some <==> (author != bot_user && channel == FUZZY_CHANNEL),
        r matches Some(t) ==> t@ == ascii_only(content@),
{
    if author == bot_user {
        return None;
    }
    if channel != FUZZY_CHANNEL {
        return None;
    }
    Some(string_of(&keep_ascii(&chars_of(content))))
}

} // verus!
