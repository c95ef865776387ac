//! Speaking as a character: the decisions between the steps that reach
//! Discord. The caller performs each action, reports what happened as the
//! next event, and stops at [`SayAsAction::Finish`] or at an error.
use vstd::prelude::*;
use crate::commands::char_use_id;
use crate::error::BotError;
use crate::servers::{CharacterView, Server, CHARACTER_NOT_FOUND};
use crate::text::trim;

verus! {

broadcast use vstd::string::group_string_axioms;

/// What happened since the last action.
pub enum SayAsEvent {
    /// The command came in.
    Start,
    /// Whether Discord still knows the stored webhook.
    HookChecked { exists: bool },
    /// The message went out.
    Sent,
    /// A webhook was created; `url` is where to reach it.
    HookCreated { url: String },
}

/// What to do next.
pub enum SayAsAction {
    /// Ask Discord whether the webhook at `url` still exists.
    CheckHook { url: String },
    /// Send the message through the webhook at `url`.
    Send { url: String },
    /// Create a webhook in the channel showing `name` and `avatar_url`.
    CreateHook { name: String, avatar_url: String },
    /// Nothing is left to do.
    Finish,
}

/// The mathematical model of a [`SayAsAction`].
pub enum SayAsActionView {
    CheckHook { url: Seq<char> },
    Send { url: Seq<char> },
    CreateHook { name: Seq<char>, avatar_url: Seq<char> },
    Finish,
}

impl View for SayAsAction {
    type V = SayAsActionView;

    open spec fn view(&self) -> SayAsActionView {
        match self {
            SayAsAction::CheckHook { url } => SayAsActionView::CheckHook { url: url@ },
            SayAsAction::Send { url } => SayAsActionView::Send { url: url@ },
            SayAsAction::CreateHook { name, avatar_url } => SayAsActionView::CreateHook {
                name: name@,
                avatar_url: avatar_url@,
            },
            SayAsAction::Finish => SayAsActionView::Finish,
        }
    }
}

/// Creating a webhook that shows the character.
pub open spec fn create_action(ch: CharacterView) -> SayAsActionView {
    SayAsActionView::CreateHook { name: ch.display_name, avatar_url: ch.avatar_url }
}

/// At the start: check the webhook stored for the channel, or create one if
/// none is stored.
pub open spec fn start_action(ch: CharacterView, channel: u64) -> SayAsActionView {
    if ch.hooks.contains_key(channel) {
        SayAsActionView::CheckHook { url: ch.hooks[channel] }
    } else {
        create_action(ch)
    }
}

/// Once the stored webhook is known to exist: send through it (or create
/// one if it is no longer stored).
pub open spec fn checked_action(ch: CharacterView, channel: u64) -> SayAsActionView {
    if ch.hooks.contains_key(channel) {
        SayAsActionView::Send { url: ch.hooks[channel] }
    } else {
        create_action(ch)
    }
}

/// The next action for the existing character `id` after `event`.
pub open spec fn say_as_action(
    characters: Map<Seq<char>, CharacterView>,
    id: Seq<char>,
    channel: u64,
    event: SayAsEvent,
) -> SayAsActionView {
    match event {
        SayAsEvent::Start => start_action(characters[id], channel),
        SayAsEvent::HookChecked { exists } => if exists {
            checked_action(characters[id], channel)
        } else {
            create_action(characters[id])
        },
        SayAsEvent::HookCreated { url } => SayAsActionView::Send { url: url@ },
        SayAsEvent::Sent => SayAsActionView::Finish,
    }
}

/// The characters after `event` for the character `id`: a webhook that no
/// longer exists is forgotten, a created one is stored, and nothing else
/// changes.
pub open spec fn say_as_characters(
    characters: Map<Seq<char>, CharacterView>,
    id: Seq<char>,
    channel: u64,
    event: SayAsEvent,
) -> Map<Seq<char>, CharacterView> {
    if !characters.contains_key(id) {
        characters
    } else {
        match event {
            SayAsEvent::HookChecked { exists } => if exists {
                characters
            } else {
                characters.insert(
                    id,
                    CharacterView { hooks: characters[id].hooks.remove(channel), ..characters[id] },
                )
            },
            SayAsEvent::HookCreated { url } => characters.insert(
                id,
                CharacterView { hooks: characters[id].hooks.insert(channel, url@), ..characters[id] },
            ),
            _ => characters,
        }
    }
}

/// One step of speaking as the character `id` (as typed; it is trimmed) in
/// `channel`: updates the server's data for `event` and says what to do
/// next. After [`SayAsEvent::Sent`] it finishes; for any other event an
/// unknown character is an error that changes nothing.
pub fn say_as_step(server: &mut Server, id: &str, channel: u64, event: SayAsEvent) -> (r: Result<
    SayAsAction,
    BotError,
>)
    ensures
        event is Sent ==> (r matches Ok(a) && a@ == SayAsActionView::Finish),
        !(event is Sent) && !old(server).characters@.contains_key(trim(id@)) ==> (r matches Err(
            BotError::String(m),
        ) && m@ == CHARACTER_NOT_FOUND@),
        !(event is Sent) && old(server).characters@.contains_key(trim(id@)) ==> (r matches Ok(a)
            && a@ == say_as_action(old(server).characters@, trim(id@), channel, event)),
        final(server).characters@ == say_as_characters(
            old(server).characters@,
            trim(id@),
            channel,
            event,
        ),
        final(server).roles == old(server).roles,
        final(server).config == old(server).config,
{
    if let SayAsEvent::Sent = event {
        return Ok(SayAsAction::Finish);
    }
    let key = char_use_id(id);
    let character = match server.find_character(key.as_str()) {
        Ok(c) => c,
        Err(e) => return Err(e),
    };
    match event {
        SayAsEvent::Start => match character.hook_for(channel) {
            Some(url) => Ok(SayAsAction::CheckHook { url }),
            None => Ok(
                SayAsAction::CreateHook {
                    name: character.display_name,
                    avatar_url: character.avatar_url,
                },
            ),
        },
        SayAsEvent::HookChecked { exists } => {
            if exists {
                match character.hook_for(channel) {
                    Some(url) => Ok(SayAsAction::Send { url }),
                    None => Ok(
                        SayAsAction::CreateHook {
                            name: character.display_name,
                            avatar_url: character.avatar_url,
                        },
                    ),
                }
            } else {
                server.remove_character_hook(key.as_str(), channel);
                Ok(
                    SayAsAction::CreateHook {
                        name: character.display_name,
                        avatar_url: character.avatar_url,
                    },
                )
            }
        },
        SayAsEvent::HookCreated { url } => {
            let sent_to = url.clone();
            let _ = server.store_character_hook(key.as_str(), channel, url);
            Ok(SayAsAction::Send { url: sent_to })
        },
        SayAsEvent::Sent => Ok(SayAsAction::Finish),
    }
}

/// Law: a webhook that was created for a character in a channel is the one
/// checked the next time the character speaks there.
pub proof fn lemma_created_hook_is_reused(
    characters: Map<Seq<char>, CharacterView>,
    id: Seq<char>,
    channel: u64,
    url: String,
)
    requires
        characters.contains_key(id),
    ensures
        say_as_action(
            say_as_characters(characters, id, channel, SayAsEvent::HookCreated { url }),
            id,
            channel,
            SayAsEvent::Start,
        ) == (SayAsActionView::CheckHook { url: url@ }),
{
}

/// Law: once Discord confirmed the stored webhook, the message goes through
/// it and the data is left as it was: no webhook is created.
pub proof fn lemma_existing_hook_is_used(
    characters: Map<Seq<char>, CharacterView>,
    id: Seq<char>,
    channel: u64,
)
    requires
        characters.contains_key(id),
        characters[id].hooks.contains_key(channel),
    ensures
        say_as_action(characters, id, channel, SayAsEvent::HookChecked { exists: true }) == (
        SayAsActionView::Send { url: characters[id].hooks[channel] }),
        say_as_characters(characters, id, channel, SayAsEvent::HookChecked { exists: true })
            == characters,
{
}

/// Law: a stored webhook that Discord no longer knows is forgotten, and a
/// new one is created in its place.
pub proof fn lemma_stale_hook_is_replaced(
    characters: Map<Seq<char>, CharacterView>,
    id: Seq<char>,
    channel: u64,
)
    requires
        characters.contains_key(id),
    ensures
        !say_as_characters(
            characters,
            id,
            channel,
            SayAsEvent::HookChecked { exists: false },
        )[id].hooks.contains_key(channel),
        say_as_action(characters, id, channel, SayAsEvent::HookChecked { exists: false })
            == create_action(characters[id]),
{
}

/// Law: reporting that the message went out changes no data.
pub proof fn lemma_sent_changes_nothing(
    characters: Map<Seq<char>, CharacterView>,
    id: Seq<char>,
    channel: u64,
)
    ensures
        say_as_characters(characters, id, channel, SayAsEvent::Sent) == characters,
        say_as_action(characters, id, channel, SayAsEvent::Sent) == SayAsActionView::Finish,
{
}

/// Law: a whole run that creates a webhook (start, creation, sending)
/// leaves the character's webhook for the channel at the created URL, and
/// its webhooks for every other channel, its name and its avatar as they
/// were; the next run in that channel checks that webhook.
pub proof fn lemma_run_with_new_hook_keeps_it(
    characters: Map<Seq<char>, CharacterView>,
    id: Seq<char>,
    channel: u64,
    url: String,
    other_channel: u64,
)
    requires
        characters.contains_key(id),
        !characters[id].hooks.contains_key(channel),
        other_channel != channel,
    ensures
        ({
            let a = say_as_characters(characters, id, channel, SayAsEvent::Start);
            let b = say_as_characters(a, id, channel, SayAsEvent::HookCreated { url });
            let c = say_as_characters(b, id, channel, SayAsEvent::Sent);
            &&& c.contains_key(id)
            &&& c[id].hooks.contains_key(channel)
            &&& c[id].hooks[channel] == url@
            &&& c[id].hooks.contains_key(other_channel) == characters[id].hooks.contains_key(
                other_channel,
            )
            &&& c[id].hooks.contains_key(other_channel) ==> c[id].hooks[other_channel]
                == characters[id].hooks[other_channel]
            &&& c[id].display_name == characters[id].display_name
            &&& c[id].avatar_url == characters[id].avatar_url
            &&& say_as_action(c, id, channel, SayAsEvent::Start) == (SayAsActionView::CheckHook {
                url: url@,
            })
        }),
{
}

/// Law: one step changes at most the character's webhook for the step's
/// channel. The set of characters, every other character, the character's
/// name and avatar, and its webhooks for other channels stay as they were;
/// a created webhook is stored for the channel and a stale one is forgotten.
pub proof fn lemma_step_is_local(
    characters: Map<Seq<char>, CharacterView>,
    id: Seq<char>,
    channel: u64,
    event: SayAsEvent,
    other: Seq<char>,
    other_channel: u64,
)
    ensures
        ({
            let after = say_as_characters(characters, id, channel, event);
            &&& after.contains_key(other) == characters.contains_key(other)
            &&& (other != id && characters.contains_key(other)) ==> after[other] == characters[other]
            &&& characters.contains_key(id) ==> {
                &&& after[id].display_name == characters[id].display_name
                &&& after[id].avatar_url == characters[id].avatar_url
                &&& other_channel != channel ==> {
                    &&& after[id].hooks.contains_key(other_channel)
                        == characters[id].hooks.contains_key(other_channel)
                    &&& after[id].hooks.contains_key(other_channel)
                        ==> after[id].hooks[other_channel] == characters[id].hooks[other_channel]
                }
                &&& event matches SayAsEvent::HookCreated { url } ==> (
                after[id].hooks.contains_key(channel) && after[id].hooks[channel] == url@)
                &&& event matches SayAsEvent::HookChecked { exists } ==> (!exists
                    ==> !after[id].hooks.contains_key(channel))
                &&& (event is Start || event is Sent || event matches SayAsEvent::HookChecked {
                    exists: true,
                }) ==> after == characters
            }
        }),
{
}

/// Law: what each event leads to for an existing character. At the start,
/// a stored webhook for the channel is checked and otherwise one is
/// created showing the character; a confirmed webhook is sent through, a
/// stale one replaced by a new one; a created webhook is sent through; and
/// after sending nothing is left to do.
pub proof fn lemma_actions(
    characters: Map<Seq<char>, CharacterView>,
    id: Seq<char>,
    channel: u64,
    url: String,
)
    requires
        characters.contains_key(id),
    ensures
        ({
            let ch = characters[id];
            let create = SayAsActionView::CreateHook {
                name: ch.display_name,
                avatar_url: ch.avatar_url,
            };
            &&& ch.hooks.contains_key(channel) ==> say_as_action(
                characters,
                id,
                channel,
                SayAsEvent::Start,
            ) == (SayAsActionView::CheckHook { url: ch.hooks[channel] })
            &&& !ch.hooks.contains_key(channel) ==> say_as_action(
                characters,
                id,
                channel,
                SayAsEvent::Start,
            ) == create
            &&& ch.hooks.contains_key(channel) ==> say_as_action(
                characters,
                id,
                channel,
                SayAsEvent::HookChecked { exists: true },
            ) == (SayAsActionView::Send { url: ch.hooks[channel] })
            &&& say_as_action(characters, id, channel, SayAsEvent::HookChecked { exists: false })
                == create
            &&& say_as_action(characters, id, channel, SayAsEvent::HookCreated { url })
                == (SayAsActionView::Send { url: url@ })
            &&& say_as_action(characters, id, channel, SayAsEvent::Sent)
                == SayAsActionView::Finish
        }),
{
}

} // verus!
