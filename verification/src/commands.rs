//! The rules behind the bot's commands: what IDs and avatar URLs are
//! accepted, and the texts the commands answer with.
use vstd::prelude::*;
use crate::error::BotError;
use crate::servers::{CharacterMap, CharacterView};
use crate::text::{
    all_ascii, ascii_lower, before_char, char_ascii_lower, char_is_ascii, chars_before, chars_equal,
    chars_of, decimal, ends_with, is_ascii_char, is_whitespace, lemma_parse_decimal, occurs_at_index,
    parse_u64, parsed_u64, push_str, replace_all, replace_chars, starts_with, string_of, trim,
    trim_chars, trim_end, trim_start,
    u64_to_string,
};

verus! {

broadcast use vstd::string::group_string_axioms;

// ---------------------------------------------------------------------
// Character IDs
// ---------------------------------------------------------------------

/// The message of the error for an ID with non-ASCII characters.
pub const NON_ASCII_ID: &'static str = "The character ID must be ASCII.\nEx: `hawtsaus`, `chickn_nuggit`";

/// One character of an ID: ASCII lower case, and `_` for a space.
pub open spec fn id_char(c: char) -> char {
    if ascii_lower(c) == ' ' {
        '_'
    } else {
        ascii_lower(c)
    }
}

/// An ID as it is stored: trimmed, in ASCII lower case, with `_` for
/// every space.
pub open spec fn normalized_id(s: Seq<char>) -> Seq<char> {
    trim(s).map_values(|c: char| id_char(c))
}

/// Turns what a user typed into a character ID; IDs that are not ASCII are
/// refused.
pub fn normalize_char_id(id: &str) -> (r: Result<String, BotError>)
    ensures
        all_ascii(normalized_id(id@)) ==> (r matches Ok(s) && s@ == normalized_id(id@)),
        !all_ascii(normalized_id(id@)) ==> (r matches Err(BotError::Str(m)) && m@ == NON_ASCII_ID@),
{
    let trimmed = trim_chars(&chars_of(id));
    let n = trimmed.len();
    let mut out: Vec<char> = Vec::new();
    let mut ascii = true;
    for i in 0..n
        invariant
            n == trimmed@.len(),
            trimmed@ == trim(id@),
            out@ == trimmed@.take(i as int).map_values(|c: char| id_char(c)),
            ascii == all_ascii(out@),
    {
        let lower = char_ascii_lower(trimmed[i]);
        let c = if lower == ' ' {
            '_'
        } else {
            lower
        };
        if !char_is_ascii(c) {
            ascii = false;
        }
        let ghost before = out@;
        out.push(c);
        assert(trimmed@.take(i + 1).map_values(|c: char| id_char(c)) =~= out@);
        proof {
            if ascii {
                assert forall|j: int| 0 <= j < out@.len() implies is_ascii_char(#[trigger] out@[j]) by {
                    if j < before.len() {
                        assert(out@[j] == before[j]);
                    }
                }
            } else if is_ascii_char(c) {
                let j = choose|j: int| 0 <= j < before.len() && !is_ascii_char(#[trigger] before[j]);
                assert(out@[j] == before[j]);
            } else {
                assert(out@[before.len() as int] == c);
            }
        }
    }
    assert(trimmed@.take(n as int) == trimmed@);
    if ascii {
        Ok(string_of(&out))
    } else {
        Err(BotError::Str(NON_ASCII_ID))
    }
}

/// Law: a normalized ID has one character per character of the trimmed
/// input: an ASCII capital becomes its small letter, a space becomes `_`,
/// and every other character (digits, punctuation, small letters, anything
/// outside ASCII) stays as it is.
pub proof fn lemma_normalized_id_chars(s: Seq<char>)
    ensures
        normalized_id(s).len() == trim(s).len(),
        forall|i: int|
            0 <= i < trim(s).len() ==> {
                let c = trim(s)[i];
                let r = #[trigger] normalized_id(s)[i];
                &&& ('A' <= c <= 'Z' ==> r as u32 == c as u32 + 32)
                &&& (c == ' ' ==> r == '_')
                &&& (!('A' <= c <= 'Z') && c != ' ' ==> r == c)
            },
{
    assert forall|i: int| 0 <= i < trim(s).len() implies {
        let c = trim(s)[i];
        let r = #[trigger] normalized_id(s)[i];
        &&& ('A' <= c <= 'Z' ==> r as u32 == c as u32 + 32)
        &&& (c == ' ' ==> r == '_')
        &&& (!('A' <= c <= 'Z') && c != ' ' ==> r == c)
    } by {
        let c = trim(s)[i];
        assert(normalized_id(s)[i] == id_char(c));
        if 'A' <= c <= 'Z' {
            let u = c as u32;
            assert(65 <= u <= 90);
            assert(((u + 32) as u8) as u32 == u + 32);
            assert(ascii_lower(c) == (((u + 32) as u8) as char));
            assert(ascii_lower(c) != ' ');
        }
    }
}

/// Law: an ID that was already normalized stays as it is.
pub proof fn lemma_normalized_id_idempotent(s: Seq<char>)
    ensures
        normalized_id(normalized_id(s)) == normalized_id(s),
{
    let t = trim(s);
    let m = normalized_id(s);
    lemma_trim_ends(s);
    if m.len() > 0 {
        assert(!is_whitespace(m[0])) by {
            assert(m[0] == id_char(t[0]));
        }
        assert(!is_whitespace(m.last())) by {
            assert(m.last() == id_char(t.last()));
        }
    }
    lemma_trim_of_unpadded(m);
    assert forall|i: int| 0 <= i < m.len() implies id_char(#[trigger] m[i]) == m[i] by {
        assert(m[i] == id_char(t[i]));
    }
    assert(normalized_id(m) =~= m);
}

/// A trimmed sequence neither starts nor ends with whitespace.
pub proof fn lemma_trim_ends(s: Seq<char>)
    ensures
        trim(s).len() > 0 ==> !is_whitespace(trim(s)[0]) && !is_whitespace(trim(s).last()),
{
    lemma_trim_start_end(s);
    lemma_trim_end_end(trim_start(s));
    lemma_trim_end_keeps_start(trim_start(s));
}

/// `trim_start` leaves no leading whitespace.
proof fn lemma_trim_start_end(s: Seq<char>)
    ensures
        trim_start(s).len() > 0 ==> !is_whitespace(trim_start(s)[0]),
    decreases s.len(),
{
    if s.len() > 0 && is_whitespace(s[0]) {
        lemma_trim_start_end(s.drop_first());
    }
}

/// `trim_end` leaves no trailing whitespace.
proof fn lemma_trim_end_end(s: Seq<char>)
    ensures
        trim_end(s).len() > 0 ==> !is_whitespace(trim_end(s).last()),
    decreases s.len(),
{
    if s.len() > 0 && is_whitespace(s.last()) {
        lemma_trim_end_end(s.drop_last());
    }
}

/// `trim_end` only shortens its input from the end.
proof fn lemma_trim_end_keeps_start(s: Seq<char>)
    ensures
        trim_end(s).len() <= s.len(),
        trim_end(s) == s.take(trim_end(s).len() as int),
    decreases s.len(),
{
    if s.len() > 0 && is_whitespace(s.last()) {
        lemma_trim_end_keeps_start(s.drop_last());
        assert(s.drop_last().take(trim_end(s).len() as int) == s.take(trim_end(s).len() as int));
    } else {
        assert(s.take(s.len() as int) == s);
    }
}

/// Trimming a sequence with no whitespace at either end changes nothing.
proof fn lemma_trim_of_unpadded(s: Seq<char>)
    requires
        s.len() > 0 ==> !is_whitespace(s[0]) && !is_whitespace(s.last()),
    ensures
        trim(s) == s,
{
}

/// Law: the ID a character is used by is already trimmed, so using it
/// again finds the same character.
pub proof fn lemma_char_use_id_idempotent(s: Seq<char>)
    ensures
        trim(trim(s)) == trim(s),
{
    lemma_trim_ends(s);
    lemma_trim_of_unpadded(trim(s));
}

/// The ID a character is used by: what the user typed, trimmed.
pub fn char_use_id(id: &str) -> (r: String)
    ensures
        r@ == trim(id@),
{
    string_of(&trim_chars(&chars_of(id)))
}

// ---------------------------------------------------------------------
// Avatar URLs
// ---------------------------------------------------------------------

/// The message of the error for an avatar that is neither an image URL nor
/// a number.
pub const INVALID_AVATAR: &'static str = "It says 'avatar_url' doofus, input a valid URL!";

/// The message of the error for an avatar given as the ID of a user that
/// could not be found.
pub const UNKNOWN_AVATAR_USER: &'static str = "   It says 'avatar_url' doofus, input a valid URL!\nI secretly do possess the ability of parsing user IDs, but you didn't even give me a valid ID!\n   ";

/// Where a character's avatar comes from.
pub enum AvatarSource {
    /// An image URL to use as it is.
    Url(String),
    /// The ID of a user whose avatar to use.
    UserId(u64),
}

/// An avatar URL without its query: the part before the first `?`.
pub open spec fn avatar_base(s: Seq<char>) -> Seq<char> {
    before_char(s, '?')
}

/// An HTTP URL of an image in one of the accepted formats.
pub open spec fn is_image_url(s: Seq<char>) -> bool {
    &&& starts_with(s, "http"@)
    &&& {
        ||| ends_with(s, ".webp"@)
        ||| ends_with(s, ".png"@)
        ||| ends_with(s, ".jpg"@)
        ||| ends_with(s, ".jpeg"@)
    }
}

/// Whether `v` ends with `suffix`.
fn ends_with_chars(v: &Vec<char>, suffix: &str) -> (r: bool)
    ensures
        r == ends_with(v@, suffix@),
{
    let p = chars_of(suffix);
    if p.len() > v.len() {
        return false;
    }
    occurs_at_index(v, &p, v.len() - p.len())
}

/// Checks the avatar a user gave for a new character: an image URL (query
/// removed), or else a user ID whose avatar to fetch.
pub fn check_avatar_url(avatar_url: &str) -> (r: Result<AvatarSource, BotError>)
    ensures
        is_image_url(avatar_base(avatar_url@)) ==> (r matches Ok(AvatarSource::Url(u)) && u@
            == avatar_base(avatar_url@)),
        !is_image_url(avatar_base(avatar_url@)) ==> match parsed_u64(avatar_base(avatar_url@)) {
            Some(n) => r matches Ok(AvatarSource::UserId(m)) && m == n,
            None => r matches Err(BotError::String(m)) && m@ == INVALID_AVATAR@,
        },
{
    let base = chars_before(&chars_of(avatar_url), '?');
    let http = chars_of("http");
    let image = occurs_at_index(&base, &http, 0) && (ends_with_chars(&base, ".webp")
        || ends_with_chars(&base, ".png") || ends_with_chars(&base, ".jpg") || ends_with_chars(
        &base,
        ".jpeg",
    ));
    let base_string = string_of(&base);
    if image {
        Ok(AvatarSource::Url(base_string))
    } else {
        match parse_u64(base_string.as_str()) {
            Some(n) => Ok(AvatarSource::UserId(n)),
            None => Err(BotError::String(INVALID_AVATAR.to_string())),
        }
    }
}

/// The avatar for a character given as a user ID: the avatar of the user if
/// they were found, else an error.
pub fn avatar_from_lookup(found: Option<String>) -> (r: Result<String, BotError>)
    ensures
        match found {
            Some(u) => r == Ok::<String, BotError>(u),
            None => r matches Err(BotError::String(m)) && m@ == UNKNOWN_AVATAR_USER@,
        },
{
    match found {
        Some(url) => Ok(url),
        None => Err(BotError::String(UNKNOWN_AVATAR_USER.to_string())),
    }
}

// ---------------------------------------------------------------------
// Texts
// ---------------------------------------------------------------------

/// The answer to removing the character `id`.
pub fn removed_message(id: &str) -> (r: String)
    ensures
        r@ == "Removed `"@ + id@ + "`!"@,
{
    let mut s = String::new();
    push_str(&mut s, "Removed `");
    push_str(&mut s, id);
    push_str(&mut s, "`!");
    s
}

/// A clickable mention of the slash command `name` with the ID `id`.
pub fn command_str(id: u64, name: &str) -> (r: String)
    ensures
        r@ == "</"@ + name@ + ":"@ + decimal(id as nat) + ">"@,
{
    let mut s = String::new();
    push_str(&mut s, "</");
    push_str(&mut s, name);
    push_str(&mut s, ":");
    let digits = u64_to_string(id);
    push_str(&mut s, digits.as_str());
    push_str(&mut s, ">");
    s
}

/// The text of the hint shown when a server has no characters yet.
pub open spec fn create_char_hint_text(create_command: Seq<char>) -> Seq<char> {
    "Use the `"@ + create_command + "` command to create a new character!"@
}

/// The text of the hint shown under a list of characters.
pub open spec fn use_char_hint_text(use_command: Seq<char>) -> Seq<char> {
    "\n**HINT:** Use a character's ID in the `"@ + use_command
        + "` command to make them say something!"@
}

/// The hint shown when a server has no characters yet.
pub fn create_char_hint(create_command: &str) -> (r: String)
    ensures
        r@ == create_char_hint_text(create_command@),
{
    let mut s = String::new();
    push_str(&mut s, "Use the `");
    push_str(&mut s, create_command);
    push_str(&mut s, "` command to create a new character!");
    s
}

/// The hint shown under a list of characters.
pub fn use_char_hint(use_command: &str) -> (r: String)
    ensures
        r@ == use_char_hint_text(use_command@),
{
    let mut s = String::new();
    push_str(&mut s, "\n**HINT:** Use a character's ID in the `");
    push_str(&mut s, use_command);
    push_str(&mut s, "` command to make them say something!");
    s
}

/// One embed of a reply, as plain values.
pub struct EmbedSpec {
    pub title: String,
    /// The value of the embed's "ID" field, if it has one.
    pub id_field: Option<String>,
    pub thumbnail: Option<String>,
    pub description: Option<String>,
}

/// The embed that shows the character `ch` with the ID `id`: its display
/// name as title, its ID as field and its avatar as thumbnail.
pub open spec fn shows_character(e: EmbedSpec, id: Seq<char>, ch: CharacterView) -> bool {
    &&& e.title@ == ch.display_name
    &&& e.id_field matches Some(f) && f@ == id
    &&& e.thumbnail matches Some(t) && t@ == ch.avatar_url
    &&& e.description is None
}

/// The reply to listing the characters: one embed per character in
/// iteration order and the use hint as content; or, for no characters, one
/// embed titled "No characters found" holding the create hint, and no
/// content.
pub fn char_list_reply(characters: &CharacterMap, create_command: &str, use_command: &str) -> (r: (
    Vec<EmbedSpec>,
    Option<String>,
))
    ensures
        characters.key_seq().len() == 0 ==> {
            &&& r.0@.len() == 1
            &&& r.0@[0].title@ == "No characters found"@
            &&& r.0@[0].id_field is None
            &&& r.0@[0].thumbnail is None
            &&& r.0@[0].description matches Some(d) && d@ == create_char_hint_text(create_command@)
            &&& r.1 is None
        },
        characters.key_seq().len() > 0 ==> {
            &&& r.0@.len() == characters.key_seq().len()
            &&& forall|i: int|
                0 <= i < r.0@.len() ==> shows_character(
                    #[trigger] r.0@[i],
                    characters.key_seq()[i],
                    characters@[characters.key_seq()[i]],
                )
            &&& r.1 matches Some(c) && c@ == use_char_hint_text(use_command@)
        },
{
    let n = characters.len();
    let mut embeds: Vec<EmbedSpec> = Vec::new();
    for i in 0..n
        invariant
            n == characters.key_seq().len(),
            embeds@.len() == i,
            forall|j: int|
                0 <= j < i ==> shows_character(
                    #[trigger] embeds@[j],
                    characters.key_seq()[j],
                    characters@[characters.key_seq()[j]],
                ),
    {
        let (id, c) = characters.entry(i);
        embeds.push(
            EmbedSpec {
                title: c.display_name.clone(),
                id_field: Some(id.clone()),
                thumbnail: Some(c.avatar_url.clone()),
                description: None,
            },
        );
    }
    if n == 0 {
        let mut only: Vec<EmbedSpec> = Vec::new();
        only.push(
            EmbedSpec {
                title: "No characters found".to_string(),
                id_field: None,
                thumbnail: None,
                description: Some(create_char_hint(create_command)),
            },
        );
        (only, None)
    } else {
        (embeds, Some(use_char_hint(use_command)))
    }
}

/// The command to show help for: when help was reached under another
/// command name, that name goes in front of what was asked.
pub fn help_target(invoked_name: &str, command: Option<String>) -> (r: Option<String>)
    ensures
        invoked_name@ == "help"@ ==> r == command,
        invoked_name@ != "help"@ ==> match command {
            Some(c) => r matches Some(t) && t@ == invoked_name@ + " "@ + c@,
            None => r matches Some(t) && t@ == invoked_name@,
        },
{
    let help = chars_of("help");
    let invoked = chars_of(invoked_name);
    if chars_equal(&invoked, &help) {
        return command;
    }
    match command {
        Some(c) => {
            let mut s = String::new();
            push_str(&mut s, invoked_name);
            push_str(&mut s, " ");
            push_str(&mut s, c.as_str());
            Some(s)
        },
        None => Some(invoked_name.to_string()),
    }
}

/// The answer of the info command for the bot at `version`.
pub fn info_message(version: &str) -> (r: String)
    ensures
        r@ == "Silly bot made by FlooferLand!\nRepo: <https://github.com/FlooferLand/tiny_discord_bot>\nVersion: `"@
            + version@ + "`\n"@,
{
    let mut s = String::new();
    push_str(
        &mut s,
        "Silly bot made by FlooferLand!\nRepo: <https://github.com/FlooferLand/tiny_discord_bot>\nVersion: `",
    );
    push_str(&mut s, version);
    push_str(&mut s, "`\n");
    s
}

// ---------------------------------------------------------------------
// Stored data
// ---------------------------------------------------------------------

/// The directory that holds one file per server.
pub const SERVERS_DIR: &'static str = "./assets/data/servers/";

/// The file a server's data is saved to.
pub fn server_file_path(server_id: u64) -> (r: String)
    ensures
        r@ == SERVERS_DIR@ + decimal(server_id as nat) + ".yml"@,
{
    let mut s = String::new();
    push_str(&mut s, SERVERS_DIR);
    let digits = u64_to_string(server_id);
    push_str(&mut s, digits.as_str());
    push_str(&mut s, ".yml");
    s
}

/// The server a data file belongs to, read from the file's name without its
/// extension.
pub fn server_id_from_stem(stem: &str) -> (r: Option<u64>)
    ensures
        r == parsed_u64(stem@),
{
    parse_u64(stem)
}

/// Law: the file name a server is saved under reads back as that server.
pub proof fn lemma_server_file_roundtrip(server_id: u64)
    ensures
        parsed_u64(decimal(server_id as nat)) == Some(server_id),
{
    lemma_parse_decimal(server_id);
}

// ---------------------------------------------------------------------
// Errors shown to users
// ---------------------------------------------------------------------

/// The error text shown to the user: the message of a message error, else
/// `debug_text` (the error's debug form) in code style.
pub fn error_reply_text(err: &BotError, debug_text: &str) -> (r: String)
    ensures
        match err {
            BotError::String(v) => r@ == v@,
            BotError::Str(v) => r@ == v@,
            _ => r@ == "`"@ + debug_text@ + "`"@,
        },
{
    match err {
        BotError::String(v) => v.clone(),
        BotError::Str(v) => {
            let t: &str = *v;
            t.to_string()
        },
        _ => {
            let mut s = String::new();
            push_str(&mut s, "`");
            push_str(&mut s, debug_text);
            push_str(&mut s, "`");
            s
        },
    }
}

/// A text with invite links defused (their dot becomes a one-dot leader),
/// text-direction and zero-width characters turned into spaces, and mass
/// mentions broken by a zero-width space, in that order.
pub open spec fn normalized_text(text: Seq<char>) -> Seq<char> {
    let a = replace_all(text, "discord.gg"@, "discord\u{2024}gg"@);
    let b = replace_all(a, "discord.me"@, "discord\u{2024}me"@);
    let c = replace_all(b, "discordlist.net"@, "discordlist\u{2024}net"@);
    let d = replace_all(c, "discordservers.com"@, "discordservers\u{2024}com"@);
    let e = replace_all(d, "discord.com/invite"@, "discord\u{2024}com/invite"@);
    let f = replace_all(e, "discordapp.com/invite"@, "discordapp\u{2024}com/invite"@);
    let g = replace_chars(
        f,
        seq!['\u{202E}', '\u{200F}', '\u{202B}', '\u{200B}', '\u{200D}', '\u{200C}'],
        " "@,
    );
    let h = replace_all(g, "@everyone"@, "@\u{200B}everyone"@);
    replace_all(h, "@here"@, "@\u{200B}here"@)
}

/// What `MessageBuilder::push_safe` writes for a text: the normalized text
/// with the markdown characters `*`, `` ` `` and `_` escaped by a backslash.
pub open spec fn markdown_safe(text: Seq<char>) -> Seq<char> {
    let n = normalized_text(text);
    replace_all(replace_all(replace_all(n, "*"@, "\\*"@), "`"@, "\\`"@), "_"@, "\\_"@)
}

/// Calls the Discord client library's `MessageBuilder::push_safe` on an
/// empty builder. The contract claims that the built text is the pushed
/// text normalized and escaped as the library's source does it, with no
/// formatting around it.
#[verifier::external_body]
fn safe_text(text: &str) -> (r: String)
    ensures
        r@ == markdown_safe(text@),
{
    poise::serenity_prelude::MessageBuilder::new().push_safe(text).build()
}

/// The message sent for an error whose text is `text`.
pub fn error_message(text: &str) -> (r: String)
    ensures
        r@ == "**ERROR:**"@ + " "@ + markdown_safe(text@),
{
    let mut s = String::new();
    push_str(&mut s, "**ERROR:**");
    push_str(&mut s, " ");
    let safe = safe_text(text);
    push_str(&mut s, safe.as_str());
    s
}

} // verus!
