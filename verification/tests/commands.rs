use tiny_discord_bot::commands::{
    char_list_reply,
    avatar_from_lookup, char_use_id, check_avatar_url, command_str, create_char_hint,
    error_message, error_reply_text, help_target, info_message, normalize_char_id,
    removed_message, server_file_path, server_id_from_stem, use_char_hint, AvatarSource,
    INVALID_AVATAR, NON_ASCII_ID, UNKNOWN_AVATAR_USER,
};
use tiny_discord_bot::error::BotError;
use tiny_discord_bot::fake_user::FakeUserError;

#[test]
fn char_id_is_trimmed_lowered_and_snake_cased() {
    match normalize_char_id("  Chickn Nuggit \t") {
        Ok(id) => assert_eq!(id, "chickn_nuggit"),
        Err(_) => panic!("expected an ID"),
    }
    match normalize_char_id("HAWTSAUS") {
        Ok(id) => assert_eq!(id, "hawtsaus"),
        Err(_) => panic!("expected an ID"),
    }
}

#[test]
fn char_id_must_be_ascii() {
    match normalize_char_id("  café ") {
        Err(BotError::Str(m)) => assert_eq!(m, NON_ASCII_ID),
        _ => panic!("expected the ASCII error"),
    }
}

#[test]
fn char_id_normalization_is_idempotent() {
    for raw in ["  A b  C ", "x", "", "snake_case", " Mixed\tTab "] {
        if let Ok(once) = normalize_char_id(raw) {
            match normalize_char_id(&once) {
                Ok(twice) => assert_eq!(once, twice),
                Err(_) => panic!("normalized ID refused"),
            }
        }
    }
}

#[test]
fn use_id_is_trimmed() {
    assert_eq!(char_use_id("  bob \n"), "bob");
}

#[test]
fn avatar_url_of_an_image_keeps_its_path() {
    match check_avatar_url("https://cdn.example.com/a/b.png?size=256") {
        Ok(AvatarSource::Url(u)) => assert_eq!(u, "https://cdn.example.com/a/b.png"),
        _ => panic!("expected an image URL"),
    }
    for ok in ["http://x/y.webp", "https://x/y.jpg", "https://x/y.jpeg"] {
        assert!(matches!(check_avatar_url(ok), Ok(AvatarSource::Url(_))), "{ok}");
    }
}

#[test]
fn avatar_url_as_user_id() {
    match check_avatar_url("792764829689315349") {
        Ok(AvatarSource::UserId(n)) => assert_eq!(n, 792764829689315349),
        _ => panic!("expected a user ID"),
    }
    assert!(matches!(check_avatar_url("+12?x"), Ok(AvatarSource::UserId(12))));
}

#[test]
fn avatar_url_invalid() {
    for bad in ["https://x/y.gif", "ftp://x/y.png", "", "x.png", "-5", "https://x/y.png.txt"] {
        match check_avatar_url(bad) {
            Err(BotError::String(m)) => assert_eq!(m, INVALID_AVATAR),
            _ => panic!("expected the URL error for {bad:?}"),
        }
    }
}

#[test]
fn avatar_lookup() {
    assert_eq!(avatar_from_lookup(Some("u".to_string())).ok(), Some("u".to_string()));
    match avatar_from_lookup(None) {
        Err(BotError::String(m)) => assert_eq!(m, UNKNOWN_AVATAR_USER),
        _ => panic!("expected the user error"),
    }
    assert!(UNKNOWN_AVATAR_USER.starts_with("   It says 'avatar_url'"));
}

#[test]
fn answer_texts() {
    assert_eq!(removed_message("bob"), "Removed `bob`!");
    assert_eq!(
        command_str(1376351248919429183, "create_char"),
        "</create_char:1376351248919429183>"
    );
    assert_eq!(create_char_hint("/char add"), "Use the `/char add` command to create a new character!");
    assert_eq!(
        use_char_hint("/sayas"),
        "\n**HINT:** Use a character's ID in the `/sayas` command to make them say something!"
    );
    assert_eq!(
        info_message("1.2.3"),
        "Silly bot made by FlooferLand!\nRepo: <https://github.com/FlooferLand/tiny_discord_bot>\nVersion: `1.2.3`\n"
    );
}

#[test]
fn help_target_prefixes_other_command_names() {
    assert_eq!(help_target("help", Some("char".to_string())), Some("char".to_string()));
    assert_eq!(help_target("help", None), None);
    assert_eq!(help_target("char", Some("add".to_string())), Some("char add".to_string()));
    assert_eq!(help_target("char", None), Some("char".to_string()));
}

#[test]
fn server_file_names_read_back() {
    assert_eq!(server_file_path(42), "./assets/data/servers/42.yml");
    for id in [0u64, 42, 1057519403408822283, u64::MAX] {
        let path = server_file_path(id);
        let stem = std::path::Path::new(&path).file_stem().unwrap().to_string_lossy().to_string();
        assert_eq!(server_id_from_stem(&stem), Some(id));
    }
    assert_eq!(server_id_from_stem("notes"), None);
}

#[test]
fn error_texts() {
    let e = BotError::String("boom".to_string());
    assert_eq!(error_reply_text(&e, "ignored"), "boom");
    let e = BotError::Str("fixed");
    assert_eq!(error_reply_text(&e, "ignored"), "fixed");
    let e = BotError::FakeUser(FakeUserError::InvalidWebhook { webhook_url: "u".to_string() });
    let debug = format!("{:?}", e);
    assert_eq!(error_reply_text(&e, &debug), format!("`{}`", debug));
    let e = BotError::Serenity(poise::serenity_prelude::Error::Other("net"));
    assert_eq!(error_reply_text(&e, "D"), "`D`");
}

#[test]
fn error_message_escapes_markdown() {
    assert_eq!(error_message("plain"), "**ERROR:** plain");
    assert_eq!(error_message("a*b_c`d"), "**ERROR:** a\\*b\\_c\\`d");
    assert_ne!(error_message("@everyone"), "**ERROR:** @everyone");
}

#[test]
fn error_message_defuses_links_mentions_and_direction_marks() {
    assert_eq!(error_message("@everyone @here"), "**ERROR:** @\u{200B}everyone @\u{200B}here");
    assert_eq!(
        error_message("join discord.gg/x or discord.com/invite/y"),
        "**ERROR:** join discord\u{2024}gg/x or discord\u{2024}com/invite/y"
    );
    assert_eq!(error_message("a\u{202E}b\u{200B}c"), "**ERROR:** a b c");
    assert_eq!(error_message("x_y discordlist.net"), "**ERROR:** x\\_y discordlist\u{2024}net");
}

#[test]
fn char_list_reply_for_no_characters() {
    let chars = tiny_discord_bot::servers::CharacterMap::new();
    let (embeds, content) = char_list_reply(&chars, "/char add", "/sayas");
    assert_eq!(embeds.len(), 1);
    assert_eq!(embeds[0].title, "No characters found");
    assert_eq!(embeds[0].id_field, None);
    assert_eq!(embeds[0].thumbnail, None);
    assert_eq!(
        embeds[0].description.as_deref(),
        Some("Use the `/char add` command to create a new character!")
    );
    assert_eq!(content, None);
}

#[test]
fn char_list_reply_for_characters() {
    let mut chars = tiny_discord_bot::servers::CharacterMap::new();
    chars.insert(
        "bob".to_string(),
        tiny_discord_bot::servers::ServerCharacter::new("Bob".to_string(), "https://x/b.png".to_string()),
    );
    chars.insert(
        "amy".to_string(),
        tiny_discord_bot::servers::ServerCharacter::new("Amy".to_string(), "https://x/a.png".to_string()),
    );
    let (embeds, content) = char_list_reply(&chars, "/char add", "/sayas");
    assert_eq!(embeds.len(), 2);
    assert_eq!(embeds[0].title, "Bob");
    assert_eq!(embeds[0].id_field.as_deref(), Some("bob"));
    assert_eq!(embeds[0].thumbnail.as_deref(), Some("https://x/b.png"));
    assert_eq!(embeds[0].description, None);
    assert_eq!(embeds[1].title, "Amy");
    assert_eq!(embeds[1].id_field.as_deref(), Some("amy"));
    assert_eq!(
        content.as_deref(),
        Some("\n**HINT:** Use a character's ID in the `/sayas` command to make them say something!")
    );
}
