use poise::serenity_prelude::{ChannelId, Http};
use tiny_discord_bot::error::{BotError, BotErrorExt, BotErrorMsgExt};
use tiny_discord_bot::fake_user::{FakeUser, FakeUserError, FakeUserMaker};

#[test]
fn user_name_and_avatar_fallbacks() {
    assert_eq!(FakeUser::get_user_name(Some("Nick".to_string()), "Display"), "Nick");
    assert_eq!(FakeUser::get_user_name(None, "Display"), "Display");
    assert_eq!(FakeUser::get_user_avatar_url(Some("a".to_string()), "d".to_string()), "a");
    assert_eq!(FakeUser::get_user_avatar_url(None, "d".to_string()), "d");
}

#[test]
fn hooks_and_temporary_users() {
    let http = Http::new("");
    let channel = ChannelId::new(77);
    let u = FakeUserMaker::new(&http, channel).new_hook("Bob", "https://x/b.png", false, "https://hook".to_string());
    assert_eq!(u.get_webhook_url(), Some("https://hook".to_string()));
    assert_eq!(u.send_target().ok(), Some("https://hook".to_string()));
    assert!(!u.deletes_hook_after_send());
    assert_eq!(u.name(), "Bob");
    assert_eq!(u.avatar_url(), "https://x/b.png");
    assert_eq!(u.channel(), channel);

    let t = FakeUserMaker::new(&http, channel).new_hook("T", "a", true, "https://tmp".to_string());
    assert_eq!(t.get_webhook_url(), None);
    assert!(t.deletes_hook_after_send());

    let v = FakeUserMaker::new(&http, channel).user("Someone".to_string(), "av".to_string(), "https://tmp2".to_string());
    assert_eq!(v.get_webhook_url(), None);
    assert_eq!(v.send_target().ok(), Some("https://tmp2".to_string()));
    assert!(v.deletes_hook_after_send());
    assert_eq!(v.name(), "Someone");
    assert_eq!(v.avatar_url(), "av");
}

#[test]
fn existing_hooks() {
    let http = Http::new("");
    let channel = ChannelId::new(1);
    let ok = FakeUserMaker::new(&http, channel).existing("https://h", "Bob", "av", true);
    match ok {
        Ok(u) => {
            assert_eq!(u.get_webhook_url(), Some("https://h".to_string()));
            assert_eq!(u.name(), "Bob");
        }
        Err(_) => panic!("expected a user"),
    }
    match FakeUserMaker::new(&http, channel).existing("https://gone", "Bob", "av", false) {
        Err(BotError::FakeUser(FakeUserError::InvalidWebhook { webhook_url })) => {
            assert_eq!(webhook_url, "https://gone")
        }
        _ => panic!("expected an invalid webhook"),
    }
}

#[test]
fn error_conversions() {
    assert_eq!(Some(3).bot_err("none").ok(), Some(3));
    match None::<u8>.bot_err("No guild ID found") {
        Err(BotError::String(m)) => assert_eq!(m, "No guild ID found"),
        _ => panic!("expected a message error"),
    }
    let r: Result<u8, poise::serenity_prelude::Error> = Ok(4);
    assert_eq!(r.bot_err().ok(), Some(4));
    let r: Result<u8, poise::serenity_prelude::Error> = Err(poise::serenity_prelude::Error::Other("x"));
    assert!(matches!(r.bot_err(), Err(BotError::Serenity(_))));
    let r: Result<u8, std::sync::PoisonError<u8>> = Err(std::sync::PoisonError::new(1));
    match r.bot_err() {
        Err(BotError::String(m)) => assert_eq!(m, std::sync::PoisonError::new(1u8).to_string()),
        _ => panic!("expected a lock error"),
    }
}
