use tiny_discord_bot::error::BotError;
use tiny_discord_bot::say_as::{say_as_step, SayAsAction, SayAsEvent};
use tiny_discord_bot::servers::{Server, ServerCharacter, CHARACTER_NOT_FOUND};

fn server_with_bob() -> Server {
    let mut s = Server::default();
    let bob = ServerCharacter::new("Bob".to_string(), "https://x/bob.png".to_string());
    s.add_character("bob".to_string(), bob).unwrap();
    s
}

fn hook_of(s: &Server, channel: u64) -> Option<String> {
    s.characters.get("bob").unwrap().hook_for(channel)
}

#[test]
fn first_use_creates_a_hook() {
    let mut s = server_with_bob();
    match say_as_step(&mut s, " bob ", 5, SayAsEvent::Start) {
        Ok(SayAsAction::CreateHook { name, avatar_url }) => {
            assert_eq!(name, "Bob");
            assert_eq!(avatar_url, "https://x/bob.png");
        }
        _ => panic!("expected a webhook to be created"),
    }
    assert_eq!(hook_of(&s, 5), None);
    match say_as_step(&mut s, "bob", 5, SayAsEvent::HookCreated { url: "https://hook/1".to_string() }) {
        Ok(SayAsAction::Send { url }) => assert_eq!(url, "https://hook/1"),
        _ => panic!("expected a send"),
    }
    assert_eq!(hook_of(&s, 5), Some("https://hook/1".to_string()));
    assert!(matches!(say_as_step(&mut s, "bob", 5, SayAsEvent::Sent), Ok(SayAsAction::Finish)));
}

#[test]
fn stored_hook_is_checked_then_used() {
    let mut s = server_with_bob();
    say_as_step(&mut s, "bob", 5, SayAsEvent::HookCreated { url: "https://hook/1".to_string() }).unwrap();
    match say_as_step(&mut s, "bob", 5, SayAsEvent::Start) {
        Ok(SayAsAction::CheckHook { url }) => assert_eq!(url, "https://hook/1"),
        _ => panic!("expected a check"),
    }
    match say_as_step(&mut s, "bob", 5, SayAsEvent::HookChecked { exists: true }) {
        Ok(SayAsAction::Send { url }) => assert_eq!(url, "https://hook/1"),
        _ => panic!("expected a send"),
    }
    assert_eq!(hook_of(&s, 5), Some("https://hook/1".to_string()));
    match say_as_step(&mut s, "bob", 6, SayAsEvent::Start) {
        Ok(SayAsAction::CreateHook { .. }) => {}
        _ => panic!("another channel has no hook"),
    }
}

#[test]
fn stale_hook_is_dropped_and_replaced() {
    let mut s = server_with_bob();
    say_as_step(&mut s, "bob", 5, SayAsEvent::HookCreated { url: "https://hook/old".to_string() }).unwrap();
    match say_as_step(&mut s, "bob", 5, SayAsEvent::HookChecked { exists: false }) {
        Ok(SayAsAction::CreateHook { name, .. }) => assert_eq!(name, "Bob"),
        _ => panic!("expected a webhook to be created"),
    }
    assert_eq!(hook_of(&s, 5), None);
}

#[test]
fn unknown_character_is_an_error() {
    let mut s = server_with_bob();
    match say_as_step(&mut s, "alice", 5, SayAsEvent::Start) {
        Err(BotError::String(m)) => assert_eq!(m, CHARACTER_NOT_FOUND),
        _ => panic!("expected the missing character error"),
    }
    assert!(matches!(
        say_as_step(&mut s, "alice", 5, SayAsEvent::HookCreated { url: "u".to_string() }),
        Err(BotError::String(_))
    ));
    assert!(!s.characters.contains_key("alice"));
    assert_eq!(hook_of(&s, 5), None);
}
