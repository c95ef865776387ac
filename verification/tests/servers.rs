use tiny_discord_bot::error::BotError;
use tiny_discord_bot::servers::{
    CharacterMap, Server, ServerCharacter, ServerConfig, ServerRoles, CHARACTER_EXISTS,
    CHARACTER_MISSING, CHARACTER_NOT_FOUND,
};

fn ch(name: &str) -> ServerCharacter {
    ServerCharacter::new(name.to_string(), format!("https://x/{name}.png"))
}

#[test]
fn defaults() {
    let s = Server::default();
    assert!(s.characters.is_empty());
    assert_eq!(s.roles.moderator, None);
    assert!(!s.config.silly_messages);
    assert!(!ServerConfig::default().silly_messages);
    assert_eq!(ServerRoles::default().moderator, None);
    let c = ServerCharacter::default();
    assert!(c.display_name.is_empty() && c.avatar_url.is_empty() && c.hooks.is_empty());
}

#[test]
fn add_then_find_then_remove() {
    let mut s = Server::default();
    assert!(s.add_character("bob".to_string(), ch("Bob")).is_ok());
    let found = s.find_character("bob").ok().expect("bob is there");
    assert_eq!(found.display_name, "Bob");
    assert_eq!(found.avatar_url, "https://x/Bob.png");
    let removed = s.remove_character("bob").ok().expect("bob is removed");
    assert_eq!(removed.display_name, "Bob");
    assert!(s.characters.is_empty());
}

#[test]
fn adding_a_taken_id_is_refused() {
    let mut s = Server::default();
    assert!(s.add_character("bob".to_string(), ch("Bob")).is_ok());
    match s.add_character("bob".to_string(), ch("Other")) {
        Err(BotError::Str(m)) => assert_eq!(m, CHARACTER_EXISTS),
        _ => panic!("expected the taken-ID error"),
    }
    assert_eq!(s.find_character("bob").ok().unwrap().display_name, "Bob");
}

#[test]
fn unknown_ids() {
    let mut s = Server::default();
    match s.remove_character("ghost") {
        Err(BotError::String(m)) => assert_eq!(m, CHARACTER_MISSING),
        _ => panic!("expected the missing error"),
    }
    match s.find_character("ghost") {
        Err(BotError::String(m)) => assert_eq!(m, CHARACTER_NOT_FOUND),
        _ => panic!("expected the not-found error"),
    }
    match s.store_character_hook("ghost", 1, "u".to_string()) {
        Err(BotError::String(m)) => assert_eq!(m, CHARACTER_NOT_FOUND),
        _ => panic!("expected the not-found error"),
    }
}

#[test]
fn hooks_per_channel() {
    let mut s = Server::default();
    s.add_character("bob".to_string(), ch("Bob")).ok().unwrap();
    assert!(s.store_character_hook("bob", 10, "https://hook/10".to_string()).is_ok());
    assert!(s.store_character_hook("bob", 11, "https://hook/11".to_string()).is_ok());
    let c = s.find_character("bob").ok().unwrap();
    assert_eq!(c.hook_for(10), Some("https://hook/10".to_string()));
    assert_eq!(c.hook_for(11), Some("https://hook/11".to_string()));
    assert_eq!(c.hook_for(12), None);
    s.remove_character_hook("bob", 10);
    let c = s.find_character("bob").ok().unwrap();
    assert_eq!(c.hook_for(10), None);
    assert_eq!(c.hook_for(11), Some("https://hook/11".to_string()));
    assert_eq!(c.display_name, "Bob");
}

#[test]
fn character_map_order_and_replacement() {
    let mut m = CharacterMap::new();
    m.insert("a".to_string(), ch("A"));
    m.insert("b".to_string(), ch("B"));
    m.insert("c".to_string(), ch("C"));
    m.insert("b".to_string(), ch("B2"));
    assert_eq!(m.keys(), vec!["a".to_string(), "b".to_string(), "c".to_string()]);
    assert_eq!(m.len(), 3);
    assert_eq!(m.get("b").unwrap().display_name, "B2");
    assert!(m.contains_key("c"));
    assert!(!m.contains_key("d"));
    let (k, v) = m.entry(2);
    assert_eq!((k.as_str(), v.display_name.as_str()), ("c", "C"));
    assert_eq!(m.remove("a").unwrap().display_name, "A");
    assert_eq!(m.remove("a").map(|c| c.display_name), None);
    assert_eq!(m.keys(), vec!["b".to_string(), "c".to_string()]);
}

#[test]
fn snapshot_copies_everything() {
    let mut c = ch("Bob");
    c.store_hook(3, "h".to_string());
    let d = c.snapshot();
    assert_eq!(d.display_name, c.display_name);
    assert_eq!(d.avatar_url, c.avatar_url);
    assert_eq!(d.hooks, c.hooks);
}
