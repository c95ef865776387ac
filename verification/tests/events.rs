use tiny_discord_bot::events::{fuzzy_text, FUZZY_CHANNEL};

#[test]
fn only_others_in_the_watched_channel() {
    assert_eq!(fuzzy_text(1, 2, FUZZY_CHANNEL, "héy mods"), Some("hy mods".to_string()));
    assert_eq!(fuzzy_text(2, 2, FUZZY_CHANNEL, "hey"), None);
    assert_eq!(fuzzy_text(1, 2, FUZZY_CHANNEL + 1, "hey"), None);
}
