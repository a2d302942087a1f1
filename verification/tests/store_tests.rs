use rusty_bots::store::{
    AdvancedDetectionConfig, AutoModAction, AutoModConfig, AutoModRule, BotConfig, Store, default_caps_threshold,
    default_history, default_mention_threshold, default_model, default_spam_threshold, default_spam_window,
    default_true,
};

fn bot(id: &str, name: &str) -> BotConfig {
    BotConfig {
        id: id.to_string(),
        name: name.to_string(),
        token: "tok".to_string(),
        xai_api_key: String::new(),
        model: default_model(),
        persona: String::new(),
        ai_enabled: true,
        history_size: 10,
        automod: AutoModConfig::default(),
    }
}

#[test]
fn defaults() {
    assert_eq!(default_model(), "grok-4.3");
    assert!(default_true());
    assert_eq!(default_history(), 10);
    assert_eq!(default_spam_threshold(), 5);
    assert_eq!(default_spam_window(), 10);
    assert_eq!(f32::from_bits(default_caps_threshold()), 70.0);
    assert_eq!(default_mention_threshold(), 5);
    let a = AutoModConfig::default();
    assert!(!a.enabled);
    assert!(a.rules.is_empty() && a.ignored_channels.is_empty() && a.ignored_roles.is_empty() && a.whitelist_users.is_empty());
    assert!(a.log_channel.is_none());
    let d = AdvancedDetectionConfig::default();
    assert!(d.enable_spaced_variant && d.enable_special_char_variant && d.enable_acronym_detection && d.enable_cross_message_detection);
    assert_eq!(d.cross_message_window_secs, 60);
}

#[test]
fn upsert_then_get_returns_the_bot() {
    let mut s = Store::new();
    s.upsert(bot("a", "Alpha"));
    s.upsert(bot("b", "Beta"));
    assert_eq!(s.get("a").unwrap().name, "Alpha");
    assert_eq!(s.get("b").unwrap().name, "Beta");
    assert!(s.get("c").is_none());
    assert_eq!(s.list().len(), 2);
}

#[test]
fn upsert_replaces_in_place() {
    let mut s = Store::new();
    s.upsert(bot("a", "Alpha"));
    s.upsert(bot("b", "Beta"));
    s.upsert(bot("a", "Again"));
    let l = s.list();
    assert_eq!(l.len(), 2);
    assert_eq!(l[0].id, "a");
    assert_eq!(l[0].name, "Again");
    assert_eq!(l[1].name, "Beta");
}

#[test]
fn upsert_twice_is_once() {
    let mut s = Store::new();
    s.upsert(bot("a", "Alpha"));
    s.upsert(bot("a", "Alpha"));
    assert_eq!(s.list().len(), 1);
}

#[test]
fn remove_drops_only_that_id() {
    let mut s = Store::new();
    s.upsert(bot("a", "Alpha"));
    s.upsert(bot("b", "Beta"));
    s.upsert(bot("c", "Gamma"));
    s.remove("b");
    assert!(s.get("b").is_none());
    let l = s.list();
    assert_eq!(l.iter().map(|b| b.id.as_str()).collect::<Vec<_>>(), vec!["a", "c"]);
    s.remove("zzz");
    assert_eq!(s.list().len(), 2);
}

#[test]
fn duplicate_ids_first_wins() {
    let mut s = Store::new();
    s.bots.push(bot("a", "First"));
    s.bots.push(bot("a", "Second"));
    assert_eq!(s.get("a").unwrap().name, "First");
    s.upsert(bot("a", "Third"));
    assert_eq!(s.bots[0].name, "Third");
    assert_eq!(s.bots[1].name, "Second");
    s.remove("a");
    assert!(s.bots.is_empty());
}

#[test]
fn clones_keep_rules() {
    let mut b = bot("a", "Alpha");
    b.automod.rules.push(AutoModRule::BadWords { words: vec!["x".to_string()], action: AutoModAction::Delete });
    b.automod.rules.push(AutoModRule::Caps { threshold_bits: 70.0f32.to_bits(), action: AutoModAction::Warn { max_warnings: 3 } });
    b.automod.log_channel = Some("123".to_string());
    let c = b.clone();
    assert_eq!(c.automod.rules.len(), 2);
    assert_eq!(c.automod.log_channel.as_deref(), Some("123"));
    match &c.automod.rules[1] {
        AutoModRule::Caps { threshold_bits, action: AutoModAction::Warn { max_warnings } } => {
            assert_eq!(f32::from_bits(*threshold_bits), 70.0);
            assert_eq!(*max_warnings, 3);
        }
        _ => panic!("rule changed"),
    }
}
