use rusty_bots::bot::BotRegistry;
use rusty_bots::commands::{
    add_automod_rule, find_bot, get_automod_config, guild_target, guild_views, list_bots, member_target, member_views,
    merge_bot_input, remove_automod_rule, role_target, role_views, save_bot, set_automod_ignored_channels,
    set_automod_ignored_roles, set_automod_log_channel, set_automod_whitelist, toggle_automod, update_automod_config,
    GuildInfo, MemberInfo, UpsertBotInput, MEMBER_PAGE,
};
use rusty_bots::store::{AutoModAction, AutoModConfig, AutoModRule, Store};

fn input(id: Option<&str>, name: &str) -> UpsertBotInput {
    UpsertBotInput {
        id: id.map(|s| s.to_string()),
        name: name.to_string(),
        token: "tok".to_string(),
        xai_api_key: None,
        model: None,
        persona: None,
        ai_enabled: None,
        history_size: None,
        automod: None,
    }
}

#[test]
fn new_bot_gets_defaults_and_fresh_id() {
    let mut s = Store::new();
    let c = save_bot(&mut s, input(None, "Alpha"));
    assert_eq!(c.id.len(), 36);
    for (i, ch) in c.id.chars().enumerate() {
        if i == 8 || i == 13 || i == 18 || i == 23 {
            assert_eq!(ch, '-');
        } else {
            assert!(ch.is_ascii_digit() || ('a'..='f').contains(&ch));
        }
    }
    assert_eq!(c.id.chars().nth(14), Some('4'));
    assert!(matches!(c.id.chars().nth(19), Some('8' | '9' | 'a' | 'b')));
    assert_eq!(c.model, "grok-4.3");
    assert_eq!((c.xai_api_key.as_str(), c.persona.as_str(), c.ai_enabled, c.history_size), ("", "", true, 10));
    assert!(!c.automod.enabled);
    assert_eq!(s.get(&c.id).unwrap().name, "Alpha");
    let d = save_bot(&mut s, input(None, "Beta"));
    assert_ne!(c.id, d.id);
    assert_eq!(s.list().len(), 2);
}

#[test]
fn saving_keeps_unsent_settings() {
    let mut s = Store::new();
    let mut i = input(Some("b1"), "Alpha");
    i.xai_api_key = Some("key".to_string());
    i.persona = Some("a cat".to_string());
    i.history_size = Some(25);
    i.ai_enabled = Some(false);
    save_bot(&mut s, i);
    let mut j = input(Some("b1"), "Renamed");
    j.model = Some("grok-4.20-reasoning".to_string());
    let c = save_bot(&mut s, j);
    assert_eq!((c.name.as_str(), c.model.as_str(), c.xai_api_key.as_str(), c.persona.as_str()), ("Renamed", "grok-4.20-reasoning", "key", "a cat"));
    assert_eq!((c.history_size, c.ai_enabled), (25, false));
    assert_eq!(s.list().len(), 1);
    let m = merge_bot_input(input(Some("x"), "X"), "x".to_string(), None);
    assert_eq!(m.model, "grok-4.3");
}

#[test]
fn automod_edits() {
    let mut s = Store::new();
    save_bot(&mut s, input(Some("b1"), "Alpha"));
    save_bot(&mut s, input(Some("b2"), "Beta"));
    assert_eq!(find_bot(&s, "nope").err().unwrap(), "bot not found");
    assert_eq!(toggle_automod(&mut s, "nope", true).err().unwrap(), "bot not found");
    assert_eq!(get_automod_config(&s, "nope").err().unwrap(), "bot not found");
    assert!(toggle_automod(&mut s, "b1", true).unwrap().automod.enabled);
    assert!(get_automod_config(&s, "b1").unwrap().enabled);
    assert!(!get_automod_config(&s, "b2").unwrap().enabled);
    add_automod_rule(&mut s, "b1", AutoModRule::InviteFilter { action: AutoModAction::Delete }).unwrap();
    add_automod_rule(&mut s, "b1", AutoModRule::MentionSpam { mention_threshold: 5, action: AutoModAction::Kick }).unwrap();
    assert_eq!(get_automod_config(&s, "b1").unwrap().rules.len(), 2);
    let c = remove_automod_rule(&mut s, "b1", 7).unwrap();
    assert_eq!(c.automod.rules.len(), 2);
    let c = remove_automod_rule(&mut s, "b1", 0).unwrap();
    assert_eq!(c.automod.rules.len(), 1);
    assert!(matches!(c.automod.rules[0], AutoModRule::MentionSpam { mention_threshold: 5, .. }));
    set_automod_ignored_channels(&mut s, "b1", vec!["1".to_string()]).unwrap();
    set_automod_ignored_roles(&mut s, "b1", vec!["2".to_string()]).unwrap();
    set_automod_whitelist(&mut s, "b1", vec!["3".to_string()]).unwrap();
    set_automod_log_channel(&mut s, "b1", Some("4".to_string())).unwrap();
    let a = get_automod_config(&s, "b1").unwrap();
    assert_eq!((a.ignored_channels[0].as_str(), a.ignored_roles[0].as_str(), a.whitelist_users[0].as_str(), a.log_channel.as_deref()), ("1", "2", "3", Some("4")));
    let c = update_automod_config(&mut s, "b1", AutoModConfig::default()).unwrap();
    assert!(!c.automod.enabled && c.automod.rules.is_empty());
    assert_eq!(s.get("b2").unwrap().name, "Beta");
}

#[test]
fn typed_ids() {
    assert_eq!(guild_target("12").unwrap(), 12);
    assert_eq!(guild_target("x").err().unwrap(), "bad guild id");
    assert_eq!(member_target("1", "2").unwrap(), (1, 2));
    assert_eq!(member_target("a", "2").err().unwrap(), "bad guild id");
    assert_eq!(member_target("1", "").err().unwrap(), "bad user id");
    assert_eq!(role_target("1", "2", "3").unwrap(), (1, 2, 3));
    assert_eq!(role_target("1", "2", "-3").err().unwrap(), "bad role id");
    assert_eq!(role_target("1", "z", "-3").err().unwrap(), "bad user id");
    assert_eq!(MEMBER_PAGE, 100);
}

#[test]
fn views() {
    let mut s = Store::new();
    save_bot(&mut s, input(Some("b1"), "Alpha"));
    save_bot(&mut s, input(Some("b2"), "Beta"));
    let mut r: BotRegistry<()> = BotRegistry::new();
    r.insert("b2".to_string(), ());
    let v = list_bots(&s, &r);
    assert_eq!((v[0].config.id.as_str(), v[0].running, v[1].config.id.as_str(), v[1].running), ("b1", false, "b2", true));

    let g = guild_views(&vec![GuildInfo { id: 5, name: "G".to_string(), member_count: 3 }]);
    assert_eq!((g[0].id.as_str(), g[0].name.as_str(), g[0].member_count), ("5", "G", 3));

    let roles = vec![(1u64, "admin".to_string()), (2u64, "mod".to_string())];
    let rv = role_views(&roles);
    assert_eq!((rv[1].id.as_str(), rv[1].name.as_str()), ("2", "mod"));
    let mv = member_views(&vec![MemberInfo { user_id: 9, username: "ann".to_string(), nick: Some("A".to_string()), roles: vec![2, 3] }], &roles);
    assert_eq!((mv[0].user_id.as_str(), mv[0].username.as_str(), mv[0].nick.as_deref()), ("9", "ann", Some("A")));
    assert_eq!((mv[0].roles[0].name.as_str(), mv[0].roles[1].id.as_str(), mv[0].roles[1].name.as_str()), ("mod", "3", "3"));
}
