use rusty_bots::float32::caps_reach;
use rusty_bots::automod::{needs_member_roles, plan_action, ActionStep, AutoModState, AutoModViolation, Instant, MessageInfo};
use rusty_bots::store::{AutoModAction, AutoModConfig, AutoModRule};

fn msg(content: &str) -> MessageInfo {
    MessageInfo {
        message_id: 900,
        author_id: 42,
        channel_id: 7,
        guild_id: Some(1),
        content: content.to_string(),
        mention_count: 0,
    }
}

fn config(rules: Vec<AutoModRule>) -> AutoModConfig {
    let mut c = AutoModConfig::default();
    c.enabled = true;
    c.rules = rules;
    c
}

fn at(secs: i64) -> Instant {
    Instant { secs, nanos: 0 }
}

fn rule_of(v: &Option<AutoModViolation>) -> Option<String> {
    v.as_ref().map(|x| x.rule_type.clone())
}

#[test]
fn disabled_config_flags_nothing() {
    let mut st = AutoModState::new();
    let mut c = config(vec![AutoModRule::InviteFilter { action: AutoModAction::Delete }]);
    c.enabled = false;
    assert!(st.check_message_at(&c, &msg("discord.gg/abc"), None, at(0)).is_none());
    assert!(!needs_member_roles(&c, &msg("x")));
}

#[test]
fn exemptions() {
    let mut st = AutoModState::new();
    let rules = vec![AutoModRule::InviteFilter { action: AutoModAction::Delete }];
    let mut c = config(rules);
    c.whitelist_users = vec!["42".to_string()];
    assert!(st.check_message_at(&c, &msg("discord.gg/x"), None, at(0)).is_none());
    assert!(!needs_member_roles(&c, &msg("x")));
    c.whitelist_users = vec![];
    c.ignored_channels = vec!["7".to_string()];
    assert!(st.check_message_at(&c, &msg("discord.gg/x"), None, at(0)).is_none());
    c.ignored_channels = vec![];
    c.ignored_roles = vec!["555".to_string()];
    assert!(needs_member_roles(&c, &msg("x")));
    assert!(st.check_message_at(&c, &msg("discord.gg/x"), Some(&vec![1, 555]), at(0)).is_none());
    assert_eq!(rule_of(&st.check_message_at(&c, &msg("discord.gg/x"), Some(&vec![1, 2]), at(0))).as_deref(), Some("Invite Link"));
    assert_eq!(rule_of(&st.check_message_at(&c, &msg("discord.gg/x"), None, at(0))).as_deref(), Some("Invite Link"));
    let mut dm = msg("x");
    dm.guild_id = None;
    assert!(!needs_member_roles(&c, &dm));
}

#[test]
fn spam_detection_counts_within_window() {
    let mut st = AutoModState::new();
    let c = config(vec![AutoModRule::SpamDetection { message_threshold: 3, time_window_secs: 10, action: AutoModAction::Delete }]);
    assert!(st.check_message_at(&c, &msg("a"), None, at(100)).is_none());
    assert!(st.check_message_at(&c, &msg("b"), None, at(105)).is_none());
    let v = st.check_message_at(&c, &msg("c"), None, at(109)).unwrap();
    assert_eq!(v.rule_type, "Spam Detection");
    assert_eq!(v.message_id, 900);
    assert_eq!(v.user_id, 42);
    // At 115 the messages of 100 and 105 are 10 s or more old: 109 and 115 remain.
    assert!(st.check_message_at(&c, &msg("d"), None, at(115)).is_none());
    assert_eq!(st.user_message_history.get(&42).unwrap().len(), 2);
}

#[test]
fn spam_window_truncates_toward_zero() {
    let mut st = AutoModState::new();
    let c = config(vec![AutoModRule::SpamDetection { message_threshold: 2, time_window_secs: 1, action: AutoModAction::Delete }]);
    assert!(st.check_message_at(&c, &msg("a"), None, Instant { secs: 10, nanos: 0 }).is_none());
    // 0.999999999 s later: zero whole seconds, still inside a one-second window.
    assert!(st.check_message_at(&c, &msg("b"), None, Instant { secs: 10, nanos: 999_999_999 }).is_some());
}

#[test]
fn bad_words_ignore_case() {
    let mut st = AutoModState::new();
    let c = config(vec![AutoModRule::BadWords { words: vec!["Frog".to_string()], action: AutoModAction::Delete }]);
    assert_eq!(rule_of(&st.check_message_at(&c, &msg("a FROGGY day"), None, at(0))).as_deref(), Some("Bad Words"));
    assert!(st.check_message_at(&c, &msg("a toad"), None, at(0)).is_none());
}

#[test]
fn caps_threshold() {
    let mut st = AutoModState::new();
    let c = config(vec![AutoModRule::Caps { threshold_bits: 70.0f32.to_bits(), action: AutoModAction::Delete }]);
    assert_eq!(rule_of(&st.check_message_at(&c, &msg("HELLO THERE"), None, at(0))).as_deref(), Some("Excessive Caps"));
    // 7 of 10 letters upper case: exactly 70 %.
    assert!(st.check_message_at(&c, &msg("ABCDEFGhij"), None, at(0)).is_some());
    // 6 of 10: below.
    assert!(st.check_message_at(&c, &msg("ABCDEFghij"), None, at(0)).is_none());
    // five bytes or fewer are never shouting.
    assert!(st.check_message_at(&c, &msg("HELLO"), None, at(0)).is_none());
    // no letters at all.
    assert!(st.check_message_at(&c, &msg("123456!!"), None, at(0)).is_none());
}

#[test]
fn caps_share_is_computed_in_single_precision() {
    let mut st = AutoModState::new();
    let caps = |t: f32| config(vec![AutoModRule::Caps { threshold_bits: t.to_bits(), action: AutoModAction::Delete }]);
    // One of three letters: the single-precision share is 33.333336.
    let share = (1f32 / 3f32) * 100f32;
    assert!(st.check_message_at(&caps(33.334), &msg("A bc ."), None, at(0)).is_none());
    assert!(st.check_message_at(&caps(share), &msg("A bc ."), None, at(0)).is_some());
    assert!(st.check_message_at(&caps(f32::from_bits(share.to_bits() + 1)), &msg("A bc ."), None, at(0)).is_none());
    // Non-numbers never match; negative thresholds and negative infinity always do.
    assert!(st.check_message_at(&caps(f32::NAN), &msg("ABCDEF"), None, at(0)).is_none());
    assert!(st.check_message_at(&caps(f32::INFINITY), &msg("ABCDEF"), None, at(0)).is_none());
    assert!(st.check_message_at(&caps(-0.0), &msg("abcdef"), None, at(0)).is_some());
    assert!(st.check_message_at(&caps(f32::NEG_INFINITY), &msg("abcdef"), None, at(0)).is_some());
}

#[test]
fn caps_reach_agrees_with_f32_arithmetic() {
    let thresholds: Vec<f32> = vec![
        0.0, -0.0, 1e-45, 1e-30, 0.01, 1.0, 10.0, 33.333, 33.334, 33.333336, 50.0, 66.66667, 70.0, 99.99999, 100.0,
        100.00001, 1000.0, f32::MAX, f32::MIN_POSITIVE, -5.0, f32::NAN, f32::INFINITY, f32::NEG_INFINITY,
    ];
    let mut counts: Vec<(usize, usize)> = Vec::new();
    for l in 1..60usize {
        for u in 0..=l {
            counts.push((u, l));
        }
    }
    counts.extend([(1, 16_777_217), (16_777_217, 16_777_219), (3, 1_000_000_007), (usize::MAX, usize::MAX), (1, usize::MAX), (5, 3)]);
    for &(u, l) in &counts {
        let share = (u as f32 / l as f32) * 100.0;
        for &t in &thresholds {
            for bits in [t.to_bits(), share.to_bits(), share.to_bits().wrapping_add(1), share.to_bits().wrapping_sub(1)] {
                let t = f32::from_bits(bits);
                assert_eq!(caps_reach(u, l, bits), share >= t, "upper {u} letters {l} threshold {t:?}");
            }
        }
    }
}

#[test]
fn caps_reach_agrees_on_scattered_inputs() {
    let mut x: u64 = 0x9e37_79b9_7f4a_7c15;
    let mut next = || {
        x ^= x << 13;
        x ^= x >> 7;
        x ^= x << 17;
        x
    };
    for _ in 0..20000 {
        let l = (next() % 100_000 + 1) as usize;
        let u = (next() % (l as u64 + 3)) as usize;
        let share = (u as f32 / l as f32) * 100.0;
        let near = share.to_bits().wrapping_add((next() % 5) as u32).wrapping_sub(2);
        for bits in [near, next() as u32, (next() % 0x4300_0000) as u32] {
            assert_eq!(caps_reach(u, l, bits), share >= f32::from_bits(bits), "upper {u} letters {l} bits {bits:#x}");
        }
    }
}

#[test]
fn mention_spam() {
    let mut st = AutoModState::new();
    let c = config(vec![AutoModRule::MentionSpam { mention_threshold: 3, action: AutoModAction::Kick }]);
    let mut m = msg("hi");
    m.mention_count = 3;
    assert_eq!(rule_of(&st.check_message_at(&c, &m, None, at(0))).as_deref(), Some("Mention Spam"));
    m.mention_count = 2;
    assert!(st.check_message_at(&c, &m, None, at(0)).is_none());
}

#[test]
fn link_filter() {
    let mut st = AutoModState::new();
    let c = config(vec![AutoModRule::LinkFilter { allowed_domains: vec!["example.com".to_string()], action: AutoModAction::Delete }]);
    assert!(st.check_message_at(&c, &msg("see https://www.example.com/x"), None, at(0)).is_none());
    assert!(st.check_message_at(&c, &msg("see https://docs.example.com/x"), None, at(0)).is_none());
    assert_eq!(rule_of(&st.check_message_at(&c, &msg("see http://evil.org/x"), None, at(0))).as_deref(), Some("Disallowed Link"));
    assert!(st.check_message_at(&c, &msg("no links here"), None, at(0)).is_none());
}

#[test]
fn invite_filter() {
    let mut st = AutoModState::new();
    let c = config(vec![AutoModRule::InviteFilter { action: AutoModAction::Ban }]);
    assert!(st.check_message_at(&c, &msg("join DISCORD.GG/abc"), None, at(0)).is_some());
    assert!(st.check_message_at(&c, &msg("discordapp.com/invite/x"), None, at(0)).is_some());
    assert!(st.check_message_at(&c, &msg("discord is nice"), None, at(0)).is_none());
}

#[test]
fn first_broken_rule_wins() {
    let mut st = AutoModState::new();
    let c = config(vec![
        AutoModRule::BadWords { words: vec!["zzz".to_string()], action: AutoModAction::Delete },
        AutoModRule::InviteFilter { action: AutoModAction::Ban },
        AutoModRule::Caps { threshold_bits: 0.01f32.to_bits(), action: AutoModAction::Kick },
    ]);
    let v = st.check_message_at(&c, &msg("DISCORD.GG/ABC"), None, at(0)).unwrap();
    assert_eq!(v.rule_type, "Invite Link");
    assert!(matches!(v.action, AutoModAction::Ban));
}

#[test]
fn check_message_reads_the_clock() {
    let mut st = AutoModState::new();
    let c = config(vec![AutoModRule::InviteFilter { action: AutoModAction::Delete }]);
    assert!(st.check_message(&c, &msg("discord.gg/x"), None).is_some());
}

fn violation(action: AutoModAction) -> AutoModViolation {
    AutoModViolation { rule_type: "Bad Words".to_string(), action, message_id: 900, user_id: 42 }
}

#[test]
fn plans_for_each_action() {
    let mut c = config(vec![]);
    assert_eq!(plan_action(&violation(AutoModAction::Delete), None, &c).err().unwrap(), "not in guild");
    assert!(matches!(plan_action(&violation(AutoModAction::Delete), Some(1), &c).unwrap().step, ActionStep::DeleteMessage));
    match plan_action(&violation(AutoModAction::Warn { max_warnings: 2 }), Some(1), &c).unwrap().step {
        ActionStep::Reply { text } => assert_eq!(text, "⚠️ Warning: Your message violated server rules."),
        _ => panic!(),
    }
    match plan_action(&violation(AutoModAction::Timeout { duration_secs: 300 }), Some(1), &c).unwrap().step {
        ActionStep::Timeout { user_id, duration_secs, notice } => {
            assert_eq!((user_id, duration_secs), (42, 300));
            assert_eq!(notice, "⏱️ You've been timed out for 300 seconds.");
        }
        _ => panic!(),
    }
    match plan_action(&violation(AutoModAction::Kick), Some(1), &c).unwrap().step {
        ActionStep::Kick { user_id, reason } => assert_eq!((user_id, reason.as_str()), (42, "Bad Words")),
        _ => panic!(),
    }
    match plan_action(&violation(AutoModAction::Ban), Some(1), &c).unwrap().step {
        ActionStep::Ban { user_id, reason } => assert_eq!((user_id, reason.as_str()), (42, "Bad Words")),
        _ => panic!(),
    }
    match plan_action(&violation(AutoModAction::SendMessage { message: "be nice".to_string() }), Some(1), &c).unwrap().step {
        ActionStep::Reply { text } => assert_eq!(text, "be nice"),
        _ => panic!(),
    }
    assert_eq!(plan_action(&violation(AutoModAction::Delete), Some(1), &c).unwrap().log_channel, None);
    c.log_channel = Some("12345".to_string());
    let p = plan_action(&violation(AutoModAction::Delete), Some(9), &c).unwrap();
    assert_eq!((p.guild_id, p.log_channel), (9, Some(12345)));
    c.log_channel = Some("general".to_string());
    assert_eq!(plan_action(&violation(AutoModAction::Delete), Some(1), &c).unwrap().log_channel, None);
}

#[test]
fn bot_messages_are_not_screened() {
    let mut st = AutoModState::new();
    let c = config(vec![
        AutoModRule::SpamDetection { message_threshold: 1, time_window_secs: 10, action: AutoModAction::Delete },
        AutoModRule::InviteFilter { action: AutoModAction::Delete },
    ]);
    assert!(st.screen_message(true, &c, &msg("discord.gg/abc"), None).is_none());
    assert!(st.user_message_history.is_empty());
    assert_eq!(rule_of(&st.screen_message(false, &c, &msg("hello"), None)).as_deref(), Some("Spam Detection"));
    assert_eq!(st.user_message_history.get(&42).map(|v| v.len()), Some(1));
}
