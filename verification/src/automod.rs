//! The auto-moderation engine: which messages are exempt, which rule a
//! message breaks first, the per-user message history that spam detection
//! keeps, and the plan of what to do about a violation.

use vstd::prelude::*;
use std::collections::HashMap;
use crate::float32::{caps_percent, caps_reach, reaches_bits};
use crate::store::{AutoModAction, AutoModRule, AutoModRuleView, AutoModConfig, AutoModConfigView, rules_view};
use crate::text::{parse_u64, parse_u64_spec, push_decimal, 
    chars_of, contains_chars, contains_seq, contains_str, decimal, is_alpha, is_upper, lowercase,
    to_decimal, to_lowercase, utf8_len, utf8_longer_than, char_is_alpha, char_is_upper,
};

verus! {

broadcast use vstd::std_specs::hash::group_hash_axioms;

/// A point in time: whole seconds since the Unix epoch and the nanoseconds
/// past that second.
#[derive(Clone, Copy)]
pub struct Instant {
    pub secs: i64,
    pub nanos: u32,
}

/// `chrono::Utc::now` of chrono: the current time, as seconds and
/// nanoseconds. Nothing is stated of the value: it is the clock's.
#[verifier::external_body]
pub(crate) fn now() -> (r: Instant) {
    let t = chrono::Utc::now();
    Instant { secs: t.timestamp(), nanos: t.timestamp_subsec_nanos() }
}

/// Signed distance from `earlier` to `later`, in nanoseconds.
pub open spec fn nanos_between(later: Instant, earlier: Instant) -> int {
    (later.secs - earlier.secs) * 1_000_000_000 + (later.nanos - earlier.nanos)
}

/// Whole seconds from `earlier` to `later`, truncated toward zero (what
/// `(later - earlier).num_seconds()` gives).
pub open spec fn secs_between(later: Instant, earlier: Instant) -> int {
    let d = nanos_between(later, earlier);
    if d >= 0 { d / 1_000_000_000 } else { -((-d) / 1_000_000_000) }
}

fn whole_secs_between(later: Instant, earlier: Instant) -> (r: i128)
    ensures
        r == secs_between(later, earlier),
{
    let d: i128 = (later.secs as i128 - earlier.secs as i128) * 1_000_000_000
        + (later.nanos as i128 - earlier.nanos as i128);
    if d >= 0 {
        (d as u128 / 1_000_000_000) as i128
    } else {
        let m: u128 = (0 - d) as u128;
        0 - ((m / 1_000_000_000) as i128)
    }
}

/// One remembered message of a user, for spam detection.
#[derive(Clone, Copy)]
pub struct MessageTimestamp {
    pub time: Instant,
    pub mention_count: u32,
}

/// What the auto-moderator reads of a message.
pub struct MessageInfo {
    pub message_id: u64,
    pub author_id: u64,
    pub channel_id: u64,
    pub guild_id: Option<u64>,
    pub content: String,
    pub mention_count: usize,
}

/// A broken rule: its name, what to do, and which message and user.
pub struct AutoModViolation {
    pub rule_type: String,
    pub action: AutoModAction,
    pub message_id: u64,
    pub user_id: u64,
}

/// Mathematical form of a violation.
pub struct ViolationView {
    pub rule_type: Seq<char>,
    pub action: AutoModAction,
    pub message_id: u64,
    pub user_id: u64,
}

impl View for AutoModViolation {
    type V = ViolationView;

    open spec fn view(&self) -> ViolationView {
        ViolationView {
            rule_type: self.rule_type@,
            action: self.action,
            message_id: self.message_id,
            user_id: self.user_id,
        }
    }
}

/// The optional view of an optional violation.
pub open spec fn opt_violation_view(v: Option<AutoModViolation>) -> Option<ViolationView> {
    match v {
        Some(x) => Some(x@),
        None => None,
    }
}

/// Per-user message history of the spam detector.
pub type History = Map<u64, Seq<MessageTimestamp>>;

/// The auto-moderation state of one running bot.
pub struct AutoModState {
    pub user_message_history: HashMap<u64, Vec<MessageTimestamp>>,
}

impl View for AutoModState {
    type V = History;

    open spec fn view(&self) -> History {
        Map::new(
            |k: u64| self.user_message_history@.contains_key(k),
            |k: u64| self.user_message_history@[k]@,
        )
    }
}

/// Whether a list of texts holds `s`.
pub open spec fn lists(list: Seq<Seq<char>>, s: Seq<char>) -> bool {
    exists|i: int| 0 <= i < list.len() && list[i] == s
}

/// Whether the message is exempt from auto-moderation: auto-moderation is
/// off, its author is white-listed, its channel is ignored, or its author
/// holds an ignored role (`roles` are the author's roles when the author is a
/// known member of the message's guild).
pub open spec fn exempt(config: AutoModConfigView, author: u64, channel: u64, roles: Option<Seq<u64>>) -> bool {
    ||| !config.enabled
    ||| lists(config.whitelist_users, decimal(author as nat))
    ||| lists(config.ignored_channels, decimal(channel as nat))
    ||| (roles matches Some(rs) && has_ignored_role(config.ignored_roles, rs))
}

/// Whether one of the roles is ignored.
pub open spec fn has_ignored_role(ignored: Seq<Seq<char>>, roles: Seq<u64>) -> bool {
    exists|i: int| 0 <= i < roles.len() && lists(ignored, decimal(#[trigger] roles[i] as nat))
}

/// Number of characters with the `Uppercase` property.
pub open spec fn count_upper(s: Seq<char>) -> nat
    decreases s.len(),
{
    if s.len() == 0 { 0 } else { count_upper(s.drop_last()) + if is_upper(s.last()) { 1nat } else { 0nat } }
}

/// Number of characters with the `Alphabetic` property.
pub open spec fn count_alpha(s: Seq<char>) -> nat
    decreases s.len(),
{
    if s.len() == 0 { 0 } else { count_alpha(s.drop_last()) + if is_alpha(s.last()) { 1nat } else { 0nat } }
}

/// Whether a message counts as shouting: longer than five bytes, with at
/// least one letter, and with the share of upper-case letters, computed in
/// single precision as `upper / letters * 100`, at least the threshold whose
/// bit pattern is `threshold_bits`.
pub open spec fn caps_breach(content: Seq<char>, threshold_bits: u32) -> bool {
    &&& utf8_len(content) > 5
    &&& count_alpha(content) > 0
    &&& reaches_bits(caps_percent(count_upper(content), count_alpha(content)), threshold_bits)
}

/// Names the domains that the link pattern
/// `https?://(?:www\.)?([a-zA-Z0-9-]+\.[a-zA-Z0-9-.]+)` captures in a text,
/// match after match (what the `regex` crate finds).
pub uninterp spec fn url_domains(text: Seq<char>) -> Seq<Seq<char>>;

/// The link pattern whose first group is the domain of a link.
pub open spec fn url_pattern() -> Seq<char> {
    "https?://(?:www\\.)?([a-zA-Z0-9-]+\\.[a-zA-Z0-9-.]+)"@
}

/// `regex::Regex::new` and `Regex::captures_iter` of regex: the first group of
/// every match of the link pattern in `text`, in order. The pattern is valid
/// and its first group is not optional, so every match has that group.
#[verifier::external_body]
fn link_domains(pattern: &str, text: &str) -> (r: Vec<String>)
    requires
        pattern@ == url_pattern(),
    ensures
        r.deep_view() == url_domains(text@),
{
    let re = regex::Regex::new(pattern).unwrap();
    re.captures_iter(text).map(|c| c[1].to_string()).collect()
}

/// Whether the domain contains one of the allowed texts.
pub open spec fn domain_allowed(domain: Seq<char>, allowed: Seq<Seq<char>>) -> bool {
    exists|j: int| 0 <= j < allowed.len() && contains_seq(domain, #[trigger] allowed[j])
}

/// Whether one of the domains contains none of the allowed texts.
pub open spec fn has_disallowed(domains: Seq<Seq<char>>, allowed: Seq<Seq<char>>) -> bool {
    exists|i: int| 0 <= i < domains.len() && !domain_allowed(#[trigger] domains[i], allowed)
}

/// Whether the lower-cased text holds a Discord invite.
pub open spec fn has_invite(lower: Seq<char>) -> bool {
    contains_seq(lower, "discord.gg/"@) || contains_seq(lower, "discordapp.com/invite/"@)
}

/// Whether the lower-cased text holds one of the words, compared in lower
/// case.
pub open spec fn has_bad_word(lower: Seq<char>, words: Seq<Seq<char>>) -> bool {
    exists|i: int| 0 <= i < words.len() && contains_seq(lower, lowercase(words[i]))
}

/// Spam history of a user after a new message: the remembered messages less
/// than `window` seconds old (the window read as `i64`, as a cast of the
/// `u64` gives), then the new one.
pub open spec fn spam_history(old: Seq<MessageTimestamp>, now: Instant, window: u64, mentions: usize) -> Seq<MessageTimestamp> {
    old.filter(|t: MessageTimestamp| secs_between(now, t.time) < window as i64).push(
        MessageTimestamp { time: now, mention_count: mentions as u32 },
    )
}

/// The remembered messages of a user (none if the user is unknown).
pub open spec fn stamps_of(h: History, user: u64) -> Seq<MessageTimestamp> {
    if h.contains_key(user) { h[user] } else { Seq::empty() }
}

/// A violation of the message with the given rule name and action.
pub open spec fn violation(name: Seq<char>, action: AutoModAction, msg: MessageInfo) -> ViolationView {
    ViolationView { rule_type: name, action, message_id: msg.message_id, user_id: msg.author_id }
}

/// One rule applied to a message at time `now`: the history afterwards and
/// the violation, if the rule is broken.
pub open spec fn rule_outcome(h: History, rule: AutoModRuleView, msg: MessageInfo, lower: Seq<char>, now: Instant) -> (History, Option<ViolationView>) {
    match rule {
        AutoModRuleView::SpamDetection { message_threshold, time_window_secs, action } => {
            let s = spam_history(stamps_of(h, msg.author_id), now, time_window_secs, msg.mention_count);
            (h.insert(msg.author_id, s),
             if s.len() >= message_threshold { Some(violation("Spam Detection"@, action, msg)) } else { None })
        },
        AutoModRuleView::BadWords { words, action } =>
            (h, if has_bad_word(lower, words) { Some(violation("Bad Words"@, action, msg)) } else { None }),
        AutoModRuleView::Caps { threshold_bits, action } =>
            (h, if caps_breach(msg.content@, threshold_bits) { Some(violation("Excessive Caps"@, action, msg)) } else { None }),
        AutoModRuleView::MentionSpam { mention_threshold, action } =>
            (h, if msg.mention_count >= mention_threshold { Some(violation("Mention Spam"@, action, msg)) } else { None }),
        AutoModRuleView::LinkFilter { allowed_domains, action } =>
            (h, if has_disallowed(url_domains(msg.content@), allowed_domains) { Some(violation("Disallowed Link"@, action, msg)) } else { None }),
        AutoModRuleView::InviteFilter { action } =>
            (h, if has_invite(lower) { Some(violation("Invite Link"@, action, msg)) } else { None }),
    }
}

/// The rules applied in order until one is broken: the history afterwards
/// and the first violation, if any.
pub open spec fn rules_outcome(h: History, rules: Seq<AutoModRuleView>, msg: MessageInfo, lower: Seq<char>, now: Instant) -> (History, Option<ViolationView>)
    decreases rules.len(),
{
    if rules.len() == 0 {
        (h, None)
    } else {
        let (h1, v) = rule_outcome(h, rules[0], msg, lower, now);
        if v is Some { (h1, v) } else { rules_outcome(h1, rules.drop_first(), msg, lower, now) }
    }
}

/// The whole check of a message at time `now`: nothing for an exempt message,
/// else the rules in order on the lower-cased content.
pub open spec fn check_outcome(h: History, config: AutoModConfigView, msg: MessageInfo, roles: Option<Seq<u64>>, now: Instant) -> (History, Option<ViolationView>) {
    if exempt(config, msg.author_id, msg.channel_id, roles) {
        (h, None)
    } else {
        rules_outcome(h, config.rules, msg, lowercase(msg.content@), now)
    }
}

/// The optional view of an optional list of role ids.
pub open spec fn opt_roles(roles: Option<&Vec<u64>>) -> Option<Seq<u64>> {
    match roles {
        Some(r) => Some(r@),
        None => None,
    }
}

/// Whether a list of strings holds a string with the given text.
pub fn list_holds(list: &Vec<String>, s: &String) -> (r: bool)
    ensures
        r == lists(list.deep_view(), s@),
{
    let mut i: usize = 0;
    while i < list.len()
        invariant
            i <= list@.len(),
            forall|k: int| 0 <= k < i ==> list.deep_view()[k] != s@,
        decreases list@.len() - i,
    {
        if list[i] == *s {
            assert(list.deep_view()[i as int] == s@);
            return true;
        }
        i = i + 1;
    }
    false
}

/// Whether the member roles of the author have to be fetched before a
/// message can be decided: auto-moderation is on, the author and channel are
/// not exempt, and the message was sent in a guild.
pub fn needs_member_roles(config: &AutoModConfig, msg: &MessageInfo) -> (r: bool)
    ensures
        r == (!exempt(config@, msg.author_id, msg.channel_id, None) && msg.guild_id is Some),
{
    if !config.enabled {
        return false;
    }
    if list_holds(&config.whitelist_users, &to_decimal(msg.author_id)) {
        return false;
    }
    if list_holds(&config.ignored_channels, &to_decimal(msg.channel_id)) {
        return false;
    }
    msg.guild_id.is_some()
}

/// Decides `exempt`.
pub fn is_exempt(config: &AutoModConfig, msg: &MessageInfo, roles: Option<&Vec<u64>>) -> (r: bool)
    ensures
        r == exempt(config@, msg.author_id, msg.channel_id, opt_roles(roles)),
{
    if !config.enabled {
        return true;
    }
    if list_holds(&config.whitelist_users, &to_decimal(msg.author_id)) {
        return true;
    }
    if list_holds(&config.ignored_channels, &to_decimal(msg.channel_id)) {
        return true;
    }
    match roles {
        Some(rs) => {
            let mut i: usize = 0;
            while i < rs.len()
                invariant
                    roles == Some(rs),
                    i <= rs@.len(),
                    forall|k: int| 0 <= k < i ==> !lists(config@.ignored_roles, decimal(rs@[k] as nat)),
                decreases rs@.len() - i,
            {
                if list_holds(&config.ignored_roles, &to_decimal(rs[i])) {
                    assert(lists(config@.ignored_roles, decimal(rs@[i as int] as nat)));
                    assert(has_ignored_role(config@.ignored_roles, rs@));
                    return true;
                }
                i = i + 1;
            }
            false
        },
        None => false,
    }
}

fn count_caps(cs: &Vec<char>) -> (r: (usize, usize))
    ensures
        r.0 == count_upper(cs@),
        r.1 == count_alpha(cs@),
{
    let mut upper: usize = 0;
    let mut alpha: usize = 0;
    let mut i: usize = 0;
    while i < cs.len()
        invariant
            i <= cs@.len(),
            upper == count_upper(cs@.take(i as int)),
            alpha == count_alpha(cs@.take(i as int)),
            upper <= i,
            alpha <= i,
        decreases cs@.len() - i,
    {
        assert(cs@.take(i + 1).drop_last() == cs@.take(i as int));
        if char_is_upper(cs[i]) {
            upper = upper + 1;
        }
        if char_is_alpha(cs[i]) {
            alpha = alpha + 1;
        }
        i = i + 1;
    }
    assert(cs@.take(cs@.len() as int) == cs@);
    (upper, alpha)
}

fn make_violation(name: &str, action: &AutoModAction, msg: &MessageInfo) -> (r: AutoModViolation)
    ensures
        r@ == violation(name@, *action, *msg),
{
    AutoModViolation {
        rule_type: String::from_str(name),
        action: action.clone(),
        message_id: msg.message_id,
        user_id: msg.author_id,
    }
}

fn any_bad_word(lower: &str, words: &Vec<String>) -> (r: bool)
    ensures
        r == has_bad_word(lower@, words.deep_view()),
{
    let mut i: usize = 0;
    while i < words.len()
        invariant
            i <= words@.len(),
            forall|k: int| 0 <= k < i ==> !contains_seq(lower@, lowercase(#[trigger] words.deep_view()[k])),
        decreases words@.len() - i,
    {
        let w = to_lowercase(words[i].as_str());
        if contains_str(lower, w.as_str()) {
            assert(contains_seq(lower@, lowercase(words.deep_view()[i as int])));
            return true;
        }
        i = i + 1;
    }
    false
}

/// Whether one of the domains contains none of the allowed texts.
pub fn any_disallowed(domains: &Vec<String>, allowed: &Vec<String>) -> (r: bool)
    ensures
        r == has_disallowed(domains.deep_view(), allowed.deep_view()),
{
    let mut i: usize = 0;
    while i < domains.len()
        invariant
            i <= domains@.len(),
            forall|k: int| 0 <= k < i ==> domain_allowed(#[trigger] domains.deep_view()[k], allowed.deep_view()),
        decreases domains@.len() - i,
    {
        let d = chars_of(domains[i].as_str());
        let mut j: usize = 0;
        let mut found = false;
        while j < allowed.len()
            invariant
                j <= allowed@.len(),
                d@ == domains.deep_view()[i as int],
                found ==> domain_allowed(d@, allowed.deep_view()),
                !found ==> forall|q: int| 0 <= q < j ==> !contains_seq(d@, #[trigger] allowed.deep_view()[q]),
            decreases allowed@.len() - j,
        {
            let a = chars_of(allowed[j].as_str());
            if contains_chars(&d, &a) {
                assert(contains_seq(d@, allowed.deep_view()[j as int]));
                found = true;
            }
            j = j + 1;
        }
        if !found {
            assert(!domain_allowed(domains.deep_view()[i as int], allowed.deep_view()));
            return true;
        }
        i = i + 1;
    }
    false
}

impl AutoModState {
    /// A state with no remembered messages.
    pub fn new() -> (r: Self)
        ensures
            r@ == Map::<u64, Seq<MessageTimestamp>>::empty(),
    {
        let r = AutoModState { user_message_history: HashMap::new() };
        assert(r@ =~= Map::<u64, Seq<MessageTimestamp>>::empty());
        r
    }

    fn record_message(&mut self, msg: &MessageInfo, now: Instant, window: u64) -> (len: usize)
        ensures
            final(self)@ == old(self)@.insert(
                msg.author_id,
                spam_history(stamps_of(old(self)@, msg.author_id), now, window, msg.mention_count),
            ),
            len == spam_history(stamps_of(old(self)@, msg.author_id), now, window, msg.mention_count).len(),
    {
        let ghost before = self@;
        let old_stamps = match self.user_message_history.remove(&msg.author_id) {
            Some(v) => v,
            None => Vec::new(),
        };
        assert(old_stamps@ == stamps_of(before, msg.author_id));
        let ghost pred = |t: MessageTimestamp| secs_between(now, t.time) < window as i64;
        let mut kept: Vec<MessageTimestamp> = Vec::new();
        let mut i: usize = 0;
        while i < old_stamps.len()
            invariant
                i <= old_stamps@.len(),
                pred == (|t: MessageTimestamp| secs_between(now, t.time) < window as i64),
                kept@ == old_stamps@.take(i as int).filter(pred),
            decreases old_stamps@.len() - i,
        {
            let t = old_stamps[i];
            proof {
                old_stamps@.take(i as int).lemma_filter_push(t, pred);
                assert(old_stamps@.take(i + 1) == old_stamps@.take(i as int).push(t));
            }
            if whole_secs_between(now, t.time) < (window as i64) as i128 {
                kept.push(t);
            }
            i = i + 1;
        }
        assert(old_stamps@.take(old_stamps@.len() as int) == old_stamps@);
        kept.push(MessageTimestamp { time: now, mention_count: msg.mention_count as u32 });
        let len = kept.len();
        self.user_message_history.insert(msg.author_id, kept);
        assert(self@ =~= before.insert(
            msg.author_id,
            spam_history(stamps_of(before, msg.author_id), now, window, msg.mention_count),
        ));
        len
    }

    /// Applies one rule to a message at time `now` (`lower` is the
    /// lower-cased content).
    pub fn check_rule(&mut self, rule: &AutoModRule, msg: &MessageInfo, lower: &str, now: Instant) -> (r: Option<AutoModViolation>)
        ensures
            (final(self)@, opt_violation_view(r)) == rule_outcome(old(self)@, rule@, *msg, lower@, now),
    {
        match rule {
            AutoModRule::SpamDetection { message_threshold, time_window_secs, action } => {
                let n = self.record_message(msg, now, *time_window_secs);
                if n >= *message_threshold as usize {
                    return Some(make_violation("Spam Detection", action, msg));
                }
                None
            },
            AutoModRule::BadWords { words, action } => {
                if any_bad_word(lower, words) {
                    return Some(make_violation("Bad Words", action, msg));
                }
                None
            },
            AutoModRule::Caps { threshold_bits, action } => {
                let cs = chars_of(msg.content.as_str());
                if utf8_longer_than(&cs, 5) {
                    let (upper, alpha) = count_caps(&cs);
                    if alpha > 0 && caps_reach(upper, alpha, *threshold_bits) {
                        return Some(make_violation("Excessive Caps", action, msg));
                    }
                }
                None
            },
            AutoModRule::MentionSpam { mention_threshold, action } => {
                if msg.mention_count >= *mention_threshold as usize {
                    return Some(make_violation("Mention Spam", action, msg));
                }
                None
            },
            AutoModRule::LinkFilter { allowed_domains, action } => {
                self.check_links(msg, allowed_domains, action)
            },
            AutoModRule::InviteFilter { action } => {
                if contains_str(lower, "discord.gg/") || contains_str(lower, "discordapp.com/invite/") {
                    return Some(make_violation("Invite Link", action, msg));
                }
                None
            },
        }
    }

    /// The link rule: a violation when some link of the message points to a
    /// domain that contains none of the allowed domains.
    pub fn check_links(&self, msg: &MessageInfo, allowed_domains: &Vec<String>, action: &AutoModAction) -> (r: Option<AutoModViolation>)
        ensures
            opt_violation_view(r) == (if has_disallowed(url_domains(msg.content@), allowed_domains.deep_view()) {
                Some(violation("Disallowed Link"@, *action, *msg))
            } else {
                None
            }),
    {
        let domains = link_domains("https?://(?:www\\.)?([a-zA-Z0-9-]+\\.[a-zA-Z0-9-.]+)", msg.content.as_str());
        if any_disallowed(&domains, allowed_domains) {
            return Some(make_violation("Disallowed Link", action, msg));
        }
        None
    }

    /// Checks a message at time `now`: nothing when it is exempt, else the
    /// first broken rule in order. Spam rules up to the first broken one
    /// record the message in the history.
    pub fn check_message_at(&mut self, config: &AutoModConfig, msg: &MessageInfo, roles: Option<&Vec<u64>>, now: Instant) -> (r: Option<AutoModViolation>)
        ensures
            (final(self)@, opt_violation_view(r)) == check_outcome(old(self)@, config@, *msg, opt_roles(roles), now),
    {
        if is_exempt(config, msg, roles) {
            return None;
        }
        let lower = to_lowercase(msg.content.as_str());
        let ghost rules = config@.rules;
        assert(rules.skip(0) =~= rules);
        let mut i: usize = 0;
        while i < config.rules.len()
            invariant
                i <= config.rules@.len(),
                rules == rules_view(config.rules@),
                !exempt(config@, msg.author_id, msg.channel_id, opt_roles(roles)),
                lower@ == lowercase(msg.content@),
                rules_outcome(old(self)@, rules, *msg, lower@, now)
                    == rules_outcome(self@, rules.skip(i as int), *msg, lower@, now),
            decreases config.rules@.len() - i,
        {
            let ghost h = self@;
            assert(rules.skip(i as int)[0] == config.rules@[i as int]@);
            assert(rules.skip(i as int).drop_first() == rules.skip(i + 1));
            let v = self.check_rule(&config.rules[i], msg, lower.as_str(), now);
            if v.is_some() {
                return v;
            }
            i = i + 1;
        }
        assert(rules.skip(i as int).len() == 0);
        None
    }

    /// Checks a message now (the clock is read once): nothing when it is
    /// exempt, else the first broken rule in order.
    pub fn check_message(&mut self, config: &AutoModConfig, msg: &MessageInfo, roles: Option<&Vec<u64>>) -> (r: Option<AutoModViolation>)
        ensures
            exempt(config@, msg.author_id, msg.channel_id, opt_roles(roles)) ==> r is None && final(self)@ == old(self)@,
            exists|t: Instant| (final(self)@, opt_violation_view(r)) == check_outcome(old(self)@, config@, *msg, opt_roles(roles), t),
    {
        let t = now();
        self.check_message_at(config, msg, roles, t)
    }

    /// Screens an incoming message before anything else is done with it:
    /// messages of bots are never checked and leave the history untouched;
    /// any other message is checked now.
    pub fn screen_message(&mut self, author_is_bot: bool, config: &AutoModConfig, msg: &MessageInfo, roles: Option<&Vec<u64>>) -> (r: Option<AutoModViolation>)
        ensures
            author_is_bot ==> r is None && final(self)@ == old(self)@,
            !author_is_bot && exempt(config@, msg.author_id, msg.channel_id, opt_roles(roles)) ==> r is None && final(self)@ == old(self)@,
            !author_is_bot ==> exists|t: Instant| (final(self)@, opt_violation_view(r)) == check_outcome(old(self)@, config@, *msg, opt_roles(roles), t),
    {
        if author_is_bot {
            return None;
        }
        self.check_message(config, msg, roles)
    }
}

/// With auto-moderation off, no message is flagged and no history is kept.
pub proof fn law_disabled_flags_nothing(h: History, config: AutoModConfigView, msg: MessageInfo, roles: Option<Seq<u64>>, now: Instant)
    requires
        !config.enabled,
    ensures
        check_outcome(h, config, msg, roles, now) == (h, None::<ViolationView>),
{
}

/// Messages of white-listed users, and messages in ignored channels, are
/// never flagged and leave the history as it is.
pub proof fn law_exempt_flags_nothing(h: History, config: AutoModConfigView, msg: MessageInfo, roles: Option<Seq<u64>>, now: Instant)
    requires
        lists(config.whitelist_users, decimal(msg.author_id as nat))
            || lists(config.ignored_channels, decimal(msg.channel_id as nat)),
    ensures
        check_outcome(h, config, msg, roles, now) == (h, None::<ViolationView>),
{
}

/// Whether a rule is a spam rule.
pub open spec fn is_spam_rule(r: AutoModRuleView) -> bool {
    r is SpamDetection
}

/// Only spam rules remember messages: with no spam rule among the rules, a
/// check leaves the history as it was.
pub proof fn law_history_only_for_spam(h: History, rules: Seq<AutoModRuleView>, msg: MessageInfo, lower: Seq<char>, now: Instant)
    requires
        forall|i: int| 0 <= i < rules.len() ==> !is_spam_rule(#[trigger] rules[i]),
    ensures
        rules_outcome(h, rules, msg, lower, now).0 == h,
    decreases rules.len(),
{
    if rules.len() > 0 {
        assert(!is_spam_rule(rules[0]));
        let rest = rules.drop_first();
        assert forall|i: int| 0 <= i < rest.len() implies !is_spam_rule(#[trigger] rest[i]) by {
            assert(rest[i] == rules[i + 1]);
        }
        law_history_only_for_spam(h, rest, msg, lower, now);
    }
}

/// A violation always names the checked message and its author.
pub proof fn law_violation_names_message(h: History, rules: Seq<AutoModRuleView>, msg: MessageInfo, lower: Seq<char>, now: Instant)
    ensures
        rules_outcome(h, rules, msg, lower, now).1 matches Some(v) ==> v.message_id == msg.message_id && v.user_id == msg.author_id,
    decreases rules.len(),
{
    if rules.len() > 0 {
        let (h1, v) = rule_outcome(h, rules[0], msg, lower, now);
        law_violation_names_message(h1, rules.drop_first(), msg, lower, now);
    }
}

/// After a spam rule has seen a message, the author's history holds the
/// message and, before it, only messages less than the window old (the
/// window read as `i64`).
pub proof fn law_spam_window(h: History, message_threshold: u32, time_window_secs: u64, action: AutoModAction, msg: MessageInfo, lower: Seq<char>, now: Instant)
    ensures
        ({
            let h1 = rule_outcome(h, AutoModRuleView::SpamDetection { message_threshold, time_window_secs, action }, msg, lower, now).0;
            let s = h1[msg.author_id];
            &&& h1.contains_key(msg.author_id)
            &&& s.len() > 0
            &&& s.last() == MessageTimestamp { time: now, mention_count: msg.mention_count as u32 }
            &&& forall|i: int| 0 <= i < s.len() - 1 ==> secs_between(now, (#[trigger] s[i]).time) < time_window_secs as i64
        }),
{
    let pred = |t: MessageTimestamp| secs_between(now, t.time) < time_window_secs as i64;
    let old = stamps_of(h, msg.author_id);
    let f = old.filter(pred);
    assert forall|i: int| 0 <= i < f.len() implies secs_between(now, (#[trigger] f[i]).time) < time_window_secs as i64 by {
        old.lemma_filter_pred(pred, i);
    }
    let s = f.push(MessageTimestamp { time: now, mention_count: msg.mention_count as u32 });
    assert forall|i: int| 0 <= i < s.len() - 1 implies secs_between(now, (#[trigger] s[i]).time) < time_window_secs as i64 by {
        assert(s[i] == f[i]);
    }
}

/// The moderation step that answers a violation.
pub enum ActionStep {
    /// Delete the offending message.
    DeleteMessage,
    /// Reply to the offending message with the text.
    Reply { text: String },
    /// Mute the user for the given seconds, then reply with the notice.
    Timeout { user_id: u64, duration_secs: u64, notice: String },
    /// Kick the user, giving the reason.
    Kick { user_id: u64, reason: String },
    /// Ban the user, deleting none of their messages, giving the reason.
    Ban { user_id: u64, reason: String },
}

/// Mathematical form of a moderation step.
pub enum ActionStepView {
    DeleteMessage,
    Reply { text: Seq<char> },
    Timeout { user_id: u64, duration_secs: u64, notice: Seq<char> },
    Kick { user_id: u64, reason: Seq<char> },
    Ban { user_id: u64, reason: Seq<char> },
}

impl View for ActionStep {
    type V = ActionStepView;

    open spec fn view(&self) -> ActionStepView {
        match self {
            ActionStep::DeleteMessage => ActionStepView::DeleteMessage,
            ActionStep::Reply { text } => ActionStepView::Reply { text: text@ },
            ActionStep::Timeout { user_id, duration_secs, notice } =>
                ActionStepView::Timeout { user_id: *user_id, duration_secs: *duration_secs, notice: notice@ },
            ActionStep::Kick { user_id, reason } => ActionStepView::Kick { user_id: *user_id, reason: reason@ },
            ActionStep::Ban { user_id, reason } => ActionStepView::Ban { user_id: *user_id, reason: reason@ },
        }
    }
}

/// What to do about a violation: the guild, the step, and the channel that
/// the action is logged to, if the configured log channel is a valid id.
pub struct ActionPlan {
    pub guild_id: u64,
    pub step: ActionStep,
    pub log_channel: Option<u64>,
}

/// The reply that warns a user.
pub open spec fn warning_text() -> Seq<char> {
    "\u{26a0}\u{fe0f} Warning: Your message violated server rules."@
}

/// The reply that tells a user how long they are muted.
pub open spec fn timeout_notice(secs: u64) -> Seq<char> {
    "\u{23f1}\u{fe0f} You've been timed out for "@ + decimal(secs as nat) + " seconds."@
}

/// The step that answers a violation with the given rule name and action.
pub open spec fn step_for(v: ViolationView) -> ActionStepView {
    match v.action {
        AutoModAction::Delete => ActionStepView::DeleteMessage,
        AutoModAction::Warn { .. } => ActionStepView::Reply { text: warning_text() },
        AutoModAction::Timeout { duration_secs } =>
            ActionStepView::Timeout { user_id: v.user_id, duration_secs, notice: timeout_notice(duration_secs) },
        AutoModAction::Kick => ActionStepView::Kick { user_id: v.user_id, reason: v.rule_type },
        AutoModAction::Ban => ActionStepView::Ban { user_id: v.user_id, reason: v.rule_type },
        AutoModAction::SendMessage { message } => ActionStepView::Reply { text: message@ },
    }
}

/// The log channel: the configured one when it parses as an id.
pub open spec fn log_target(log_channel: Option<Seq<char>>) -> Option<u64> {
    match log_channel {
        Some(c) => parse_u64_spec(c),
        None => None,
    }
}

/// Plans the answer to a violation of a message sent in `guild_id`: an
/// error when the message was not sent in a guild, else the step for the
/// action and the log channel.
pub fn plan_action(violation: &AutoModViolation, guild_id: Option<u64>, config: &AutoModConfig) -> (r: Result<ActionPlan, String>)
    ensures
        guild_id is None ==> (r matches Err(e) && e@ == "not in guild"@),
        guild_id matches Some(g) ==> (r matches Ok(p) && p.guild_id == g && p.step@ == step_for(violation@)
            && p.log_channel == log_target(config@.log_channel)),
{
    let g = match guild_id {
        Some(g) => g,
        None => {
            return Err(String::from_str("not in guild"));
        },
    };
    let step = match &violation.action {
        AutoModAction::Delete => ActionStep::DeleteMessage,
        AutoModAction::Warn { .. } => ActionStep::Reply {
            text: String::from_str("\u{26a0}\u{fe0f} Warning: Your message violated server rules."),
        },
        AutoModAction::Timeout { duration_secs } => {
            let mut notice = String::from_str("\u{23f1}\u{fe0f} You've been timed out for ");
            push_decimal(&mut notice, *duration_secs);
            notice.append(" seconds.");
            ActionStep::Timeout { user_id: violation.user_id, duration_secs: *duration_secs, notice }
        },
        AutoModAction::Kick => ActionStep::Kick { user_id: violation.user_id, reason: violation.rule_type.clone() },
        AutoModAction::Ban => ActionStep::Ban { user_id: violation.user_id, reason: violation.rule_type.clone() },
        AutoModAction::SendMessage { message } => ActionStep::Reply { text: message.clone() },
    };
    let log_channel = match &config.log_channel {
        Some(c) => parse_u64(c.as_str()),
        None => None,
    };
    Ok(ActionPlan { guild_id: g, step, log_channel })
}

/// The link rule looks at every link of the message, wherever it stands: if
/// the domain of any captured link contains none of the allowed domains, the
/// rule is broken ("Disallowed Link"), and the history is left as it is.
pub proof fn law_link_rule_checks_every_link(h: History, allowed: Seq<Seq<char>>, action: AutoModAction, msg: MessageInfo,
    lower: Seq<char>, now: Instant, i: int)
    requires
        0 <= i < url_domains(msg.content@).len(),
        forall|j: int| 0 <= j < allowed.len() ==> !contains_seq(url_domains(msg.content@)[i], #[trigger] allowed[j]),
    ensures
        rule_outcome(h, AutoModRuleView::LinkFilter { allowed_domains: allowed, action }, msg, lower, now)
            == (h, Some(violation("Disallowed Link"@, action, msg))),
{
    let d = url_domains(msg.content@);
    assert(!domain_allowed(d[i], allowed));
    assert(has_disallowed(d, allowed));
}

/// When the domain of every captured link contains one of the allowed
/// domains, the link rule is not broken.
pub proof fn law_link_rule_passes_allowed_links(h: History, allowed: Seq<Seq<char>>, action: AutoModAction, msg: MessageInfo,
    lower: Seq<char>, now: Instant)
    requires
        forall|i: int| 0 <= i < url_domains(msg.content@).len() ==>
            exists|j: int| 0 <= j < allowed.len() && contains_seq(#[trigger] url_domains(msg.content@)[i], allowed[j]),
    ensures
        rule_outcome(h, AutoModRuleView::LinkFilter { allowed_domains: allowed, action }, msg, lower, now) == (h, None::<ViolationView>),
{
    let d = url_domains(msg.content@);
    assert forall|i: int| 0 <= i < d.len() implies domain_allowed(#[trigger] d[i], allowed) by {
        let j = choose|j: int| 0 <= j < allowed.len() && contains_seq(d[i], allowed[j]);
        assert(contains_seq(d[i], allowed[j]));
    }
}

} // verus!
