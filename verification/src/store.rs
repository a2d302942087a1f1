//! Stored configuration of the managed bots: the data model, its defaults, and
//! the keyed collection of bot configurations (list, lookup by id, insert or
//! replace, removal).

use vstd::prelude::*;

verus! {

/// What the auto-moderator does with a message that breaks a rule.
pub enum AutoModAction {
    Delete,
    Warn { max_warnings: u32 },
    Timeout { duration_secs: u64 },
    Kick,
    Ban,
    SendMessage { message: String },
}

impl Clone for AutoModAction {
    fn clone(&self) -> (r: Self)
        ensures
            r == *self,
    {
        match self {
            AutoModAction::Delete => AutoModAction::Delete,
            AutoModAction::Warn { max_warnings } => AutoModAction::Warn { max_warnings: *max_warnings },
            AutoModAction::Timeout { duration_secs } => AutoModAction::Timeout { duration_secs: *duration_secs },
            AutoModAction::Kick => AutoModAction::Kick,
            AutoModAction::Ban => AutoModAction::Ban,
            AutoModAction::SendMessage { message } => AutoModAction::SendMessage { message: message.clone() },
        }
    }
}

/// One auto-moderation rule. The caps threshold, a single-precision
/// percentage, is held as its bit pattern (`f32::to_bits`).
pub enum AutoModRule {
    SpamDetection { message_threshold: u32, time_window_secs: u64, action: AutoModAction },
    BadWords { words: Vec<String>, action: AutoModAction },
    Caps { threshold_bits: u32, action: AutoModAction },
    MentionSpam { mention_threshold: u32, action: AutoModAction },
    LinkFilter { allowed_domains: Vec<String>, action: AutoModAction },
    InviteFilter { action: AutoModAction },
}

/// Mathematical form of a rule: lists of words become sequences of texts.
pub enum AutoModRuleView {
    SpamDetection { message_threshold: u32, time_window_secs: u64, action: AutoModAction },
    BadWords { words: Seq<Seq<char>>, action: AutoModAction },
    Caps { threshold_bits: u32, action: AutoModAction },
    MentionSpam { mention_threshold: u32, action: AutoModAction },
    LinkFilter { allowed_domains: Seq<Seq<char>>, action: AutoModAction },
    InviteFilter { action: AutoModAction },
}

impl View for AutoModRule {
    type V = AutoModRuleView;

    open spec fn view(&self) -> AutoModRuleView {
        match self {
            AutoModRule::SpamDetection { message_threshold, time_window_secs, action } =>
                AutoModRuleView::SpamDetection {
                    message_threshold: *message_threshold,
                    time_window_secs: *time_window_secs,
                    action: *action,
                },
            AutoModRule::BadWords { words, action } =>
                AutoModRuleView::BadWords { words: words.deep_view(), action: *action },
            AutoModRule::Caps { threshold_bits, action } =>
                AutoModRuleView::Caps { threshold_bits: *threshold_bits, action: *action },
            AutoModRule::MentionSpam { mention_threshold, action } =>
                AutoModRuleView::MentionSpam { mention_threshold: *mention_threshold, action: *action },
            AutoModRule::LinkFilter { allowed_domains, action } =>
                AutoModRuleView::LinkFilter { allowed_domains: allowed_domains.deep_view(), action: *action },
            AutoModRule::InviteFilter { action } => AutoModRuleView::InviteFilter { action: *action },
        }
    }
}

/// A copy of a list of strings, with the same texts.
pub fn clone_strings(v: &Vec<String>) -> (r: Vec<String>)
    ensures
        r@ == v@,
        r.deep_view() == v.deep_view(),
{
    let mut r: Vec<String> = Vec::new();
    for i in 0..v.len()
        invariant
            r@ == v@.take(i as int),
    {
        r.push(v[i].clone());
        assert(v@.take(i + 1) == v@.take(i as int).push(v@[i as int]));
    }
    assert(v@.take(v@.len() as int) == v@);
    assert(r.deep_view() =~= v.deep_view());
    r
}

impl Clone for AutoModRule {
    fn clone(&self) -> (r: Self)
        ensures
            r@ == self@,
    {
        match self {
            AutoModRule::SpamDetection { message_threshold, time_window_secs, action } =>
                AutoModRule::SpamDetection {
                    message_threshold: *message_threshold,
                    time_window_secs: *time_window_secs,
                    action: action.clone(),
                },
            AutoModRule::BadWords { words, action } =>
                AutoModRule::BadWords { words: clone_strings(words), action: action.clone() },
            AutoModRule::Caps { threshold_bits, action } =>
                AutoModRule::Caps { threshold_bits: *threshold_bits, action: action.clone() },
            AutoModRule::MentionSpam { mention_threshold, action } =>
                AutoModRule::MentionSpam { mention_threshold: *mention_threshold, action: action.clone() },
            AutoModRule::LinkFilter { allowed_domains, action } =>
                AutoModRule::LinkFilter { allowed_domains: clone_strings(allowed_domains), action: action.clone() },
            AutoModRule::InviteFilter { action } => AutoModRule::InviteFilter { action: action.clone() },
        }
    }
}

/// The views of a list of rules.
pub open spec fn rules_view(rules: Seq<AutoModRule>) -> Seq<AutoModRuleView> {
    rules.map_values(|r: AutoModRule| r@)
}

proof fn lemma_rules_view_push(r: Seq<AutoModRule>, c: AutoModRule)
    ensures
        rules_view(r.push(c)) == rules_view(r).push(c@),
{
    assert(rules_view(r.push(c)) =~= rules_view(r).push(c@));
}

/// A copy of a list of rules, with the same views.
pub fn clone_rules(v: &Vec<AutoModRule>) -> (r: Vec<AutoModRule>)
    ensures
        rules_view(r@) == rules_view(v@),
{
    let mut r: Vec<AutoModRule> = Vec::new();
    for i in 0..v.len()
        invariant
            rules_view(r@) == rules_view(v@.take(i as int)),
    {
        let c = v[i].clone();
        proof {
            lemma_rules_view_push(r@, c);
            lemma_rules_view_push(v@.take(i as int), v@[i as int]);
            assert(v@.take(i + 1) == v@.take(i as int).push(v@[i as int]));
        }
        r.push(c);
    }
    assert(v@.take(v@.len() as int) == v@);
    r
}

/// Switches of the extended detection features.
pub struct AdvancedDetectionConfig {
    pub enable_spaced_variant: bool,
    pub enable_special_char_variant: bool,
    pub enable_acronym_detection: bool,
    pub enable_cross_message_detection: bool,
    pub cross_message_window_secs: u64,
}

impl Clone for AdvancedDetectionConfig {
    fn clone(&self) -> (r: Self)
        ensures
            r == *self,
    {
        AdvancedDetectionConfig {
            enable_spaced_variant: self.enable_spaced_variant,
            enable_special_char_variant: self.enable_special_char_variant,
            enable_acronym_detection: self.enable_acronym_detection,
            enable_cross_message_detection: self.enable_cross_message_detection,
            cross_message_window_secs: self.cross_message_window_secs,
        }
    }
}

impl Default for AdvancedDetectionConfig {
    /// Every feature on, with a sixty-second cross-message window.
    fn default() -> (r: Self)
        ensures
            r.enable_spaced_variant,
            r.enable_special_char_variant,
            r.enable_acronym_detection,
            r.enable_cross_message_detection,
            r.cross_message_window_secs == 60,
    {
        AdvancedDetectionConfig {
            enable_spaced_variant: true,
            enable_special_char_variant: true,
            enable_acronym_detection: true,
            enable_cross_message_detection: true,
            cross_message_window_secs: 60,
        }
    }
}

/// Auto-moderation settings of one bot.
pub struct AutoModConfig {
    pub enabled: bool,
    pub rules: Vec<AutoModRule>,
    pub ignored_channels: Vec<String>,
    pub ignored_roles: Vec<String>,
    pub whitelist_users: Vec<String>,
    pub log_channel: Option<String>,
    pub advanced_detection: AdvancedDetectionConfig,
}

/// Mathematical form of the auto-moderation settings.
pub struct AutoModConfigView {
    pub enabled: bool,
    pub rules: Seq<AutoModRuleView>,
    pub ignored_channels: Seq<Seq<char>>,
    pub ignored_roles: Seq<Seq<char>>,
    pub whitelist_users: Seq<Seq<char>>,
    pub log_channel: Option<Seq<char>>,
    pub advanced_detection: AdvancedDetectionConfig,
}

/// The text of an optional string.
pub open spec fn opt_text(s: Option<String>) -> Option<Seq<char>> {
    match s {
        Some(t) => Some(t@),
        None => None,
    }
}

impl View for AutoModConfig {
    type V = AutoModConfigView;

    open spec fn view(&self) -> AutoModConfigView {
        AutoModConfigView {
            enabled: self.enabled,
            rules: rules_view(self.rules@),
            ignored_channels: self.ignored_channels.deep_view(),
            ignored_roles: self.ignored_roles.deep_view(),
            whitelist_users: self.whitelist_users.deep_view(),
            log_channel: opt_text(self.log_channel),
            advanced_detection: self.advanced_detection,
        }
    }
}

/// A copy of an optional string, with the same text.
pub fn clone_opt_string(s: &Option<String>) -> (r: Option<String>)
    ensures
        r == *s,
{
    match s {
        Some(c) => Some(c.clone()),
        None => None,
    }
}

impl Clone for AutoModConfig {
    fn clone(&self) -> (r: Self)
        ensures
            r@ == self@,
    {
        AutoModConfig {
            enabled: self.enabled,
            rules: clone_rules(&self.rules),
            ignored_channels: clone_strings(&self.ignored_channels),
            ignored_roles: clone_strings(&self.ignored_roles),
            whitelist_users: clone_strings(&self.whitelist_users),
            log_channel: clone_opt_string(&self.log_channel),
            advanced_detection: self.advanced_detection.clone(),
        }
    }
}

/// The settings that a new or unconfigured bot starts with.
pub open spec fn default_automod_view() -> AutoModConfigView {
    AutoModConfigView {
        enabled: false,
        rules: Seq::empty(),
        ignored_channels: Seq::empty(),
        ignored_roles: Seq::empty(),
        whitelist_users: Seq::empty(),
        log_channel: None,
        advanced_detection: AdvancedDetectionConfig {
            enable_spaced_variant: true,
            enable_special_char_variant: true,
            enable_acronym_detection: true,
            enable_cross_message_detection: true,
            cross_message_window_secs: 60,
        },
    }
}

impl Default for AutoModConfig {
    /// Disabled, with no rules, no exemptions and no log channel.
    fn default() -> (r: Self)
        ensures
            r@ == default_automod_view(),
    {
        let r = AutoModConfig {
            enabled: false,
            rules: Vec::new(),
            ignored_channels: Vec::new(),
            ignored_roles: Vec::new(),
            whitelist_users: Vec::new(),
            log_channel: None,
            advanced_detection: AdvancedDetectionConfig::default(),
        };
        assert(r@.rules =~= Seq::<AutoModRuleView>::empty());
        assert(r@.ignored_channels =~= Seq::<Seq<char>>::empty());
        assert(r@.ignored_roles =~= Seq::<Seq<char>>::empty());
        assert(r@.whitelist_users =~= Seq::<Seq<char>>::empty());
        r
    }
}

/// The stored configuration of one bot.
pub struct BotConfig {
    pub id: String,
    pub name: String,
    pub token: String,
    pub xai_api_key: String,
    pub model: String,
    pub persona: String,
    pub ai_enabled: bool,
    pub history_size: usize,
    pub automod: AutoModConfig,
}

/// Mathematical form of a bot configuration.
pub struct BotConfigView {
    pub id: Seq<char>,
    pub name: Seq<char>,
    pub token: Seq<char>,
    pub xai_api_key: Seq<char>,
    pub model: Seq<char>,
    pub persona: Seq<char>,
    pub ai_enabled: bool,
    pub history_size: usize,
    pub automod: AutoModConfigView,
}

impl View for BotConfig {
    type V = BotConfigView;

    open spec fn view(&self) -> BotConfigView {
        BotConfigView {
            id: self.id@,
            name: self.name@,
            token: self.token@,
            xai_api_key: self.xai_api_key@,
            model: self.model@,
            persona: self.persona@,
            ai_enabled: self.ai_enabled,
            history_size: self.history_size,
            automod: self.automod@,
        }
    }
}

impl Clone for BotConfig {
    fn clone(&self) -> (r: Self)
        ensures
            r@ == self@,
    {
        BotConfig {
            id: self.id.clone(),
            name: self.name.clone(),
            token: self.token.clone(),
            xai_api_key: self.xai_api_key.clone(),
            model: self.model.clone(),
            persona: self.persona.clone(),
            ai_enabled: self.ai_enabled,
            history_size: self.history_size,
            automod: self.automod.clone(),
        }
    }
}

/// The model that a bot uses when none is configured.
pub fn default_model() -> (r: String)
    ensures
        r@ == "grok-4.3"@,
{
    String::from_str("grok-4.3")
}

/// AI replies are on unless switched off.
pub fn default_true() -> (r: bool)
    ensures
        r,
{
    true
}

/// Number of earlier channel messages handed to the AI by default.
pub fn default_history() -> (r: usize)
    ensures
        r == 10,
{
    10
}

/// Messages within the window that count as spam by default.
pub fn default_spam_threshold() -> (r: u32)
    ensures
        r == 5,
{
    5
}

/// Length in seconds of the default spam window.
pub fn default_spam_window() -> (r: u64)
    ensures
        r == 10,
{
    10
}

/// Default caps threshold, 70 %, as the bit pattern of the single-precision
/// number 70.0.
pub fn default_caps_threshold() -> (r: u32)
    ensures
        r == 0x428C_0000,
{
    0x428C_0000
}

/// Mentions in one message that count as mention spam by default.
pub fn default_mention_threshold() -> (r: u32)
    ensures
        r == 5,
{
    5
}

/// The views of a list of bot configurations.
pub open spec fn bots_view(bots: Seq<BotConfig>) -> Seq<BotConfigView> {
    bots.map_values(|b: BotConfig| b@)
}

proof fn lemma_bots_view_push(r: Seq<BotConfig>, c: BotConfig)
    ensures
        bots_view(r.push(c)) == bots_view(r).push(c@),
{
    assert(bots_view(r.push(c)) =~= bots_view(r).push(c@));
}

/// Whether `i` is the first position of `bots` whose id is `id`.
pub open spec fn is_first(bots: Seq<BotConfigView>, id: Seq<char>, i: int) -> bool {
    &&& 0 <= i < bots.len()
    &&& bots[i].id == id
    &&& forall|j: int| 0 <= j < i ==> (#[trigger] bots[j]).id != id
}

/// Whether some bot of `bots` has the id.
pub open spec fn has_id(bots: Seq<BotConfigView>, id: Seq<char>) -> bool {
    exists|i: int| 0 <= i < bots.len() && (#[trigger] bots[i]).id == id
}

/// The first position with the id, if any.
pub open spec fn position(bots: Seq<BotConfigView>, id: Seq<char>) -> Option<int> {
    if exists|i: int| is_first(bots, id, i) {
        Some(choose|i: int| is_first(bots, id, i))
    } else {
        None
    }
}

/// The configuration that a lookup by id finds: the first with that id.
pub open spec fn lookup(bots: Seq<BotConfigView>, id: Seq<char>) -> Option<BotConfigView> {
    match position(bots, id) {
        Some(i) => Some(bots[i]),
        None => None,
    }
}

/// The collection after storing `bot`: it replaces the first configuration
/// with the same id, or is appended when there is none.
pub open spec fn upserted(bots: Seq<BotConfigView>, bot: BotConfigView) -> Seq<BotConfigView> {
    match position(bots, bot.id) {
        Some(i) => bots.update(i, bot),
        None => bots.push(bot),
    }
}

/// The collection after removing every configuration with the id.
pub open spec fn removed(bots: Seq<BotConfigView>, id: Seq<char>) -> Seq<BotConfigView> {
    bots.filter(|b: BotConfigView| b.id != id)
}

/// A bot with the id has a first position, and it is unique.
pub proof fn lemma_position(bots: Seq<BotConfigView>, id: Seq<char>)
    ensures
        has_id(bots, id) <==> position(bots, id) is Some,
        forall|i: int| is_first(bots, id, i) ==> position(bots, id) == Some(i),
        position(bots, id) matches Some(i) ==> is_first(bots, id, i),
{
    if has_id(bots, id) {
        let k = choose|k: int| 0 <= k < bots.len() && (#[trigger] bots[k]).id == id;
        lemma_first_exists(bots, id, k);
    }
    assert forall|i: int| is_first(bots, id, i) implies position(bots, id) == Some(i) by {
        let c = choose|c: int| is_first(bots, id, c);
        if c < i {
            assert(bots[c].id != id);
        } else if i < c {
            assert(bots[i].id != id);
        }
    }
}

proof fn lemma_first_exists(bots: Seq<BotConfigView>, id: Seq<char>, k: int)
    requires
        0 <= k < bots.len(),
        bots[k].id == id,
    ensures
        exists|i: int| is_first(bots, id, i),
    decreases k,
{
    if exists|j: int| 0 <= j < k && (#[trigger] bots[j]).id == id {
        let j = choose|j: int| 0 <= j < k && (#[trigger] bots[j]).id == id;
        lemma_first_exists(bots, id, j);
    } else {
        assert(is_first(bots, id, k));
    }
}

/// Read after write: once a configuration is stored, a lookup of its id
/// finds exactly it.
pub proof fn law_lookup_after_upsert(bots: Seq<BotConfigView>, bot: BotConfigView)
    ensures
        lookup(upserted(bots, bot), bot.id) == Some(bot),
{
    lemma_position(bots, bot.id);
    let new = upserted(bots, bot);
    match position(bots, bot.id) {
        Some(i) => {
            assert(is_first(new, bot.id, i));
        },
        None => {
            assert(is_first(new, bot.id, bots.len() as int));
        },
    }
    lemma_position(new, bot.id);
}

/// Storing a configuration leaves the lookup of every other id unchanged.
pub proof fn law_upsert_keeps_others(bots: Seq<BotConfigView>, bot: BotConfigView, id: Seq<char>)
    requires
        id != bot.id,
    ensures
        lookup(upserted(bots, bot), id) == lookup(bots, id),
{
    lemma_position(bots, bot.id);
    lemma_position(bots, id);
    let new = upserted(bots, bot);
    lemma_position(new, id);
    assert forall|k: int| is_first(new, id, k) <==> is_first(bots, id, k) by {
        match position(bots, bot.id) {
            Some(i) => {
                assert forall|j: int| 0 <= j < bots.len() && j != i implies new[j] == bots[j] by {}
            },
            None => {
                assert forall|j: int| 0 <= j < bots.len() implies new[j] == bots[j] by {}
            },
        }
    }
    match position(bots, id) {
        Some(k) => {
            assert(is_first(new, id, k));
            match position(bots, bot.id) {
                Some(i) => { assert(k != i); },
                None => {},
            }
        },
        None => {
            if position(new, id) is Some {
                let k = position(new, id)->0;
                assert(is_first(bots, id, k));
            }
        },
    }
}

/// Storing the same configuration twice changes nothing the second time.
pub proof fn law_upsert_idempotent(bots: Seq<BotConfigView>, bot: BotConfigView)
    ensures
        upserted(upserted(bots, bot), bot) == upserted(bots, bot),
{
    lemma_position(bots, bot.id);
    let new = upserted(bots, bot);
    lemma_position(new, bot.id);
    match position(bots, bot.id) {
        Some(i) => {
            assert(is_first(new, bot.id, i));
            assert(new.update(i, bot) =~= new);
        },
        None => {
            assert(is_first(new, bot.id, bots.len() as int));
            assert(new.update(bots.len() as int, bot) =~= new);
        },
    }
}

/// Storing a configuration whose id is present keeps the number of
/// configurations; storing a new id adds exactly one.
pub proof fn law_upsert_len(bots: Seq<BotConfigView>, bot: BotConfigView)
    ensures
        has_id(bots, bot.id) ==> upserted(bots, bot).len() == bots.len(),
        !has_id(bots, bot.id) ==> upserted(bots, bot).len() == bots.len() + 1,
{
    lemma_position(bots, bot.id);
}

proof fn lemma_lookup_prepend(x: BotConfigView, rest: Seq<BotConfigView>, id: Seq<char>)
    ensures
        lookup(seq![x] + rest, id) == (if x.id == id { Some(x) } else { lookup(rest, id) }),
{
    let s = seq![x] + rest;
    lemma_position(s, id);
    lemma_position(rest, id);
    if x.id == id {
        assert(is_first(s, id, 0));
    } else {
        match position(rest, id) {
            Some(j) => {
                assert forall|k: int| 0 <= k < j + 1 implies (#[trigger] s[k]).id != id by {
                    if k > 0 {
                        assert(s[k] == rest[k - 1]);
                    }
                }
                assert(is_first(s, id, j + 1));
            },
            None => {
                if position(s, id) is Some {
                    let k = position(s, id)->0;
                    assert(s[k] == rest[k - 1]);
                    assert(rest[k - 1].id == id);
                    assert(has_id(rest, id));
                }
            },
        }
    }
}

/// After removing an id, a lookup of it finds nothing, and a lookup of any
/// other id finds what it found before.
pub proof fn law_lookup_after_remove(bots: Seq<BotConfigView>, id: Seq<char>, other: Seq<char>)
    ensures
        lookup(removed(bots, id), id) is None,
        other != id ==> lookup(removed(bots, id), other) == lookup(bots, other),
    decreases bots.len(),
{
    let pred = |b: BotConfigView| b.id != id;
    if bots.len() == 0 {
        assert(removed(bots, id) =~= bots) by {
            reveal(Seq::filter);
        }
        lemma_position(bots, id);
        lemma_position(bots, other);
    } else {
        let x = bots[0];
        let rest = bots.drop_first();
        assert(bots == seq![x] + rest);
        rest.lemma_filter_prepend(x, pred);
        law_lookup_after_remove(rest, id, other);
        lemma_lookup_prepend(x, rest, id);
        lemma_lookup_prepend(x, rest, other);
        lemma_lookup_prepend(x, removed(rest, id), id);
        lemma_lookup_prepend(x, removed(rest, id), other);
    }
}

/// The optional view of an optional configuration.
pub open spec fn opt_bot_view(b: Option<BotConfig>) -> Option<BotConfigView> {
    match b {
        Some(c) => Some(c@),
        None => None,
    }
}

/// All stored bot configurations.
pub struct Store {
    pub bots: Vec<BotConfig>,
}

impl View for Store {
    type V = Seq<BotConfigView>;

    open spec fn view(&self) -> Seq<BotConfigView> {
        bots_view(self.bots@)
    }
}

impl Default for Store {
    /// The empty store.
    fn default() -> (r: Self)
        ensures
            r@.len() == 0,
    {
        Store { bots: Vec::new() }
    }
}

impl Store {
    /// The empty store.
    pub fn new() -> (r: Self)
        ensures
            r@.len() == 0,
    {
        Store { bots: Vec::new() }
    }

    /// First position of a configuration with the id.
    pub fn find(&self, id: &str) -> (r: Option<usize>)
        ensures
            r matches Some(i) ==> position(self@, id@) == Some(i as int),
            r is None ==> !has_id(self@, id@) && position(self@, id@) is None,
            position(self@, id@) matches Some(i) ==> is_first(self@, id@, i),
    {
        proof {
            lemma_position(self@, id@);
        }
        let key = String::from_str(id);
        let mut i: usize = 0;
        while i < self.bots.len()
            invariant
                key@ == id@,
                i <= self.bots@.len(),
                forall|j: int| 0 <= j < i ==> (#[trigger] self@[j]).id != id@,
            decreases self.bots@.len() - i,
        {
            if self.bots[i].id == key {
                assert(is_first(self@, id@, i as int));
                return Some(i);
            }
            i = i + 1;
        }
        None
    }

    /// Every stored configuration, in order.
    pub fn list(&self) -> (r: Vec<BotConfig>)
        ensures
            bots_view(r@) == self@,
    {
        let mut r: Vec<BotConfig> = Vec::new();
        for i in 0..self.bots.len()
            invariant
                bots_view(r@) == bots_view(self.bots@.take(i as int)),
        {
            let c = self.bots[i].clone();
            proof {
                lemma_bots_view_push(r@, c);
                lemma_bots_view_push(self.bots@.take(i as int), self.bots@[i as int]);
                assert(self.bots@.take(i + 1) == self.bots@.take(i as int).push(self.bots@[i as int]));
            }
            r.push(c);
        }
        assert(self.bots@.take(self.bots@.len() as int) == self.bots@);
        r
    }

    /// The configuration with the id (the first one, should there be several).
    pub fn get(&self, id: &str) -> (r: Option<BotConfig>)
        ensures
            opt_bot_view(r) == lookup(self@, id@),
            r is Some <==> has_id(self@, id@),
    {
        proof {
            lemma_position(self@, id@);
        }
        match self.find(id) {
            Some(i) => Some(self.bots[i].clone()),
            None => None,
        }
    }

    /// Stores `bot`: it replaces the configuration with the same id, or is
    /// appended when there is none.
    pub fn upsert(&mut self, bot: BotConfig)
        ensures
            final(self)@ == upserted(old(self)@, bot@),
    {
        match self.find(bot.id.as_str()) {
            Some(i) => {
                self.bots.set(i, bot);
                assert(final(self)@ =~= upserted(old(self)@, bot@));
            },
            None => {
                self.bots.push(bot);
                assert(final(self)@ =~= upserted(old(self)@, bot@));
            },
        }
    }

    /// Removes every configuration with the id.
    pub fn remove(&mut self, id: &str)
        ensures
            final(self)@ == removed(old(self)@, id@),
    {
        let ghost pred = |b: BotConfigView| b.id != id@;
        let mut kept: Vec<BotConfig> = Vec::new();
        let mut old_bots: Vec<BotConfig> = Vec::new();
        std::mem::swap(&mut old_bots, &mut self.bots);
        let ghost orig = bots_view(old_bots@);
        let key = String::from_str(id);
        let mut i: usize = 0;
        while i < old_bots.len()
            invariant
                key@ == id@,
                pred == (|b: BotConfigView| b.id != id@),
                i <= old_bots@.len(),
                orig == bots_view(old_bots@),
                bots_view(kept@) == orig.take(i as int).filter(pred),
            decreases old_bots@.len() - i,
        {
            let b = old_bots[i].clone();
            proof {
                orig.take(i as int).lemma_filter_push(orig[i as int], pred);
                assert(orig.take(i + 1) == orig.take(i as int).push(orig[i as int]));
                assert(orig[i as int] == b@);
                lemma_bots_view_push(kept@, b);
            }
            if b.id != key {
                assert(pred(orig[i as int]));
                kept.push(b);
                assert(bots_view(kept@) == orig.take(i + 1).filter(pred));
            } else {
                assert(!pred(orig[i as int]));
                assert(bots_view(kept@) == orig.take(i + 1).filter(pred));
            }
            i = i + 1;
        }
        assert(orig.take(orig.len() as int) == orig);
        self.bots = kept;
    }
}

} // verus!
