//! The commands of the management window: saving a bot, editing its
//! auto-moderation settings, and the views of bots, guilds, members and roles
//! that the window shows.

use vstd::prelude::*;
use crate::bot::BotRegistry;
use crate::store::{
    AutoModConfig, AutoModConfigView, AutoModRule, AutoModRuleView, BotConfig, BotConfigView, Store,
    bots_view, clone_opt_string, default_automod_view, has_id, lookup, opt_bot_view, opt_text,
    rules_view, upserted, lemma_position,
};
use crate::text::{decimal, parse_u64, parse_u64_spec, to_decimal};

verus! {

/// What the window sends to save a bot: the id of an existing bot (none for
/// a new one), its name and token, and the settings to change.
pub struct UpsertBotInput {
    pub id: Option<String>,
    pub name: String,
    pub token: String,
    pub xai_api_key: Option<String>,
    pub model: Option<String>,
    pub persona: Option<String>,
    pub ai_enabled: Option<bool>,
    pub history_size: Option<usize>,
    pub automod: Option<AutoModConfig>,
}

/// A setting of a saved bot: the given one, else the existing bot's, else
/// the default.
pub open spec fn pick<A>(given: Option<A>, existing: Option<A>, default: A) -> A {
    match given {
        Some(g) => g,
        None => match existing {
            Some(e) => e,
            None => default,
        },
    }
}

/// The text of an optional string.
pub open spec fn opt_str(s: Option<String>) -> Option<Seq<char>> {
    opt_text(s)
}

/// The configuration saved for the input under the id, given the existing
/// configuration with that id, if any.
pub open spec fn merged(input: UpsertBotInput, id: Seq<char>, existing: Option<BotConfigView>) -> BotConfigView {
    BotConfigView {
        id,
        name: input.name@,
        token: input.token@,
        xai_api_key: pick(opt_str(input.xai_api_key), match existing { Some(e) => Some(e.xai_api_key), None => None }, ""@),
        model: pick(opt_str(input.model), match existing { Some(e) => Some(e.model), None => None }, "grok-4.3"@),
        persona: pick(opt_str(input.persona), match existing { Some(e) => Some(e.persona), None => None }, ""@),
        ai_enabled: pick(input.ai_enabled, match existing { Some(e) => Some(e.ai_enabled), None => None }, true),
        history_size: pick(input.history_size, match existing { Some(e) => Some(e.history_size), None => None }, 10),
        automod: pick(
            match input.automod { Some(a) => Some(a@), None => None },
            match existing { Some(e) => Some(e.automod), None => None },
            default_automod_view(),
        ),
    }
}

fn pick_text(given: Option<String>, existing: Option<&String>, default: &str) -> (r: String)
    ensures
        r@ == pick(opt_str(given), match existing { Some(e) => Some(e@), None => None }, default@),
{
    match given {
        Some(g) => g,
        None => match existing {
            Some(e) => e.clone(),
            None => String::from_str(default),
        },
    }
}

/// Whether `c` is a lower-case hexadecimal digit.
pub open spec fn is_lower_hex(c: char) -> bool {
    ('0' <= c && c <= '9') || ('a' <= c && c <= 'f')
}

/// Whether the text is the hyphenated lower-case form of a random (version 4,
/// RFC 4122 variant) UUID: 36 characters, hyphens at positions 8, 13, 18 and
/// 23, hexadecimal digits elsewhere, the version digit `4` at position 14
/// and one of `8`, `9`, `a`, `b` at position 19.
pub open spec fn is_v4_uuid_text(s: Seq<char>) -> bool {
    &&& s.len() == 36
    &&& forall|i: int| 0 <= i < 36 ==> (#[trigger] s[i] == '-' <==> (i == 8 || i == 13 || i == 18 || i == 23))
    &&& forall|i: int| 0 <= i < 36 && i != 8 && i != 13 && i != 18 && i != 23 ==> is_lower_hex(#[trigger] s[i])
    &&& s[14] == '4'
    &&& (s[19] == '8' || s[19] == '9' || s[19] == 'a' || s[19] == 'b')
}

/// `uuid::Uuid::new_v4` of uuid, rendered with `to_string`: random, so the
/// value is not named; its text is the hyphenated lower-case form of a
/// version 4 UUID.
#[verifier::external_body]
fn new_bot_id() -> (r: String)
    ensures
        is_v4_uuid_text(r@),
{
    uuid::Uuid::new_v4().to_string()
}

/// The configuration saved for an input under the id, given the existing
/// configuration with that id.
pub fn merge_bot_input(input: UpsertBotInput, id: String, existing: Option<BotConfig>) -> (r: BotConfig)
    ensures
        r@ == merged(input, id@, opt_bot_view(existing)),
{
    let ex = existing;
    let xai_api_key = pick_text(input.xai_api_key, match &ex { Some(e) => Some(&e.xai_api_key), None => None }, "");
    let model = pick_text(input.model, match &ex { Some(e) => Some(&e.model), None => None }, "grok-4.3");
    let persona = pick_text(input.persona, match &ex { Some(e) => Some(&e.persona), None => None }, "");
    let ai_enabled = match input.ai_enabled {
        Some(b) => b,
        None => match &ex { Some(e) => e.ai_enabled, None => true },
    };
    let history_size = match input.history_size {
        Some(h) => h,
        None => match &ex { Some(e) => e.history_size, None => 10 },
    };
    let automod = match input.automod {
        Some(a) => a,
        None => match &ex { Some(e) => e.automod.clone(), None => AutoModConfig::default() },
    };
    proof {
        reveal_strlit("");
    }
    BotConfig {
        id,
        name: input.name,
        token: input.token,
        xai_api_key,
        model,
        persona,
        ai_enabled,
        history_size,
        automod,
    }
}

/// Saves a bot from the window's input: under the given id, or a fresh
/// random one; settings left out keep the existing bot's values, or take the
/// defaults for a new bot. Returns the saved configuration.
pub fn save_bot(store: &mut Store, input: UpsertBotInput) -> (r: BotConfig)
    ensures
        match input.id {
            Some(i) => r@ == merged(input, i@, lookup(old(store)@, i@)),
            None => r@ == merged(input, r@.id, lookup(old(store)@, r@.id)) && is_v4_uuid_text(r@.id),
        },
        final(store)@ == upserted(old(store)@, r@),
{
    let id = match &input.id {
        Some(i) => i.clone(),
        None => new_bot_id(),
    };
    let existing = store.get(id.as_str());
    let cfg = merge_bot_input(input, id, existing);
    store.upsert(cfg.clone());
    cfg
}

/// The bot after its auto-moderation settings are replaced.
pub open spec fn with_automod(b: BotConfigView, a: AutoModConfigView) -> BotConfigView {
    BotConfigView { automod: a, ..b }
}

/// The outcome of an edit of a bot's auto-moderation settings: the error
/// `bot not found` when no bot has the id; else the edited bot, which is
/// stored.
pub open spec fn edit_outcome(old: Seq<BotConfigView>, new: Seq<BotConfigView>, id: Seq<char>, r: Result<BotConfig, String>, edit: spec_fn(AutoModConfigView) -> AutoModConfigView) -> bool {
    match lookup(old, id) {
        None => new == old && (r matches Err(e) && e@ == "bot not found"@),
        Some(b) => r matches Ok(c) && c@ == with_automod(b, edit(b.automod)) && new == upserted(old, c@),
    }
}

/// An edit of one bot's auto-moderation settings leaves every other bot as
/// a lookup finds it, and a lookup of the edited bot finds the edit.
pub proof fn law_edit_keeps_other_bots(old: Seq<BotConfigView>, new: Seq<BotConfigView>, id: Seq<char>, r: Result<BotConfig, String>,
    edit: spec_fn(AutoModConfigView) -> AutoModConfigView, other: Seq<char>)
    requires
        edit_outcome(old, new, id, r, edit),
        other != id,
    ensures
        lookup(new, other) == lookup(old, other),
        r matches Ok(c) ==> lookup(new, id) == Some(c@),
{
    match lookup(old, id) {
        None => {},
        Some(b) => {
            lemma_position(old, id);
            let i = crate::store::position(old, id)->0;
            assert(old[i] == b);
            let c = r->Ok_0;
            assert(c@.id == id);
            crate::store::law_upsert_keeps_others(old, c@, other);
            crate::store::law_lookup_after_upsert(old, c@);
        },
    }
}

/// Removing a rule at an index past the end of the rules leaves the rules as
/// they are.
pub proof fn law_remove_rule_past_end(rules: Seq<AutoModRuleView>, index: usize)
    requires
        index >= rules.len(),
    ensures
        without_rule(rules, index) == rules,
{
}

/// The bot with the id, or the error `bot not found`.
pub fn find_bot(store: &Store, id: &str) -> (r: Result<BotConfig, String>)
    ensures
        match lookup(store@, id@) {
            None => r matches Err(e) && e@ == "bot not found"@,
            Some(b) => r matches Ok(c) && c@ == b,
        },
{
    proof {
        lemma_position(store@, id@);
    }
    match store.get(id) {
        Some(c) => Ok(c),
        None => Err(String::from_str("bot not found")),
    }
}

/// The auto-moderation settings of the bot with the id.
pub fn get_automod_config(store: &Store, id: &str) -> (r: Result<AutoModConfig, String>)
    ensures
        match lookup(store@, id@) {
            None => r matches Err(e) && e@ == "bot not found"@,
            Some(b) => r matches Ok(a) && a@ == b.automod,
        },
{
    let cfg = find_bot(store, id)?;
    Ok(cfg.automod)
}

fn commit(store: &mut Store, cfg: BotConfig) -> (r: Result<BotConfig, String>)
    ensures
        r matches Ok(c) && c@ == cfg@,
        final(store)@ == upserted(old(store)@, cfg@),
{
    store.upsert(cfg.clone());
    Ok(cfg)
}

/// Replaces the auto-moderation settings of the bot with the id; returns
/// the stored bot.
pub fn update_automod_config(store: &mut Store, id: &str, config: AutoModConfig) -> (r: Result<BotConfig, String>)
    ensures
        edit_outcome(old(store)@, final(store)@, id@, r, |a: AutoModConfigView| config@),
{
    let mut cfg = match find_bot(store, id) {
        Ok(c) => c,
        Err(e) => {
            return Err(e);
        },
    };
    cfg.automod = config;
    commit(store, cfg)
}

/// Switches auto-moderation of the bot with the id on or off.
pub fn toggle_automod(store: &mut Store, id: &str, enabled: bool) -> (r: Result<BotConfig, String>)
    ensures
        edit_outcome(old(store)@, final(store)@, id@, r, |a: AutoModConfigView| AutoModConfigView { enabled, ..a }),
{
    let mut cfg = match find_bot(store, id) {
        Ok(c) => c,
        Err(e) => {
            return Err(e);
        },
    };
    cfg.automod.enabled = enabled;
    commit(store, cfg)
}

/// Appends a rule to the bot with the id.
pub fn add_automod_rule(store: &mut Store, id: &str, rule: AutoModRule) -> (r: Result<BotConfig, String>)
    ensures
        edit_outcome(old(store)@, final(store)@, id@, r, |a: AutoModConfigView| AutoModConfigView { rules: a.rules.push(rule@), ..a }),
{
    let mut cfg = match find_bot(store, id) {
        Ok(c) => c,
        Err(e) => {
            return Err(e);
        },
    };
    let ghost before = cfg.automod.rules@;
    cfg.automod.rules.push(rule);
    assert(rules_view(cfg.automod.rules@) =~= rules_view(before).push(rule@));
    commit(store, cfg)
}

/// The rules after removing the one at the index; an index past the end
/// leaves them as they are.
pub open spec fn without_rule(rules: Seq<AutoModRuleView>, index: usize) -> Seq<AutoModRuleView> {
    if index < rules.len() { rules.remove(index as int) } else { rules }
}

/// Removes the rule at the index from the bot with the id (nothing when the
/// index is past the end); the bot is stored either way.
pub fn remove_automod_rule(store: &mut Store, id: &str, rule_index: usize) -> (r: Result<BotConfig, String>)
    ensures
        edit_outcome(old(store)@, final(store)@, id@, r, |a: AutoModConfigView| AutoModConfigView { rules: without_rule(a.rules, rule_index), ..a }),
{
    let mut cfg = match find_bot(store, id) {
        Ok(c) => c,
        Err(e) => {
            return Err(e);
        },
    };
    if rule_index < cfg.automod.rules.len() {
        let ghost before = cfg.automod.rules@;
        cfg.automod.rules.remove(rule_index);
        assert(rules_view(cfg.automod.rules@) =~= rules_view(before).remove(rule_index as int));
    }
    commit(store, cfg)
}

/// Sets the ignored channels of the bot with the id.
pub fn set_automod_ignored_channels(store: &mut Store, id: &str, channels: Vec<String>) -> (r: Result<BotConfig, String>)
    ensures
        edit_outcome(old(store)@, final(store)@, id@, r, |a: AutoModConfigView| AutoModConfigView { ignored_channels: channels.deep_view(), ..a }),
{
    let mut cfg = match find_bot(store, id) {
        Ok(c) => c,
        Err(e) => {
            return Err(e);
        },
    };
    cfg.automod.ignored_channels = channels;
    commit(store, cfg)
}

/// Sets the ignored roles of the bot with the id.
pub fn set_automod_ignored_roles(store: &mut Store, id: &str, roles: Vec<String>) -> (r: Result<BotConfig, String>)
    ensures
        edit_outcome(old(store)@, final(store)@, id@, r, |a: AutoModConfigView| AutoModConfigView { ignored_roles: roles.deep_view(), ..a }),
{
    let mut cfg = match find_bot(store, id) {
        Ok(c) => c,
        Err(e) => {
            return Err(e);
        },
    };
    cfg.automod.ignored_roles = roles;
    commit(store, cfg)
}

/// Sets the white-listed users of the bot with the id.
pub fn set_automod_whitelist(store: &mut Store, id: &str, users: Vec<String>) -> (r: Result<BotConfig, String>)
    ensures
        edit_outcome(old(store)@, final(store)@, id@, r, |a: AutoModConfigView| AutoModConfigView { whitelist_users: users.deep_view(), ..a }),
{
    let mut cfg = match find_bot(store, id) {
        Ok(c) => c,
        Err(e) => {
            return Err(e);
        },
    };
    cfg.automod.whitelist_users = users;
    commit(store, cfg)
}

/// Sets (or clears) the log channel of the bot with the id.
pub fn set_automod_log_channel(store: &mut Store, id: &str, channel: Option<String>) -> (r: Result<BotConfig, String>)
    ensures
        edit_outcome(old(store)@, final(store)@, id@, r, |a: AutoModConfigView| AutoModConfigView { log_channel: opt_text(channel), ..a }),
{
    let mut cfg = match find_bot(store, id) {
        Ok(c) => c,
        Err(e) => {
            return Err(e);
        },
    };
    cfg.automod.log_channel = channel;
    commit(store, cfg)
}

/// A guild id typed in the window, read as a number.
pub fn guild_target(guild_id: &str) -> (r: Result<u64, String>)
    ensures
        match parse_u64_spec(guild_id@) {
            Some(g) => r == Ok::<u64, String>(g),
            None => r matches Err(e) && e@ == "bad guild id"@,
        },
{
    match parse_u64(guild_id) {
        Some(g) => Ok(g),
        None => Err(String::from_str("bad guild id")),
    }
}

/// The guild and user ids of a moderation command, read in that order.
pub fn member_target(guild_id: &str, user_id: &str) -> (r: Result<(u64, u64), String>)
    ensures
        match (parse_u64_spec(guild_id@), parse_u64_spec(user_id@)) {
            (None, _) => r matches Err(e) && e@ == "bad guild id"@,
            (Some(_), None) => r matches Err(e) && e@ == "bad user id"@,
            (Some(g), Some(u)) => r == Ok::<(u64, u64), String>((g, u)),
        },
{
    let g = guild_target(guild_id)?;
    match parse_u64(user_id) {
        Some(u) => Ok((g, u)),
        None => Err(String::from_str("bad user id")),
    }
}

/// The guild, user and role ids of a role command, read in that order.
pub fn role_target(guild_id: &str, user_id: &str, role_id: &str) -> (r: Result<(u64, u64, u64), String>)
    ensures
        match (parse_u64_spec(guild_id@), parse_u64_spec(user_id@), parse_u64_spec(role_id@)) {
            (None, _, _) => r matches Err(e) && e@ == "bad guild id"@,
            (Some(_), None, _) => r matches Err(e) && e@ == "bad user id"@,
            (Some(_), Some(_), None) => r matches Err(e) && e@ == "bad role id"@,
            (Some(g), Some(u), Some(q)) => r == Ok::<(u64, u64, u64), String>((g, u, q)),
        },
{
    let (g, u) = match member_target(guild_id, user_id) {
        Ok(t) => t,
        Err(e) => {
            return Err(e);
        },
    };
    match parse_u64(role_id) {
        Some(q) => Ok((g, u, q)),
        None => Err(String::from_str("bad role id")),
    }
}

/// A bot as the window lists it: its configuration and whether it runs.
pub struct BotView {
    pub config: BotConfig,
    pub running: bool,
}

/// Every stored bot, in order, marked with whether it is running.
pub fn list_bots<T>(store: &Store, registry: &BotRegistry<T>) -> (r: Vec<BotView>)
    ensures
        r@.len() == store@.len(),
        forall|i: int| 0 <= i < r@.len() ==> (#[trigger] r@[i]).config@ == store@[i]
            && r@[i].running == registry@.contains_key(store@[i].id),
{
    let bots = store.list();
    let mut r: Vec<BotView> = Vec::new();
    let mut i: usize = 0;
    while i < bots.len()
        invariant
            i <= bots@.len(),
            bots_view(bots@) == store@,
            r@.len() == i,
            forall|k: int| 0 <= k < i ==> (#[trigger] r@[k]).config@ == store@[k]
                && r@[k].running == registry@.contains_key(store@[k].id),
        decreases bots@.len() - i,
    {
        let c = bots[i].clone();
        assert(c@ == store@[i as int]);
        let running = registry.is_running(c.id.as_str());
        r.push(BotView { config: c, running });
        i = i + 1;
    }
    r
}

/// A guild of a running bot as the window shows it.
pub struct GuildView {
    pub id: String,
    pub name: String,
    pub member_count: u64,
}

/// What the bot knows of a guild: its id, name and member count.
pub struct GuildInfo {
    pub id: u64,
    pub name: String,
    pub member_count: u64,
}

/// The guilds as the window shows them, in the order given.
pub fn guild_views(guilds: &Vec<GuildInfo>) -> (r: Vec<GuildView>)
    ensures
        r@.len() == guilds@.len(),
        forall|i: int| 0 <= i < r@.len() ==> (#[trigger] r@[i]).id@ == decimal(guilds@[i].id as nat)
            && r@[i].name@ == guilds@[i].name@ && r@[i].member_count == guilds@[i].member_count,
{
    let mut r: Vec<GuildView> = Vec::new();
    let mut i: usize = 0;
    while i < guilds.len()
        invariant
            i <= guilds@.len(),
            r@.len() == i,
            forall|k: int| 0 <= k < i ==> (#[trigger] r@[k]).id@ == decimal(guilds@[k].id as nat)
                && r@[k].name@ == guilds@[k].name@ && r@[k].member_count == guilds@[k].member_count,
        decreases guilds@.len() - i,
    {
        let g = &guilds[i];
        r.push(GuildView { id: to_decimal(g.id), name: g.name.clone(), member_count: g.member_count });
        i = i + 1;
    }
    r
}

/// A role as the window shows it.
pub struct RoleView {
    pub id: String,
    pub name: String,
}

/// A guild member as the window shows it.
pub struct MemberView {
    pub user_id: String,
    pub username: String,
    pub nick: Option<String>,
    pub roles: Vec<RoleView>,
}

/// What the bot knows of a member: user id, user name, nickname and roles.
pub struct MemberInfo {
    pub user_id: u64,
    pub username: String,
    pub nick: Option<String>,
    pub roles: Vec<u64>,
}

/// Number of members fetched for the member list.
pub const MEMBER_PAGE: u64 = 100;

/// The name of a role in the guild's roles (the first entry with that id),
/// or the id itself when the guild does not list it.
pub open spec fn role_name(roles: Seq<(u64, String)>, id: u64) -> Seq<char> {
    if exists|i: int| 0 <= i < roles.len() && (#[trigger] roles[i]).0 == id {
        roles[choose|i: int| 0 <= i < roles.len() && (#[trigger] roles[i]).0 == id
            && forall|k: int| 0 <= k < i ==> (#[trigger] roles[k]).0 != id].1@
    } else {
        decimal(id as nat)
    }
}

proof fn lemma_first_role(roles: Seq<(u64, String)>, id: u64, i: int)
    requires
        0 <= i < roles.len(),
        roles[i].0 == id,
        forall|k: int| 0 <= k < i ==> (#[trigger] roles[k]).0 != id,
    ensures
        role_name(roles, id) == roles[i].1@,
{
    let q = choose|q: int| 0 <= q < roles.len() && (#[trigger] roles[q]).0 == id
        && forall|k: int| 0 <= k < q ==> (#[trigger] roles[k]).0 != id;
    assert(0 <= i < roles.len() && roles[i].0 == id && forall|k: int| 0 <= k < i ==> (#[trigger] roles[k]).0 != id);
    if q < i {
        assert(roles[q].0 != id);
    } else if i < q {
        assert(roles[i].0 != id);
    }
}

fn role_view(roles: &Vec<(u64, String)>, id: u64) -> (r: RoleView)
    ensures
        r.id@ == decimal(id as nat),
        r.name@ == role_name(roles@, id),
{
    let mut i: usize = 0;
    while i < roles.len()
        invariant
            i <= roles@.len(),
            forall|k: int| 0 <= k < i ==> (#[trigger] roles@[k]).0 != id,
        decreases roles@.len() - i,
    {
        if roles[i].0 == id {
            proof {
                lemma_first_role(roles@, id, i as int);
            }
            return RoleView { id: to_decimal(id), name: roles[i].1.clone() };
        }
        i = i + 1;
    }
    RoleView { id: to_decimal(id), name: to_decimal(id) }
}

/// The roles as the window shows them, in the order given.
pub fn role_views(roles: &Vec<(u64, String)>) -> (r: Vec<RoleView>)
    ensures
        r@.len() == roles@.len(),
        forall|i: int| 0 <= i < r@.len() ==> (#[trigger] r@[i]).id@ == decimal(roles@[i].0 as nat)
            && r@[i].name@ == roles@[i].1@,
{
    let mut r: Vec<RoleView> = Vec::new();
    let mut i: usize = 0;
    while i < roles.len()
        invariant
            i <= roles@.len(),
            r@.len() == i,
            forall|k: int| 0 <= k < i ==> (#[trigger] r@[k]).id@ == decimal(roles@[k].0 as nat)
                && r@[k].name@ == roles@[k].1@,
        decreases roles@.len() - i,
    {
        r.push(RoleView { id: to_decimal(roles[i].0), name: roles[i].1.clone() });
        i = i + 1;
    }
    r
}

/// Whether `v` shows the member, naming its roles from the guild's roles.
pub open spec fn member_shown(v: MemberView, m: MemberInfo, roles: Seq<(u64, String)>) -> bool {
    &&& v.user_id@ == decimal(m.user_id as nat)
    &&& v.username@ == m.username@
    &&& opt_text(v.nick) == opt_text(m.nick)
    &&& v.roles@.len() == m.roles@.len()
    &&& forall|k: int| 0 <= k < m.roles@.len() ==> (#[trigger] v.roles@[k]).id@ == decimal(m.roles@[k] as nat)
        && v.roles@[k].name@ == role_name(roles, m.roles@[k])
}

/// The members as the window shows them, in the order given.
pub fn member_views(members: &Vec<MemberInfo>, roles: &Vec<(u64, String)>) -> (r: Vec<MemberView>)
    ensures
        r@.len() == members@.len(),
        forall|i: int| 0 <= i < r@.len() ==> member_shown(#[trigger] r@[i], members@[i], roles@),
{
    let mut r: Vec<MemberView> = Vec::new();
    let mut i: usize = 0;
    while i < members.len()
        invariant
            i <= members@.len(),
            r@.len() == i,
            forall|k: int| 0 <= k < i ==> member_shown(#[trigger] r@[k], members@[k], roles@),
        decreases members@.len() - i,
    {
        let m = &members[i];
        let mut rv: Vec<RoleView> = Vec::new();
        let mut j: usize = 0;
        while j < m.roles.len()
            invariant
                j <= m.roles@.len(),
                rv@.len() == j,
                forall|k: int| 0 <= k < j ==> (#[trigger] rv@[k]).id@ == decimal(m.roles@[k] as nat)
                    && rv@[k].name@ == role_name(roles@, m.roles@[k]),
            decreases m.roles@.len() - j,
        {
            rv.push(role_view(roles, m.roles[j]));
            j = j + 1;
        }
        r.push(MemberView {
            user_id: to_decimal(m.user_id),
            username: m.username.clone(),
            nick: clone_opt_string(&m.nick),
            roles: rv,
        });
        i = i + 1;
    }
    r
}

/// Saving fills each setting that the input leaves out from the bot stored
/// under the id, and each setting that it gives replaces the stored one;
/// the id, name and token are always the given ones.
pub proof fn law_save_keeps_unsent_settings(input: UpsertBotInput, id: Seq<char>, existing: BotConfigView)
    ensures
        ({
            let r = merged(input, id, Some(existing));
            &&& r.id == id && r.name == input.name@ && r.token == input.token@
            &&& input.xai_api_key is None ==> r.xai_api_key == existing.xai_api_key
            &&& input.model is None ==> r.model == existing.model
            &&& input.persona is None ==> r.persona == existing.persona
            &&& input.ai_enabled is None ==> r.ai_enabled == existing.ai_enabled
            &&& input.history_size is None ==> r.history_size == existing.history_size
            &&& input.automod is None ==> r.automod == existing.automod
            &&& input.xai_api_key matches Some(k) ==> r.xai_api_key == k@
            &&& input.model matches Some(m) ==> r.model == m@
            &&& input.persona matches Some(p) ==> r.persona == p@
            &&& input.ai_enabled matches Some(b) ==> r.ai_enabled == b
            &&& input.history_size matches Some(n) ==> r.history_size == n
            &&& input.automod matches Some(a) ==> r.automod == a@
        }),
{
}

/// A new bot takes the defaults for every setting that the input leaves
/// out: no API key, the model `grok-4.3`, no persona, AI replies on, ten
/// earlier messages, and auto-moderation off with no rules.
pub proof fn law_new_bot_defaults(input: UpsertBotInput, id: Seq<char>)
    ensures
        ({
            let r = merged(input, id, None);
            &&& input.xai_api_key is None ==> r.xai_api_key == Seq::<char>::empty()
            &&& input.model is None ==> r.model == "grok-4.3"@
            &&& input.persona is None ==> r.persona == Seq::<char>::empty()
            &&& input.ai_enabled is None ==> r.ai_enabled
            &&& input.history_size is None ==> r.history_size == 10
            &&& input.automod is None ==> !r.automod.enabled && r.automod.rules.len() == 0
                && r.automod.ignored_channels.len() == 0 && r.automod.ignored_roles.len() == 0
                && r.automod.whitelist_users.len() == 0 && r.automod.log_channel is None
        }),
{
    reveal_strlit("");
}

} // verus!
