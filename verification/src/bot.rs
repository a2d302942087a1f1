//! The running bots and what a bot does with a message: the registry of
//! running bots, the route of an incoming message, the conversation handed to
//! the AI, and the plan of each tool call that the AI makes.

use vstd::prelude::*;
use crate::ai::{AssistantMessage, ChatMessage, ToolCall};
use crate::text::{blank, decimal, is_blank, parse_u64, parse_u64_spec, push_decimal};

verus! {

/// The running bots, each under its id.
pub struct BotRegistry<T> {
    running: Vec<(String, T)>,
}

/// Whether no two entries share an id.
pub open spec fn distinct_ids<T>(s: Seq<(String, T)>) -> bool {
    forall|i: int, j: int| 0 <= i < s.len() && 0 <= j < s.len() && i != j ==> (#[trigger] s[i]).0@ != (#[trigger] s[j]).0@
}

impl<T> View for BotRegistry<T> {
    type V = Map<Seq<char>, T>;

    closed spec fn view(&self) -> Map<Seq<char>, T> {
        Map::new(
            |k: Seq<char>| exists|i: int| 0 <= i < self.running@.len() && (#[trigger] self.running@[i]).0@ == k,
            |k: Seq<char>| self.running@[choose|i: int| 0 <= i < self.running@.len() && (#[trigger] self.running@[i]).0@ == k].1,
        )
    }
}

impl<T> BotRegistry<T> {
    #[verifier::type_invariant]
    spec fn well_formed(&self) -> bool {
        distinct_ids(self.running@)
    }

    /// No bot is running.
    pub fn new() -> (r: Self)
        ensures
            r@ == Map::<Seq<char>, T>::empty(),
    {
        let r = BotRegistry { running: Vec::new() };
        assert(r@ =~= Map::<Seq<char>, T>::empty());
        r
    }

    fn find(&self, id: &str) -> (r: Option<usize>)
        ensures
            match r {
                Some(i) => i < self.running@.len() && self.running@[i as int].0@ == id@,
                None => forall|i: int| 0 <= i < self.running@.len() ==> (#[trigger] self.running@[i]).0@ != id@,
            },
    {
        let key = String::from_str(id);
        let mut i: usize = 0;
        while i < self.running.len()
            invariant
                key@ == id@,
                i <= self.running@.len(),
                forall|k: int| 0 <= k < i ==> (#[trigger] self.running@[k]).0@ != id@,
            decreases self.running@.len() - i,
        {
            if self.running[i].0 == key {
                return Some(i);
            }
            i = i + 1;
        }
        None
    }

    proof fn lemma_entry(&self, i: int)
        requires
            0 <= i < self.running@.len(),
            distinct_ids(self.running@),
        ensures
            self@.contains_key(self.running@[i].0@),
            self@[self.running@[i].0@] == self.running@[i].1,
    {
        let k = self.running@[i].0@;
        let c = choose|c: int| 0 <= c < self.running@.len() && (#[trigger] self.running@[c]).0@ == k;
        if c != i {
            assert(self.running@[c].0@ != self.running@[i].0@);
        }
    }

    /// Whether a bot with the id is running.
    pub fn is_running(&self, id: &str) -> (r: bool)
        ensures
            r == self@.contains_key(id@),
    {
        match self.find(id) {
            Some(i) => {
                proof {
                    use_type_invariant(self);
                    self.lemma_entry(i as int);
                }
                true
            },
            None => false,
        }
    }

    /// The running bot with the id.
    pub fn get(&self, id: &str) -> (r: Option<&T>)
        ensures
            match r {
                Some(b) => self@.contains_key(id@) && self@[id@] == *b,
                None => !self@.contains_key(id@),
            },
    {
        match self.find(id) {
            Some(i) => {
                proof {
                    use_type_invariant(self);
                    self.lemma_entry(i as int);
                }
                Some(&self.running[i].1)
            },
            None => None,
        }
    }

    /// Refuses to start a bot that is already running.
    pub fn check_can_start(&self, id: &str) -> (r: Result<(), String>)
        ensures
            self@.contains_key(id@) ==> (r matches Err(e) && e@ == "bot already running"@),
            !self@.contains_key(id@) ==> r is Ok,
    {
        if self.is_running(id) {
            Err(String::from_str("bot already running"))
        } else {
            Ok(())
        }
    }

    /// Registers a running bot under the id, replacing and returning any bot
    /// that was registered under it.
    pub fn insert(&mut self, id: String, bot: T) -> (r: Option<T>)
        ensures
            final(self)@ == old(self)@.insert(id@, bot),
            match r {
                Some(b) => old(self)@.contains_key(id@) && old(self)@[id@] == b,
                None => !old(self)@.contains_key(id@),
            },
    {
        proof {
            use_type_invariant(&*self);
        }
        let ghost before = self@;
        match self.find(id.as_str()) {
            Some(i) => {
                proof {
                    self.lemma_entry(i as int);
                }
                let mut running = Vec::new();
                std::mem::swap(&mut running, &mut self.running);
                let ghost pre = running@;
                let (_, old_bot) = running.remove(i);
                running.insert(i, (id, bot));
                assert(running@ =~= pre.update(i as int, running@[i as int]));
                assert(distinct_ids(running@));
                self.running = running;
                proof {
                    assert forall|k: Seq<char>| #![auto] self@.contains_key(k) <==> before.insert(id@, bot).contains_key(k) by {
                        if self@.contains_key(k) {
                            let c = choose|c: int| 0 <= c < self.running@.len() && (#[trigger] self.running@[c]).0@ == k;
                            if c != i {
                                assert(pre[c] == self.running@[c]);
                            }
                        }
                        if before.contains_key(k) && k != id@ {
                            let c = choose|c: int| 0 <= c < pre.len() && (#[trigger] pre[c]).0@ == k;
                            assert(self.running@[c] == pre[c]);
                        }
                    }
                    assert forall|k: Seq<char>| #![auto] self@.contains_key(k) implies self@[k] == before.insert(id@, bot)[k] by {
                        let c = choose|c: int| 0 <= c < self.running@.len() && (#[trigger] self.running@[c]).0@ == k;
                        self.lemma_entry(c);
                        if c != i {
                            assert(pre[c] == self.running@[c]);
                            assert(k != id@);
                        }
                    }
                    assert(self@ =~= before.insert(id@, bot));
                }
                Some(old_bot)
            },
            None => {
                let ghost pre = self.running@;
                let ghost key = id@;
                let mut running = Vec::new();
                std::mem::swap(&mut running, &mut self.running);
                running.push((id, bot));
                assert(distinct_ids(running@));
                self.running = running;
                proof {
                    assert forall|k: Seq<char>| #![auto] self@.contains_key(k) <==> before.insert(key, bot).contains_key(k) by {
                        if self@.contains_key(k) && k != key {
                            let c = choose|c: int| 0 <= c < self.running@.len() && (#[trigger] self.running@[c]).0@ == k;
                            assert(pre[c] == self.running@[c]);
                        }
                        if before.contains_key(k) {
                            let c = choose|c: int| 0 <= c < pre.len() && (#[trigger] pre[c]).0@ == k;
                            assert(self.running@[c] == pre[c]);
                        }
                        if k == key {
                            assert(self.running@[pre.len() as int].0@ == key);
                        }
                    }
                    assert forall|k: Seq<char>| #![auto] self@.contains_key(k) implies self@[k] == before.insert(key, bot)[k] by {
                        let c = choose|c: int| 0 <= c < self.running@.len() && (#[trigger] self.running@[c]).0@ == k;
                        self.lemma_entry(c);
                        if c < pre.len() {
                            assert(pre[c] == self.running@[c]);
                            let d = choose|d: int| 0 <= d < pre.len() && (#[trigger] pre[d]).0@ == k;
                            assert(self.running@[d] == pre[d]);
                            self.lemma_entry(d);
                        }
                    }
                    assert(self@ =~= before.insert(key, bot));
                }
                None
            },
        }
    }

    /// Unregisters the bot with the id and returns it, if it was running.
    pub fn stop(&mut self, id: &str) -> (r: Option<T>)
        ensures
            final(self)@ == old(self)@.remove(id@),
            match r {
                Some(b) => old(self)@.contains_key(id@) && old(self)@[id@] == b,
                None => !old(self)@.contains_key(id@),
            },
    {
        proof {
            use_type_invariant(&*self);
        }
        let ghost before = self@;
        match self.find(id) {
            Some(i) => {
                proof {
                    self.lemma_entry(i as int);
                }
                let mut running = Vec::new();
                std::mem::swap(&mut running, &mut self.running);
                let ghost pre = running@;
                let (_, old_bot) = running.remove(i);
                assert(distinct_ids(running@));
                self.running = running;
                proof {
                    assert forall|k: Seq<char>| #![auto] self@.contains_key(k) <==> before.remove(id@).contains_key(k) by {
                        if self@.contains_key(k) {
                            let c = choose|c: int| 0 <= c < self.running@.len() && (#[trigger] self.running@[c]).0@ == k;
                            if c < i {
                                assert(pre[c] == self.running@[c]);
                            } else {
                                assert(pre[c + 1] == self.running@[c]);
                            }
                        }
                        if before.contains_key(k) && k != id@ {
                            let c = choose|c: int| 0 <= c < pre.len() && (#[trigger] pre[c]).0@ == k;
                            if c < i {
                                assert(self.running@[c] == pre[c]);
                            } else {
                                assert(self.running@[c - 1] == pre[c]);
                            }
                        }
                    }
                    assert forall|k: Seq<char>| #![auto] self@.contains_key(k) implies self@[k] == before.remove(id@)[k] by {
                        let c = choose|c: int| 0 <= c < self.running@.len() && (#[trigger] self.running@[c]).0@ == k;
                        self.lemma_entry(c);
                        let d = if c < i { c } else { c + 1 };
                        assert(pre[d] == self.running@[c]);
                    }
                    assert(self@ =~= before.remove(id@));
                }
                Some(old_bot)
            },
            None => {
                assert(self@ =~= before.remove(id@));
                None
            },
        }
    }
}

/// What a bot does with an incoming message.
pub enum MessageStep {
    /// Nothing: the author is a bot, or the bot was not asked to answer.
    Ignore,
    /// Carry out the auto-moderation action, and nothing else.
    Moderate,
    /// Answer with the AI, handing it up to `history_limit` earlier messages.
    Reply { history_limit: u8 },
}

/// Whether the id is among the mentioned users.
pub open spec fn mentions_me(mentions: Seq<u64>, me: u64) -> bool {
    exists|i: int| 0 <= i < mentions.len() && mentions[i] == me
}

/// The number of earlier messages requested: the configured history size
/// taken modulo 256, as its cast to a byte gives.
pub open spec fn history_limit(history_size: usize) -> u8 {
    (history_size % 256) as u8
}

/// The route of a message: messages of bots are ignored; a message that
/// breaks an auto-moderation rule is moderated; otherwise the AI answers
/// when the bot is mentioned and AI replies are on.
pub open spec fn route(author_is_bot: bool, violation: bool, mentions: Seq<u64>, me: u64, ai_enabled: bool, history_size: usize) -> MessageStep {
    if author_is_bot {
        MessageStep::Ignore
    } else if violation {
        MessageStep::Moderate
    } else if !mentions_me(mentions, me) || !ai_enabled {
        MessageStep::Ignore
    } else {
        MessageStep::Reply { history_limit: history_limit(history_size) }
    }
}

/// Decides `route`.
pub fn route_message(author_is_bot: bool, violation: bool, mentions: &Vec<u64>, me: u64, ai_enabled: bool, history_size: usize) -> (r: MessageStep)
    ensures
        r == route(author_is_bot, violation, mentions@, me, ai_enabled, history_size),
{
    if author_is_bot {
        return MessageStep::Ignore;
    }
    if violation {
        return MessageStep::Moderate;
    }
    let mut mentioned = false;
    let mut i: usize = 0;
    while i < mentions.len()
        invariant
            i <= mentions@.len(),
            mentioned == (exists|k: int| 0 <= k < i && mentions@[k] == me),
        decreases mentions@.len() - i,
    {
        if mentions[i] == me {
            mentioned = true;
        }
        i = i + 1;
    }
    if !mentioned || !ai_enabled {
        return MessageStep::Ignore;
    }
    MessageStep::Reply { history_limit: (history_size % 256) as u8 }
}

/// A message written by a bot is ignored, whether or not it breaks a rule
/// and whether or not it mentions this bot (and screening it leaves the
/// auto-moderation history untouched, see `AutoModState::screen_message`).
pub proof fn law_bot_messages_ignored(violation: bool, mentions: Seq<u64>, me: u64, ai_enabled: bool, history_size: usize)
    ensures
        route(true, violation, mentions, me, ai_enabled, history_size) == MessageStep::Ignore,
{
}

/// An earlier message of the channel as the AI sees it.
pub struct HistoryEntry {
    pub author_id: u64,
    pub author_name: String,
    pub content: String,
}

/// The instructions that open a conversation: the persona, and where and by
/// whom the bot was mentioned.
pub open spec fn system_prompt(persona: Seq<char>, channel_id: u64, guild_id: Option<u64>, message_id: u64, author_id: u64) -> Seq<char> {
    "You are a Discord bot persona. Follow this persona/character strictly:\n\n"@ + persona
        + "\n\nYou were just mentioned. Use the available tools to respond. Prefer `send_message` to reply. Only use moderation tools if the persona/context clearly justifies it. Current channel id: "@
        + decimal(channel_id as nat) + ". Current guild id: "@
        + (match guild_id { Some(g) => decimal(g as nat), None => Seq::empty() })
        + ". The triggering message id is: "@ + decimal(message_id as nat)
        + ". The triggering user id is: "@ + decimal(author_id as nat) + "."@
}

/// How a message is quoted to the AI: `name (id=id): content`.
pub open spec fn quoted(name: Seq<char>, id: u64, content: Seq<char>) -> Seq<char> {
    name + " (id="@ + decimal(id as nat) + "): "@ + content
}

/// Whether the chat message has the role and content.
pub open spec fn chat_is(m: ChatMessage, role: Seq<char>, content: Seq<char>) -> bool {
    m.role@ == role && m.content@ == content
}

/// Whether `conv` is the conversation for a mention: the instructions, then
/// the earlier messages oldest first (the bot's own as the assistant's,
/// others as the user's), then the mentioning message. `history` is newest
/// first, as the channel lists it.
pub open spec fn is_conversation(conv: Seq<ChatMessage>, persona: Seq<char>, channel_id: u64, guild_id: Option<u64>,
    message_id: u64, author_id: u64, author_name: Seq<char>, content: Seq<char>, history: Seq<HistoryEntry>, me: u64) -> bool {
    &&& conv.len() == history.len() + 2
    &&& chat_is(conv[0], "system"@, system_prompt(persona, channel_id, guild_id, message_id, author_id))
    &&& forall|i: int| 0 <= i < history.len() ==> {
        let h = history[history.len() - 1 - i];
        chat_is(#[trigger] conv[i + 1], if h.author_id == me { "assistant"@ } else { "user"@ },
            quoted(h.author_name@, h.author_id, h.content@))
    }
    &&& chat_is(conv[history.len() + 1int], "user"@, quoted(author_name, author_id, content))
}

fn quote(name: &String, id: u64, content: &String) -> (r: String)
    ensures
        r@ == quoted(name@, id, content@),
{
    let mut r = name.clone();
    r.append(" (id=");
    push_decimal(&mut r, id);
    r.append("): ");
    r.append(content.as_str());
    r
}

/// Builds the conversation handed to the AI for a mention.
pub fn build_conversation(persona: &String, channel_id: u64, guild_id: Option<u64>, message_id: u64, author_id: u64,
    author_name: &String, content: &String, history: &Vec<HistoryEntry>, me: u64) -> (r: Vec<ChatMessage>)
    ensures
        is_conversation(r@, persona@, channel_id, guild_id, message_id, author_id, author_name@, content@, history@, me),
{
    let mut system = String::from_str("You are a Discord bot persona. Follow this persona/character strictly:\n\n");
    system.append(persona.as_str());
    system.append("\n\nYou were just mentioned. Use the available tools to respond. Prefer `send_message` to reply. Only use moderation tools if the persona/context clearly justifies it. Current channel id: ");
    push_decimal(&mut system, channel_id);
    system.append(". Current guild id: ");
    match guild_id {
        Some(g) => push_decimal(&mut system, g),
        None => {},
    }
    system.append(". The triggering message id is: ");
    push_decimal(&mut system, message_id);
    system.append(". The triggering user id is: ");
    push_decimal(&mut system, author_id);
    system.append(".");
    let mut conv: Vec<ChatMessage> = Vec::new();
    conv.push(ChatMessage { role: String::from_str("system"), content: system });
    let n = history.len();
    let mut i: usize = 0;
    while i < n
        invariant
            n == history@.len(),
            i <= n,
            conv@.len() == i + 1,
            chat_is(conv@[0], "system"@, system_prompt(persona@, channel_id, guild_id, message_id, author_id)),
            forall|k: int| 0 <= k < i ==> {
                let h = history@[n - 1 - k];
                chat_is(#[trigger] conv@[k + 1], if h.author_id == me { "assistant"@ } else { "user"@ },
                    quoted(h.author_name@, h.author_id, h.content@))
            },
        decreases n - i,
    {
        let h = &history[n - 1 - i];
        let role = if h.author_id == me { String::from_str("assistant") } else { String::from_str("user") };
        conv.push(ChatMessage { role, content: quote(&h.author_name, h.author_id, &h.content) });
        i = i + 1;
    }
    conv.push(ChatMessage { role: String::from_str("user"), content: quote(author_name, author_id, content) });
    conv
}

/// What the bot does with the AI's answer.
pub enum AnswerStep {
    /// Carry out the tool calls, in order.
    RunTools,
    /// Say the text in the channel.
    Say { text: String },
    /// Nothing: no tool calls and no text worth saying.
    Nothing,
}

/// The step for an answer: its tool calls when it has any, else its text
/// when that is not blank, else nothing.
pub fn answer_step(resp: &AssistantMessage) -> (r: AnswerStep)
    ensures
        resp.tool_calls is Some ==> r is RunTools,
        resp.tool_calls is None ==> match resp.content {
            Some(t) => if is_blank(t@) { r is Nothing } else { r matches AnswerStep::Say { text } && text@ == t@ },
            None => r is Nothing,
        },
{
    if resp.tool_calls.is_some() {
        return AnswerStep::RunTools;
    }
    match &resp.content {
        Some(t) => {
            if blank(t.as_str()) {
                AnswerStep::Nothing
            } else {
                AnswerStep::Say { text: t.clone() }
            }
        },
        None => AnswerStep::Nothing,
    }
}

/// The arguments of a tool call that the tools read: each present when the
/// argument object has it with the right JSON type.
pub struct ToolArgs {
    pub content: Option<String>,
    pub emoji: Option<String>,
    pub user_id: Option<String>,
    pub reason: Option<String>,
    pub role_id: Option<String>,
    pub seconds: Option<i64>,
}

/// A tool call to carry out, with what it reports when done.
pub enum ToolAction {
    /// Say the text in the channel (nothing when there is none).
    Send { content: Option<String> },
    /// React to the mentioning message with the emoji.
    React { emoji: String },
    Kick { user_id: u64, reason: String },
    Ban { user_id: u64, reason: String },
    /// Mute the user for the given seconds from now.
    Timeout { user_id: u64, seconds: i64 },
    AddRole { user_id: u64, role_id: u64 },
    RemoveRole { user_id: u64, role_id: u64 },
}

/// A planned tool call: the guild it acts in, the action, and the report
/// once it succeeded.
pub struct ToolPlan {
    pub guild_id: u64,
    pub action: ToolAction,
    pub report: String,
}

/// An id argument read as a `u64`.
pub open spec fn id_arg(a: Option<String>) -> Option<u64> {
    match a {
        Some(s) => parse_u64_spec(s@),
        None => None,
    }
}

/// The text of an argument, or the default.
pub open spec fn text_or(a: Option<String>, default: Seq<char>) -> Seq<char> {
    match a {
        Some(s) => s@,
        None => default,
    }
}

/// The plan of a tool call, or the error it fails with.
pub open spec fn tool_outcome(name: Seq<char>, guild_id: Option<u64>, args: ToolArgs) -> Result<(u64, Seq<char>), Seq<char>> {
    match guild_id {
        None => Err("not in a guild"@),
        Some(g) => {
            if name == "send_message"@ || name == "react"@ {
                Ok((g, if name == "send_message"@ { "sent"@ } else { "reacted"@ }))
            } else if name == "kick_user"@ || name == "ban_user"@ || name == "timeout_user"@ {
                if id_arg(args.user_id) is None {
                    Err("bad user_id"@)
                } else {
                    Ok((g, if name == "kick_user"@ { "kicked"@ } else if name == "ban_user"@ { "banned"@ } else { "timed out"@ }))
                }
            } else if name == "add_role"@ || name == "remove_role"@ {
                if id_arg(args.user_id) is None {
                    Err("bad user_id"@)
                } else if id_arg(args.role_id) is None {
                    Err("bad role_id"@)
                } else {
                    Ok((g, if name == "add_role"@ { "role added"@ } else { "role removed"@ }))
                }
            } else {
                Err("unknown tool: "@ + name)
            }
        },
    }
}

/// The action of a tool call that can be carried out.
pub open spec fn tool_action_spec(name: Seq<char>, args: ToolArgs, a: ToolAction) -> bool {
    if name == "send_message"@ {
        a matches ToolAction::Send { content } && match content {
            Some(c) => args.content matches Some(x) && x@.len() > 0 && c@ == x@,
            None => text_or(args.content, Seq::empty()).len() == 0,
        }
    } else if name == "react"@ {
        a matches ToolAction::React { emoji } && emoji@ == text_or(args.emoji, "\u{1f44d}"@)
    } else if name == "kick_user"@ {
        a matches ToolAction::Kick { user_id, reason } && Some(user_id) == id_arg(args.user_id)
            && reason@ == text_or(args.reason, ""@)
    } else if name == "ban_user"@ {
        a matches ToolAction::Ban { user_id, reason } && Some(user_id) == id_arg(args.user_id)
            && reason@ == text_or(args.reason, ""@)
    } else if name == "timeout_user"@ {
        a matches ToolAction::Timeout { user_id, seconds } && Some(user_id) == id_arg(args.user_id)
            && seconds == match args.seconds { Some(s) => s, None => 60 }
    } else if name == "add_role"@ {
        a matches ToolAction::AddRole { user_id, role_id } && Some(user_id) == id_arg(args.user_id)
            && Some(role_id) == id_arg(args.role_id)
    } else {
        a matches ToolAction::RemoveRole { user_id, role_id } && Some(user_id) == id_arg(args.user_id)
            && Some(role_id) == id_arg(args.role_id)
    }
}

fn parse_id_arg(a: &Option<String>, err: &str) -> (r: Result<u64, String>)
    ensures
        match r {
            Ok(v) => id_arg(*a) == Some(v),
            Err(e) => id_arg(*a) is None && e@ == err@,
        },
{
    match a {
        Some(s) => match parse_u64(s.as_str()) {
            Some(v) => Ok(v),
            None => Err(String::from_str(err)),
        },
        None => Err(String::from_str(err)),
    }
}

fn text_arg(a: &Option<String>, default: &str) -> (r: String)
    ensures
        r@ == text_or(*a, default@),
{
    match a {
        Some(s) => s.clone(),
        None => String::from_str(default),
    }
}

/// Plans a tool call of the AI in the guild of the mentioning message.
pub fn plan_tool(name: &str, guild_id: Option<u64>, args: &ToolArgs) -> (r: Result<ToolPlan, String>)
    ensures
        match tool_outcome(name@, guild_id, *args) {
            Ok((g, report)) => r matches Ok(p) && p.guild_id == g && p.report@ == report
                && tool_action_spec(name@, *args, p.action),
            Err(e) => r matches Err(x) && x@ == e,
        },
{
    let g = match guild_id {
        Some(g) => g,
        None => {
            return Err(String::from_str("not in a guild"));
        },
    };
    proof {
        reveal_strlit("send_message");
        reveal_strlit("react");
        reveal_strlit("kick_user");
        reveal_strlit("ban_user");
        reveal_strlit("timeout_user");
        reveal_strlit("add_role");
        reveal_strlit("remove_role");
        reveal_strlit("");
    }
    let n = String::from_str(name);
    if n == String::from_str("send_message") {
        let content = match &args.content {
            Some(c) => if c.as_str().is_empty() { None } else { Some(c.clone()) },
            None => None,
        };
        Ok(ToolPlan { guild_id: g, action: ToolAction::Send { content }, report: String::from_str("sent") })
    } else if n == String::from_str("react") {
        let emoji = text_arg(&args.emoji, "\u{1f44d}");
        Ok(ToolPlan { guild_id: g, action: ToolAction::React { emoji }, report: String::from_str("reacted") })
    } else if n == String::from_str("kick_user") {
        let uid = match parse_id_arg(&args.user_id, "bad user_id") {
            Ok(v) => v,
            Err(e) => {
                return Err(e);
            },
        };
        let reason = text_arg(&args.reason, "");
        Ok(ToolPlan { guild_id: g, action: ToolAction::Kick { user_id: uid, reason }, report: String::from_str("kicked") })
    } else if n == String::from_str("ban_user") {
        let uid = match parse_id_arg(&args.user_id, "bad user_id") {
            Ok(v) => v,
            Err(e) => {
                return Err(e);
            },
        };
        let reason = text_arg(&args.reason, "");
        Ok(ToolPlan { guild_id: g, action: ToolAction::Ban { user_id: uid, reason }, report: String::from_str("banned") })
    } else if n == String::from_str("timeout_user") {
        let uid = match parse_id_arg(&args.user_id, "bad user_id") {
            Ok(v) => v,
            Err(e) => {
                return Err(e);
            },
        };
        let seconds = match args.seconds {
            Some(s) => s,
            None => 60,
        };
        Ok(ToolPlan { guild_id: g, action: ToolAction::Timeout { user_id: uid, seconds }, report: String::from_str("timed out") })
    } else if n == String::from_str("add_role") {
        let uid = match parse_id_arg(&args.user_id, "bad user_id") {
            Ok(v) => v,
            Err(e) => {
                return Err(e);
            },
        };
        let rid = match parse_id_arg(&args.role_id, "bad role_id") {
            Ok(v) => v,
            Err(e) => {
                return Err(e);
            },
        };
        Ok(ToolPlan { guild_id: g, action: ToolAction::AddRole { user_id: uid, role_id: rid }, report: String::from_str("role added") })
    } else if n == String::from_str("remove_role") {
        let uid = match parse_id_arg(&args.user_id, "bad user_id") {
            Ok(v) => v,
            Err(e) => {
                return Err(e);
            },
        };
        let rid = match parse_id_arg(&args.role_id, "bad role_id") {
            Ok(v) => v,
            Err(e) => {
                return Err(e);
            },
        };
        Ok(ToolPlan { guild_id: g, action: ToolAction::RemoveRole { user_id: uid, role_id: rid }, report: String::from_str("role removed") })
    } else {
        let mut e = String::from_str("unknown tool: ");
        e.append(name);
        Err(e)
    }
}

/// In the conversation handed to the AI, an earlier message of the channel
/// speaks as the assistant exactly when the bot itself wrote it, and as the
/// user otherwise, whoever mentioned the bot; it is quoted with its author's
/// name and id. `history` is newest first, the conversation oldest first.
pub proof fn law_conversation_roles(conv: Seq<ChatMessage>, persona: Seq<char>, channel_id: u64, guild_id: Option<u64>,
    message_id: u64, author_id: u64, author_name: Seq<char>, content: Seq<char>, history: Seq<HistoryEntry>, me: u64, i: int)
    requires
        is_conversation(conv, persona, channel_id, guild_id, message_id, author_id, author_name, content, history, me),
        0 <= i < history.len(),
    ensures
        conv[history.len() - i].role@ == (if history[i].author_id == me { "assistant"@ } else { "user"@ }),
        conv[history.len() - i].content@ == quoted(history[i].author_name@, history[i].author_id, history[i].content@),
        conv[history.len() + 1int].role@ == "user"@,
        conv[0].role@ == "system"@,
{
    let k = history.len() - 1 - i;
    assert(history[history.len() - 1 - k] == history[i]);
    assert(chat_is(conv[k + 1], if history[i].author_id == me { "assistant"@ } else { "user"@ },
        quoted(history[i].author_name@, history[i].author_id, history[i].content@)));
}

/// Each tool name plans its own kind of action with the arguments it reads:
/// a reply, a reaction, a kick, a ban, a timeout, giving a role and taking
/// a role away; giving and taking away a role are never confused.
pub proof fn law_tool_action_kinds(args: ToolArgs, a: ToolAction)
    ensures
        tool_action_spec("send_message"@, args, a) ==> a is Send,
        tool_action_spec("react"@, args, a) ==> a is React,
        tool_action_spec("kick_user"@, args, a) ==> (a matches ToolAction::Kick { user_id, .. } && Some(user_id) == id_arg(args.user_id)),
        tool_action_spec("ban_user"@, args, a) ==> (a matches ToolAction::Ban { user_id, .. } && Some(user_id) == id_arg(args.user_id)),
        tool_action_spec("timeout_user"@, args, a) ==> (a matches ToolAction::Timeout { user_id, .. } && Some(user_id) == id_arg(args.user_id)),
        tool_action_spec("add_role"@, args, a) ==> (a matches ToolAction::AddRole { user_id, role_id }
            && Some(user_id) == id_arg(args.user_id) && Some(role_id) == id_arg(args.role_id)),
        tool_action_spec("remove_role"@, args, a) ==> (a matches ToolAction::RemoveRole { user_id, role_id }
            && Some(user_id) == id_arg(args.user_id) && Some(role_id) == id_arg(args.role_id)),
        !(tool_action_spec("add_role"@, args, a) && tool_action_spec("remove_role"@, args, a)),
{
    reveal_strlit("send_message");
    reveal_strlit("react");
    reveal_strlit("kick_user");
    reveal_strlit("ban_user");
    reveal_strlit("timeout_user");
    reveal_strlit("add_role");
    reveal_strlit("remove_role");
    assert("react"@.len() != "send_message"@.len());
    assert("kick_user"@.len() != "send_message"@.len());
    assert("kick_user"@.len() != "react"@.len());
    assert("ban_user"@.len() != "send_message"@.len());
    assert("ban_user"@.len() != "react"@.len());
    assert("ban_user"@.len() != "kick_user"@.len());
    assert("timeout_user"@[0] != "send_message"@[0]);
    assert("timeout_user"@.len() != "react"@.len());
    assert("timeout_user"@.len() != "kick_user"@.len());
    assert("timeout_user"@.len() != "ban_user"@.len());
    assert("add_role"@.len() != "send_message"@.len());
    assert("add_role"@.len() != "react"@.len());
    assert("add_role"@.len() != "kick_user"@.len());
    assert("add_role"@[0] != "ban_user"@[0]);
    assert("add_role"@.len() != "timeout_user"@.len());
    assert("remove_role"@.len() != "send_message"@.len());
    assert("remove_role"@.len() != "react"@.len());
    assert("remove_role"@.len() != "kick_user"@.len());
    assert("remove_role"@.len() != "ban_user"@.len());
    assert("remove_role"@.len() != "timeout_user"@.len());
    assert("remove_role"@.len() != "add_role"@.len());
}

} // verus!
