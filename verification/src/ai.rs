//! The AI side: the voices that the service offers, the chat messages and
//! tool calls exchanged with it, the tool catalogue offered to the model, and
//! the decisions around a completion request.

use vstd::prelude::*;
use crate::json::{Json, get_spec, str_spec, array_spec, jstr};

verus! {

/// A voice that the service offers: its id, a label for people, and whether
/// it is built in or custom.
pub struct VoiceInfo {
    pub id: String,
    pub label: String,
    pub kind: String,
}

/// Mathematical form of a voice.
pub struct VoiceInfoView {
    pub id: Seq<char>,
    pub label: Seq<char>,
    pub kind: Seq<char>,
}

impl View for VoiceInfo {
    type V = VoiceInfoView;

    open spec fn view(&self) -> VoiceInfoView {
        VoiceInfoView { id: self.id@, label: self.label@, kind: self.kind@ }
    }
}

/// The views of a list of voices.
pub open spec fn voices_view(v: Seq<VoiceInfo>) -> Seq<VoiceInfoView> {
    v.map_values(|x: VoiceInfo| x@)
}

/// The list that a voices response holds: the response itself when it is an
/// array, else the first of its members `voices`, `data`, `custom_voices`,
/// `results`, `items` that is an array, else nothing.
pub open spec fn voice_items(v: Json) -> Seq<Json> {
    if array_spec(Some(v)) is Some {
        array_spec(Some(v))->0
    } else if array_spec(get_spec(v, "voices"@)) is Some {
        array_spec(get_spec(v, "voices"@))->0
    } else if array_spec(get_spec(v, "data"@)) is Some {
        array_spec(get_spec(v, "data"@))->0
    } else if array_spec(get_spec(v, "custom_voices"@)) is Some {
        array_spec(get_spec(v, "custom_voices"@))->0
    } else if array_spec(get_spec(v, "results"@)) is Some {
        array_spec(get_spec(v, "results"@))->0
    } else if array_spec(get_spec(v, "items"@)) is Some {
        array_spec(get_spec(v, "items"@))->0
    } else {
        Seq::empty()
    }
}

/// The id of a voice entry: its first string member among `voice_id`, `id`,
/// `name`.
pub open spec fn voice_id(item: Json) -> Option<Seq<char>> {
    if str_spec(get_spec(item, "voice_id"@)) is Some {
        str_spec(get_spec(item, "voice_id"@))
    } else if str_spec(get_spec(item, "id"@)) is Some {
        str_spec(get_spec(item, "id"@))
    } else {
        str_spec(get_spec(item, "name"@))
    }
}

/// `s` with the text appended when there is one.
pub open spec fn push_some(s: Seq<Seq<char>>, t: Option<Seq<char>>) -> Seq<Seq<char>> {
    match t {
        Some(x) => s.push(x),
        None => s,
    }
}

/// The string members `gender`, `age`, `tone`, `language` of a voice entry,
/// in that order, leaving out those that are missing.
pub open spec fn voice_details(item: Json) -> Seq<Seq<char>> {
    push_some(push_some(push_some(push_some(Seq::empty(),
        str_spec(get_spec(item, "gender"@))),
        str_spec(get_spec(item, "age"@))),
        str_spec(get_spec(item, "tone"@))),
        str_spec(get_spec(item, "language"@)))
}

/// The texts joined with the separator between them.
pub open spec fn join(parts: Seq<Seq<char>>, sep: Seq<char>) -> Seq<char>
    decreases parts.len(),
{
    if parts.len() == 0 {
        Seq::empty()
    } else if parts.len() == 1 {
        parts[0]
    } else {
        join(parts.drop_last(), sep) + sep + parts.last()
    }
}

/// The label of a voice: `name (id)`, or `name — details (id)` with the
/// details joined by commas.
pub open spec fn voice_label(name: Seq<char>, id: Seq<char>, details: Seq<Seq<char>>) -> Seq<char> {
    if details.len() == 0 {
        name + " ("@ + id + ")"@
    } else {
        name + " \u{2014} "@ + join(details, ", "@) + " ("@ + id + ")"@
    }
}

/// The voice that one entry describes: a bare string is its own id and
/// label; an object needs an id, and is labelled with its name (or id) and
/// details; anything else describes no voice.
pub open spec fn voice_of(item: Json, kind: Seq<char>) -> Option<VoiceInfoView> {
    match str_spec(Some(item)) {
        Some(s) => Some(VoiceInfoView { id: s, label: s, kind }),
        None => match voice_id(item) {
            None => None,
            Some(id) => {
                let name = match str_spec(get_spec(item, "name"@)) {
                    Some(n) => n,
                    None => id,
                };
                Some(VoiceInfoView { id, label: voice_label(name, id, voice_details(item)), kind })
            },
        },
    }
}

/// The voices that a list of entries describes, in order.
pub open spec fn voices_of(items: Seq<Json>, kind: Seq<char>) -> Seq<VoiceInfoView>
    decreases items.len(),
{
    if items.len() == 0 {
        Seq::empty()
    } else {
        let r = voices_of(items.drop_last(), kind);
        match voice_of(items.last(), kind) {
            Some(x) => r.push(x),
            None => r,
        }
    }
}

fn opt_text(j: Option<&Json>) -> (r: Option<String>)
    ensures
        match r {
            Some(s) => j matches Some(x) && str_spec(Some(*x)) == Some(s@),
            None => j is None || str_spec(Some(*j->0)) is None,
        },
{
    match j {
        Some(x) => match x.as_str() {
            Some(s) => Some(s.clone()),
            None => None,
        },
        None => None,
    }
}

fn array_member<'a>(v: &'a Json, key: &str) -> (r: Option<&'a Vec<Json>>)
    ensures
        match r {
            Some(a) => array_spec(get_spec(*v, key@)) == Some(a@),
            None => array_spec(get_spec(*v, key@)) is None,
        },
{
    match v.get(key) {
        Some(x) => x.as_array(),
        None => None,
    }
}

fn text_member(v: &Json, key: &str) -> (r: Option<String>)
    ensures
        match r {
            Some(s) => str_spec(get_spec(*v, key@)) == Some(s@),
            None => str_spec(get_spec(*v, key@)) is None,
        },
{
    opt_text(v.get(key))
}

/// Joins texts with a separator between them.
pub fn join_strings(parts: &Vec<String>, sep: &str) -> (r: String)
    ensures
        r@ == join(parts.deep_view(), sep@),
{
    let mut r = String::new();
    let mut i: usize = 0;
    while i < parts.len()
        invariant
            i <= parts@.len(),
            r@ == join(parts.deep_view().take(i as int), sep@),
        decreases parts@.len() - i,
    {
        let ghost pre = parts.deep_view().take(i as int);
        assert(parts.deep_view().take(i + 1).drop_last() == pre);
        if i > 0 {
            r.append(sep);
        } else {
            assert(parts.deep_view().take(1) == seq![parts.deep_view()[0]]);
        }
        r.append(parts[i].as_str());
        i = i + 1;
    }
    assert(parts.deep_view().take(parts@.len() as int) == parts.deep_view());
    r
}

fn voice_from_item(item: &Json, kind: &str) -> (r: Option<VoiceInfo>)
    ensures
        match r {
            Some(x) => voice_of(*item, kind@) == Some(x@),
            None => voice_of(*item, kind@) is None,
        },
{
    if let Some(s) = item.as_str() {
        return Some(VoiceInfo { id: s.clone(), label: s.clone(), kind: String::from_str(kind) });
    }
    let id = match text_member(item, "voice_id") {
        Some(x) => x,
        None => match text_member(item, "id") {
            Some(x) => x,
            None => match text_member(item, "name") {
                Some(x) => x,
                None => {
                    return None;
                },
            },
        },
    };
    let name = match text_member(item, "name") {
        Some(n) => n,
        None => id.clone(),
    };
    let mut details: Vec<String> = Vec::new();
    let ghost d0 = details.deep_view();
    if let Some(d) = text_member(item, "gender") {
        details.push(d);
    }
    assert(details.deep_view() =~= push_some(d0, str_spec(get_spec(*item, "gender"@))));
    let ghost d1 = details.deep_view();
    if let Some(d) = text_member(item, "age") {
        details.push(d);
    }
    assert(details.deep_view() =~= push_some(d1, str_spec(get_spec(*item, "age"@))));
    let ghost d2 = details.deep_view();
    if let Some(d) = text_member(item, "tone") {
        details.push(d);
    }
    assert(details.deep_view() =~= push_some(d2, str_spec(get_spec(*item, "tone"@))));
    let ghost d3 = details.deep_view();
    if let Some(d) = text_member(item, "language") {
        details.push(d);
    }
    assert(details.deep_view() =~= push_some(d3, str_spec(get_spec(*item, "language"@))));
    assert(d0 =~= Seq::<Seq<char>>::empty());
    assert(details.deep_view() == voice_details(*item));
    let mut label = name.clone();
    if details.len() == 0 {
        label.append(" (");
    } else {
        label.append(" \u{2014} ");
        let joined = join_strings(&details, ", ");
        label.append(joined.as_str());
        label.append(" (");
    }
    label.append(id.as_str());
    label.append(")");
    Some(VoiceInfo { id, label, kind: String::from_str(kind) })
}

fn voice_list(v: &Json) -> (r: Option<&Vec<Json>>)
    ensures
        match r {
            Some(a) => a@ == voice_items(*v),
            None => voice_items(*v) == Seq::<Json>::empty(),
        },
{
    match v.as_array() {
        Some(a) => Some(a),
        None => match array_member(v, "voices") {
            Some(a) => Some(a),
            None => match array_member(v, "data") {
                Some(a) => Some(a),
                None => match array_member(v, "custom_voices") {
                    Some(a) => Some(a),
                    None => match array_member(v, "results") {
                        Some(a) => Some(a),
                        None => array_member(v, "items"),
                    },
                },
            },
        },
    }
}

/// Appends to `out` every voice that a voices response describes, marked
/// with `kind`.
pub fn collect_voices(v: &Json, kind: &str, out: &mut Vec<VoiceInfo>)
    ensures
        voices_view(final(out)@) == voices_view(old(out)@) + voices_of(voice_items(*v), kind@),
{
    let arr = match voice_list(v) {
        Some(a) => a,
        None => {
            assert(voices_of(Seq::<Json>::empty(), kind@) =~= Seq::<VoiceInfoView>::empty());
            assert(voices_view(out@) =~= voices_view(out@) + Seq::<VoiceInfoView>::empty());
            return;
        },
    };
    let ghost start = voices_view(out@);
    assert(arr@.take(0) =~= Seq::<Json>::empty());
    assert(start =~= start + voices_of(arr@.take(0), kind@));
    let mut i: usize = 0;
    while i < arr.len()
        invariant
            i <= arr@.len(),
            voices_view(out@) == start + voices_of(arr@.take(i as int), kind@),
        decreases arr@.len() - i,
    {
        assert(arr@.take(i + 1).drop_last() == arr@.take(i as int));
        assert(arr@.take(i + 1).last() == arr@[i as int]);
        match voice_from_item(&arr[i], kind) {
            Some(x) => {
                let ghost before = out@;
                out.push(x);
                assert(voices_view(out@) =~= voices_view(before).push(x@));
                assert(voices_view(out@) =~= start + voices_of(arr@.take(i + 1), kind@));
            },
            None => {},
        }
        i = i + 1;
    }
    assert(arr@.take(arr@.len() as int) == arr@);
}

/// What came of one request to the service: an answer with its status, its
/// body, and the body read as JSON when it is JSON; or a failure with its
/// message.
pub enum FetchOutcome {
    Answered { success: bool, status: String, body: String, json: Option<Json> },
    Failed { error: String },
}

/// The endpoints that list voices, with the kind of voice each lists.
pub fn voice_endpoints() -> (r: Vec<(String, String)>)
    ensures
        r@.len() == 2,
        r@[0].0@ == "https://api.x.ai/v1/tts/voices"@,
        r@[0].1@ == "built-in"@,
        r@[1].0@ == "https://api.x.ai/v1/custom-voices"@,
        r@[1].1@ == "custom"@,
{
    let mut r: Vec<(String, String)> = Vec::new();
    r.push((String::from_str("https://api.x.ai/v1/tts/voices"), String::from_str("built-in")));
    r.push((String::from_str("https://api.x.ai/v1/custom-voices"), String::from_str("custom")));
    r
}

/// Listing voices needs an API key.
pub fn require_voices_key(api_key: &str) -> (r: Result<(), String>)
    ensures
        api_key@.len() == 0 ==> (r matches Err(e) && e@ == "xAI API key not set"@),
        api_key@.len() > 0 ==> r is Ok,
{
    if api_key.is_empty() {
        Err(String::from_str("xAI API key not set"))
    } else {
        Ok(())
    }
}

/// The error that an unsuccessful answer leaves: `kind status: body`.
pub open spec fn answer_error(kind: Seq<char>, status: Seq<char>, body: Seq<char>) -> Seq<char> {
    kind + " "@ + status + ": "@ + body
}

/// The error that a failed request leaves: `kind: error`.
pub open spec fn failure_error(kind: Seq<char>, error: Seq<char>) -> Seq<char> {
    kind + ": "@ + error
}

/// Takes in the outcome of one voices request: the voices of a successful
/// JSON answer are appended; an unsuccessful answer or a failure becomes the
/// last error.
pub fn absorb_voice_response(kind: &str, outcome: &FetchOutcome, out: &mut Vec<VoiceInfo>, last_err: &mut Option<String>)
    ensures
        match *outcome {
            FetchOutcome::Answered { success, status, body, json } => {
                if success {
                    &&& *final(last_err) == *old(last_err)
                    &&& voices_view(final(out)@) == voices_view(old(out)@) + match json {
                        Some(j) => voices_of(voice_items(j), kind@),
                        None => Seq::empty(),
                    }
                } else {
                    &&& final(out)@ == old(out)@
                    &&& *final(last_err) matches Some(e) && e@ == answer_error(kind@, status@, body@)
                }
            },
            FetchOutcome::Failed { error } => {
                &&& final(out)@ == old(out)@
                &&& *final(last_err) matches Some(e) && e@ == failure_error(kind@, error@)
            },
        },
{
    match outcome {
        FetchOutcome::Answered { success, status, body, json } => {
            if *success {
                match json {
                    Some(j) => collect_voices(j, kind, out),
                    None => {
                        assert(voices_view(out@) =~= voices_view(out@) + Seq::<VoiceInfoView>::empty());
                    },
                }
            } else {
                let mut e = String::from_str(kind);
                e.append(" ");
                e.append(status.as_str());
                e.append(": ");
                e.append(body.as_str());
                *last_err = Some(e);
            }
        },
        FetchOutcome::Failed { error } => {
            let mut e = String::from_str(kind);
            e.append(": ");
            e.append(error.as_str());
            *last_err = Some(e);
        },
    }
}

/// The result of listing voices: the voices found, unless none were found
/// and some request went wrong, in which case the last error.
pub fn finish_voice_listing(out: Vec<VoiceInfo>, last_err: Option<String>) -> (r: Result<Vec<VoiceInfo>, String>)
    ensures
        (out@.len() == 0 && last_err is Some) ==> r == Err::<Vec<VoiceInfo>, String>(last_err->0),
        !(out@.len() == 0 && last_err is Some) ==> r == Ok::<Vec<VoiceInfo>, String>(out),
{
    if out.len() == 0 {
        if let Some(e) = last_err {
            return Err(e);
        }
    }
    Ok(out)
}

/// One message of a chat with the model.
pub struct ChatMessage {
    pub role: String,
    pub content: String,
}

/// A function that the model asks to call, with its arguments as JSON text.
pub struct FunctionCall {
    pub name: String,
    pub arguments: String,
}

/// A tool call of the model.
pub struct ToolCall {
    pub id: String,
    pub call_type: String,
    pub function: FunctionCall,
}

/// The model's answer: text, tool calls, or both.
pub struct AssistantMessage {
    pub content: Option<String>,
    pub tool_calls: Option<Vec<ToolCall>>,
}

/// A parameter of a tool: its name and JSON type.
pub type ParamSpec = (Seq<char>, Seq<char>);

/// A tool offered to the model: name, description, parameters, and the
/// required parameters (if the schema lists any).
pub type ToolSpec = (Seq<char>, Seq<char>, Seq<ParamSpec>, Option<Seq<Seq<char>>>);

/// The tools offered to the model, in order.
pub open spec fn tool_table() -> Seq<ToolSpec> {
    seq![
        ("send_message"@, "Reply to the channel with a message."@,
            seq![("content"@, "string"@)], Some(seq!["content"@])),
        ("react"@, "React to the most recent message with an emoji (unicode)."@,
            seq![("emoji"@, "string"@)], Some(seq!["emoji"@])),
        ("kick_user"@, "Kick a user from the guild by user_id."@,
            seq![("user_id"@, "string"@), ("reason"@, "string"@)], Some(seq!["user_id"@])),
        ("ban_user"@, "Ban a user from the guild by user_id."@,
            seq![("user_id"@, "string"@), ("reason"@, "string"@)], Some(seq!["user_id"@])),
        ("timeout_user"@, "Timeout (mute) a user for N seconds."@,
            seq![("user_id"@, "string"@), ("seconds"@, "integer"@)], Some(seq!["user_id"@, "seconds"@])),
        ("add_role"@, "Give a role to a user."@,
            seq![("user_id"@, "string"@), ("role_id"@, "string"@)], Some(seq!["user_id"@, "role_id"@])),
        ("remove_role"@, "Remove a role from a user."@,
            seq![("user_id"@, "string"@), ("role_id"@, "string"@)], Some(seq!["user_id"@, "role_id"@])),
        ("join_voice"@, "Join the voice channel that the mentioning user is currently in, to talk live."@,
            Seq::empty(), None),
        ("leave_voice"@, "Leave the current voice channel."@,
            Seq::empty(), None)
    ]
}

/// Whether `j` is the string value with the text.
pub open spec fn is_text(j: Json, t: Seq<char>) -> bool {
    j matches Json::Str(s) && s@ == t
}

/// Whether member `i` of the object members has the key.
pub open spec fn member_is(ps: Seq<(String, Json)>, i: int, key: Seq<char>) -> bool {
    0 <= i < ps.len() && ps[i].0@ == key
}

/// Whether `j` is the JSON schema of the parameters.
pub open spec fn params_schema(j: Json, params: Seq<ParamSpec>, required: Option<Seq<Seq<char>>>) -> bool {
    j matches Json::Object(qs) && {
        &&& qs@.len() == if required is Some { 3int } else { 2int }
        &&& member_is(qs@, 0, "type"@) && is_text(qs@[0].1, "object"@)
        &&& member_is(qs@, 1, "properties"@)
        &&& qs@[1].1 matches Json::Object(props) && {
            &&& props@.len() == params.len()
            &&& forall|k: int| 0 <= k < params.len() ==> {
                &&& #[trigger] props@[k].0@ == params[k].0
                &&& props@[k].1 matches Json::Object(ts) && ts@.len() == 1
                    && member_is(ts@, 0, "type"@) && is_text(ts@[0].1, params[k].1)
            }
        }
        &&& required matches Some(req) ==> {
            &&& member_is(qs@, 2, "required"@)
            &&& qs@[2].1 matches Json::Array(rs) && rs@.len() == req.len()
                && forall|k: int| 0 <= k < req.len() ==> is_text(#[trigger] rs@[k], req[k])
        }
    }
}

/// Whether `j` is the schema entry of the tool.
pub open spec fn tool_entry(j: Json, t: ToolSpec) -> bool {
    j matches Json::Object(ps) && {
        &&& ps@.len() == 2
        &&& member_is(ps@, 0, "type"@) && is_text(ps@[0].1, "function"@)
        &&& member_is(ps@, 1, "function"@)
        &&& ps@[1].1 matches Json::Object(fs) && {
            &&& fs@.len() == 3
            &&& member_is(fs@, 0, "name"@) && is_text(fs@[0].1, t.0)
            &&& member_is(fs@, 1, "description"@) && is_text(fs@[1].1, t.1)
            &&& member_is(fs@, 2, "parameters"@) && params_schema(fs@[2].1, t.2, t.3)
        }
    }
}

/// Whether `j` is the catalogue of tools offered to the model.
pub open spec fn is_tool_schema(j: Json) -> bool {
    j matches Json::Array(ts) && ts@.len() == tool_table().len()
        && forall|i: int| 0 <= i < ts@.len() ==> tool_entry(#[trigger] ts@[i], tool_table()[i])
}

fn single(key: &str, value: Json) -> (r: Json)
    ensures
        r matches Json::Object(ps) && ps@.len() == 1 && ps@[0].0@ == key@ && ps@[0].1 == value,
{
    let mut ps: Vec<(String, Json)> = Vec::new();
    ps.push((String::from_str(key), value));
    Json::Object(ps)
}

fn function_tool(name: &str, desc: &str, params: Vec<(&str, &str)>, required: Option<Vec<&str>>) -> (r: Json)
    ensures
        tool_entry(r, (name@, desc@, params@.map_values(|p: (&str, &str)| (p.0@, p.1@)),
            match required {
                Some(v) => Some(v@.map_values(|q: &str| q@)),
                None => None,
            })),
{
    let ghost pspec = params@.map_values(|p: (&str, &str)| (p.0@, p.1@));
    let mut props: Vec<(String, Json)> = Vec::new();
    let mut i: usize = 0;
    while i < params.len()
        invariant
            i <= params@.len(),
            pspec == params@.map_values(|p: (&str, &str)| (p.0@, p.1@)),
            props@.len() == i,
            forall|k: int| 0 <= k < i ==> {
                &&& #[trigger] props@[k].0@ == pspec[k].0
                &&& props@[k].1 matches Json::Object(ts) && ts@.len() == 1
                    && member_is(ts@, 0, "type"@) && is_text(ts@[0].1, pspec[k].1)
            },
        decreases params@.len() - i,
    {
        let (pn, pt) = params[i];
        props.push((String::from_str(pn), single("type", jstr(pt))));
        i = i + 1;
    }
    let mut qs: Vec<(String, Json)> = Vec::new();
    qs.push((String::from_str("type"), jstr("object")));
    qs.push((String::from_str("properties"), Json::Object(props)));
    match &required {
        Some(req) => {
            let mut rs: Vec<Json> = Vec::new();
            let mut k: usize = 0;
            while k < req.len()
                invariant
                    k <= req@.len(),
                    rs@.len() == k,
                    forall|q: int| 0 <= q < k ==> is_text(#[trigger] rs@[q], req@[q]@),
                decreases req@.len() - k,
            {
                rs.push(jstr(req[k]));
                k = k + 1;
            }
            qs.push((String::from_str("required"), Json::Array(rs)));
        },
        None => {},
    }
    let mut fs: Vec<(String, Json)> = Vec::new();
    fs.push((String::from_str("name"), jstr(name)));
    fs.push((String::from_str("description"), jstr(desc)));
    fs.push((String::from_str("parameters"), Json::Object(qs)));
    let mut ps: Vec<(String, Json)> = Vec::new();
    ps.push((String::from_str("type"), jstr("function")));
    ps.push((String::from_str("function"), Json::Object(fs)));
    Json::Object(ps)
}

proof fn lemma_tool_entry_eq(j: Json, a: ToolSpec, b: ToolSpec)
    requires
        tool_entry(j, a),
        a.0 == b.0,
        a.1 == b.1,
        a.2 =~= b.2,
        a.3 is Some <==> b.3 is Some,
        a.3 is Some ==> a.3->0 =~= b.3->0,
    ensures
        tool_entry(j, b),
{
    assert(a.2 == b.2);
    assert(a.3 == b.3);
}

/// The catalogue of tools offered to the model: reply, react, kick, ban,
/// time out, add and remove a role, join and leave voice.
pub fn tool_schema() -> (r: Json)
    ensures
        is_tool_schema(r),
{
    let mut ts: Vec<Json> = Vec::new();
    let p0: Vec<(&str, &str)> = vec![("content", "string")];
    let q0: Vec<&str> = vec!["content"];
    let t0 = function_tool("send_message", "Reply to the channel with a message.", p0, Some(q0));
    proof {
        assert(p0@ == seq![("content", "string")]);
        assert(q0@ == seq!["content"]);
        lemma_tool_entry_eq(t0, ("send_message"@, "Reply to the channel with a message."@, p0@.map_values(|p: (&str, &str)| (p.0@, p.1@)), Some(q0@.map_values(|q: &str| q@))), tool_table()[0]);
    }
    ts.push(t0);
    let p1: Vec<(&str, &str)> = vec![("emoji", "string")];
    let q1: Vec<&str> = vec!["emoji"];
    let t1 = function_tool("react", "React to the most recent message with an emoji (unicode).", p1, Some(q1));
    proof {
        assert(p1@ == seq![("emoji", "string")]);
        assert(q1@ == seq!["emoji"]);
        lemma_tool_entry_eq(t1, ("react"@, "React to the most recent message with an emoji (unicode)."@, p1@.map_values(|p: (&str, &str)| (p.0@, p.1@)), Some(q1@.map_values(|q: &str| q@))), tool_table()[1]);
    }
    ts.push(t1);
    let p2: Vec<(&str, &str)> = vec![("user_id", "string"), ("reason", "string")];
    let q2: Vec<&str> = vec!["user_id"];
    let t2 = function_tool("kick_user", "Kick a user from the guild by user_id.", p2, Some(q2));
    proof {
        assert(p2@ == seq![("user_id", "string"), ("reason", "string")]);
        assert(q2@ == seq!["user_id"]);
        lemma_tool_entry_eq(t2, ("kick_user"@, "Kick a user from the guild by user_id."@, p2@.map_values(|p: (&str, &str)| (p.0@, p.1@)), Some(q2@.map_values(|q: &str| q@))), tool_table()[2]);
    }
    ts.push(t2);
    let p3: Vec<(&str, &str)> = vec![("user_id", "string"), ("reason", "string")];
    let q3: Vec<&str> = vec!["user_id"];
    let t3 = function_tool("ban_user", "Ban a user from the guild by user_id.", p3, Some(q3));
    proof {
        assert(p3@ == seq![("user_id", "string"), ("reason", "string")]);
        assert(q3@ == seq!["user_id"]);
        lemma_tool_entry_eq(t3, ("ban_user"@, "Ban a user from the guild by user_id."@, p3@.map_values(|p: (&str, &str)| (p.0@, p.1@)), Some(q3@.map_values(|q: &str| q@))), tool_table()[3]);
    }
    ts.push(t3);
    let p4: Vec<(&str, &str)> = vec![("user_id", "string"), ("seconds", "integer")];
    let q4: Vec<&str> = vec!["user_id", "seconds"];
    let t4 = function_tool("timeout_user", "Timeout (mute) a user for N seconds.", p4, Some(q4));
    proof {
        assert(p4@ == seq![("user_id", "string"), ("seconds", "integer")]);
        assert(q4@ == seq!["user_id", "seconds"]);
        lemma_tool_entry_eq(t4, ("timeout_user"@, "Timeout (mute) a user for N seconds."@, p4@.map_values(|p: (&str, &str)| (p.0@, p.1@)), Some(q4@.map_values(|q: &str| q@))), tool_table()[4]);
    }
    ts.push(t4);
    let p5: Vec<(&str, &str)> = vec![("user_id", "string"), ("role_id", "string")];
    let q5: Vec<&str> = vec!["user_id", "role_id"];
    let t5 = function_tool("add_role", "Give a role to a user.", p5, Some(q5));
    proof {
        assert(p5@ == seq![("user_id", "string"), ("role_id", "string")]);
        assert(q5@ == seq!["user_id", "role_id"]);
        lemma_tool_entry_eq(t5, ("add_role"@, "Give a role to a user."@, p5@.map_values(|p: (&str, &str)| (p.0@, p.1@)), Some(q5@.map_values(|q: &str| q@))), tool_table()[5]);
    }
    ts.push(t5);
    let p6: Vec<(&str, &str)> = vec![("user_id", "string"), ("role_id", "string")];
    let q6: Vec<&str> = vec!["user_id", "role_id"];
    let t6 = function_tool("remove_role", "Remove a role from a user.", p6, Some(q6));
    proof {
        assert(p6@ == seq![("user_id", "string"), ("role_id", "string")]);
        assert(q6@ == seq!["user_id", "role_id"]);
        lemma_tool_entry_eq(t6, ("remove_role"@, "Remove a role from a user."@, p6@.map_values(|p: (&str, &str)| (p.0@, p.1@)), Some(q6@.map_values(|q: &str| q@))), tool_table()[6]);
    }
    ts.push(t6);
    let p7: Vec<(&str, &str)> = vec![];
    let t7 = function_tool("join_voice", "Join the voice channel that the mentioning user is currently in, to talk live.", p7, None);
    proof {
        assert(p7@ =~= Seq::<(&str, &str)>::empty());
        lemma_tool_entry_eq(t7, ("join_voice"@, "Join the voice channel that the mentioning user is currently in, to talk live."@, p7@.map_values(|p: (&str, &str)| (p.0@, p.1@)), None), tool_table()[7]);
    }
    ts.push(t7);
    let p8: Vec<(&str, &str)> = vec![];
    let t8 = function_tool("leave_voice", "Leave the current voice channel.", p8, None);
    proof {
        assert(p8@ =~= Seq::<(&str, &str)>::empty());
        lemma_tool_entry_eq(t8, ("leave_voice"@, "Leave the current voice channel."@, p8@.map_values(|p: (&str, &str)| (p.0@, p.1@)), None), tool_table()[8]);
    }
    ts.push(t8);
    assert(ts@.len() == 9);
    let r = Json::Array(ts);
    assert(tool_table().len() == 9);
    r
}

/// Whether `j` is the JSON form of the chat message: an object with `role`
/// and `content`.
pub open spec fn message_json(j: Json, m: ChatMessage) -> bool {
    j matches Json::Object(ps) && ps@.len() == 2
        && member_is(ps@, 0, "role"@) && is_text(ps@[0].1, m.role@)
        && member_is(ps@, 1, "content"@) && is_text(ps@[1].1, m.content@)
}

/// Whether `j` is the body of a completion request: the model, the messages
/// in order, the tool catalogue, and automatic tool choice.
pub open spec fn completion_body_json(j: Json, model: Seq<char>, messages: Seq<ChatMessage>) -> bool {
    j matches Json::Object(ps) && {
        &&& ps@.len() == 4
        &&& member_is(ps@, 0, "model"@) && is_text(ps@[0].1, model)
        &&& member_is(ps@, 1, "messages"@)
        &&& ps@[1].1 matches Json::Array(ms) && ms@.len() == messages.len()
            && forall|i: int| 0 <= i < messages.len() ==> message_json(#[trigger] ms@[i], messages[i])
        &&& member_is(ps@, 2, "tools"@) && is_tool_schema(ps@[2].1)
        &&& member_is(ps@, 3, "tool_choice"@) && is_text(ps@[3].1, "auto"@)
    }
}

/// A completion needs an API key.
pub fn require_completion_key(api_key: &str) -> (r: Result<(), String>)
    ensures
        api_key@.len() == 0 ==> (r matches Err(e) && e@ == "xAI API key is not set for this bot"@),
        api_key@.len() > 0 ==> r is Ok,
{
    if api_key.is_empty() {
        Err(String::from_str("xAI API key is not set for this bot"))
    } else {
        Ok(())
    }
}

/// The body of a completion request for the model and the conversation.
pub fn completion_body(model: &str, messages: &Vec<ChatMessage>) -> (r: Json)
    ensures
        completion_body_json(r, model@, messages@),
{
    let mut ms: Vec<Json> = Vec::new();
    let mut i: usize = 0;
    while i < messages.len()
        invariant
            i <= messages@.len(),
            ms@.len() == i,
            forall|k: int| 0 <= k < i ==> message_json(#[trigger] ms@[k], messages@[k]),
        decreases messages@.len() - i,
    {
        let mut ps: Vec<(String, Json)> = Vec::new();
        ps.push((String::from_str("role"), Json::Str(messages[i].role.clone())));
        ps.push((String::from_str("content"), Json::Str(messages[i].content.clone())));
        ms.push(Json::Object(ps));
        i = i + 1;
    }
    let mut ps: Vec<(String, Json)> = Vec::new();
    ps.push((String::from_str("model"), jstr(model)));
    ps.push((String::from_str("messages"), Json::Array(ms)));
    ps.push((String::from_str("tools"), tool_schema()));
    ps.push((String::from_str("tool_choice"), jstr("auto")));
    Json::Object(ps)
}

/// The outcome of a completion answer's status: unsuccessful answers become
/// the error `xAI status: body`.
pub fn completion_status(success: bool, status: &str, body: &str) -> (r: Result<(), String>)
    ensures
        success ==> r is Ok,
        !success ==> (r matches Err(e) && e@ == "xAI "@ + status@ + ": "@ + body@),
{
    if success {
        Ok(())
    } else {
        let mut e = String::from_str("xAI ");
        e.append(status);
        e.append(": ");
        e.append(body);
        Err(e)
    }
}

} // verus!
