//! OpenAI-compatible chat-completions backend: endpoint and model
//! resolution, the tool-name encoding strict providers need, and the
//! bounding of error bodies. The HTTP exchange itself happens at the edge of
//! the program.
use vstd::prelude::*;

use crate::adapters::{RpcCode, RpcStatus, RuntimeKind, StreamInferenceResponse};
use crate::settings::NativeToolsMode;
use crate::text::{
    append_vec, chars_of, ends_with, ends_with_vec, replace_char, replace_char_vec, starts_with,
    string_of, trim, trim_vec,
};

verus! {

pub const MODEL_DEFAULT: &'static str = "gpt-4o-mini";

#[derive(Debug, Clone)]
pub struct HttpChatMessage {
    pub role: String,
    pub content: String,
}

#[derive(Debug, Clone)]
pub struct HttpToolSpec {
    pub name: String,
    pub description: String,
    pub parameters_json: String,
}

#[derive(Debug, Clone, PartialEq, Eq)]
pub struct HttpToolCall {
    pub id: String,
    pub name: String,
    pub arguments_json: String,
}

/// `s` without trailing `/` characters.
pub open spec fn trim_slashes_end(s: Seq<char>) -> Seq<char>
    decreases s.len(),
{
    if s.len() > 0 && s.last() == '/' {
        trim_slashes_end(s.drop_last())
    } else {
        s
    }
}

/// The chat-completions endpoint for a base URL.
pub open spec fn chat_url(base: Seq<char>) -> Seq<char> {
    let t = trim_slashes_end(base);
    if ends_with(t, "/chat/completions"@) {
        t
    } else if ends_with(t, "/v1"@) {
        t + "/chat/completions"@
    } else {
        t + "/v1/chat/completions"@
    }
}

/// The chat-completions endpoint for a base URL (`…/v1` and a bare host both
/// accepted; a full endpoint is kept).
pub fn normalize_chat_completions_url(base: &str) -> (s: String)
    ensures
        s@ == chat_url(base@),
{
    let b = chars_of(base);
    let mut n: usize = b.len();
    assert(b@.take(n as int) =~= b@);
    while n > 0 && b[n - 1] == '/'
        invariant
            n <= b.len(),
            trim_slashes_end(b@) == trim_slashes_end(b@.take(n as int)),
        decreases n,
    {
        assert(b@.take(n as int).drop_last() =~= b@.take(n - 1));
        n = n - 1;
    }
    let t = crate::text::slice_vec(&b, 0, n);
    assert(t@ =~= b@.take(n as int));
    if ends_with_vec(&t, &chars_of("/chat/completions")) {
        string_of(&t)
    } else if ends_with_vec(&t, &chars_of("/v1")) {
        let mut r = t;
        append_vec(&mut r, &chars_of("/chat/completions"));
        string_of(&r)
    } else {
        let mut r = t;
        append_vec(&mut r, &chars_of("/v1/chat/completions"));
        string_of(&r)
    }
}

/// The model a request runs with: its own (trimmed) unless blank.
pub open spec fn inference_model(request_model: Seq<char>, default_model: Seq<char>) -> Seq<char> {
    if trim(request_model).len() == 0 {
        default_model
    } else {
        trim(request_model)
    }
}

/// Resolve a request's model override against the configured default.
pub fn resolve_inference_model(request_model: &str, default_model: &str) -> (s: String)
    ensures
        s@ == inference_model(request_model@, default_model@),
{
    let t = trim_vec(&chars_of(request_model));
    if t.len() == 0 {
        String::from_str(default_model)
    } else {
        string_of(&t)
    }
}

/// A tool name as strict providers accept it: `.` becomes `_`.
pub open spec fn wire_name(name: Seq<char>) -> Seq<char> {
    replace_char(name, '.', '_')
}

/// Encode a canonical tool name for the provider wire.
pub fn encode_tool_name_for_provider(name: &str) -> (s: String)
    ensures
        s@ == wire_name(name@),
{
    string_of(&replace_char_vec(&chars_of(name), '.', '_'))
}

/// Wire name to canonical name, one entry per tool in order.
pub open spec fn tool_map_of(tools: Seq<HttpToolSpec>) -> Seq<(Seq<char>, Seq<char>)> {
    tools.map_values(|t: HttpToolSpec| (wire_name(t.name@), t.name@))
}

/// The wire-to-canonical name map of the offered tools.
pub fn build_tool_name_map(tools: &Vec<HttpToolSpec>) -> (m: Vec<(String, String)>)
    ensures
        m@.map_values(|p: (String, String)| (p.0@, p.1@)) == tool_map_of(tools@),
{
    let mut m: Vec<(String, String)> = Vec::new();
    let mut i: usize = 0;
    while i < tools.len()
        invariant
            i <= tools.len(),
            m@.map_values(|p: (String, String)| (p.0@, p.1@)) == tool_map_of(tools@).take(i as int),
        decreases tools.len() - i,
    {
        let ghost before = m@;
        m.push(
            (
                encode_tool_name_for_provider(tools[i].name.as_str()),
                string_of(&chars_of(tools[i].name.as_str())),
            ),
        );
        assert(m@.map_values(|p: (String, String)| (p.0@, p.1@)) =~= before.map_values(
            |p: (String, String)| (p.0@, p.1@),
        ).push((wire_name(tools@[i as int].name@), tools@[i as int].name@)));
        assert(tool_map_of(tools@).take(i + 1) =~= tool_map_of(tools@).take(i as int).push(
            (wire_name(tools@[i as int].name@), tools@[i as int].name@),
        ));
        i = i + 1;
    }
    assert(tool_map_of(tools@).take(tools.len() as int) =~= tool_map_of(tools@));
    m
}

/// The canonical name for a wire name: the last map entry for it, or the
/// wire name itself.
pub open spec fn decoded_name(wire: Seq<char>, map: Seq<(Seq<char>, Seq<char>)>) -> Seq<char>
    decreases map.len(),
{
    if map.len() == 0 {
        wire
    } else if map.last().0 == wire {
        map.last().1
    } else {
        decoded_name(wire, map.drop_last())
    }
}

/// Map a provider's tool name back to the canonical one.
pub fn decode_tool_name_from_provider(wire: &str, map: &Vec<(String, String)>) -> (s: String)
    ensures
        s@ == decoded_name(wire@, map@.map_values(|p: (String, String)| (p.0@, p.1@))),
{
    let ghost mv = map@.map_values(|p: (String, String)| (p.0@, p.1@));
    let w = chars_of(wire);
    let mut j: usize = map.len();
    assert(mv.take(j as int) =~= mv);
    while j > 0
        invariant
            j <= map.len(),
            mv == map@.map_values(|p: (String, String)| (p.0@, p.1@)),
            w@ == wire@,
            decoded_name(wire@, mv) == decoded_name(wire@, mv.take(j as int)),
        decreases j,
    {
        assert(mv.take(j as int).drop_last() =~= mv.take(j - 1));
        assert(mv.take(j as int).last() == (map@[j - 1].0@, map@[j - 1].1@));
        if crate::text::eq_vec(&chars_of(map[j - 1].0.as_str()), &w) {
            return string_of(&chars_of(map[j - 1].1.as_str()));
        }
        j = j - 1;
    }
    String::from_str(wire)
}

/// Tool calls with their names mapped back to the canonical ones.
pub fn decode_tool_calls_from_provider(calls: Vec<HttpToolCall>, map: &Vec<(String, String)>) -> (r:
    Vec<HttpToolCall>)
    ensures
        r@.len() == calls@.len(),
        forall|i: int|
            0 <= i < calls@.len() ==> (#[trigger] r@[i]).id == calls@[i].id && r@[i].arguments_json
                == calls@[i].arguments_json && r@[i].name@ == decoded_name(
                calls@[i].name@,
                map@.map_values(|p: (String, String)| (p.0@, p.1@)),
            ),
{
    let mut r: Vec<HttpToolCall> = Vec::new();
    let mut i: usize = 0;
    while i < calls.len()
        invariant
            i <= calls.len(),
            r@.len() == i,
            forall|k: int|
                0 <= k < i ==> (#[trigger] r@[k]).id == calls@[k].id && r@[k].arguments_json
                    == calls@[k].arguments_json && r@[k].name@ == decoded_name(
                    calls@[k].name@,
                    map@.map_values(|p: (String, String)| (p.0@, p.1@)),
                ),
        decreases calls.len() - i,
    {
        let c = &calls[i];
        let name = decode_tool_name_from_provider(c.name.as_str(), map);
        r.push(HttpToolCall { id: c.id.clone(), name, arguments_json: c.arguments_json.clone() });
        i = i + 1;
    }
    r
}

/// At most `max` characters of `body`, with `…` when cut.
pub open spec fn truncated_body(body: Seq<char>, max: nat) -> Seq<char> {
    if body.len() <= max {
        body
    } else {
        body.take(max as int) + seq!['…']
    }
}

/// Bound an error body for messages.
pub fn truncate_body(body: &str, max: usize) -> (s: String)
    ensures
        s@ == truncated_body(body@, max as nat),
{
    let b = chars_of(body);
    if b.len() <= max {
        return String::from_str(body);
    }
    let mut r = crate::text::slice_vec(&b, 0, max);
    r.push('…');
    string_of(&r)
}

/// Encoding a canonical name and decoding it through the map of the offered
/// tools gives the name back, when no other offered tool shares its wire form.
pub proof fn law_tool_names_round_trip(tools: Seq<HttpToolSpec>, i: int)
    requires
        0 <= i < tools.len(),
        forall|j: int| 0 <= j < tools.len() && j != i ==> wire_name(#[trigger] tools[j].name@) != wire_name(tools[i].name@),
    ensures
        decoded_name(wire_name(tools[i].name@), tool_map_of(tools)) == tools[i].name@,
{
    lemma_decoded_name(tools, i, tools.len() as int);
    assert(tool_map_of(tools).take(tools.len() as int) =~= tool_map_of(tools));
}

proof fn lemma_decoded_name(tools: Seq<HttpToolSpec>, i: int, k: int)
    requires
        0 <= i < k <= tools.len(),
        forall|j: int| 0 <= j < tools.len() && j != i ==> wire_name(#[trigger] tools[j].name@) != wire_name(tools[i].name@),
    ensures
        decoded_name(wire_name(tools[i].name@), tool_map_of(tools).take(k)) == tools[i].name@,
    decreases k,
{
    let m = tool_map_of(tools).take(k);
    assert(m.last() == (wire_name(tools[k - 1].name@), tools[k - 1].name@));
    if k - 1 != i {
        assert(m.drop_last() =~= tool_map_of(tools).take(k - 1));
        lemma_decoded_name(tools, i, k - 1);
    }
}


// ---------------------------------------------------------------------------
// Assembling a streamed completion from its server-sent events
// ---------------------------------------------------------------------------

/// What `serde_json::from_str` into a `serde_json::Value`, then
/// `Value::pointer` and `Value::as_str`, give for a JSON text and a pointer.
pub uninterp spec fn json_str_at(text: Seq<char>, pointer: Seq<char>) -> Option<Seq<char>>;

/// What `serde_json::from_str` into a `serde_json::Value`, then
/// `Value::pointer` and `Value::as_u64`, give for a JSON text and a pointer.
pub uninterp spec fn json_u64_at(text: Seq<char>, pointer: Seq<char>) -> Option<u64>;

/// What `serde_json::from_str` into a `serde_json::Value`, then
/// `Value::pointer`, `Value::as_array` and the array's length, give for a
/// JSON text and a pointer.
pub uninterp spec fn json_array_len_at(text: Seq<char>, pointer: Seq<char>) -> Option<usize>;

/// Parses `text` with `serde_json::from_str` and reads the string at
/// `pointer` (`Value::pointer`, `Value::as_str`). Claimed: the result
/// depends on the two arguments alone; nothing is claimed of its value.
#[verifier::external_body]
pub(crate) fn json_text_at(text: &str, pointer: &str) -> (r: Option<String>)
    ensures
        match json_str_at(text@, pointer@) {
            Some(s) => r matches Some(v) && v@ == s,
            None => r is None,
        },
{
    let value: serde_json::Value = serde_json::from_str(text).ok()?;
    value.pointer(pointer)?.as_str().map(String::from)
}

/// Parses `text` with `serde_json::from_str` and reads the unsigned number
/// at `pointer` (`Value::pointer`, `Value::as_u64`). Claimed: the result
/// depends on the two arguments alone.
#[verifier::external_body]
fn json_number_at(text: &str, pointer: &str) -> (r: Option<u64>)
    ensures
        r == json_u64_at(text@, pointer@),
{
    let value: serde_json::Value = serde_json::from_str(text).ok()?;
    value.pointer(pointer)?.as_u64()
}

/// Parses `text` with `serde_json::from_str` and gives the length of the
/// array at `pointer` (`Value::pointer`, `Value::as_array`). Claimed: the
/// result depends on the two arguments alone.
#[verifier::external_body]
fn json_array_len(text: &str, pointer: &str) -> (r: Option<usize>)
    ensures
        r == json_array_len_at(text@, pointer@),
{
    let value: serde_json::Value = serde_json::from_str(text).ok()?;
    Some(value.pointer(pointer)?.as_array()?.len())
}

/// A tool call as it is being assembled: its stream index, id, name and the
/// argument text received so far.
#[derive(Debug, Clone)]
pub struct ToolCallPart {
    pub index: u32,
    pub id: String,
    pub name: String,
    pub arguments: String,
}

/// The model of a part: index, id, name, arguments.
pub type PartView = (u32, Seq<char>, Seq<char>, Seq<char>);

impl View for ToolCallPart {
    type V = PartView;

    open spec fn view(&self) -> PartView {
        (self.index, self.id@, self.name@, self.arguments@)
    }
}

/// One tool-call fragment of an event: the index it belongs to and the id,
/// name and argument text it carries.
#[derive(Debug, Clone)]
pub struct ToolCallDelta {
    pub index: u32,
    pub id: Option<String>,
    pub name: Option<String>,
    pub arguments: Option<String>,
}

/// The model of a fragment.
pub type DeltaView = (u32, Option<Seq<char>>, Option<Seq<char>>, Option<Seq<char>>);

pub open spec fn opt_chars(o: Option<String>) -> Option<Seq<char>> {
    match o {
        Some(s) => Some(s@),
        None => None,
    }
}

impl View for ToolCallDelta {
    type V = DeltaView;

    open spec fn view(&self) -> DeltaView {
        (self.index, opt_chars(self.id), opt_chars(self.name), opt_chars(self.arguments))
    }
}

/// A fragment applied to its part: a non-empty id or name replaces the old
/// one, argument text is appended.
pub open spec fn apply_fragment(p: PartView, d: DeltaView) -> PartView {
    (
        p.0,
        match d.1 {
            Some(id) => if id.len() > 0 {
                id
            } else {
                p.1
            },
            None => p.1,
        },
        match d.2 {
            Some(name) => if name.len() > 0 {
                name
            } else {
                p.2
            },
            None => p.2,
        },
        match d.3 {
            Some(a) => p.3 + a,
            None => p.3,
        },
    )
}

/// The position of the first part whose index is at least `index`.
pub open spec fn first_at_least(parts: Seq<PartView>, index: u32) -> nat
    decreases parts.len(),
{
    if parts.len() == 0 {
        0
    } else if parts[0].0 >= index {
        0
    } else {
        1 + first_at_least(parts.drop_first(), index)
    }
}

/// The parts after one fragment: the part with the fragment's index is
/// updated, or a new one is inserted in index order.
pub open spec fn upsert_part(parts: Seq<PartView>, d: DeltaView) -> Seq<PartView> {
    let j = first_at_least(parts, d.0) as int;
    if j < parts.len() && parts[j].0 == d.0 {
        parts.update(j, apply_fragment(parts[j], d))
    } else {
        parts.insert(j, apply_fragment((d.0, Seq::empty(), Seq::empty(), Seq::empty()), d))
    }
}

/// The parts after a sequence of fragments, in order.
pub open spec fn upsert_parts(parts: Seq<PartView>, ds: Seq<DeltaView>) -> Seq<PartView>
    decreases ds.len(),
{
    if ds.len() == 0 {
        parts
    } else {
        upsert_part(upsert_parts(parts, ds.drop_last()), ds.last())
    }
}

/// Parts ordered by strictly increasing index.
pub open spec fn parts_sorted(parts: Seq<PartView>) -> bool {
    forall|i: int, j: int| 0 <= i < j < parts.len() ==> parts[i].0 < parts[j].0
}

/// The finished calls: the parts that got a name, in index order, as
/// (id, name, arguments).
pub open spec fn named_calls(parts: Seq<PartView>) -> Seq<(Seq<char>, Seq<char>, Seq<char>)>
    decreases parts.len(),
{
    if parts.len() == 0 {
        Seq::empty()
    } else {
        let rest = named_calls(parts.drop_last());
        let p = parts.last();
        if p.2.len() > 0 {
            rest.push((p.1, p.2, p.3))
        } else {
            rest
        }
    }
}

/// The JSON text of an event line: after `data:`, trimmed; none for other
/// lines and for the `[DONE]` marker.
pub open spec fn sse_payload(line: Seq<char>) -> Option<Seq<char>> {
    let t = trim(line);
    if starts_with(t, "data:"@) {
        let p = trim(t.subrange(5, t.len() as int));
        if p == "[DONE]"@ {
            None
        } else {
            Some(p)
        }
    } else {
        None
    }
}

/// The text an event adds: the delta content, else the message content.
pub open spec fn content_of(payload: Seq<char>) -> Option<Seq<char>> {
    match json_str_at(payload, "/choices/0/delta/content"@) {
        Some(c) => Some(c),
        None => json_str_at(payload, "/choices/0/message/content"@),
    }
}

/// The JSON pointer of the `i`-th tool-call fragment of an event.
pub open spec fn call_pointer(i: nat) -> Seq<char> {
    "/choices/0/delta/tool_calls/"@ + crate::text::decimal(i)
}

/// The `i`-th tool-call fragment of an event (index 0 when it has none).
pub open spec fn fragment_of(payload: Seq<char>, i: nat) -> DeltaView {
    let base = call_pointer(i);
    (
        match json_u64_at(payload, base + "/index"@) {
            Some(n) => n as u32,
            None => 0,
        },
        json_str_at(payload, base + "/id"@),
        json_str_at(payload, base + "/function/name"@),
        json_str_at(payload, base + "/function/arguments"@),
    )
}

/// The tool-call fragments of an event, in order.
pub open spec fn fragments_of(payload: Seq<char>) -> Seq<DeltaView> {
    match json_array_len_at(payload, "/choices/0/delta/tool_calls"@) {
        Some(n) => Seq::new(n as nat, |i: int| fragment_of(payload, i as nat)),
        None => Seq::empty(),
    }
}

/// The state of a completion being read from its event stream: the text so
/// far and the tool calls in index order.
#[derive(Debug)]
pub struct SseAssemblyState {
    pub content: String,
    pub tool_parts: Vec<ToolCallPart>,
}

impl SseAssemblyState {
    /// The parts' models.
    pub open spec fn parts(&self) -> Seq<PartView> {
        self.tool_parts@.map_values(|p: ToolCallPart| p@)
    }

    /// The parts are kept in strictly increasing index order.
    pub open spec fn wf(&self) -> bool {
        parts_sorted(self.parts())
    }

    /// Nothing read yet.
    pub fn new() -> (s: Self)
        ensures
            s.wf(),
            s.content@ == Seq::<char>::empty(),
            s.parts() == Seq::<PartView>::empty(),
    {
        let s = SseAssemblyState { content: String::new(), tool_parts: Vec::new() };
        assert(s.parts() =~= Seq::<PartView>::empty());
        s
    }

    /// Apply one event: its text is appended, its tool-call fragments are
    /// applied in order.
    pub fn apply_event(&mut self, content: Option<String>, fragments: &Vec<ToolCallDelta>)
        requires
            old(self).wf(),
        ensures
            final(self).wf(),
            final(self).content@ == old(self).content@ + match opt_chars(content) {
                Some(c) => c,
                None => Seq::empty(),
            },
            final(self).parts() == upsert_parts(old(self).parts(), fragments@.map_values(|d: ToolCallDelta| d@)),
    {
        match content {
            Some(c) => {
                self.content.append(c.as_str());
            },
            None => {
                assert(self.content@ + Seq::<char>::empty() =~= self.content@);
            },
        }
        let ghost start = self.parts();
        let ghost text = self.content;
        let ghost dv = fragments@.map_values(|d: ToolCallDelta| d@);
        let mut i: usize = 0;
        assert(dv.take(0) =~= Seq::<DeltaView>::empty());
        while i < fragments.len()
            invariant
                i <= fragments.len(),
                dv == fragments@.map_values(|d: ToolCallDelta| d@),
                self.content == text,
                parts_sorted(self.parts()),
                self.parts() == upsert_parts(start, dv.take(i as int)),
            decreases fragments.len() - i,
        {
            self.upsert(&fragments[i]);
            assert(dv.take(i + 1).drop_last() =~= dv.take(i as int));
            i = i + 1;
        }
        assert(dv.take(fragments.len() as int) =~= dv);
    }

    /// Apply one fragment to its part, creating the part in index order when
    /// it is new.
    fn upsert(&mut self, d: &ToolCallDelta)
        requires
            parts_sorted(old(self).parts()),
        ensures
            parts_sorted(final(self).parts()),
            final(self).parts() == upsert_part(old(self).parts(), d@),
            final(self).content == old(self).content,
    {
        let ghost ps = self.parts();
        let mut j: usize = 0;
        while j < self.tool_parts.len() && self.tool_parts[j].index < d.index
            invariant
                j <= self.tool_parts.len(),
                ps == self.parts(),
                forall|k: int| 0 <= k < j ==> (#[trigger] ps[k]).0 < d.index,
            decreases self.tool_parts.len() - j,
        {
            j = j + 1;
        }
        proof {
            lemma_first_at_least(ps, d.index, j as int);
        }
        if j < self.tool_parts.len() && self.tool_parts[j].index == d.index {
            let part = applied(&self.tool_parts[j], d);
            self.tool_parts.set(j, part);
            assert(self.parts() =~= ps.update(j as int, apply_fragment(ps[j as int], d@)));
        } else {
            let fresh = ToolCallPart {
                index: d.index,
                id: String::new(),
                name: String::new(),
                arguments: String::new(),
            };
            let part = applied(&fresh, d);
            self.tool_parts.insert(j, part);
            assert(self.parts() =~= ps.insert(
                j as int,
                apply_fragment((d.index, Seq::empty(), Seq::empty(), Seq::empty()), d@),
            ));
        }
    }

    /// The calls that got a name, in index order, with their canonical ids,
    /// names and argument text.
    pub fn finish_tool_calls(&self) -> (r: Vec<HttpToolCall>)
        ensures
            r@.map_values(|c: HttpToolCall| (c.id@, c.name@, c.arguments_json@)) == named_calls(
                self.parts(),
            ),
    {
        let ghost ps = self.parts();
        let mut r: Vec<HttpToolCall> = Vec::new();
        let mut i: usize = 0;
        while i < self.tool_parts.len()
            invariant
                i <= self.tool_parts.len(),
                ps == self.parts(),
                r@.map_values(|c: HttpToolCall| (c.id@, c.name@, c.arguments_json@)) == named_calls(
                    ps.take(i as int),
                ),
            decreases self.tool_parts.len() - i,
        {
            let p = &self.tool_parts[i];
            let ghost before = r@;
            assert(ps.take(i + 1).drop_last() =~= ps.take(i as int));
            assert(ps.take(i + 1).last() == p@);
            if chars_of(p.name.as_str()).len() > 0 {
                r.push(
                    HttpToolCall {
                        id: p.id.clone(),
                        name: p.name.clone(),
                        arguments_json: p.arguments.clone(),
                    },
                );
                assert(r@.map_values(|c: HttpToolCall| (c.id@, c.name@, c.arguments_json@))
                    =~= before.map_values(|c: HttpToolCall| (c.id@, c.name@, c.arguments_json@)).push(
                    (p.id@, p.name@, p.arguments@),
                ));
            }
            i = i + 1;
        }
        assert(ps.take(self.tool_parts.len() as int) =~= ps);
        r
    }

    /// Read one line of the event stream.
    pub fn ingest_line(&mut self, line: &str)
        requires
            old(self).wf(),
        ensures
            final(self).wf(),
            match sse_payload(line@) {
                Some(p) => {
                    &&& final(self).content@ == old(self).content@ + match content_of(p) {
                        Some(c) => c,
                        None => Seq::empty(),
                    }
                    &&& final(self).parts() == upsert_parts(old(self).parts(), fragments_of(p))
                },
                None => *final(self) == *old(self),
            },
    {
        let t = trim_vec(&chars_of(line));
        let data = chars_of("data:");
        proof {
            reveal_strlit("data:");
            reveal_strlit("[DONE]");
        }
        if !crate::text::starts_with_vec(&t, &data) {
            return;
        }
        let payload = trim_vec(&crate::text::slice_vec(&t, 5, t.len()));
        if crate::text::eq_vec(&payload, &chars_of("[DONE]")) {
            return;
        }
        let payload = string_of(&payload);
        let (content, fragments) = read_event(payload.as_str());
        self.apply_event(content, &fragments);
    }
}

/// The text and the tool-call fragments of one event's JSON.
fn read_event(payload: &str) -> (r: (Option<String>, Vec<ToolCallDelta>))
    ensures
        opt_chars(r.0) == content_of(payload@),
        r.1@.map_values(|d: ToolCallDelta| d@) == fragments_of(payload@),
{
    let content = match json_text_at(payload, "/choices/0/delta/content") {
        Some(c) => Some(c),
        None => json_text_at(payload, "/choices/0/message/content"),
    };
    proof {
        reveal_strlit("/choices/0/delta/content");
        reveal_strlit("/choices/0/message/content");
        reveal_strlit("/choices/0/delta/tool_calls");
    }
    let mut fragments: Vec<ToolCallDelta> = Vec::new();
    match json_array_len(payload, "/choices/0/delta/tool_calls") {
        None => {
            assert(fragments@.map_values(|d: ToolCallDelta| d@) =~= fragments_of(payload@));
        },
        Some(n) => {
            let ghost all = fragments_of(payload@);
            let mut i: usize = 0;
            while i < n
                invariant
                    i <= n,
                    all.len() == n,
                    all == fragments_of(payload@),
                    forall|k: int| 0 <= k < n ==> #[trigger] all[k] == fragment_of(payload@, k as nat),
                    fragments@.map_values(|d: ToolCallDelta| d@) == all.take(i as int),
                decreases n - i,
            {
                let base = crate::text::prefixed_decimal("/choices/0/delta/tool_calls/", i as u64);
                let index = match json_number_at(payload, base.clone().concat("/index").as_str()) {
                    Some(v) => v as u32,
                    None => 0,
                };
                let id = json_text_at(payload, base.clone().concat("/id").as_str());
                let name = json_text_at(payload, base.clone().concat("/function/name").as_str());
                let arguments = json_text_at(payload, base.concat("/function/arguments").as_str());
                proof {
                    reveal_strlit("/index");
                    reveal_strlit("/id");
                    reveal_strlit("/function/name");
                    reveal_strlit("/function/arguments");
                    reveal_strlit("/choices/0/delta/tool_calls/");
                }
                let d = ToolCallDelta { index, id, name, arguments };
                let ghost before = fragments@;
                fragments.push(d);
                assert(fragments@.map_values(|d: ToolCallDelta| d@) =~= before.map_values(
                    |d: ToolCallDelta| d@,
                ).push(fragment_of(payload@, i as nat)));
                assert(all.take(i + 1) =~= all.take(i as int).push(all[i as int]));
                i = i + 1;
            }
            assert(all.take(n as int) =~= all);
        },
    }
    (content, fragments)
}

/// A part with a fragment applied.
fn applied(p: &ToolCallPart, d: &ToolCallDelta) -> (r: ToolCallPart)
    ensures
        r@ == apply_fragment(p@, d@),
{
    let id = match &d.id {
        Some(id) => if chars_of(id.as_str()).len() > 0 {
            id.clone()
        } else {
            p.id.clone()
        },
        None => p.id.clone(),
    };
    let name = match &d.name {
        Some(name) => if chars_of(name.as_str()).len() > 0 {
            name.clone()
        } else {
            p.name.clone()
        },
        None => p.name.clone(),
    };
    let mut arguments = p.arguments.clone();
    match &d.arguments {
        Some(a) => {
            arguments.append(a.as_str());
        },
        None => {},
    }
    ToolCallPart { index: p.index, id, name, arguments }
}

proof fn lemma_first_at_least(ps: Seq<PartView>, index: u32, j: int)
    requires
        0 <= j <= ps.len(),
        forall|k: int| 0 <= k < j ==> (#[trigger] ps[k]).0 < index,
        j < ps.len() ==> ps[j].0 >= index,
    ensures
        first_at_least(ps, index) == j,
    decreases j,
{
    if j > 0 {
        assert(ps[0].0 < index);
        let rest = ps.drop_first();
        assert forall|k: int| 0 <= k < j - 1 implies (#[trigger] rest[k]).0 < index by {
            assert(rest[k] == ps[k + 1]);
        }
        if j - 1 < rest.len() {
            assert(rest[j - 1] == ps[j]);
        }
        lemma_first_at_least(rest, index, j - 1);
    }
}


/// The argument text a fragment carries (none counts as empty).
pub open spec fn fragment_args(d: DeltaView) -> Seq<char> {
    match d.3 {
        Some(a) => a,
        None => Seq::<char>::empty(),
    }
}

/// Some part has index `k` and argument text `a`.
pub open spec fn has_part(parts: Seq<PartView>, k: u32, a: Seq<char>) -> bool {
    exists|i: int| 0 <= i < parts.len() && parts[i].0 == k && #[trigger] parts[i].3 == a
}

/// The argument text of all fragments for index `k`, in the order received.
pub open spec fn args_for(ds: Seq<DeltaView>, k: u32) -> Seq<char>
    decreases ds.len(),
{
    if ds.len() == 0 {
        Seq::<char>::empty()
    } else {
        args_for(ds.drop_last(), k) + if ds.last().0 == k {
            fragment_args(ds.last())
        } else {
            Seq::<char>::empty()
        }
    }
}

proof fn lemma_first_at_least_bounds(ps: Seq<PartView>, index: u32)
    ensures
        first_at_least(ps, index) <= ps.len(),
        forall|k: int| 0 <= k < first_at_least(ps, index) ==> (#[trigger] ps[k]).0 < index,
        first_at_least(ps, index) < ps.len() ==> ps[first_at_least(ps, index) as int].0 >= index,
    decreases ps.len(),
{
    if ps.len() > 0 && ps[0].0 < index {
        let rest = ps.drop_first();
        lemma_first_at_least_bounds(rest, index);
        assert forall|k: int| 0 <= k < first_at_least(ps, index) implies (#[trigger] ps[k]).0 < index by {
            if k > 0 {
                assert(ps[k] == rest[k - 1]);
            }
        }
        if first_at_least(ps, index) < ps.len() {
            assert(ps[first_at_least(ps, index) as int] == rest[first_at_least(rest, index) as int]);
        }
    }
}

/// One fragment appends its argument text to the part of its index (a new
/// part starts from empty text); the parts stay in index order, every other
/// part is kept as it was, and no part of another index appears.
pub proof fn law_fragment_appends_arguments(parts: Seq<PartView>, d: DeltaView)
    requires
        parts_sorted(parts),
    ensures
        ({
            let r = upsert_part(parts, d);
            &&& parts_sorted(r)
            &&& forall|i: int| 0 <= i < parts.len() && (#[trigger] parts[i]).0 == d.0 ==> has_part(
                r,
                d.0,
                parts[i].3 + fragment_args(d),
            )
            &&& (forall|i: int| 0 <= i < parts.len() ==> (#[trigger] parts[i]).0 != d.0) ==> has_part(
                r,
                d.0,
                fragment_args(d),
            )
            &&& forall|i: int| 0 <= i < parts.len() && (#[trigger] parts[i]).0 != d.0 ==> r.contains(parts[i])
            &&& forall|i: int| 0 <= i < r.len() ==> (#[trigger] r[i]).0 == d.0 || parts.contains(r[i])
        }),
{
    lemma_first_at_least_bounds(parts, d.0);
    let j = first_at_least(parts, d.0) as int;
    let r = upsert_part(parts, d);
    if j < parts.len() && parts[j].0 == d.0 {
        let np = apply_fragment(parts[j], d);
        assert(r == parts.update(j, np));
        assert(np.3 == parts[j].3 + fragment_args(d)) by {
            if d.3 is None {
                assert(parts[j].3 + Seq::<char>::empty() =~= parts[j].3);
            }
        }
        assert forall|i: int| 0 <= i < parts.len() && (#[trigger] parts[i]).0 == d.0 implies has_part(
            r,
            d.0,
            parts[i].3 + fragment_args(d),
        ) by {
            assert(i == j);
            assert(r[j].3 == np.3);
        }
        assert forall|i: int| 0 <= i < parts.len() && (#[trigger] parts[i]).0 != d.0 implies r.contains(parts[i]) by {
            assert(r[i] == parts[i]);
        }
        assert forall|i: int| 0 <= i < r.len() implies (#[trigger] r[i]).0 == d.0 || parts.contains(r[i]) by {
            if i != j {
                assert(r[i] == parts[i]);
            }
        }
    } else {
        let np = apply_fragment((d.0, Seq::empty(), Seq::empty(), Seq::empty()), d);
        assert(r == parts.insert(j, np));
        assert(np.3 == fragment_args(d)) by {
            assert(Seq::<char>::empty() + fragment_args(d) =~= fragment_args(d));
        }
        assert forall|i: int| 0 <= i < parts.len() implies (#[trigger] parts[i]).0 != d.0 by {
            if i >= j {
                assert(parts[i].0 >= parts[j].0);
            }
        }
        assert(r[j] == np);
        assert forall|a: int, b: int| 0 <= a < b < r.len() implies r[a].0 < r[b].0 by {
            if b < j {
                assert(r[a] == parts[a] && r[b] == parts[b]);
            } else if b == j {
                assert(r[a] == parts[a]);
            } else if a < j {
                assert(r[a] == parts[a] && r[b] == parts[b - 1]);
                assert(parts[a].0 < d.0);
                assert(parts[b - 1].0 >= parts[j].0);
            } else if a == j {
                assert(r[b] == parts[b - 1]);
                assert(parts[b - 1].0 >= parts[j].0);
                assert(parts[j].0 != d.0);
            } else {
                assert(r[a] == parts[a - 1] && r[b] == parts[b - 1]);
            }
        }
        assert forall|i: int| 0 <= i < parts.len() && (#[trigger] parts[i]).0 != d.0 implies r.contains(parts[i]) by {
            if i < j {
                assert(r[i] == parts[i]);
            } else {
                assert(r[i + 1] == parts[i]);
            }
        }
        assert forall|i: int| 0 <= i < r.len() implies (#[trigger] r[i]).0 == d.0 || parts.contains(r[i]) by {
            if i < j {
                assert(r[i] == parts[i]);
            } else if i > j {
                assert(r[i] == parts[i - 1]);
            }
        }
    }
}

/// A tool call's argument text is every argument fragment of its index, in
/// the order received: after a stream of fragments, each index that occurs
/// has a part whose text is the concatenation of its fragments' text.
pub proof fn law_arguments_concatenate(ds: Seq<DeltaView>)
    ensures
        parts_sorted(upsert_parts(Seq::empty(), ds)),
        forall|i: int| 0 <= i < ds.len() ==> has_part(upsert_parts(Seq::empty(), ds), #[trigger] ds[i].0, args_for(ds, ds[i].0)),
        forall|i: int|
            0 <= i < upsert_parts(Seq::empty(), ds).len() ==> exists|j: int| 0 <= j < ds.len() && ds[j].0
                == (#[trigger] upsert_parts(Seq::empty(), ds)[i]).0,
    decreases ds.len(),
{
    if ds.len() > 0 {
        let prev = ds.drop_last();
        law_arguments_concatenate(prev);
        let p = upsert_parts(Seq::empty(), prev);
        let d = ds.last();
        law_fragment_appends_arguments(p, d);
        let r = upsert_parts(Seq::empty(), ds);
        assert(r == upsert_part(p, d));
        assert forall|i: int| 0 <= i < ds.len() implies has_part(r, #[trigger] ds[i].0, args_for(ds, ds[i].0)) by {
            let k = ds[i].0;
            if k == d.0 {
                if exists|q: int| 0 <= q < p.len() && p[q].0 == k {
                    let q = choose|q: int| 0 <= q < p.len() && p[q].0 == k;
                    // p[q] is the part of index k, carrying the earlier fragments.
                    let j = choose|j: int| 0 <= j < prev.len() && prev[j].0 == p[q].0;
                    assert(prev[j] == ds[j]);
                    assert(has_part(p, k, args_for(prev, k)));
                    let w = choose|w: int| 0 <= w < p.len() && p[w].0 == k && #[trigger] p[w].3 == args_for(prev, k);
                    assert(w == q) by {
                        if w < q {
                            assert(p[w].0 < p[q].0);
                        } else if w > q {
                            assert(p[q].0 < p[w].0);
                        }
                    }
                    assert(p[q].0 == d.0);
                } else {
                    assert forall|j: int| 0 <= j < prev.len() implies (#[trigger] prev[j]).0 != k by {
                        if prev[j].0 == k {
                            assert(has_part(p, prev[j].0, args_for(prev, prev[j].0)));
                        }
                    }
                    lemma_args_for_absent(prev, k);
                    assert(args_for(prev, k) + fragment_args(d) =~= fragment_args(d));
                }
            } else {
                assert(i < prev.len());
                assert(prev[i] == ds[i]);
                assert(has_part(p, k, args_for(prev, k)));
                let w = choose|w: int| 0 <= w < p.len() && p[w].0 == k && #[trigger] p[w].3 == args_for(prev, k);
                assert(r.contains(p[w]));
                let z = choose|z: int| 0 <= z < r.len() && r[z] == p[w];
                assert(r[z].3 == args_for(prev, k));
                assert(args_for(prev, k) + Seq::<char>::empty() =~= args_for(prev, k));
            }
        }
        assert forall|i: int| 0 <= i < r.len() implies exists|j: int| 0 <= j < ds.len() && ds[j].0 == (#[trigger] r[i]).0 by {
            if r[i].0 == d.0 {
                assert(ds[ds.len() - 1] == d);
            } else {
                assert(p.contains(r[i]));
                let q = choose|q: int| 0 <= q < p.len() && p[q] == r[i];
                let j = choose|j: int| 0 <= j < prev.len() && prev[j].0 == p[q].0;
                assert(ds[j] == prev[j]);
            }
        }
    }
}

/// Fragments of other indices add nothing to an index's text.
proof fn lemma_args_for_absent(ds: Seq<DeltaView>, k: u32)
    requires
        forall|j: int| 0 <= j < ds.len() ==> (#[trigger] ds[j]).0 != k,
    ensures
        args_for(ds, k) == Seq::<char>::empty(),
    decreases ds.len(),
{
    if ds.len() > 0 {
        let p = ds.drop_last();
        assert forall|j: int| 0 <= j < p.len() implies (#[trigger] p[j]).0 != k by {
            assert(p[j] == ds[j]);
        }
        lemma_args_for_absent(p, k);
        assert(ds[ds.len() - 1] == ds.last());
        assert(Seq::<char>::empty() + Seq::<char>::empty() =~= Seq::<char>::empty());
    }
}

// ---------------------------------------------------------------------------
// The completion request and its outcome
// ---------------------------------------------------------------------------

/// The error prefix of a backend that refused or ignored native tools.
pub const NATIVE_TOOLS_UNSUPPORTED: &'static str = "native_tools_unsupported";

/// Request timeout when the configuration leaves it at `0`.
pub const TIMEOUT_SECS_DEFAULT: u64 = 120;

/// Characters per streamed chunk of an HTTP completion.
pub const STREAM_CHUNK_MAX_CHARS: usize = 8;

/// How tool use was carried in a broker completion.
#[derive(Debug, Clone, Copy, PartialEq, Eq, Structural)]
pub enum InferenceProtocol {
    /// Tools described in the prompt.
    Interim,
    /// Tools sent as provider tool specs.
    Native,
    /// Native tools were tried and the backend did not take them.
    InterimFallback,
}

/// A broker completion: text, tool calls, protocol and a soft error.
#[derive(Debug, Clone)]
pub struct BrokerCompletionResult {
    pub content: String,
    pub tool_calls: Vec<HttpToolCall>,
    pub protocol: InferenceProtocol,
    pub error: Option<String>,
}

/// The configured OpenAI-compatible backend.
#[derive(Debug, Clone)]
pub struct HttpOpenAiCompatRuntime {
    pub chat_completions_url: String,
    pub api_key: Option<String>,
    pub headers: Vec<(String, String)>,
    pub model: String,
    pub timeout_secs: u64,
}

/// The views of a list of header pairs.
pub open spec fn pairs_view(v: Seq<(String, String)>) -> Seq<(Seq<char>, Seq<char>)> {
    v.map_values(|p: (String, String)| (p.0@, p.1@))
}

/// The runtime a configuration describes, or why there is none.
pub open spec fn runtime_from(cfg: crate::settings::OpenAiCompatSettings) -> Result<
    (Seq<char>, Option<Seq<char>>, Seq<(Seq<char>, Seq<char>)>, Seq<char>, u64),
    Seq<char>,
> {
    let base = trim(cfg.base_url@);
    if base.len() == 0 {
        Err("HTTP inference requires inference.openai_compat.base_url (see docs/CONFIGURATION.md)"@)
    } else {
        Ok(
            (
                chat_url(base),
                match cfg.api_key {
                    Some(k) => if trim(k@).len() > 0 {
                        Some(trim(k@))
                    } else {
                        None
                    },
                    None => None,
                },
                pairs_view(cfg.headers@),
                inference_model(cfg.model@, MODEL_DEFAULT@),
                if cfg.timeout_secs == 0 {
                    TIMEOUT_SECS_DEFAULT
                } else {
                    cfg.timeout_secs
                },
            ),
        )
    }
}

/// The runtime's model.
pub open spec fn runtime_view(r: HttpOpenAiCompatRuntime) -> (
    Seq<char>,
    Option<Seq<char>>,
    Seq<(Seq<char>, Seq<char>)>,
    Seq<char>,
    u64,
) {
    (
        r.chat_completions_url@,
        match r.api_key {
            Some(k) => Some(k@),
            None => None,
        },
        pairs_view(r.headers@),
        r.model@,
        r.timeout_secs,
    )
}

/// Whether a header name is `authorization`, in any ASCII case.
pub open spec fn is_authorization(name: Seq<char>) -> bool {
    crate::text::lower(name) == "authorization"@
}

/// The headers of a completion request, in the order they are added: the
/// configured ones, a bearer token when a key is set and no authorization
/// header is configured, then the content type.
pub open spec fn request_headers_of(
    headers: Seq<(Seq<char>, Seq<char>)>,
    api_key: Option<Seq<char>>,
) -> Seq<(Seq<char>, Seq<char>)> {
    let has_auth = exists|i: int| 0 <= i < headers.len() && is_authorization(#[trigger] headers[i].0);
    let with_key = match api_key {
        Some(k) => if !has_auth {
            headers.push(("authorization"@, "Bearer "@ + k))
        } else {
            headers
        },
        None => headers,
    };
    with_key.push(("content-type"@, "application/json"@))
}

/// How `serde_json` writes one character inside a string literal: `"` and
/// `\` behind a backslash; backspace, tab, line feed, form feed and carriage
/// return as `\b`, `\t`, `\n`, `\f`, `\r`; the other characters below
/// U+0020 as `\u00` and two lower-case hex digits; everything else as is.
pub open spec fn json_char_escape(c: char) -> Seq<char> {
    let u = c as u32;
    if c == '"' {
        seq!['\\', '"']
    } else if c == '\\' {
        seq!['\\', '\\']
    } else if u == 0x08 {
        seq!['\\', 'b']
    } else if u == 0x09 {
        seq!['\\', 't']
    } else if u == 0x0A {
        seq!['\\', 'n']
    } else if u == 0x0C {
        seq!['\\', 'f']
    } else if u == 0x0D {
        seq!['\\', 'r']
    } else if u < 0x20 {
        seq![
            '\\',
            'u',
            '0',
            '0',
            crate::turn_correlation::hex_char((u / 16) as nat),
            crate::turn_correlation::hex_char((u % 16) as nat),
        ]
    } else {
        seq![c]
    }
}

/// The characters of a string, each written as in a JSON string literal.
pub open spec fn json_escaped(s: Seq<char>) -> Seq<char>
    decreases s.len(),
{
    if s.len() == 0 {
        Seq::<char>::empty()
    } else {
        json_escaped(s.drop_last()) + json_char_escape(s.last())
    }
}

/// What `serde_json::to_string` gives for a string: the escaped characters
/// between double quotes.
pub open spec fn json_quoted(s: Seq<char>) -> Seq<char> {
    seq!['"'] + json_escaped(s) + seq!['"']
}

/// What `serde_json::from_str` into a `serde_json::Value` and back through
/// `serde_json::to_string` gives for a text; none when it does not parse.
pub uninterp spec fn json_reencoded(text: Seq<char>) -> Option<Seq<char>>;

/// Writes `s` as a JSON string literal with `serde_json::to_string`.
/// Claimed: the result is `s` escaped as serde_json's string writer does
/// (its `ESCAPE` table and `write_char_escape`), between double quotes;
/// serializing a `str` does not fail.
#[verifier::external_body]
pub(crate) fn json_string(s: &str) -> (r: String)
    ensures
        r@ == json_quoted(s@),
{
    serde_json::to_string(s).unwrap_or_default()
}

/// Parses `text` with `serde_json::from_str` and writes it back with
/// `serde_json::to_string`. Claimed: the result depends on `text` alone.
#[verifier::external_body]
fn reencode_json(text: &str) -> (r: Option<String>)
    ensures
        match json_reencoded(text@) {
            Some(t) => r matches Some(v) && v@ == t,
            None => r is None,
        },
{
    let value: serde_json::Value = serde_json::from_str(text).ok()?;
    serde_json::to_string(&value).ok()
}

/// Items separated by commas.
pub open spec fn joined(items: Seq<Seq<char>>) -> Seq<char>
    decreases items.len(),
{
    if items.len() == 0 {
        Seq::empty()
    } else if items.len() == 1 {
        items[0]
    } else {
        joined(items.drop_last()) + ","@ + items.last()
    }
}

/// A chat message as a JSON object (keys in sorted order).
pub open spec fn message_json(m: HttpChatMessage) -> Seq<char> {
    "{\"content\":"@ + json_quoted(m.content@) + ",\"role\":"@ + json_quoted(m.role@) + "}"@
}

/// A tool's parameter schema: as given when it is JSON, else an empty
/// object schema.
pub open spec fn parameters_json(text: Seq<char>) -> Seq<char> {
    match json_reencoded(text) {
        Some(p) => p,
        None => "{\"properties\":{},\"type\":\"object\"}"@,
    }
}

/// A tool offered to the provider, under its wire name.
pub open spec fn tool_json(t: HttpToolSpec) -> Seq<char> {
    "{\"function\":{\"description\":"@ + json_quoted(t.description@) + ",\"name\":"@
        + json_quoted(wire_name(t.name@)) + ",\"parameters\":"@ + parameters_json(
        t.parameters_json@,
    ) + "},\"type\":\"function\"}"@
}

/// The streaming chat-completions request body.
pub open spec fn completion_body(
    messages: Seq<HttpChatMessage>,
    tools: Seq<HttpToolSpec>,
    model: Seq<char>,
    attach_tools: bool,
) -> Seq<char> {
    "{\"messages\":["@ + joined(messages.map_values(|m: HttpChatMessage| message_json(m)))
        + "],\"model\":"@ + json_quoted(model) + ",\"stream\":true"@ + (if attach_tools
        && tools.len() > 0 {
        ",\"tool_choice\":\"auto\",\"tools\":["@ + joined(
            tools.map_values(|t: HttpToolSpec| tool_json(t)),
        ) + "]"@
    } else {
        Seq::empty()
    }) + "}"@
}

/// Append a literal.
fn push_text(v: &mut Vec<char>, s: &str)
    ensures
        final(v)@ == old(v)@ + s@,
{
    append_vec(v, &chars_of(s));
}

/// Append a `String`.
fn push_string(v: &mut Vec<char>, s: String)
    ensures
        final(v)@ == old(v)@ + s@,
{
    append_vec(v, &chars_of(s.as_str()));
}

/// The JSON text of a message.
fn message_text(m: &HttpChatMessage) -> (r: Vec<char>)
    ensures
        r@ == message_json(*m),
{
    let mut v: Vec<char> = Vec::new();
    push_text(&mut v, "{\"content\":");
    push_string(&mut v, json_string(m.content.as_str()));
    push_text(&mut v, ",\"role\":");
    push_string(&mut v, json_string(m.role.as_str()));
    push_text(&mut v, "}");
    assert(v@ =~= message_json(*m));
    v
}

/// The JSON text of a tool.
fn tool_text(t: &HttpToolSpec) -> (r: Vec<char>)
    ensures
        r@ == tool_json(*t),
{
    let mut v: Vec<char> = Vec::new();
    push_text(&mut v, "{\"function\":{\"description\":");
    push_string(&mut v, json_string(t.description.as_str()));
    push_text(&mut v, ",\"name\":");
    let wire = encode_tool_name_for_provider(t.name.as_str());
    push_string(&mut v, json_string(wire.as_str()));
    push_text(&mut v, ",\"parameters\":");
    match reencode_json(t.parameters_json.as_str()) {
        Some(p) => push_string(&mut v, p),
        None => push_text(&mut v, "{\"properties\":{},\"type\":\"object\"}"),
    }
    push_text(&mut v, "},\"type\":\"function\"}");
    assert(v@ =~= tool_json(*t));
    v
}

/// The comma-joined JSON of the messages.
fn messages_text(messages: &Vec<HttpChatMessage>) -> (r: Vec<char>)
    ensures
        r@ == joined(messages@.map_values(|m: HttpChatMessage| message_json(m))),
{
    let ghost all = messages@.map_values(|m: HttpChatMessage| message_json(m));
    let mut v: Vec<char> = Vec::new();
    let mut i: usize = 0;
    assert(all.take(0) =~= Seq::<Seq<char>>::empty());
    while i < messages.len()
        invariant
            i <= messages.len(),
            all == messages@.map_values(|m: HttpChatMessage| message_json(m)),
            v@ == joined(all.take(i as int)),
        decreases messages.len() - i,
    {
        if i > 0 {
            push_text(&mut v, ",");
        }
        let m = message_text(&messages[i]);
        append_vec(&mut v, &m);
        assert(all.take(i + 1).drop_last() =~= all.take(i as int));
        assert(all.take(i + 1).last() == all[i as int]);
        if i == 0 {
            assert(all.take(1) =~= seq![all[0]]);
            assert(v@ =~= joined(all.take(1)));
        } else {
            assert(v@ =~= joined(all.take(i as int)) + ","@ + all[i as int]);
        }
        i = i + 1;
    }
    assert(all.take(messages.len() as int) =~= all);
    v
}

/// The comma-joined JSON of the tools.
fn tools_text(tools: &Vec<HttpToolSpec>) -> (r: Vec<char>)
    ensures
        r@ == joined(tools@.map_values(|t: HttpToolSpec| tool_json(t))),
{
    let ghost all = tools@.map_values(|t: HttpToolSpec| tool_json(t));
    let mut v: Vec<char> = Vec::new();
    let mut i: usize = 0;
    assert(all.take(0) =~= Seq::<Seq<char>>::empty());
    while i < tools.len()
        invariant
            i <= tools.len(),
            all == tools@.map_values(|t: HttpToolSpec| tool_json(t)),
            v@ == joined(all.take(i as int)),
        decreases tools.len() - i,
    {
        if i > 0 {
            push_text(&mut v, ",");
        }
        let t = tool_text(&tools[i]);
        append_vec(&mut v, &t);
        assert(all.take(i + 1).drop_last() =~= all.take(i as int));
        assert(all.take(i + 1).last() == all[i as int]);
        if i == 0 {
            assert(all.take(1) =~= seq![all[0]]);
            assert(v@ =~= joined(all.take(1)));
        } else {
            assert(v@ =~= joined(all.take(i as int)) + ","@ + all[i as int]);
        }
        i = i + 1;
    }
    assert(all.take(tools.len() as int) =~= all);
    v
}

/// The streaming chat-completions request body for the messages, the
/// offered tools and the model.
pub fn completion_request_body(
    messages: &Vec<HttpChatMessage>,
    tools: &Vec<HttpToolSpec>,
    model: &str,
    attach_tools: bool,
) -> (s: String)
    ensures
        s@ == completion_body(messages@, tools@, model@, attach_tools),
{
    let mut v: Vec<char> = Vec::new();
    push_text(&mut v, "{\"messages\":[");
    let m = messages_text(messages);
    append_vec(&mut v, &m);
    push_text(&mut v, "],\"model\":");
    push_string(&mut v, json_string(model));
    push_text(&mut v, ",\"stream\":true");
    let ghost before_tools = v@;
    if attach_tools && tools.len() > 0 {
        push_text(&mut v, ",\"tool_choice\":\"auto\",\"tools\":[");
        let t = tools_text(tools);
        append_vec(&mut v, &t);
        push_text(&mut v, "]");
    }
    push_text(&mut v, "}");
    assert(v@ =~= completion_body(messages@, tools@, model@, attach_tools));
    string_of(&v)
}

/// Everything an HTTP completion exchange needs, decided before it starts.
#[derive(Debug, Clone)]
pub struct CompletionRequest {
    pub url: String,
    pub headers: Vec<(String, String)>,
    pub body: String,
    pub timeout_secs: u64,
    /// Wire name to canonical name of the offered tools.
    pub tool_name_map: Vec<(String, String)>,
    /// Native tool specs were sent.
    pub native: bool,
}

impl HttpOpenAiCompatRuntime {
    /// The backend the configuration describes: the base URL is required;
    /// a blank key counts as none; a blank model and a zero timeout take the
    /// defaults.
    pub fn from_config(settings: &crate::settings::Settings) -> (r: Result<Self, String>)
        ensures
            match runtime_from(settings.openai_compat) {
                Ok(v) => r matches Ok(rt) && runtime_view(rt) == v,
                Err(m) => r matches Err(e) && e@ == m,
            },
    {
        let cfg = &settings.openai_compat;
        let base = trim_vec(&chars_of(cfg.base_url.as_str()));
        if base.len() == 0 {
            return Err(
                String::from_str(
                    "HTTP inference requires inference.openai_compat.base_url (see docs/CONFIGURATION.md)",
                ),
            );
        }
        let base = string_of(&base);
        let chat_completions_url = normalize_chat_completions_url(base.as_str());
        proof {
            crate::text::lemma_trim_idempotent(cfg.base_url@);
        }
        let api_key = match &cfg.api_key {
            Some(k) => {
                let t = trim_vec(&chars_of(k.as_str()));
                if t.len() > 0 {
                    Some(string_of(&t))
                } else {
                    None
                }
            },
            None => None,
        };
        let mut headers: Vec<(String, String)> = Vec::new();
        let mut i: usize = 0;
        while i < cfg.headers.len()
            invariant
                i <= cfg.headers.len(),
                pairs_view(headers@) == pairs_view(cfg.headers@).take(i as int),
            decreases cfg.headers.len() - i,
        {
            let ghost before = headers@;
            headers.push((cfg.headers[i].0.clone(), cfg.headers[i].1.clone()));
            assert(pairs_view(headers@) =~= pairs_view(before).push(
                (cfg.headers@[i as int].0@, cfg.headers@[i as int].1@),
            ));
            assert(pairs_view(cfg.headers@).take(i + 1) =~= pairs_view(cfg.headers@).take(
                i as int,
            ).push((cfg.headers@[i as int].0@, cfg.headers@[i as int].1@)));
            i = i + 1;
        }
        assert(pairs_view(cfg.headers@).take(cfg.headers.len() as int) =~= pairs_view(
            cfg.headers@,
        ));
        let model = resolve_inference_model(cfg.model.as_str(), MODEL_DEFAULT);
        let timeout_secs = if cfg.timeout_secs == 0 {
            TIMEOUT_SECS_DEFAULT
        } else {
            cfg.timeout_secs
        };
        Ok(HttpOpenAiCompatRuntime { chat_completions_url, api_key, headers, model, timeout_secs })
    }

    /// The request headers, in the order they are set.
    pub fn request_headers(&self) -> (r: Vec<(String, String)>)
        ensures
            pairs_view(r@) == request_headers_of(
                pairs_view(self.headers@),
                match self.api_key {
                    Some(k) => Some(k@),
                    None => None,
                },
            ),
    {
        let ghost hv = pairs_view(self.headers@);
        let mut r: Vec<(String, String)> = Vec::new();
        let mut has_auth = false;
        let mut i: usize = 0;
        while i < self.headers.len()
            invariant
                i <= self.headers.len(),
                hv == pairs_view(self.headers@),
                pairs_view(r@) == hv.take(i as int),
                has_auth == exists|k: int| 0 <= k < i && is_authorization(#[trigger] hv[k].0),
            decreases self.headers.len() - i,
        {
            let ghost before = r@;
            let name = &self.headers[i].0;
            let l = crate::text::lower_vec(&chars_of(name.as_str()));
            proof {
                reveal_strlit("authorization");
            }
            let found = crate::text::eq_vec(&l, &chars_of("authorization"));
            proof {
                assert(hv[i as int].0 == name@);
                assert(found == is_authorization(hv[i as int].0));
            }
            if found {
                has_auth = true;
            }
            r.push((name.clone(), self.headers[i].1.clone()));
            assert(pairs_view(r@) =~= pairs_view(before).push(hv[i as int]));
            assert(hv.take(i + 1) =~= hv.take(i as int).push(hv[i as int]));
            i = i + 1;
        }
        assert(hv.take(self.headers.len() as int) =~= hv);
        match &self.api_key {
            Some(k) => {
                if !has_auth {
                    let ghost before = r@;
                    r.push(
                        (
                            String::from_str("authorization"),
                            String::from_str("Bearer ").concat(k.as_str()),
                        ),
                    );
                    assert(pairs_view(r@) =~= pairs_view(before).push(
                        ("authorization"@, "Bearer "@ + k@),
                    ));
                }
            },
            None => {},
        }
        let ghost before = r@;
        r.push((String::from_str("content-type"), String::from_str("application/json")));
        assert(pairs_view(r@) =~= pairs_view(before).push(("content-type"@, "application/json"@)));
        r
    }

    /// Prepare the exchange for a broker completion: the effective model,
    /// the body, the headers and the tool-name map.
    pub fn prepare_completion(
        &self,
        messages: &Vec<HttpChatMessage>,
        tools: &Vec<HttpToolSpec>,
        model: &str,
        attach_tools: bool,
    ) -> (r: CompletionRequest)
        ensures
            r.url == self.chat_completions_url,
            r.timeout_secs == self.timeout_secs,
            pairs_view(r.headers@) == request_headers_of(
                pairs_view(self.headers@),
                match self.api_key {
                    Some(k) => Some(k@),
                    None => None,
                },
            ),
            r.body@ == completion_body(
                messages@,
                tools@,
                inference_model(model@, self.model@),
                attach_tools,
            ),
            pairs_view(r.tool_name_map@) == tool_map_of(tools@),
            r.native == (attach_tools && tools@.len() > 0),
    {
        let effective_model = resolve_inference_model(model, self.model.as_str());
        let body = completion_request_body(messages, tools, effective_model.as_str(), attach_tools);
        let tool_name_map = build_tool_name_map(tools);
        CompletionRequest {
            url: self.chat_completions_url.clone(),
            headers: self.request_headers(),
            body,
            timeout_secs: self.timeout_secs,
            tool_name_map,
            native: attach_tools && tools.len() > 0,
        }
    }
}

/// The error of an exchange that ran past its timeout.
pub fn timeout_status(timeout_secs: u64) -> (s: RpcStatus)
    ensures
        s.code == RpcCode::DeadlineExceeded,
        s.message@ == "http inference timed out after "@ + crate::text::decimal(timeout_secs as nat)
            + "s (adjust inference.openai_compat.timeout_secs)"@,
{
    RpcStatus {
        code: RpcCode::DeadlineExceeded,
        message: crate::text::prefixed_decimal("http inference timed out after ", timeout_secs).concat(
            "s (adjust inference.openai_compat.timeout_secs)",
        ),
    }
}

/// The error of a request that could not be sent.
pub fn request_failed_status(err: &str) -> (s: RpcStatus)
    ensures
        s.code == RpcCode::Unavailable,
        s.message@ == "http inference request failed: "@ + err@,
{
    RpcStatus {
        code: RpcCode::Unavailable,
        message: String::from_str("http inference request failed: ").concat(err),
    }
}

/// The error of a response stream that broke off.
pub fn stream_read_failed_status(err: &str) -> (s: RpcStatus)
    ensures
        s.code == RpcCode::Unavailable,
        s.message@ == "http inference stream read failed: "@ + err@,
{
    RpcStatus {
        code: RpcCode::Unavailable,
        message: String::from_str("http inference stream read failed: ").concat(err),
    }
}

/// ` status=<status> body=<detail, bounded>`.
pub open spec fn status_detail(status_text: Seq<char>, detail: Seq<char>) -> Seq<char> {
    "status="@ + status_text + " body="@ + truncated_body(detail, 512)
}

/// The outcome of a response whose status is not a success: a backend that
/// rejects the request with a client error while native tools were sent
/// gives a fallback result; anything else is an error.
pub fn status_failure(status_code: u16, status_text: &str, detail: &str, attach_tools: bool) -> (r:
    Result<BrokerCompletionResult, RpcStatus>)
    ensures
        attach_tools && 400 <= status_code < 500 ==> (r matches Ok(res) && res.content@
            == Seq::<char>::empty() && res.tool_calls@.len() == 0 && res.protocol
            == InferenceProtocol::InterimFallback && res.error is Some && res.error->Some_0@
            == "native_tools_unsupported: http "@ + status_detail(status_text@, detail@)),
        !(attach_tools && 400 <= status_code < 500) ==> (r matches Err(s) && s.code
            == RpcCode::Unavailable && s.message@ == "http inference failed: "@ + status_detail(
            status_text@,
            detail@,
        )),
{
    let mut d = String::from_str("status=").concat(status_text);
    d = d.concat(" body=");
    let bounded = truncate_body(detail, 512);
    d = d.concat(bounded.as_str());
    if attach_tools && 400 <= status_code && status_code < 500 {
        Ok(
            BrokerCompletionResult {
                content: String::new(),
                tool_calls: Vec::new(),
                protocol: InferenceProtocol::InterimFallback,
                error: Some(String::from_str("native_tools_unsupported: http ").concat(d.as_str())),
            },
        )
    } else {
        Err(
            RpcStatus {
                code: RpcCode::Unavailable,
                message: String::from_str("http inference failed: ").concat(d.as_str()),
            },
        )
    }
}

/// The result of a completed exchange: the assembled text and the named
/// tool calls under their canonical names.
pub fn finish_completion(state: &SseAssemblyState, req: &CompletionRequest) -> (r:
    BrokerCompletionResult)
    ensures
        r.content == state.content,
        r.tool_calls@.map_values(|c: HttpToolCall| (c.id@, c.name@, c.arguments_json@))
            == named_calls(state.parts()).map_values(
            |c: (Seq<char>, Seq<char>, Seq<char>)|
                (c.0, decoded_name(c.1, pairs_view(req.tool_name_map@)), c.2),
        ),
        r.protocol == if req.native {
            InferenceProtocol::Native
        } else {
            InferenceProtocol::Interim
        },
        r.error is None,
{
    let calls = state.finish_tool_calls();
    let ghost cv = calls@;
    let tool_calls = decode_tool_calls_from_provider(calls, &req.tool_name_map);
    assert(tool_calls@.map_values(|c: HttpToolCall| (c.id@, c.name@, c.arguments_json@))
        =~= named_calls(state.parts()).map_values(
        |c: (Seq<char>, Seq<char>, Seq<char>)|
            (c.0, decoded_name(c.1, pairs_view(req.tool_name_map@)), c.2),
    )) by {
        assert(cv.map_values(|c: HttpToolCall| (c.id@, c.name@, c.arguments_json@)) == named_calls(
            state.parts(),
        ));
        assert(pairs_view(req.tool_name_map@) == req.tool_name_map@.map_values(
            |p: (String, String)| (p.0@, p.1@),
        ));
    }
    BrokerCompletionResult {
        content: state.content.clone(),
        tool_calls,
        protocol: if req.native {
            InferenceProtocol::Native
        } else {
            InferenceProtocol::Interim
        },
        error: None,
    }
}

/// The text of a prompt-only completion, or why there is none.
pub fn completion_text(result: BrokerCompletionResult) -> (r: Result<String, RpcStatus>)
    ensures
        match result.error {
            Some(e) => r matches Err(s) && s.code == RpcCode::Unavailable && s.message == e,
            None => if trim(result.content@).len() == 0 && result.tool_calls@.len() == 0 {
                r matches Err(s) && s.code == RpcCode::Unavailable && s.message@
                    == "http inference returned empty completion"@
            } else {
                r == Ok::<String, RpcStatus>(result.content)
            },
        },
{
    match result.error {
        Some(e) => Err(RpcStatus { code: RpcCode::Unavailable, message: e }),
        None => {
            if trim_vec(&chars_of(result.content.as_str())).len() == 0 && result.tool_calls.len()
                == 0 {
                Err(
                    RpcStatus {
                        code: RpcCode::Unavailable,
                        message: String::from_str("http inference returned empty completion"),
                    },
                )
            } else {
                Ok(result.content)
            }
        },
    }
}

/// The stream of a prompt-only completion: its text in chunks of eight
/// characters ending with `done`, or its error alone.
pub fn completion_chunks(text: Result<String, RpcStatus>) -> (r: Vec<
    Result<StreamInferenceResponse, RpcStatus>,
>)
    requires
        text matches Ok(t) ==> t@.len() < u64::MAX,
    ensures
        match text {
            Ok(t) => exists|parts: Seq<Seq<char>>|
                crate::domain::is_chunking(parts, t@, STREAM_CHUNK_MAX_CHARS as nat)
                    && crate::adapters::is_done_stream(r@, parts),
            Err(e) => r@ == seq![Err::<StreamInferenceResponse, RpcStatus>(e)],
        },
{
    match text {
        Ok(t) => {
            let parts = crate::domain::chunk_output(t.as_str(), STREAM_CHUNK_MAX_CHARS);
            proof {
                crate::adapters::lemma_chunking_count(
                    parts@.map_values(|x: String| x@),
                    t@,
                    STREAM_CHUNK_MAX_CHARS as nat,
                );
            }
            let ghost pv = parts@.map_values(|x: String| x@);
            let r = crate::adapters::stream_chunks_with_done(parts);
            assert(crate::domain::is_chunking(pv, t@, STREAM_CHUNK_MAX_CHARS as nat));
            r
        },
        Err(e) => {
            let mut r: Vec<Result<StreamInferenceResponse, RpcStatus>> = Vec::new();
            r.push(Err(e));
            r
        },
    }
}

/// The capability probe is needed: tools would be forwarded in auto mode to
/// an Ollama-like backend.
pub open spec fn probe_needed(
    forward_tools: bool,
    tool_count: nat,
    native_tools: NativeToolsMode,
    base_url: Seq<char>,
) -> bool {
    forward_tools && tool_count > 0 && native_tools == NativeToolsMode::Auto
        && crate::ollama_capability::ollama_like(base_url)
}

/// Whether the backend's model must be asked whether it takes tools.
pub fn needs_capability_probe(
    forward_tools: bool,
    tool_count: usize,
    native_tools: NativeToolsMode,
    base_url: &str,
) -> (b: bool)
    ensures
        b == probe_needed(forward_tools, tool_count as nat, native_tools, base_url@),
{
    forward_tools && tool_count > 0 && native_tools == NativeToolsMode::Auto
        && crate::ollama_capability::is_ollama_like_base_url(base_url)
}

/// Tool specs go to the backend: they are forwarded and offered, the probe
/// (when needed) found tool support, the runtime is the HTTP one and the
/// configuration does not switch native tools off.
pub open spec fn attach_tools_decision(
    forward_tools: bool,
    tool_count: nat,
    native_tools: NativeToolsMode,
    runtime: RuntimeKind,
    base_url: Seq<char>,
    probe_supports: bool,
) -> bool {
    &&& forward_tools && tool_count > 0
    &&& probe_needed(forward_tools, tool_count, native_tools, base_url) ==> probe_supports
    &&& runtime == RuntimeKind::HttpOpenAiCompat
    &&& native_tools != NativeToolsMode::False
}

/// Decide whether tool specs are sent, given the probe's answer (ignored
/// when no probe is needed).
pub fn decide_attach_tools(
    forward_tools: bool,
    tool_count: usize,
    native_tools: NativeToolsMode,
    runtime: RuntimeKind,
    base_url: &str,
    probe_supports: bool,
) -> (b: bool)
    ensures
        b == attach_tools_decision(
            forward_tools,
            tool_count as nat,
            native_tools,
            runtime,
            base_url@,
            probe_supports,
        ),
{
    let mut attach = forward_tools && tool_count > 0;
    if needs_capability_probe(forward_tools, tool_count, native_tools, base_url) && !probe_supports {
        attach = false;
    }
    if runtime == RuntimeKind::Mock || runtime == RuntimeKind::CursorCli {
        attach = false;
    }
    if native_tools == NativeToolsMode::False {
        attach = false;
    }
    attach
}

/// The broker's view of a completion: a soft error passes through; when
/// native tools were sent and the backend answered with no calls, the
/// result falls back (with an error); otherwise the protocol records
/// whether native tools were used.
pub fn finish_broker_inference(
    result: BrokerCompletionResult,
    attempted_native: bool,
    attach_tools: bool,
) -> (r: BrokerCompletionResult)
    ensures
        result.error is Some ==> r == result,
        result.error is None && attempted_native && attach_tools && result.tool_calls@.len() == 0
            ==> ({
            &&& r.tool_calls@.len() == 0
            &&& r.protocol == InferenceProtocol::InterimFallback
            &&& if trim(result.content@).len() == 0 {
                &&& r.content@ == Seq::<char>::empty()
                &&& r.error is Some
                &&& r.error->Some_0@
                    == "native_tools_unsupported: provider returned no tool_calls or content"@
            } else {
                &&& r.content == result.content
                &&& r.error is Some
                &&& r.error->Some_0@
                    == "native_tools_unsupported: provider returned prose-only after tools sent"@
            }
        }),
        result.error is None && !(attempted_native && attach_tools && result.tool_calls@.len() == 0)
            ==> ({
            &&& r.content == result.content
            &&& r.tool_calls == result.tool_calls
            &&& r.error is None
            &&& r.protocol == if attach_tools && result.tool_calls@.len() > 0 {
                InferenceProtocol::Native
            } else if attempted_native && !attach_tools {
                InferenceProtocol::Interim
            } else {
                result.protocol
            }
        }),
{
    if result.error.is_some() {
        return result;
    }
    if attempted_native && attach_tools && result.tool_calls.len() == 0 {
        if trim_vec(&chars_of(result.content.as_str())).len() == 0 {
            return BrokerCompletionResult {
                content: String::new(),
                tool_calls: Vec::new(),
                protocol: InferenceProtocol::InterimFallback,
                error: Some(
                    String::from_str(
                        "native_tools_unsupported: provider returned no tool_calls or content",
                    ),
                ),
            };
        }
        return BrokerCompletionResult {
            content: result.content,
            tool_calls: Vec::new(),
            protocol: InferenceProtocol::InterimFallback,
            error: Some(
                String::from_str(
                    "native_tools_unsupported: provider returned prose-only after tools sent",
                ),
            ),
        };
    }
    let protocol = if attach_tools && result.tool_calls.len() > 0 {
        InferenceProtocol::Native
    } else if attempted_native && !attach_tools {
        InferenceProtocol::Interim
    } else {
        result.protocol
    };
    BrokerCompletionResult {
        content: result.content,
        tool_calls: result.tool_calls,
        protocol,
        error: None,
    }
}

} // verus!
