//! Inference runtimes: runtime selection, the stream chunk protocol and the
//! deterministic mock runtime.
use vstd::prelude::*;

use crate::domain::{build_mock_output, chunk_output, concat_all, is_chunking, mock_output};
use crate::settings::Settings;
use crate::text::{
    chars_of, concat_vec, decimal, lower, lower_vec, string_of, trim, trim_vec,
};

verus! {

/// Inference runtime selected by configuration.
#[derive(Debug, Clone, Copy, PartialEq, Eq, Structural)]
pub enum RuntimeKind {
    Mock,
    CursorCli,
    HttpOpenAiCompat,
}

/// `inference.runtime` values that select the Cursor CLI runtime.
pub open spec fn runtime_kind_of(raw: Seq<char>) -> RuntimeKind {
    let n = lower(trim(raw));
    if n == "cursor"@ || n == "cursor-cli"@ {
        RuntimeKind::CursorCli
    } else if n == "http-openai-compat"@ {
        RuntimeKind::HttpOpenAiCompat
    } else {
        RuntimeKind::Mock
    }
}

pub open spec fn runtime_label(k: RuntimeKind) -> Seq<char> {
    match k {
        RuntimeKind::Mock => "mock"@,
        RuntimeKind::CursorCli => "cursor-cli"@,
        RuntimeKind::HttpOpenAiCompat => "http-openai-compat"@,
    }
}

impl RuntimeKind {
    /// Parses an `inference.runtime` setting (unknown values select the mock).
    pub fn from_setting(raw: &str) -> (k: RuntimeKind)
        ensures
            k == runtime_kind_of(raw@),
    {
        let n = lower_vec(&trim_vec(&chars_of(raw)));
        if crate::text::eq_vec(&n, &chars_of("cursor")) || crate::text::eq_vec(
            &n,
            &chars_of("cursor-cli"),
        ) {
            RuntimeKind::CursorCli
        } else if crate::text::eq_vec(&n, &chars_of("http-openai-compat")) {
            RuntimeKind::HttpOpenAiCompat
        } else {
            RuntimeKind::Mock
        }
    }

    /// The runtime the loaded configuration selects.
    pub fn from_config(settings: &Settings) -> (k: RuntimeKind)
        ensures
            k == runtime_kind_of(settings.inference_runtime@),
    {
        Self::from_setting(settings.inference_runtime.as_str())
    }

    /// Stable label used in logs (`inference_runtime=`).
    pub fn log_label(self) -> (s: &'static str)
        ensures
            s@ == runtime_label(self),
    {
        match self {
            RuntimeKind::Mock => "mock",
            RuntimeKind::CursorCli => "cursor-cli",
            RuntimeKind::HttpOpenAiCompat => "http-openai-compat",
        }
    }
}

/// What the context pipeline may do for a runtime.
#[derive(Debug, Clone, Copy, PartialEq, Eq, Structural)]
pub struct AdapterCapabilities {
    /// Attach retrieved workspace context to the prompt.
    pub attach_context: bool,
    /// Bound the prompt to the configured token budget.
    pub truncate_prompt: bool,
}

impl AdapterCapabilities {
    /// The mock runtime takes daemon context; the Cursor CLI brings its own.
    pub fn for_runtime(runtime: RuntimeKind) -> (c: AdapterCapabilities)
        ensures
            c.attach_context == (runtime == RuntimeKind::Mock),
            c.truncate_prompt == (runtime == RuntimeKind::Mock),
    {
        match runtime {
            RuntimeKind::Mock => AdapterCapabilities { attach_context: true, truncate_prompt: true },
            _ => AdapterCapabilities { attach_context: false, truncate_prompt: false },
        }
    }
}

/// Status codes the daemon reports on its streams.
#[derive(Debug, Clone, Copy, PartialEq, Eq, Structural)]
pub enum RpcCode {
    Internal,
    Unavailable,
    DeadlineExceeded,
    FailedPrecondition,
    InvalidArgument,
}

/// A terminal error on a stream: code and message.
#[derive(Debug, Clone, PartialEq, Eq)]
pub struct RpcStatus {
    pub code: RpcCode,
    pub message: String,
}

/// One streamed inference chunk.
#[derive(Debug, Clone, PartialEq, Eq)]
pub struct StreamInferenceResponse {
    pub text: String,
    pub index: u64,
    pub done: bool,
    pub event: String,
    pub turn_id: String,
    pub tool_name: String,
    pub phase: String,
    pub summary: String,
    pub detail: String,
    pub tool_call_id: String,
    pub elapsed_ms: u64,
}

/// A chunk carrying only text, index and the terminal flag.
pub open spec fn is_plain_chunk(r: StreamInferenceResponse, text: Seq<char>, index: u64, done: bool) -> bool {
    &&& r.text@ == text
    &&& r.index == index
    &&& r.done == done
    &&& r.event@.len() == 0
    &&& r.turn_id@.len() == 0
    &&& r.tool_name@.len() == 0
    &&& r.phase@.len() == 0
    &&& r.summary@.len() == 0
    &&& r.detail@.len() == 0
    &&& r.tool_call_id@.len() == 0
    &&& r.elapsed_ms == 0
}

impl StreamInferenceResponse {
    /// A copy of the chunk.
    pub fn duplicate(&self) -> (r: StreamInferenceResponse)
        ensures
            r == *self,
    {
        StreamInferenceResponse {
            text: self.text.clone(),
            index: self.index,
            done: self.done,
            event: self.event.clone(),
            turn_id: self.turn_id.clone(),
            tool_name: self.tool_name.clone(),
            phase: self.phase.clone(),
            summary: self.summary.clone(),
            detail: self.detail.clone(),
            tool_call_id: self.tool_call_id.clone(),
            elapsed_ms: self.elapsed_ms,
        }
    }

    /// A chunk carrying only text, index and the terminal flag.
    pub fn plain(text: String, index: u64, done: bool) -> (r: StreamInferenceResponse)
        ensures
            is_plain_chunk(r, text@, index, done),
    {
        StreamInferenceResponse {
            text,
            index,
            done,
            event: String::new(),
            turn_id: String::new(),
            tool_name: String::new(),
            phase: String::new(),
            summary: String::new(),
            detail: String::new(),
            tool_call_id: String::new(),
            elapsed_ms: 0,
        }
    }
}

/// `chunks` is the stream for `contents`: one plain chunk per content piece,
/// indexed from zero, then an empty terminal `done` chunk.
pub open spec fn is_done_stream(
    chunks: Seq<Result<StreamInferenceResponse, RpcStatus>>,
    contents: Seq<Seq<char>>,
) -> bool {
    &&& chunks.len() == contents.len() + 1
    &&& forall|i: int|
        0 <= i < contents.len() ==> (#[trigger] chunks[i]) is Ok && is_plain_chunk(
            chunks[i]->Ok_0,
            contents[i],
            i as u64,
            false,
        )
    &&& chunks[contents.len() as int] is Ok
    &&& is_plain_chunk(
        chunks[contents.len() as int]->Ok_0,
        Seq::<char>::empty(),
        contents.len() as u64,
        true,
    )
}

/// Wraps content pieces as a stream that ends with a `done` chunk.
pub fn stream_chunks_with_done(content_chunks: Vec<String>) -> (r: Vec<
    Result<StreamInferenceResponse, RpcStatus>,
>)
    requires
        content_chunks.len() < u64::MAX,
    ensures
        is_done_stream(r@, content_chunks@.map_values(|x: String| x@)),
{
    let mut chunks: Vec<Result<StreamInferenceResponse, RpcStatus>> = Vec::new();
    let mut i: usize = 0;
    let n = content_chunks.len();
    while i < n
        invariant
            n == content_chunks.len(),
            n < u64::MAX,
            i <= n,
            chunks@.len() == i,
            forall|k: int|
                0 <= k < i ==> (#[trigger] chunks@[k]) is Ok && is_plain_chunk(
                    chunks@[k]->Ok_0,
                    content_chunks@[k]@,
                    k as u64,
                    false,
                ),
        decreases n - i,
    {
        let text = content_chunks[i].clone();
        chunks.push(Ok(StreamInferenceResponse::plain(text, i as u64, false)));
        i = i + 1;
    }
    chunks.push(Ok(StreamInferenceResponse::plain(String::new(), n as u64, true)));
    chunks
}

pub const STREAM_CHUNK_MAX_CHARS: usize = 8;

/// The mock runtime: deterministic `mock:` echo of the prompt.
pub struct MockInferenceRuntime;

impl MockInferenceRuntime {
    /// The mock reply, cut into chunks of eight characters, ending with `done`.
    pub fn build_chunks(&self, prompt: &str) -> (r: Vec<Result<StreamInferenceResponse, RpcStatus>>)
        requires
            prompt@.len() + 6 < u64::MAX,
        ensures
            exists|contents: Seq<Seq<char>>|
                is_chunking(contents, mock_output(prompt@), STREAM_CHUNK_MAX_CHARS as nat)
                    && is_done_stream(r@, contents),
    {
        let text = build_mock_output(prompt);
        let content_chunks = chunk_output(text.as_str(), STREAM_CHUNK_MAX_CHARS);
        proof {
            lemma_chunking_count(
                content_chunks@.map_values(|x: String| x@),
                text@,
                STREAM_CHUNK_MAX_CHARS as nat,
            );
            reveal_strlit("[empty prompt]");
            reveal_strlit("mock: ");
        }
        let r = stream_chunks_with_done(content_chunks);
        r
    }
}

/// A chunking never has more pieces than the text has characters.
pub proof fn lemma_chunking_count(parts: Seq<Seq<char>>, s: Seq<char>, size: nat)
    requires
        is_chunking(parts, s, size),
    ensures
        parts.len() <= s.len(),
    decreases parts.len(),
{
    if parts.len() > 0 {
        let init = parts.drop_last();
        assert(is_chunking(init, concat_all(init), size)) by {
            assert forall|i: int| 0 <= i < init.len() implies 0 < #[trigger] init[i].len() <= size by {
                assert(init[i] == parts[i]);
            }
            assert forall|i: int| 0 <= i < init.len() - 1 implies #[trigger] init[i].len() == size by {
                assert(init[i] == parts[i]);
            }
        }
        lemma_chunking_count(init, concat_all(init), size);
        assert(parts[parts.len() - 1].len() > 0);
    }
}

/// Wraps `value` in single quotes for `sh`, escaping embedded single quotes.
pub open spec fn shell_quoted(value: Seq<char>) -> Seq<char>
    decreases value.len(),
{
    if value.len() == 0 {
        seq!['\'', '\'']
    } else {
        let init = shell_quoted(value.drop_last());
        init.drop_last() + (if value.last() == '\'' {
            seq!['\'', '"', '\'', '"', '\'']
        } else {
            seq![value.last()]
        }) + seq!['\'']
    }
}

/// `'value'` with every `'` replaced by `'"'"'`.
pub fn shell_single_quote(value: &str) -> (s: String)
    ensures
        s@ == shell_quoted(value@),
{
    let v = chars_of(value);
    let mut out: Vec<char> = Vec::new();
    out.push('\'');
    let mut i: usize = 0;
    while i < v.len()
        invariant
            i <= v.len(),
            v@ == value@,
            out@.push('\'') == shell_quoted(v@.take(i as int)),
        decreases v.len() - i,
    {
        assert(v@.take(i + 1).drop_last() =~= v@.take(i as int));
        let ghost before = out@;
        if v[i] == '\'' {
            out.push('\'');
            out.push('"');
            out.push('\'');
            out.push('"');
            out.push('\'');
        } else {
            out.push(v[i]);
        }
        assert(out@.push('\'') =~= shell_quoted(v@.take(i + 1)));
        i = i + 1;
    }
    out.push('\'');
    assert(v@.take(v.len() as int) =~= v@);
    proof {
        if v@.len() == 0 {
            assert(out@ =~= seq!['\'', '\'']);
        }
    }
    string_of(&out)
}

// ---------------------------------------------------------------------------
// Cursor CLI runtime configuration
// ---------------------------------------------------------------------------

pub const CURSOR_TIMEOUT_SECS_DEFAULT: u64 = 20;

pub open spec fn is_digit(c: char) -> bool {
    0x30 <= (c as u32) && (c as u32) <= 0x39
}

pub open spec fn all_digits(s: Seq<char>) -> bool {
    forall|i: int| 0 <= i < s.len() ==> is_digit(#[trigger] s[i])
}

/// Value of a string of decimal digits.
pub open spec fn digits_value(s: Seq<char>) -> nat
    decreases s.len(),
{
    if s.len() == 0 {
        0
    } else {
        digits_value(s.drop_last()) * 10 + ((s.last() as u32) - 0x30) as nat
    }
}

/// `u64::from_str`: optional `+`, then one or more digits, in range.
pub open spec fn parse_u64(s: Seq<char>) -> Option<u64> {
    let d = if s.len() > 0 && s[0] == '+' {
        s.drop_first()
    } else {
        s
    };
    if d.len() > 0 && all_digits(d) && digits_value(d) <= u64::MAX {
        Some(digits_value(d) as u64)
    } else {
        None
    }
}

proof fn lemma_digits_value_monotone(s: Seq<char>, i: int)
    requires
        0 <= i <= s.len(),
        all_digits(s),
    ensures
        digits_value(s.take(i)) <= digits_value(s),
    decreases s.len() - i,
{
    if i < s.len() {
        lemma_digits_value_monotone(s, i + 1);
        assert(s.take(i + 1).drop_last() =~= s.take(i));
    } else {
        assert(s.take(i) =~= s);
    }
}

/// Exec form of [`parse_u64`].
pub fn parse_u64_text(text: &str) -> (r: Option<u64>)
    ensures
        r == parse_u64(text@),
{
    let s = chars_of(text);
    let start: usize = if s.len() > 0 && s[0] == '+' {
        1
    } else {
        0
    };
    let ghost d = if s@.len() > 0 && s@[0] == '+' {
        s@.drop_first()
    } else {
        s@
    };
    assert(d =~= s@.skip(start as int));
    if start >= s.len() {
        return None;
    }
    let mut value: u64 = 0;
    let mut i: usize = start;
    while i < s.len()
        invariant
            start <= i <= s.len(),
            s@ == text@,
            d == (if s@.len() > 0 && s@[0] == '+' {
                s@.drop_first()
            } else {
                s@
            }),
            d.len() > 0,
            d =~= s@.skip(start as int),
            all_digits(s@.subrange(start as int, i as int)),
            value as nat == digits_value(s@.subrange(start as int, i as int)),
        decreases s.len() - i,
    {
        let c = s[i];
        let u = c as u32;
        assert(s@.subrange(start as int, i + 1).drop_last() =~= s@.subrange(start as int, i as int));
        if u < 0x30 || u > 0x39 {
            assert(!all_digits(d)) by {
                assert(d[i - start] == c);
                assert(!is_digit(d[i - start]));
            }
            return None;
        }
        let digit = (u - 0x30) as u64;
        assert(digits_value(s@.subrange(start as int, i + 1)) == value as nat * 10 + digit as nat);
        match value.checked_mul(10) {
            Some(m) => match m.checked_add(digit) {
                Some(next) => {
                    value = next;
                },
                None => {
                    proof {
                        assert(all_digits(s@.subrange(start as int, i + 1)));
                        lemma_rest_digits_or_not(s@, start as int, i + 1);
                    }
                    return None;
                },
            },
            None => {
                proof {
                    assert(all_digits(s@.subrange(start as int, i + 1)));
                    lemma_rest_digits_or_not(s@, start as int, i + 1);
                }
                return None;
            },
        }
        i = i + 1;
    }
    assert(s@.subrange(start as int, s.len() as int) =~= d);
    Some(value)
}

/// When a digit prefix already exceeds `u64::MAX`, the whole text does not parse.
proof fn lemma_rest_digits_or_not(s: Seq<char>, start: int, j: int)
    requires
        0 <= start < j <= s.len(),
        all_digits(s.subrange(start, j)),
        digits_value(s.subrange(start, j)) > u64::MAX,
    ensures
        !(all_digits(s.skip(start)) && digits_value(s.skip(start)) <= u64::MAX),
{
    if all_digits(s.skip(start)) {
        lemma_digits_value_monotone(s.skip(start), j - start);
        assert(s.skip(start).take(j - start) =~= s.subrange(start, j));
    }
}

/// Configuration of the Cursor CLI runtime.
#[derive(Debug, Clone)]
pub struct CursorCliRuntime {
    pub command_template: Option<String>,
    pub command_path: String,
    pub timeout_secs: u64,
}

/// Trimmed, non-empty value of an optional setting.
pub open spec fn nonempty_trimmed(v: Option<Seq<char>>) -> Option<Seq<char>> {
    match v {
        Some(s) => if trim(s).len() > 0 {
            Some(trim(s))
        } else {
            None
        },
        None => None,
    }
}

pub open spec fn opt_view(v: Option<&str>) -> Option<Seq<char>> {
    match v {
        Some(s) => Some(s@),
        None => None,
    }
}

pub open spec fn opt_string_view(v: Option<String>) -> Option<Seq<char>> {
    match v {
        Some(s) => Some(s@),
        None => None,
    }
}

fn nonempty_trimmed_string(v: Option<&str>) -> (r: Option<String>)
    ensures
        opt_string_view(r) == nonempty_trimmed(opt_view(v)),
{
    match v {
        Some(s) => {
            let t = trim_vec(&chars_of(s));
            if t.len() > 0 {
                Some(string_of(&t))
            } else {
                None
            }
        },
        None => None,
    }
}

impl CursorCliRuntime {
    /// Runtime configuration from the three environment values that select it
    /// (`REX_CURSOR_CLI_COMMAND`, `REX_CURSOR_CLI_PATH`, `REX_CURSOR_CLI_TIMEOUT_SECS`).
    pub fn from_env_values(
        command: Option<&str>,
        path: Option<&str>,
        timeout_secs: Option<&str>,
    ) -> (r: CursorCliRuntime)
        ensures
            opt_string_view(r.command_template) == nonempty_trimmed(opt_view(command)),
            r.command_path@ == (match nonempty_trimmed(opt_view(path)) {
                Some(p) => p,
                None => "cursor-agent"@,
            }),
            r.timeout_secs == (match timeout_secs {
                Some(t) => match parse_u64(t@) {
                    Some(n) => n,
                    None => CURSOR_TIMEOUT_SECS_DEFAULT,
                },
                None => CURSOR_TIMEOUT_SECS_DEFAULT,
            }),
    {
        let command_template = nonempty_trimmed_string(command);
        let command_path = match nonempty_trimmed_string(path) {
            Some(p) => p,
            None => String::from_str("cursor-agent"),
        };
        let timeout = match timeout_secs {
            Some(t) => match parse_u64_text(t) {
                Some(n) => n,
                None => CURSOR_TIMEOUT_SECS_DEFAULT,
            },
            None => CURSOR_TIMEOUT_SECS_DEFAULT,
        };
        CursorCliRuntime { command_template, command_path, timeout_secs: timeout }
    }

    /// A runtime that runs `command_template` through `sh -lc`.
    pub fn with_command_template(command_template: &str, timeout_secs: u64) -> (r: CursorCliRuntime)
        ensures
            r.command_template is Some,
            r.command_template->0@ == command_template@,
            r.command_path@ == "cursor-agent"@,
            r.timeout_secs == timeout_secs,
    {
        CursorCliRuntime {
            command_template: Some(String::from_str(command_template)),
            command_path: String::from_str("cursor-agent"),
            timeout_secs,
        }
    }
}


// ---------------------------------------------------------------------------
// Running the Cursor CLI and reading its output
// ---------------------------------------------------------------------------

/// `s` with every non-overlapping `pat` (scanned left to right) replaced by
/// `with`.
pub open spec fn replace_all(s: Seq<char>, pat: Seq<char>, with: Seq<char>) -> Seq<char>
    decreases s.len(),
{
    if pat.len() == 0 || s.len() < pat.len() {
        s
    } else if s.take(pat.len() as int) == pat {
        with + replace_all(s.skip(pat.len() as int), pat, with)
    } else {
        seq![s[0]] + replace_all(s.drop_first(), pat, with)
    }
}

/// `str::replace` with a non-empty pattern.
pub fn replace_all_vec(s: &Vec<char>, pat: &Vec<char>, with: &Vec<char>) -> (r: Vec<char>)
    requires
        pat@.len() > 0,
    ensures
        r@ == replace_all(s@, pat@, with@),
{
    let mut out: Vec<char> = Vec::new();
    let mut i: usize = 0;
    assert(s@.skip(0) =~= s@);
    assert(out@ + replace_all(s@, pat@, with@) =~= replace_all(s@, pat@, with@));
    while i < s.len()
        invariant
            i <= s.len(),
            pat@.len() > 0,
            out@ + replace_all(s@.skip(i as int), pat@, with@) == replace_all(s@, pat@, with@),
        decreases s.len() - i,
    {
        let ghost rest = s@.skip(i as int);
        if s.len() - i >= pat.len() && crate::text::matches_at(s, pat, i) {
            assert(rest.take(pat@.len() as int) =~= pat@);
            assert(rest.skip(pat@.len() as int) =~= s@.skip(i + pat@.len()));
            let ghost before = out@;
            crate::text::append_vec(&mut out, with);
            assert(before + replace_all(rest, pat@, with@) =~= out@ + replace_all(
                s@.skip(i + pat@.len()),
                pat@,
                with@,
            ));
            i = i + pat.len();
        } else {
            proof {
                if rest.len() >= pat@.len() {
                    assert(rest.take(pat@.len() as int) != pat@) by {
                        if rest.take(pat@.len() as int) == pat@ {
                            assert(s@.subrange(i as int, i + pat@.len()) =~= rest.take(
                                pat@.len() as int,
                            ));
                        }
                    }
                }
                assert(rest.drop_first() =~= s@.skip(i + 1));
            }
            let ghost before = out@;
            out.push(s[i]);
            proof {
                if rest.len() < pat@.len() {
                    assert(replace_all(rest, pat@, with@) == rest);
                    assert(replace_all(s@.skip(i + 1), pat@, with@) == s@.skip(i + 1));
                    assert(rest =~= seq![s@[i as int]] + s@.skip(i + 1));
                }
                assert(before + replace_all(rest, pat@, with@) =~= out@ + replace_all(
                    s@.skip(i + 1),
                    pat@,
                    with@,
                ));
            }
            i = i + 1;
        }
    }
    assert(replace_all(s@.skip(s.len() as int), pat@, with@) =~= Seq::<char>::empty()) by {
        assert(s@.skip(s.len() as int) =~= Seq::<char>::empty());
    }
    assert(out@ + Seq::<char>::empty() =~= out@);
    out
}

/// The program and arguments the Cursor CLI runtime runs for a prompt.
#[derive(Debug, Clone)]
pub struct CursorCommand {
    pub program: String,
    pub args: Vec<String>,
}

/// The command for a prompt: the template through `sh -lc` with the quoted
/// prompt in place of `{prompt}`, else the CLI with `-p <prompt>
/// --output-format json`.
pub open spec fn cursor_command_of(rt: CursorCliRuntime, prompt: Seq<char>) -> (Seq<char>, Seq<Seq<char>>) {
    match rt.command_template {
        Some(t) => ("sh"@, seq!["-lc"@, replace_all(t@, "{prompt}"@, shell_quoted(prompt))]),
        None => (rt.command_path@, seq!["-p"@, prompt, "--output-format"@, "json"@]),
    }
}

/// The text of one output line that is JSON with a `text`, `content` or
/// `delta.text` string.
pub open spec fn json_line_text(line: Seq<char>) -> Option<Seq<char>> {
    match crate::http_openai_compat::json_str_at(line, "/text"@) {
        Some(t) => Some(t),
        None => match crate::http_openai_compat::json_str_at(line, "/content"@) {
            Some(t) => Some(t),
            None => crate::http_openai_compat::json_str_at(line, "/delta/text"@),
        },
    }
}

/// The text output lines give, one per non-blank line, separated by line
/// breaks once some text was gathered.
pub open spec fn gathered_text(lines: Seq<Seq<char>>) -> Seq<char>
    decreases lines.len(),
{
    if lines.len() == 0 {
        Seq::empty()
    } else {
        let acc = gathered_text(lines.drop_last());
        let t = trim(lines.last());
        if t.len() == 0 {
            acc
        } else {
            let piece = match json_line_text(t) {
                Some(x) => x,
                None => t,
            };
            if acc.len() > 0 {
                acc + "\n"@ + piece
            } else {
                piece
            }
        }
    }
}

/// The reply text of the CLI's output, or `[empty response]`.
pub open spec fn cursor_text(raw: Seq<char>) -> Seq<char> {
    let g = gathered_text(crate::text::text_lines(raw));
    if trim(g).len() == 0 {
        "[empty response]"@
    } else {
        g
    }
}

/// The text of one trimmed output line, when it is JSON carrying one.
pub fn extract_text_from_json_line(line: &str) -> (r: Option<String>)
    ensures
        match json_line_text(line@) {
            Some(t) => r matches Some(s) && s@ == t,
            None => r is None,
        },
{
    proof {
        reveal_strlit("/text");
        reveal_strlit("/content");
        reveal_strlit("/delta/text");
    }
    match crate::http_openai_compat::json_text_at(line, "/text") {
        Some(t) => Some(t),
        None => match crate::http_openai_compat::json_text_at(line, "/content") {
            Some(t) => Some(t),
            None => crate::http_openai_compat::json_text_at(line, "/delta/text"),
        },
    }
}

/// The reply text of the CLI's output.
pub fn extract_cursor_text(raw_stdout: &str) -> (s: String)
    ensures
        s@ == cursor_text(raw_stdout@),
{
    let lines = crate::text::text_lines_vec(&chars_of(raw_stdout));
    let ghost lv = crate::path::views(lines@);
    let mut acc: Vec<char> = Vec::new();
    let mut i: usize = 0;
    assert(lv.take(0) =~= Seq::<Seq<char>>::empty());
    while i < lines.len()
        invariant
            i <= lines.len(),
            lv == crate::path::views(lines@),
            lv == crate::text::text_lines(raw_stdout@),
            acc@ == gathered_text(lv.take(i as int)),
        decreases lines.len() - i,
    {
        assert(lv.take(i + 1).drop_last() =~= lv.take(i as int));
        assert(lv.take(i + 1).last() == lines@[i as int]@);
        let t = trim_vec(&lines[i]);
        if t.len() > 0 {
            let ts = string_of(&t);
            let piece = match extract_text_from_json_line(ts.as_str()) {
                Some(x) => chars_of(x.as_str()),
                None => t,
            };
            let ghost before = acc@;
            proof {
                reveal_strlit("\n");
            }
            if acc.len() > 0 {
                acc.push('\n');
            }
            crate::text::append_vec(&mut acc, &piece);
            proof {
                let pc = match json_line_text(t@) {
                    Some(x) => x,
                    None => t@,
                };
                assert(piece@ == pc);
                if before.len() > 0 {
                    assert(acc@ =~= before + "\n"@ + pc);
                } else {
                    assert(acc@ =~= pc);
                }
            }
        }
        i = i + 1;
    }
    assert(lv.take(lines.len() as int) =~= lv);
    if trim_vec(&acc).len() == 0 {
        String::from_str("[empty response]")
    } else {
        string_of(&acc)
    }
}

impl CursorCliRuntime {
    /// The command run for a prompt.
    pub fn command_for(&self, prompt: &str) -> (c: CursorCommand)
        ensures
            (c.program@, c.args@.map_values(|a: String| a@)) == cursor_command_of(*self, prompt@),
    {
        match &self.command_template {
            Some(t) => {
                let pat = chars_of("{prompt}");
                proof {
                    reveal_strlit("{prompt}");
                }
                let quoted = chars_of(shell_single_quote(prompt).as_str());
                let rendered = replace_all_vec(&chars_of(t.as_str()), &pat, &quoted);
                let mut args: Vec<String> = Vec::new();
                args.push(String::from_str("-lc"));
                args.push(string_of(&rendered));
                assert(args@.map_values(|a: String| a@) =~= seq![
                    "-lc"@,
                    replace_all(t@, "{prompt}"@, shell_quoted(prompt@)),
                ]);
                CursorCommand { program: String::from_str("sh"), args }
            },
            None => {
                let mut args: Vec<String> = Vec::new();
                args.push(String::from_str("-p"));
                args.push(String::from_str(prompt));
                args.push(String::from_str("--output-format"));
                args.push(String::from_str("json"));
                assert(args@.map_values(|a: String| a@) =~= seq![
                    "-p"@,
                    prompt@,
                    "--output-format"@,
                    "json"@,
                ]);
                CursorCommand { program: self.command_path.clone(), args }
            },
        }
    }
}

/// The error of a CLI that could not be started.
pub fn cursor_spawn_failed(err: &str) -> (s: RpcStatus)
    ensures
        s.code == RpcCode::Unavailable,
        s.message@ == "cursor runtime spawn failed: "@ + err@,
{
    RpcStatus {
        code: RpcCode::Unavailable,
        message: String::from_str("cursor runtime spawn failed: ").concat(err),
    }
}

/// The error of a CLI that ran past its timeout.
pub fn cursor_timed_out(timeout_secs: u64) -> (s: RpcStatus)
    ensures
        s.code == RpcCode::DeadlineExceeded,
        s.message@ == "cursor runtime timed out after "@ + decimal(timeout_secs as nat) + "s"@,
{
    RpcStatus {
        code: RpcCode::DeadlineExceeded,
        message: crate::text::prefixed_decimal("cursor runtime timed out after ", timeout_secs).concat(
            "s",
        ),
    }
}

/// The error of a failed wait or output read (`what` names the step).
pub fn cursor_io_failed(what: &str, err: &str) -> (s: RpcStatus)
    ensures
        s.code == RpcCode::Internal,
        s.message@ == "cursor runtime "@ + what@ + " failed: "@ + err@,
{
    RpcStatus {
        code: RpcCode::Internal,
        message: String::from_str("cursor runtime ").concat(what).concat(" failed: ").concat(err),
    }
}

/// The outcome of a finished CLI run: its output on success, else the
/// failure with its status and trimmed stderr.
pub fn cursor_exit_outcome(success: bool, status_text: &str, stdout: String, stderr: &str) -> (r:
    Result<String, RpcStatus>)
    ensures
        success ==> r == Ok::<String, RpcStatus>(stdout),
        !success ==> (r matches Err(s) && s.code == RpcCode::Unavailable && s.message@
            == "cursor runtime failed: status="@ + status_text@ + "; stderr="@ + trim(stderr@)),
{
    if success {
        return Ok(stdout);
    }
    let t = string_of(&trim_vec(&chars_of(stderr)));
    Err(
        RpcStatus {
            code: RpcCode::Unavailable,
            message: String::from_str("cursor runtime failed: status=").concat(status_text).concat(
                "; stderr=",
            ).concat(t.as_str()),
        },
    )
}

/// The stream of a CLI run: its reply text in chunks of eight characters
/// ending with `done`, or its error alone.
pub fn cursor_chunks(outcome: Result<String, RpcStatus>) -> (r: Vec<
    Result<StreamInferenceResponse, RpcStatus>,
>)
    requires
        outcome matches Ok(raw) ==> cursor_text(raw@).len() < u64::MAX,
    ensures
        match outcome {
            Ok(raw) => exists|parts: Seq<Seq<char>>|
                is_chunking(parts, cursor_text(raw@), STREAM_CHUNK_MAX_CHARS as nat)
                    && is_done_stream(r@, parts),
            Err(e) => r@ == seq![Err::<StreamInferenceResponse, RpcStatus>(e)],
        },
{
    match outcome {
        Ok(raw) => {
            let text = extract_cursor_text(raw.as_str());
            let parts = chunk_output(text.as_str(), STREAM_CHUNK_MAX_CHARS);
            proof {
                lemma_chunking_count(parts@.map_values(|x: String| x@), text@, STREAM_CHUNK_MAX_CHARS as nat);
            }
            let ghost pv = parts@.map_values(|x: String| x@);
            let r = stream_chunks_with_done(parts);
            assert(is_chunking(pv, cursor_text(raw@), STREAM_CHUNK_MAX_CHARS as nat));
            r
        },
        Err(e) => {
            let mut r: Vec<Result<StreamInferenceResponse, RpcStatus>> = Vec::new();
            r.push(Err(e));
            r
        },
    }
}

} // verus!
