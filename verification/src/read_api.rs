//! The observability read API: request routing, query-string parameters of
//! the metrics stream, the filter of a metrics query, and the JSON error
//! and event framing. The HTTP server and the store are at the edge of the
//! program.
use vstd::prelude::*;

use crate::adapters::{all_digits, digits_value, parse_u64, parse_u64_text};
use crate::http_openai_compat::{json_quoted, json_string};
use crate::path::{split_char, split_char_vec, views};
use crate::text::{chars_of, string_of, trim, trim_vec};

verus! {

/// The endpoint a request is for.
#[derive(Debug, Clone, Copy, PartialEq, Eq, Structural)]
pub enum ReadApiRoute {
    Health,
    Catalog,
    MetricsQuery,
    MetricsRollup,
    MetricsStream,
    NotFound,
}

/// The endpoint for a method and path.
pub open spec fn route_of(method: Seq<char>, path: Seq<char>) -> ReadApiRoute {
    if method == "GET"@ && path == "/health"@ {
        ReadApiRoute::Health
    } else if method == "GET"@ && path == "/v1/catalog"@ {
        ReadApiRoute::Catalog
    } else if method == "POST"@ && path == "/v1/metrics/query"@ {
        ReadApiRoute::MetricsQuery
    } else if method == "POST"@ && path == "/v1/metrics/rollup"@ {
        ReadApiRoute::MetricsRollup
    } else if method == "GET"@ && path == "/v1/metrics/stream"@ {
        ReadApiRoute::MetricsStream
    } else {
        ReadApiRoute::NotFound
    }
}

/// Route a request by method and path.
pub fn route_request(method: &str, path: &str) -> (r: ReadApiRoute)
    ensures
        r == route_of(method@, path@),
{
    let m = chars_of(method);
    let p = chars_of(path);
    let get = crate::text::eq_vec(&m, &chars_of("GET"));
    let post = crate::text::eq_vec(&m, &chars_of("POST"));
    if get && crate::text::eq_vec(&p, &chars_of("/health")) {
        ReadApiRoute::Health
    } else if get && crate::text::eq_vec(&p, &chars_of("/v1/catalog")) {
        ReadApiRoute::Catalog
    } else if post && crate::text::eq_vec(&p, &chars_of("/v1/metrics/query")) {
        ReadApiRoute::MetricsQuery
    } else if post && crate::text::eq_vec(&p, &chars_of("/v1/metrics/rollup")) {
        ReadApiRoute::MetricsRollup
    } else if get && crate::text::eq_vec(&p, &chars_of("/v1/metrics/stream")) {
        ReadApiRoute::MetricsStream
    } else {
        ReadApiRoute::NotFound
    }
}

/// Position of the first `c` in `s`, or its length.
pub open spec fn char_pos(s: Seq<char>, c: char) -> nat
    decreases s.len(),
{
    if s.len() == 0 {
        0
    } else if s[0] == c {
        0
    } else {
        1 + char_pos(s.drop_first(), c)
    }
}

/// The `key=value` pairs of query pieces, in order; a piece without `=` is
/// skipped, and the value starts after the first `=`.
pub open spec fn pairs_of(pieces: Seq<Seq<char>>) -> Seq<(Seq<char>, Seq<char>)>
    decreases pieces.len(),
{
    if pieces.len() == 0 {
        Seq::empty()
    } else {
        let init = pairs_of(pieces.drop_last());
        let p = pieces.last();
        let i = char_pos(p, '=') as int;
        if i < p.len() {
            init.push((p.take(i), p.skip(i + 1)))
        } else {
            init
        }
    }
}

/// The pairs of a query string.
pub open spec fn query_pairs(query: Option<Seq<char>>) -> Seq<(Seq<char>, Seq<char>)> {
    match query {
        Some(q) => pairs_of(split_char(q, '&')),
        None => Seq::empty(),
    }
}

/// The value of a key: that of its last pair.
pub open spec fn pair_value(pairs: Seq<(Seq<char>, Seq<char>)>, key: Seq<char>) -> Option<Seq<char>>
    decreases pairs.len(),
{
    if pairs.len() == 0 {
        None
    } else if pairs.last().0 == key {
        Some(pairs.last().1)
    } else {
        pair_value(pairs.drop_last(), key)
    }
}

/// The views of string pairs.
pub open spec fn string_pairs(v: Seq<(String, String)>) -> Seq<(Seq<char>, Seq<char>)> {
    v.map_values(|p: (String, String)| (p.0@, p.1@))
}

proof fn lemma_char_pos(s: Seq<char>, c: char, j: int)
    requires
        0 <= j <= s.len(),
        forall|k: int| 0 <= k < j ==> s[k] != c,
        j < s.len() ==> s[j] == c,
    ensures
        char_pos(s, c) == j,
    decreases j,
{
    if j > 0 {
        let rest = s.drop_first();
        assert forall|k: int| 0 <= k < j - 1 implies rest[k] != c by {
            assert(rest[k] == s[k + 1]);
        }
        if j - 1 < rest.len() {
            assert(rest[j - 1] == s[j]);
        }
        lemma_char_pos(rest, c, j - 1);
    }
}

/// The position of the first `c`, or the length.
fn char_pos_vec(s: &Vec<char>, c: char) -> (r: usize)
    ensures
        r == char_pos(s@, c),
{
    let mut i: usize = 0;
    while i < s.len() && s[i] != c
        invariant
            i <= s.len(),
            forall|k: int| 0 <= k < i ==> s@[k] != c,
        decreases s.len() - i,
    {
        i = i + 1;
    }
    proof {
        lemma_char_pos(s@, c, i as int);
    }
    i
}

/// The `key=value` pairs of a query string, in order.
pub fn parse_query(query: Option<&str>) -> (r: Vec<(String, String)>)
    ensures
        string_pairs(r@) == query_pairs(
            match query {
                Some(q) => Some(q@),
                None => None,
            },
        ),
{
    let mut r: Vec<(String, String)> = Vec::new();
    match query {
        None => {
            assert(string_pairs(r@) =~= Seq::<(Seq<char>, Seq<char>)>::empty());
        },
        Some(q) => {
            let pieces = split_char_vec(&chars_of(q), '&');
            let ghost pv = views(pieces@);
            let mut i: usize = 0;
            assert(pv.take(0) =~= Seq::<Seq<char>>::empty());
            assert(string_pairs(r@) =~= Seq::<(Seq<char>, Seq<char>)>::empty());
            while i < pieces.len()
                invariant
                    i <= pieces.len(),
                    pv == views(pieces@),
                    pv == split_char(q@, '&'),
                    string_pairs(r@) == pairs_of(pv.take(i as int)),
                decreases pieces.len() - i,
            {
                let p = &pieces[i];
                let e = char_pos_vec(p, '=');
                assert(pv.take(i + 1).drop_last() =~= pv.take(i as int));
                assert(pv.take(i + 1).last() == p@);
                if e < p.len() {
                    let ghost before = r@;
                    let k = crate::text::slice_vec(p, 0, e);
                    let v = crate::text::slice_vec(p, e + 1, p.len());
                    r.push((string_of(&k), string_of(&v)));
                    assert(string_pairs(r@) =~= string_pairs(before).push(
                        (p@.take(e as int), p@.skip(e + 1)),
                    ));
                }
                i = i + 1;
            }
            assert(pv.take(pieces.len() as int) =~= pv);
        },
    }
    r
}

/// The value of `key` among the pairs (its last pair wins).
pub fn pair_lookup(pairs: &Vec<(String, String)>, key: &str) -> (r: Option<String>)
    ensures
        match pair_value(string_pairs(pairs@), key@) {
            Some(v) => r matches Some(s) && s@ == v,
            None => r is None,
        },
{
    let ghost pv = string_pairs(pairs@);
    let k = chars_of(key);
    let mut j: usize = pairs.len();
    assert(pv.take(j as int) =~= pv);
    while j > 0
        invariant
            j <= pairs.len(),
            pv == string_pairs(pairs@),
            k@ == key@,
            pair_value(pv, key@) == pair_value(pv.take(j as int), key@),
        decreases j,
    {
        assert(pv.take(j as int).drop_last() =~= pv.take(j - 1));
        assert(pv.take(j as int).last() == (pairs@[j - 1].0@, pairs@[j - 1].1@));
        if crate::text::eq_vec(&chars_of(pairs[j - 1].0.as_str()), &k) {
            return Some(pairs[j - 1].1.clone());
        }
        j = j - 1;
    }
    None
}

/// `i64::from_str`: an optional sign, then one or more digits, in range.
pub open spec fn parse_i64(s: Seq<char>) -> Option<i64> {
    if s.len() > 0 && s[0] == '-' {
        let d = s.drop_first();
        if d.len() > 0 && all_digits(d) && digits_value(d) <= 0x8000_0000_0000_0000 {
            Some((0 - digits_value(d)) as i64)
        } else {
            None
        }
    } else {
        match parse_u64(s) {
            Some(v) => if v <= i64::MAX {
                Some(v as i64)
            } else {
                None
            },
            None => None,
        }
    }
}

/// Parse a signed decimal integer.
pub fn parse_i64_text(text: &str) -> (r: Option<i64>)
    ensures
        r == parse_i64(text@),
{
    let s = chars_of(text);
    if s.len() > 0 && s[0] == '-' {
        let rest = crate::text::slice_vec(&s, 1, s.len());
        assert(rest@ =~= s@.drop_first());
        if rest.len() > 0 && rest[0] == '+' {
            return None;
        }
        match parse_u64_text(string_of(&rest).as_str()) {
            Some(m) => {
                if m <= 0x8000_0000_0000_0000u64 {
                    let v: i128 = 0 - (m as i128);
                    Some(v as i64)
                } else {
                    None
                }
            },
            None => None,
        }
    } else {
        match parse_u64_text(text) {
            Some(v) => if v <= i64::MAX as u64 {
                Some(v as i64)
            } else {
                None
            },
            None => None,
        }
    }
}

/// The non-empty trimmed items of a comma list, in order.
pub open spec fn list_items(pieces: Seq<Seq<char>>) -> Seq<Seq<char>>
    decreases pieces.len(),
{
    if pieces.len() == 0 {
        Seq::empty()
    } else {
        let init = list_items(pieces.drop_last());
        let t = trim(pieces.last());
        if t.len() > 0 {
            init.push(t)
        } else {
            init
        }
    }
}

/// The instruments named in a comma list.
pub fn instrument_list(raw: &str) -> (r: Vec<String>)
    ensures
        r@.map_values(|s: String| s@) == list_items(split_char(raw@, ',')),
{
    let pieces = split_char_vec(&chars_of(raw), ',');
    let ghost pv = views(pieces@);
    let mut r: Vec<String> = Vec::new();
    let mut i: usize = 0;
    assert(pv.take(0) =~= Seq::<Seq<char>>::empty());
    assert(r@.map_values(|s: String| s@) =~= Seq::<Seq<char>>::empty());
    while i < pieces.len()
        invariant
            i <= pieces.len(),
            pv == views(pieces@),
            pv == split_char(raw@, ','),
            r@.map_values(|s: String| s@) == list_items(pv.take(i as int)),
        decreases pieces.len() - i,
    {
        assert(pv.take(i + 1).drop_last() =~= pv.take(i as int));
        assert(pv.take(i + 1).last() == pieces@[i as int]@);
        let t = trim_vec(&pieces[i]);
        if t.len() > 0 {
            let ghost before = r@;
            r.push(string_of(&t));
            assert(r@.map_values(|s: String| s@) =~= before.map_values(|s: String| s@).push(t@));
        }
        i = i + 1;
    }
    assert(pv.take(pieces.len() as int) =~= pv);
    r
}

/// The parameters of a metrics stream.
#[derive(Debug, Clone)]
pub struct StreamParams {
    pub cursor_commit_ms: i64,
    pub instruments: Option<Vec<String>>,
}

/// The stream parameters of a query string, or why it is invalid: the
/// commit cursor is required and must be an integer; the instrument list is
/// optional.
pub fn stream_params(query: Option<&str>) -> (r: Result<StreamParams, String>)
    ensures
        ({
            let pairs = query_pairs(
                match query {
                    Some(q) => Some(q@),
                    None => None,
                },
            );
            match pair_value(pairs, "cursor_commit_ms"@) {
                None => r matches Err(e) && e@
                    == "obs.read_api.stream_invalid: cursor_commit_ms required"@,
                Some(raw) => match parse_i64(raw) {
                    None => r matches Err(e) && e@
                        == "obs.read_api.stream_invalid: cursor_commit_ms must be integer"@,
                    Some(c) => r matches Ok(p) && p.cursor_commit_ms == c && match pair_value(
                        pairs,
                        "instruments"@,
                    ) {
                        Some(list) => p.instruments matches Some(v) && v@.map_values(
                            |s: String| s@,
                        ) == list_items(split_char(list, ',')),
                        None => p.instruments is None,
                    },
                },
            }
        }),
{
    let pairs = parse_query(query);
    let cursor_raw = match pair_lookup(&pairs, "cursor_commit_ms") {
        Some(v) => v,
        None => {
            return Err(String::from_str("obs.read_api.stream_invalid: cursor_commit_ms required"));
        },
    };
    let cursor_commit_ms = match parse_i64_text(cursor_raw.as_str()) {
        Some(v) => v,
        None => {
            return Err(
                String::from_str("obs.read_api.stream_invalid: cursor_commit_ms must be integer"),
            );
        },
    };
    let instruments = match pair_lookup(&pairs, "instruments") {
        Some(raw) => Some(instrument_list(raw.as_str())),
        None => None,
    };
    Ok(StreamParams { cursor_commit_ms, instruments })
}

/// The stored-stream filter of a metrics query.
#[derive(Debug, Clone)]
pub struct StreamQueryFilter {
    pub start_ms: Option<i64>,
    pub end_ms: Option<i64>,
    pub terminal: Option<String>,
    pub route: Option<String>,
    pub mode: Option<String>,
    pub cache_decision: Option<String>,
}

/// The view of an optional string.
pub open spec fn opt_view(o: Option<String>) -> Option<Seq<char>> {
    match o {
        Some(s) => Some(s@),
        None => None,
    }
}

/// The filter of a metrics query: its time range and the `terminal`,
/// `route`, `mode` and `decision` labels.
pub fn query_filter(start_ms: Option<i64>, end_ms: Option<i64>, labels: &Vec<(String, String)>) -> (f:
    StreamQueryFilter)
    ensures
        f.start_ms == start_ms,
        f.end_ms == end_ms,
        opt_view(f.terminal) == pair_value(string_pairs(labels@), "terminal"@),
        opt_view(f.route) == pair_value(string_pairs(labels@), "route"@),
        opt_view(f.mode) == pair_value(string_pairs(labels@), "mode"@),
        opt_view(f.cache_decision) == pair_value(string_pairs(labels@), "decision"@),
{
    StreamQueryFilter {
        start_ms,
        end_ms,
        terminal: pair_lookup(labels, "terminal"),
        route: pair_lookup(labels, "route"),
        mode: pair_lookup(labels, "mode"),
        cache_decision: pair_lookup(labels, "decision"),
    }
}

/// The filter of a rollup: its time range, or the refusal of a rollup
/// without grouping labels.
pub fn rollup_filter(start_ms: Option<i64>, end_ms: Option<i64>, group_by_count: usize) -> (r: Result<
    StreamQueryFilter,
    String,
>)
    ensures
        group_by_count == 0 <==> r is Err,
        r matches Err(e) ==> e@ == "obs.read_api.query_invalid: group_by required"@,
        r matches Ok(f) ==> f.start_ms == start_ms && f.end_ms == end_ms && f.terminal is None
            && f.route is None && f.mode is None && f.cache_decision is None,
{
    if group_by_count == 0 {
        return Err(String::from_str("obs.read_api.query_invalid: group_by required"));
    }
    Ok(
        StreamQueryFilter {
            start_ms,
            end_ms,
            terminal: None,
            route: None,
            mode: None,
            cache_decision: None,
        },
    )
}

/// The message of a query body that does not parse.
pub fn query_invalid_message(err: &str) -> (s: String)
    ensures
        s@ == "obs.read_api.query_invalid: "@ + err@,
{
    String::from_str("obs.read_api.query_invalid: ").concat(err)
}

/// The message of a failed store query.
pub fn store_query_failed_message(err: &str) -> (s: String)
    ensures
        s@ == "store query failed: "@ + err@,
{
    String::from_str("store query failed: ").concat(err)
}

/// The JSON error body: `{"code":<code>,"error":<message>}`.
pub open spec fn error_json(code: Seq<char>, message: Seq<char>) -> Seq<char> {
    "{\"code\":"@ + json_quoted(code) + ",\"error\":"@ + json_quoted(message) + "}"@
}

/// The error body of a query endpoint.
pub fn error_body(message: &str) -> (s: String)
    ensures
        s@ == error_json("obs.read_api.query_invalid"@, message@),
{
    let mut s = String::from_str("{\"code\":");
    s = s.concat(json_string("obs.read_api.query_invalid").as_str());
    s = s.concat(",\"error\":");
    s = s.concat(json_string(message).as_str());
    s.concat("}")
}

/// The error body of the stream endpoint.
pub fn stream_error_body(message: &str) -> (s: String)
    ensures
        s@ == error_json("obs.read_api.stream_invalid"@, message@),
{
    let mut s = String::from_str("{\"code\":");
    s = s.concat(json_string("obs.read_api.stream_invalid").as_str());
    s = s.concat(",\"error\":");
    s = s.concat(json_string(message).as_str());
    s.concat("}")
}

/// The body of the health endpoint.
pub fn health_body() -> (s: &'static str)
    ensures
        s@ == "{\"service\":\"rex-obs-read-api\",\"status\":\"ok\"}"@,
{
    "{\"service\":\"rex-obs-read-api\",\"status\":\"ok\"}"
}

/// One server-sent event carrying a JSON payload.
pub fn sse_event_frame(json: &str) -> (s: String)
    ensures
        s@ == "data: "@ + json@ + "\n\n"@,
{
    String::from_str("data: ").concat(json).concat("\n\n")
}

/// The refusal of a listen address that is not on the loopback interface.
pub fn non_loopback_message(ip: &str) -> (s: String)
    ensures
        s@ == "obs.read_api.bind_failed: non-loopback address "@ + ip@,
{
    String::from_str("obs.read_api.bind_failed: non-loopback address ").concat(ip)
}

/// An error of the read API. The store, configuration and I/O variants hold
/// the text of the underlying error.
#[derive(Debug)]
pub enum ReadApiError {
    BindFailed(String),
    QueryInvalid(String),
    Store(String),
    Config(String),
    Io(String),
    Http(String),
}

/// The text of a read API error.
pub open spec fn read_api_message(e: ReadApiError) -> Seq<char> {
    match e {
        ReadApiError::BindFailed(m) => "obs.read_api.bind_failed: "@ + m@,
        ReadApiError::QueryInvalid(m) => "obs.read_api.query_invalid: "@ + m@,
        ReadApiError::Store(m) => "store error: "@ + m@,
        ReadApiError::Config(m) => "config error: "@ + m@,
        ReadApiError::Io(m) => "io error: "@ + m@,
        ReadApiError::Http(m) => "http error: "@ + m@,
    }
}

impl ReadApiError {
    /// The error's text.
    pub fn message(&self) -> (s: String)
        ensures
            s@ == read_api_message(*self),
    {
        match self {
            ReadApiError::BindFailed(m) => String::from_str("obs.read_api.bind_failed: ").concat(
                m.as_str(),
            ),
            ReadApiError::QueryInvalid(m) => String::from_str("obs.read_api.query_invalid: ").concat(
                m.as_str(),
            ),
            ReadApiError::Store(m) => String::from_str("store error: ").concat(m.as_str()),
            ReadApiError::Config(m) => String::from_str("config error: ").concat(m.as_str()),
            ReadApiError::Io(m) => String::from_str("io error: ").concat(m.as_str()),
            ReadApiError::Http(m) => String::from_str("http error: ").concat(m.as_str()),
        }
    }
}

/// The error that refuses a listen address off the loopback interface.
pub fn non_loopback_error(ip: &str) -> (e: ReadApiError)
    ensures
        e matches ReadApiError::BindFailed(m) && m@ == "obs.read_api.bind_failed: non-loopback address "@
            + ip@,
{
    ReadApiError::BindFailed(non_loopback_message(ip))
}

} // verus!
