//! Ollama capability probing: the `/api/show` endpoint for an
//! OpenAI-compatible base URL, loopback-host heuristics, whether a show
//! response lists the `tools` capability, and the per-process cache of
//! probe results. The probe request itself happens at the edge of the program.
use vstd::prelude::*;

use crate::http_openai_compat::trim_slashes_end;
use crate::text::{
    append_vec, chars_of, contains, contains_vec, decimal, ends_with, ends_with_vec, lower,
    lower_vec, string_of, trim, trim_vec,
};

verus! {

/// The `/api/show` URL for a base URL (`None` for a blank one).
pub open spec fn show_url(base: Seq<char>) -> Option<Seq<char>> {
    let t = trim_slashes_end(trim(base));
    if t.len() == 0 {
        None
    } else if ends_with(t, "/v1/chat/completions"@) {
        Some(t.take(t.len() - 20) + "/api/show"@)
    } else if ends_with(t, "/chat/completions"@) {
        Some(t.take(t.len() - 17) + "/api/show"@)
    } else if ends_with(t, "/v1"@) {
        Some(t.take(t.len() - 3) + "/api/show"@)
    } else {
        Some(t + "/api/show"@)
    }
}

/// Derive the Ollama `POST /api/show` URL from an OpenAI-compatible base URL.
pub fn derive_show_url(base_url: &str) -> (r: Option<String>)
    ensures
        match show_url(base_url@) {
            Some(u) => r matches Some(s) && s@ == u,
            None => r is None,
        },
{
    let b = trim_vec(&chars_of(base_url));
    let mut n: usize = b.len();
    assert(b@.take(n as int) =~= b@);
    while n > 0 && b[n - 1] == '/'
        invariant
            n <= b.len(),
            trim_slashes_end(b@) == trim_slashes_end(b@.take(n as int)),
        decreases n,
    {
        assert(b@.take(n as int).drop_last() =~= b@.take(n - 1));
        n = n - 1;
    }
    let t = crate::text::slice_vec(&b, 0, n);
    assert(t@ =~= b@.take(n as int));
    if t.len() == 0 {
        return None;
    }
    proof {
        reveal_strlit("/v1/chat/completions");
        reveal_strlit("/chat/completions");
        reveal_strlit("/v1");
    }
    let cut = if ends_with_vec(&t, &chars_of("/v1/chat/completions")) {
        t.len() - 20
    } else if ends_with_vec(&t, &chars_of("/chat/completions")) {
        t.len() - 17
    } else if ends_with_vec(&t, &chars_of("/v1")) {
        t.len() - 3
    } else {
        t.len()
    };
    let mut r = crate::text::slice_vec(&t, 0, cut);
    assert(cut == t.len() ==> r@ =~= t@);
    append_vec(&mut r, &chars_of("/api/show"));
    Some(string_of(&r))
}

/// The base URL names a loopback oMLX server (port 8000, or the managed port).
pub open spec fn omlx_like(base: Seq<char>, port: Option<u16>) -> bool {
    let l = lower(trim(base));
    if contains(l, "127.0.0.1:8000"@) || contains(l, "localhost:8000"@) {
        true
    } else {
        match port {
            Some(p) => p != 8000 && (contains(l, "127.0.0.1:"@ + decimal(p as nat)) || contains(
                l,
                "localhost:"@ + decimal(p as nat),
            )),
            None => false,
        }
    }
}

/// Heuristic: an oMLX OpenAI-compatible loopback endpoint.
pub fn is_omlx_like_base_url(base_url: &str, omlx_port: Option<u16>) -> (b: bool)
    ensures
        b == omlx_like(base_url@, omlx_port),
{
    let l = lower_vec(&trim_vec(&chars_of(base_url)));
    if contains_vec(&l, &chars_of("127.0.0.1:8000")) || contains_vec(&l, &chars_of("localhost:8000")) {
        return true;
    }
    match omlx_port {
        Some(port) => {
            if port != 8000 {
                let d = crate::text::decimal_vec(port as u64);
                let mut a = chars_of("127.0.0.1:");
                append_vec(&mut a, &d);
                let mut b = chars_of("localhost:");
                append_vec(&mut b, &d);
                return contains_vec(&l, &a) || contains_vec(&l, &b);
            }
            false
        },
        None => false,
    }
}

/// The base URL names a loopback Ollama server (port 11434).
pub open spec fn ollama_like(base: Seq<char>) -> bool {
    let l = lower(trim(base));
    contains(l, "127.0.0.1:11434"@) || contains(l, "localhost:11434"@)
}

/// Heuristic: a direct Ollama OpenAI-compatible endpoint.
pub fn is_ollama_like_base_url(base_url: &str) -> (b: bool)
    ensures
        b == ollama_like(base_url@),
{
    let l = lower_vec(&trim_vec(&chars_of(base_url)));
    contains_vec(&l, &chars_of("127.0.0.1:11434")) || contains_vec(&l, &chars_of("localhost:11434"))
}

/// What `serde_json` reads from a show response: for a JSON document with a
/// `capabilities` array, each entry as text (`None` for a non-string entry);
/// `None` for anything else.
pub uninterp spec fn show_capabilities(body: Seq<char>) -> Option<Seq<Option<Seq<char>>>>;

/// Parses a show response with `serde_json::from_str` into a
/// `serde_json::Value` and reads its `/capabilities` array entry by entry
/// with `Value::as_str`. Claimed: the result depends on the body alone.
#[verifier::external_body]
fn parse_show_capabilities(body: &str) -> (r: Option<Vec<Option<String>>>)
    ensures
        match show_capabilities(body@) {
            Some(caps) => r matches Some(v) && v@.map_values(
                |c: Option<String>|
                    match c {
                        Some(s) => Some(s@),
                        None => None,
                    },
            ) == caps,
            None => r is None,
        },
{
    let value: serde_json::Value = serde_json::from_str(body).ok()?;
    let caps = value.pointer("/capabilities")?.as_array()?;
    Some(caps.iter().map(|c| c.as_str().map(String::from)).collect())
}

/// The capabilities listed include `tools`.
pub open spec fn lists_tools(caps: Option<Seq<Option<Seq<char>>>>) -> bool {
    match caps {
        Some(c) => exists|i: int| 0 <= i < c.len() && c[i] == Some("tools"@),
        None => false,
    }
}

/// Whether a show response lists the `tools` capability.
pub fn show_response_supports_tools(body: &str) -> (b: bool)
    ensures
        b == lists_tools(show_capabilities(body@)),
{
    let caps = match parse_show_capabilities(body) {
        Some(c) => c,
        None => return false,
    };
    let ghost cv = caps@.map_values(
        |c: Option<String>|
            match c {
                Some(s) => Some(s@),
                None => None,
            },
    );
    let tools = chars_of("tools");
    let mut i: usize = 0;
    while i < caps.len()
        invariant
            i <= caps.len(),
            tools@ == "tools"@,
            cv == caps@.map_values(
                |c: Option<String>|
                    match c {
                        Some(s) => Some(s@),
                        None => None,
                    },
            ),
            forall|j: int| 0 <= j < i ==> cv[j] != Some("tools"@),
            show_capabilities(body@) == Some(cv),
        decreases caps.len() - i,
    {
        match &caps[i] {
            Some(s) => {
                if crate::text::eq_vec(&chars_of(s.as_str()), &tools) {
                    assert(cv[i as int] == Some("tools"@));
                    return true;
                }
                assert(cv[i as int] == Some(s@));
            },
            None => {
                assert(cv[i as int] is None);
            },
        }
        i = i + 1;
    }
    false
}

/// Probe results already known in this process, by trimmed base URL and
/// model (at most one per pair).
#[derive(Debug, Clone)]
pub struct CapabilityCache {
    entries: Vec<(String, String, bool)>,
}

impl CapabilityCache {
    /// The known results as (base URL, model, supports tools).
    pub closed spec fn view_entries(&self) -> Seq<(Seq<char>, Seq<char>, bool)> {
        self.entries@.map_values(|e: (String, String, bool)| (e.0@, e.1@, e.2))
    }

    /// The result known for (base URL, model).
    pub open spec fn known(&self, base: Seq<char>, model: Seq<char>) -> Option<bool> {
        known_in(self.view_entries(), trim(base), trim(model))
    }

    /// An empty cache.
    pub fn new() -> (c: Self)
        ensures
            c.view_entries().len() == 0,
    {
        let c = CapabilityCache { entries: Vec::new() };
        assert(c.view_entries() =~= Seq::<(Seq<char>, Seq<char>, bool)>::empty());
        c
    }

    /// The probe result known for a base URL and model.
    pub fn lookup(&self, base_url: &str, model: &str) -> (r: Option<bool>)
        ensures
            r == self.known(base_url@, model@),
    {
        let b = trim_vec(&chars_of(base_url));
        let m = trim_vec(&chars_of(model));
        let ghost v = self.view_entries();
        let mut j: usize = self.entries.len();
        assert(v.take(j as int) =~= v);
        while j > 0
            invariant
                j <= self.entries.len(),
                v == self.view_entries(),
                b@ == trim(base_url@),
                m@ == trim(model@),
                known_in(v, b@, m@) == known_in(v.take(j as int), b@, m@),
            decreases j,
        {
            assert(v.take(j as int).drop_last() =~= v.take(j - 1));
            let e = &self.entries[j - 1];
            assert(v.take(j as int).last() == (e.0@, e.1@, e.2));
            if crate::text::eq_vec(&chars_of(e.0.as_str()), &b) && crate::text::eq_vec(
                &chars_of(e.1.as_str()),
                &m,
            ) {
                return Some(e.2);
            }
            j = j - 1;
        }
        None
    }

    /// Remember a probe result; a later lookup of the pair gives it back.
    pub fn record(&mut self, base_url: &str, model: &str, supports: bool)
        ensures
            final(self).view_entries() == old(self).view_entries().push(
                (trim(base_url@), trim(model@), supports),
            ),
            final(self).known(base_url@, model@) == Some(supports),
    {
        let ghost before = self.view_entries();
        let b = string_of(&trim_vec(&chars_of(base_url)));
        let m = string_of(&trim_vec(&chars_of(model)));
        self.entries.push((b, m, supports));
        assert(self.view_entries() =~= before.push((trim(base_url@), trim(model@), supports)));
        assert(self.view_entries().drop_last() =~= before);
    }
}

/// The latest result recorded for (base, model).
pub open spec fn known_in(entries: Seq<(Seq<char>, Seq<char>, bool)>, base: Seq<char>, model: Seq<char>) -> Option<bool>
    decreases entries.len(),
{
    if entries.len() == 0 {
        None
    } else if entries.last().0 == base && entries.last().1 == model {
        Some(entries.last().2)
    } else {
        known_in(entries.drop_last(), base, model)
    }
}

} // verus!
