//! Daemon identity constants and the deterministic mock inference output.
use vstd::prelude::*;

use crate::path::views;
use crate::text::{chars_of, string_of, trim, trim_vec};

verus! {

/// Unix Domain Socket path for local daemon-client transport.
pub const SOCKET_PATH: &'static str = "/tmp/rex.sock";

/// Daemon semantic version exposed over status endpoint.
pub const DAEMON_VERSION: &'static str = "0.1.0";

/// Model identifier used by the MVP mock inference implementation.
pub const ACTIVE_MODEL_ID: &'static str = "mock-model-v0";

/// The mock runtime's reply to `prompt`.
pub open spec fn mock_output(prompt: Seq<char>) -> Seq<char> {
    if trim(prompt).len() == 0 {
        "[empty prompt]"@
    } else {
        "mock: "@ + prompt
    }
}

/// Returns the deterministic mock output for a prompt.
pub fn build_mock_output(prompt: &str) -> (s: String)
    ensures
        s@ == mock_output(prompt@),
{
    let v = chars_of(prompt);
    if trim_vec(&v).len() == 0 {
        String::from_str("[empty prompt]")
    } else {
        String::from_str("mock: ").concat(prompt)
    }
}

/// All pieces of `parts`, one after another.
pub open spec fn concat_all(parts: Seq<Seq<char>>) -> Seq<char>
    decreases parts.len(),
{
    if parts.len() == 0 {
        Seq::<char>::empty()
    } else {
        concat_all(parts.drop_last()) + parts.last()
    }
}

/// `parts` cuts `s`, in order, into pieces of exactly `size` characters,
/// except that the last piece may be shorter (but never empty).
pub open spec fn is_chunking(parts: Seq<Seq<char>>, s: Seq<char>, size: nat) -> bool {
    &&& concat_all(parts) == s
    &&& forall|i: int| 0 <= i < parts.len() ==> 0 < #[trigger] parts[i].len() <= size
    &&& forall|i: int| 0 <= i < parts.len() - 1 ==> #[trigger] parts[i].len() == size
}

pub proof fn lemma_concat_all_push(parts: Seq<Seq<char>>, p: Seq<char>)
    ensures
        concat_all(parts.push(p)) == concat_all(parts) + p,
{
    assert(parts.push(p).drop_last() =~= parts);
}

/// Splits text into deterministic, contiguous chunks for streaming
/// (chunk size at least one character).
pub fn chunk_output(text: &str, max_chunk_chars: usize) -> (r: Vec<String>)
    ensures
        is_chunking(r@.map_values(|x: String| x@), text@, if max_chunk_chars == 0 {
            1
        } else {
            max_chunk_chars as nat
        }),
{
    let v = chars_of(text);
    let size: usize = if max_chunk_chars == 0 {
        1
    } else {
        max_chunk_chars
    };
    let mut out: Vec<String> = Vec::new();
    let mut cur: Vec<char> = Vec::new();
    let mut i: usize = 0;
    while i < v.len()
        invariant
            i <= v.len(),
            v@ == text@,
            size >= 1,
            cur@.len() < size,
            concat_all(out@.map_values(|x: String| x@)) + cur@ == v@.take(i as int),
            forall|k: int| 0 <= k < out@.len() ==> (#[trigger] out@[k])@.len() == size,
        decreases v.len() - i,
    {
        let ghost before = out@.map_values(|x: String| x@);
        cur.push(v[i]);
        assert(v@.take(i + 1) =~= v@.take(i as int).push(v@[i as int]));
        if cur.len() == size {
            let piece = string_of(&cur);
            out.push(piece);
            proof {
                lemma_concat_all_push(before, cur@);
                assert(out@.map_values(|x: String| x@) =~= before.push(cur@));
            }
            cur = Vec::new();
            assert(concat_all(out@.map_values(|x: String| x@)) + cur@ =~= v@.take(i + 1));
        } else {
            assert(concat_all(out@.map_values(|x: String| x@)) + cur@ =~= v@.take(i + 1));
        }
        i = i + 1;
    }
    let ghost before = out@.map_values(|x: String| x@);
    if cur.len() > 0 {
        let piece = string_of(&cur);
        out.push(piece);
        proof {
            lemma_concat_all_push(before, cur@);
            assert(out@.map_values(|x: String| x@) =~= before.push(cur@));
        }
    } else {
        assert(concat_all(before) =~= concat_all(before) + cur@);
    }
    assert(v@.take(v.len() as int) =~= v@);
    out
}

} // verus!
