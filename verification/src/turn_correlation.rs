//! Turn correlation ids (`turn_id`, `context_revision`) and stripping of the
//! editor-extension context trailer.
use vstd::prelude::*;

use std::hash::{Hash, Hasher};

use crate::settings::Settings;
use crate::text::{
    chars_of, decimal, occurs_at, prefixed_decimal, slice_vec, starts_with, starts_with_vec,
    string_of, trim_end, trim_end_vec,
};

verus! {

#[derive(Debug, Clone, PartialEq, Eq)]
pub struct TurnCorrelation {
    pub turn_id: String,
    pub context_revision: String,
}

/// `turn-<request_id>`.
pub open spec fn turn_id_of(request_id: u64) -> Seq<char> {
    "turn-"@ + decimal(request_id as nat)
}

pub fn issue_turn_id(request_id: u64) -> (s: String)
    ensures
        s@ == turn_id_of(request_id),
{
    prefixed_decimal("turn-", request_id)
}

/// The digest that `std::collections::hash_map::DefaultHasher` computes over
/// the injected context, retrieval label, compression strategy, selected line
/// count, truncation flag and workspace fingerprint, hashed in that order.
pub uninterp spec fn context_digest(
    injected_context: Seq<char>,
    retrieval: Seq<char>,
    compression_strategy: Seq<char>,
    context_selected: usize,
    context_truncated: bool,
    workspace: Seq<char>,
) -> u64;

/// Hashes the context-revision inputs with `DefaultHasher` (`Hash::hash` on each
/// value in order, then `Hasher::finish`). Claimed: the digest is a function of
/// these inputs alone.
#[verifier::external_body]
fn digest_context(
    injected_context: &str,
    retrieval: &str,
    compression_strategy: &str,
    context_selected: usize,
    context_truncated: bool,
    workspace: &str,
) -> (h: u64)
    ensures
        h == context_digest(
            injected_context@,
            retrieval@,
            compression_strategy@,
            context_selected,
            context_truncated,
            workspace@,
        ),
{
    let mut hasher = std::collections::hash_map::DefaultHasher::new();
    injected_context.hash(&mut hasher);
    retrieval.hash(&mut hasher);
    compression_strategy.hash(&mut hasher);
    context_selected.hash(&mut hasher);
    context_truncated.hash(&mut hasher);
    workspace.to_string().hash(&mut hasher);
    hasher.finish()
}

pub open spec fn hex_char(d: nat) -> char {
    if d < 10 {
        (0x30 + d) as char
    } else {
        (0x61 + d - 10) as char
    }
}

/// The last `width` lower-case hexadecimal digits of `n`, zero-padded.
pub open spec fn hex_padded(n: nat, width: nat) -> Seq<char>
    decreases width,
{
    if width == 0 {
        Seq::<char>::empty()
    } else {
        hex_padded(n / 16, (width - 1) as nat).push(hex_char(n % 16))
    }
}

fn hex_padded_vec(n: u64, width: usize) -> (r: Vec<char>)
    ensures
        r@ == hex_padded(n as nat, width as nat),
    decreases width,
{
    if width == 0 {
        Vec::new()
    } else {
        let mut r = hex_padded_vec(n / 16, width - 1);
        let d = (n % 16) as u8;
        let c = if d < 10 {
            (d + 48) as char
        } else {
            (d + 87) as char
        };
        assert(c == hex_char((n % 16) as nat));
        r.push(c);
        r
    }
}

/// The workspace fingerprint used in context revisions.
pub open spec fn workspace_fingerprint(settings: Settings) -> Seq<char> {
    match settings.workspace_root {
        Some(root) => root@,
        None => Seq::<char>::empty(),
    }
}

/// `ctx-<16 hex digits>` of the context digest; empty when no context stage ran.
pub open spec fn context_revision(
    injected_context: Seq<char>,
    retrieval: Seq<char>,
    compression_strategy: Seq<char>,
    context_selected: usize,
    context_truncated: bool,
    workspace: Seq<char>,
) -> Seq<char> {
    if retrieval == "skipped"@ && injected_context.len() == 0 {
        Seq::<char>::empty()
    } else {
        "ctx-"@ + hex_padded(
            context_digest(
                injected_context,
                retrieval,
                compression_strategy,
                context_selected,
                context_truncated,
                workspace,
            ) as nat,
            16,
        )
    }
}

pub fn compute_context_revision(
    injected_context: &str,
    retrieval: &str,
    compression_strategy: &str,
    context_selected: usize,
    context_truncated: bool,
    settings: &Settings,
) -> (s: String)
    ensures
        s@ == context_revision(
            injected_context@,
            retrieval@,
            compression_strategy@,
            context_selected,
            context_truncated,
            workspace_fingerprint(*settings),
        ),
{
    let skipped = crate::text::eq_vec(&chars_of(retrieval), &chars_of("skipped"));
    if skipped && injected_context.is_empty() {
        assert(injected_context@.len() == 0);
        return String::new();
    }
    assert(!(retrieval@ == "skipped"@ && injected_context@.len() == 0));
    proof {
        reveal_strlit("");
    }
    let workspace: &str = match &settings.workspace_root {
        Some(root) => root.as_str(),
        None => "",
    };
    let h = digest_context(
        injected_context,
        retrieval,
        compression_strategy,
        context_selected,
        context_truncated,
        workspace,
    );
    let hex = hex_padded_vec(h, 16);
    assert(workspace@ == workspace_fingerprint(*settings));
    let mut out = chars_of("ctx-");
    crate::text::append_vec(&mut out, &hex);
    assert(out@ == "ctx-"@ + hex_padded(h as nat, 16));
    string_of(&out)
}

pub fn build_turn_correlation(
    request_id: u64,
    injected_context: &str,
    retrieval: &str,
    compression_strategy: &str,
    context_selected: usize,
    context_truncated: bool,
    settings: &Settings,
) -> (t: TurnCorrelation)
    ensures
        t.turn_id@ == turn_id_of(request_id),
        t.context_revision@ == context_revision(
            injected_context@,
            retrieval@,
            compression_strategy@,
            context_selected,
            context_truncated,
            workspace_fingerprint(*settings),
        ),
{
    TurnCorrelation {
        turn_id: issue_turn_id(request_id),
        context_revision: compute_context_revision(
            injected_context,
            retrieval,
            compression_strategy,
            context_selected,
            context_truncated,
            settings,
        ),
    }
}

/// Result of stripping the `---` / `File:` trailer an editor extension appends.
pub open spec fn stripped_prompt(prompt: Seq<char>) -> (Seq<char>, bool) {
    let t = trim_end(prompt);
    let sep = "\n---\n"@;
    if exists|i: int| occurs_at(t, sep, i) {
        let i = choose|i: int| occurs_at(t, sep, i) && forall|j: int| i < j ==> !occurs_at(t, sep, j);
        if starts_with(t.skip(i + 5), "File:"@) {
            (trim_end(t.take(i)), true)
        } else {
            (prompt, false)
        }
    } else {
        (prompt, false)
    }
}

/// Strip extension-embedded `---` / `File:` / `Selection:` trailer.
pub fn strip_extension_context_blocks(prompt: &str) -> (r: (String, bool))
    ensures
        (r.0@, r.1) == stripped_prompt(prompt@),
{
    let t = trim_end_vec(&chars_of(prompt));
    let sep = chars_of("\n---\n");
    proof {
        reveal_strlit("\n---\n");
    }
    assert(sep@.len() == 5);
    let found = crate::text::rfind_vec(&t, &sep);
    match found {
        None => (String::from_str(prompt), false),
        Some(idx) => {
            assert(occurs_at(t@, sep@, idx as int));
            assert(sep@.len() == 5);
            assert(idx + sep@.len() <= t@.len());
            assert(idx + 5 <= t.len());
            let ghost i = choose|i: int| occurs_at(t@, sep@, i) && forall|j: int| i < j ==> !occurs_at(t@, sep@, j);
            assert(i == idx as int) by {
                if i < idx as int {
                } else if i > idx as int {
                }
            }
            let after = slice_vec(&t, idx + 5, t.len());
            assert(after@ =~= t@.skip(idx + 5));
            if !starts_with_vec(&after, &chars_of("File:")) {
                return (String::from_str(prompt), false);
            }
            let before = slice_vec(&t, 0, idx);
            assert(before@ =~= t@.take(idx as int));
            (string_of(&trim_end_vec(&before)), true)
        },
    }
}


proof fn lemma_hex_padded(n: nat, width: nat)
    ensures
        hex_padded(n, width).len() == width,
        forall|i: int| 0 <= i < width ==> crate::text::is_hex_lower(#[trigger] hex_padded(n, width)[i]),
    decreases width,
{
    if width > 0 {
        lemma_hex_padded(n / 16, (width - 1) as nat);
        let d = n % 16;
        assert(crate::text::is_hex_lower(hex_char(d)));
        let h = hex_padded(n, width);
        assert forall|i: int| 0 <= i < width implies crate::text::is_hex_lower(#[trigger] h[i]) by {
            if i < width - 1 {
                assert(h[i] == hex_padded(n / 16, (width - 1) as nat)[i]);
            }
        }
    }
}

/// A context revision is empty exactly when retrieval was skipped and no
/// context was injected; otherwise it is `ctx-` and sixteen lower-case hex
/// digits, the same for the same inputs.
pub proof fn law_context_revision_shape(
    injected_context: Seq<char>,
    retrieval: Seq<char>,
    compression_strategy: Seq<char>,
    context_selected: usize,
    context_truncated: bool,
    workspace: Seq<char>,
)
    ensures
        ({
            let r = context_revision(
                injected_context,
                retrieval,
                compression_strategy,
                context_selected,
                context_truncated,
                workspace,
            );
            &&& r.len() == 0 <==> (retrieval == "skipped"@ && injected_context.len() == 0)
            &&& r.len() > 0 ==> r.len() == 20 && r.take(4) == "ctx-"@ && forall|i: int|
                4 <= i < 20 ==> crate::text::is_hex_lower(#[trigger] r[i])
        }),
{
    let d = context_digest(
        injected_context,
        retrieval,
        compression_strategy,
        context_selected,
        context_truncated,
        workspace,
    ) as nat;
    lemma_hex_padded(d, 16);
    reveal_strlit("ctx-");
    let r = "ctx-"@ + hex_padded(d, 16);
    assert(r.take(4) =~= "ctx-"@);
    assert forall|i: int| 4 <= i < 20 implies crate::text::is_hex_lower(#[trigger] r[i]) by {
        assert(r[i] == hex_padded(d, 16)[i - 4]);
    }
}

} // verus!
