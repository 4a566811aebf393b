//! Budgeted knowledge retrieval: the summary sections of the manifest's
//! documents, packed under a `<<KNOWLEDGE:…>>` header within a token budget.
use vstd::prelude::*;

use crate::doc_manifest::{extract_section, section_of};
use crate::plugins::{chunk_line, tokens};
use crate::text::{append_vec, chars_of, string_of};

verus! {

pub const BUNDLE_ID: &'static str = "rex-docs-v1";

/// Knowledge context and how it was obtained (`off`, `miss` or `hit`).
#[derive(Debug)]
pub struct KnowledgeResult {
    pub text: String,
    pub tokens: usize,
    pub status: &'static str,
}

/// One knowledge document: its workspace-relative path, the heading of its
/// summary section, and its text (`None` when it could not be read).
#[derive(Debug, Clone)]
pub struct KnowledgeSource {
    pub rel: String,
    pub heading: String,
    pub raw: Option<String>,
}

/// The `[rel] section` lines that fit, in order, within `budget` tokens
/// (unreadable documents and those without the section skipped; stopping at
/// the first line that does not fit), with their tokens.
pub open spec fn knowledge_lines(sources: Seq<KnowledgeSource>, budget: nat) -> (Seq<Seq<char>>, nat)
    decreases sources.len(),
{
    if sources.len() == 0 {
        (Seq::<Seq<char>>::empty(), 0)
    } else {
        let s = sources[0];
        let rest = sources.drop_first();
        match s.raw {
            None => knowledge_lines(rest, budget),
            Some(raw) => match section_of(raw@, s.heading@) {
                None => knowledge_lines(rest, budget),
                Some(sec) => {
                    let line = chunk_line((s.rel@, sec));
                    if tokens(line) > budget {
                        (Seq::<Seq<char>>::empty(), 0)
                    } else {
                        let r = knowledge_lines(rest, (budget - tokens(line)) as nat);
                        (seq![line] + r.0, tokens(line) + r.1)
                    }
                },
            },
        }
    }
}

/// `<<KNOWLEDGE:rex-docs-v1>>`
pub open spec fn knowledge_header() -> Seq<char> {
    "<<KNOWLEDGE:"@ + BUNDLE_ID@ + ">>"@
}

/// What `load_knowledge_context` returns, as (text, tokens, status).
pub open spec fn knowledge_outcome(sources: Seq<KnowledgeSource>, budget: nat) -> (Seq<char>, nat, Seq<char>) {
    if budget == 0 {
        (Seq::<char>::empty(), 0, "off"@)
    } else if sources.len() == 0 {
        (Seq::<char>::empty(), 0, "miss"@)
    } else {
        let (lines, used) = knowledge_lines(sources, budget);
        if lines.len() == 0 {
            (Seq::<char>::empty(), 0, "miss"@)
        } else {
            (
                knowledge_header() + seq!['\n'] + crate::path::join_with(lines, seq!['\n']),
                used + tokens(knowledge_header()),
                "hit"@,
            )
        }
    }
}

proof fn lemma_knowledge_tokens_bound(sources: Seq<KnowledgeSource>, budget: nat)
    ensures
        knowledge_lines(sources, budget).1 <= budget,
    decreases sources.len(),
{
    if sources.len() > 0 {
        let s = sources[0];
        let rest = sources.drop_first();
        match s.raw {
            None => lemma_knowledge_tokens_bound(rest, budget),
            Some(raw) => match section_of(raw@, s.heading@) {
                None => lemma_knowledge_tokens_bound(rest, budget),
                Some(sec) => {
                    let line = chunk_line((s.rel@, sec));
                    if tokens(line) <= budget {
                        lemma_knowledge_tokens_bound(rest, (budget - tokens(line)) as nat);
                    }
                },
            },
        }
    }
}

/// Knowledge context for a budget of `budget_tokens` (the caller's share of
/// the context budget): the summary sections of the sources that fit.
pub fn load_knowledge_context(budget_tokens: usize, sources: &Vec<KnowledgeSource>) -> (r:
    KnowledgeResult)
    requires
        budget_tokens + 7 <= usize::MAX,
    ensures
        (r.text@, r.tokens as nat, r.status@) == knowledge_outcome(sources@, budget_tokens as nat),
{
    if budget_tokens == 0 {
        return KnowledgeResult { text: String::new(), tokens: 0, status: "off" };
    }
    if sources.len() == 0 {
        return KnowledgeResult { text: String::new(), tokens: 0, status: "miss" };
    }
    let mut lines: Vec<Vec<char>> = Vec::new();
    let mut used: usize = 0;
    let mut i: usize = 0;
    assert(sources@.skip(0) =~= sources@);
    assert(crate::path::views(lines@) + knowledge_lines(sources@, budget_tokens as nat).0
        =~= knowledge_lines(sources@, budget_tokens as nat).0);
    while i < sources.len()
        invariant
            i <= sources.len(),
            used <= budget_tokens,
            knowledge_lines(sources@, budget_tokens as nat) == (
                crate::path::views(lines@) + knowledge_lines(
                    sources@.skip(i as int),
                    (budget_tokens - used) as nat,
                ).0,
                (used + knowledge_lines(sources@.skip(i as int), (budget_tokens - used) as nat).1) as nat,
            ),
        ensures
            used <= budget_tokens,
            knowledge_lines(sources@, budget_tokens as nat) == (
                crate::path::views(lines@),
                used as nat,
            ),
        decreases sources.len() - i,
    {
        proof {
            if i + 1 == sources.len() {
                assert(sources@.skip(i + 1) =~= Seq::<KnowledgeSource>::empty());
            }
        }
        let s = &sources[i];
        let ghost rest = sources@.skip(i as int);
        assert(rest[0] == sources@[i as int]);
        assert(rest.drop_first() =~= sources@.skip(i + 1));
        match &s.raw {
            None => {},
            Some(raw) => {
                match extract_section(raw.as_str(), s.heading.as_str()) {
                    None => {},
                    Some(sec) => {
                        let line = chunk_line_text(s.rel.as_str(), sec.as_str());
                        let t = crate::plugins::estimate_tokens(string_of(&line).as_str());
                        if t > budget_tokens - used {
                            assert(knowledge_lines(rest, (budget_tokens - used) as nat) == (
                                Seq::<Seq<char>>::empty(),
                                0nat,
                            ));
                            assert(crate::path::views(lines@) + Seq::<Seq<char>>::empty()
                                =~= crate::path::views(lines@));
                            break;
                        }
                        let ghost before = lines@;
                        lines.push(line);
                        assert(crate::path::views(lines@) =~= crate::path::views(before).push(
                            chunk_line((s.rel@, sec@)),
                        ));
                        proof {
                            let r2 = knowledge_lines(
                                sources@.skip(i + 1),
                                (budget_tokens - used - t) as nat,
                            );
                            assert(crate::path::views(before) + (seq![chunk_line((s.rel@, sec@))]
                                + r2.0) =~= crate::path::views(lines@) + r2.0);
                        }
                        used = used + t;
                    },
                }
            },
        }
        i = i + 1;
    }
    proof {
        reveal_strlit("<<KNOWLEDGE:rex-docs-v1>>");
        reveal_strlit("<<KNOWLEDGE:");
        reveal_strlit("rex-docs-v1");
        reveal_strlit(">>");
        assert("<<KNOWLEDGE:rex-docs-v1>>"@ =~= knowledge_header());
    }
    if lines.len() == 0 {
        return KnowledgeResult { text: String::new(), tokens: 0, status: "miss" };
    }
    let header = chars_of("<<KNOWLEDGE:rex-docs-v1>>");
    let mut text = crate::text::clone_chars(&header);
    text.push('\n');
    let nl = vec!['\n'];
    assert(nl@ =~= seq!['\n']);
    append_vec(&mut text, &crate::path::join_vec(&lines, &nl));
    let ht = crate::plugins::estimate_tokens("<<KNOWLEDGE:rex-docs-v1>>");
    KnowledgeResult { text: string_of(&text), tokens: used + ht, status: "hit" }
}

fn chunk_line_text(rel: &str, section: &str) -> (r: Vec<char>)
    ensures
        r@ == chunk_line((rel@, section@)),
{
    let mut r = chars_of("[");
    append_vec(&mut r, &chars_of(rel));
    append_vec(&mut r, &chars_of("] "));
    append_vec(&mut r, &chars_of(section));
    r
}

/// `knowledge=rex-docs-v1:<status>`
pub fn knowledge_metric(status: &str) -> (s: String)
    ensures
        s@ == "knowledge="@ + BUNDLE_ID@ + seq![':'] + status@,
{
    let mut r = chars_of("knowledge=");
    append_vec(&mut r, &chars_of(BUNDLE_ID));
    r.push(':');
    append_vec(&mut r, &chars_of(status));
    string_of(&r)
}

} // verus!
