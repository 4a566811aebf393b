//! The documentation manifest (`docs/manifest.yaml`): which documents make up
//! the advisory bundle, which carry a summary section for knowledge
//! retrieval, and how a summary section is cut out of a Markdown document.
//!
//! The manifest file is read and parsed at the edge of the program into the
//! plain records below.
use vstd::prelude::*;

use crate::text::{chars_of, clone_chars, string_of, trim, trim_vec};

verus! {

/// One `documents[]` entry of the manifest.
#[derive(Debug, Clone)]
pub struct ManifestDocument {
    pub path: String,
    pub role: String,
    pub status: String,
    pub summary_heading: Option<String>,
    pub advisory_bundle: bool,
}

/// The manifest as written in `docs/manifest.yaml`.
#[derive(Debug, Clone)]
pub struct ManifestFile {
    pub version: u32,
    pub documents: Vec<ManifestDocument>,
}

/// `root` joined with `rel` (`Path::join` for a relative `rel`).
pub open spec fn joined_path(root: Seq<char>, rel: Seq<char>) -> Seq<char> {
    if root.len() == 0 || root.last() == '/' {
        root + rel
    } else {
        root + seq!['/'] + rel
    }
}

/// Where the manifest lives under a workspace root.
pub fn manifest_path(workspace_root: &str) -> (p: String)
    ensures
        p@ == joined_path(workspace_root@, "docs/manifest.yaml"@),
{
    let mut r = chars_of(workspace_root);
    if r.len() > 0 && r[r.len() - 1] != '/' {
        r.push('/');
    }
    crate::text::append_vec(&mut r, &chars_of("docs/manifest.yaml"));
    string_of(&r)
}

/// The documents an advisory bundle is built from when the manifest names none.
pub open spec fn default_paths() -> Seq<Seq<char>> {
    seq!["docs/ROADMAP.md"@, "docs/PRIORITIZATION.md"@, "README.md"@]
}

/// The advisory-bundle documents of the manifest that are active, in order.
pub open spec fn bundle_docs(docs: Seq<ManifestDocument>) -> Seq<Seq<char>>
    decreases docs.len(),
{
    if docs.len() == 0 {
        Seq::<Seq<char>>::empty()
    } else {
        let rest = bundle_docs(docs.drop_last());
        let d = docs.last();
        if d.advisory_bundle && d.status@ == "active"@ {
            rest.push(d.path@)
        } else {
            rest
        }
    }
}

/// What `advisory_bundle_paths` returns.
pub open spec fn advisory_paths(manifest: Option<ManifestFile>) -> Seq<Seq<char>> {
    match manifest {
        None => default_paths(),
        Some(m) => if bundle_docs(m.documents@).len() == 0 {
            default_paths()
        } else {
            bundle_docs(m.documents@)
        },
    }
}

fn default_advisory_paths() -> (r: Vec<String>)
    ensures
        r@.map_values(|x: String| x@) == default_paths(),
{
    let mut r: Vec<String> = Vec::new();
    r.push(String::from_str("docs/ROADMAP.md"));
    r.push(String::from_str("docs/PRIORITIZATION.md"));
    r.push(String::from_str("README.md"));
    assert(r@.map_values(|x: String| x@) =~= default_paths());
    r
}

fn is_active(d: &ManifestDocument) -> (b: bool)
    ensures
        b == (d.status@ == "active"@),
{
    crate::text::eq_vec(&chars_of(d.status.as_str()), &chars_of("active"))
}

/// The workspace-relative paths of the advisory bundle: the active manifest
/// documents marked for it, or the default documents when there is no
/// manifest or it marks none.
pub fn advisory_bundle_paths(manifest: Option<&ManifestFile>) -> (r: Vec<String>)
    ensures
        r@.map_values(|x: String| x@) == advisory_paths(
            match manifest {
                Some(m) => Some(*m),
                None => None,
            },
        ),
{
    let m = match manifest {
        Some(m) => m,
        None => return default_advisory_paths(),
    };
    let docs = &m.documents;
    let mut r: Vec<String> = Vec::new();
    let mut i: usize = 0;
    while i < docs.len()
        invariant
            i <= docs.len(),
            r@.map_values(|x: String| x@) == bundle_docs(docs@.take(i as int)),
        decreases docs.len() - i,
    {
        assert(docs@.take(i + 1).drop_last() =~= docs@.take(i as int));
        assert(docs@.take(i + 1).last() == docs@[i as int]);
        if docs[i].advisory_bundle && is_active(&docs[i]) {
            let ghost before = r@;
            r.push(string_of(&chars_of(docs[i].path.as_str())));
            assert(r@.map_values(|x: String| x@) =~= before.map_values(|x: String| x@).push(
                docs@[i as int].path@,
            ));
        }
        i = i + 1;
    }
    assert(docs@.take(docs.len() as int) =~= docs@);
    if r.len() == 0 {
        default_advisory_paths()
    } else {
        r
    }
}

/// The active manifest documents that name a summary heading, as (path,
/// heading), in order.
pub open spec fn knowledge_docs(docs: Seq<ManifestDocument>) -> Seq<(Seq<char>, Seq<char>)>
    decreases docs.len(),
{
    if docs.len() == 0 {
        Seq::<(Seq<char>, Seq<char>)>::empty()
    } else {
        let rest = knowledge_docs(docs.drop_last());
        let d = docs.last();
        match d.summary_heading {
            Some(h) => if d.status@ == "active"@ {
                rest.push((d.path@, h@))
            } else {
                rest
            },
            None => rest,
        }
    }
}

/// The documents knowledge retrieval reads: the active manifest documents
/// with a summary heading (none without a manifest).
pub fn knowledge_entries(manifest: Option<&ManifestFile>) -> (r: Vec<(String, String)>)
    ensures
        r@.map_values(|p: (String, String)| (p.0@, p.1@)) == match manifest {
            Some(m) => knowledge_docs(m.documents@),
            None => Seq::<(Seq<char>, Seq<char>)>::empty(),
        },
{
    let mut r: Vec<(String, String)> = Vec::new();
    let m = match manifest {
        Some(m) => m,
        None => {
            assert(r@.map_values(|p: (String, String)| (p.0@, p.1@)) =~= Seq::<
                (Seq<char>, Seq<char>),
            >::empty());
            return r;
        },
    };
    let docs = &m.documents;
    let mut i: usize = 0;
    while i < docs.len()
        invariant
            i <= docs.len(),
            r@.map_values(|p: (String, String)| (p.0@, p.1@)) == knowledge_docs(
                docs@.take(i as int),
            ),
        decreases docs.len() - i,
    {
        assert(docs@.take(i + 1).drop_last() =~= docs@.take(i as int));
        assert(docs@.take(i + 1).last() == docs@[i as int]);
        match &docs[i].summary_heading {
            Some(h) => {
                if is_active(&docs[i]) {
                    let ghost before = r@;
                    r.push(
                        (
                            string_of(&chars_of(docs[i].path.as_str())),
                            string_of(&chars_of(h.as_str())),
                        ),
                    );
                    assert(r@.map_values(|p: (String, String)| (p.0@, p.1@)) =~= before.map_values(
                        |p: (String, String)| (p.0@, p.1@),
                    ).push((docs@[i as int].path@, h@)));
                }
            },
            None => {},
        }
        i = i + 1;
    }
    assert(docs@.take(docs.len() as int) =~= docs@);
    r
}

/// Number of leading `#` characters.
pub open spec fn hashes(s: Seq<char>) -> nat
    decreases s.len(),
{
    if s.len() > 0 && s[0] == '#' {
        1 + hashes(s.drop_first())
    } else {
        0
    }
}

/// Index of the first line that, trimmed, equals `needle`.
pub open spec fn heading_index(lines: Seq<Seq<char>>, needle: Seq<char>) -> Option<int>
    decreases lines.len(),
{
    if lines.len() == 0 {
        None
    } else {
        match heading_index(lines.drop_last(), needle) {
            Some(i) => Some(i),
            None => if trim(lines.last()) == needle {
                Some(lines.len() - 1)
            } else {
                None
            },
        }
    }
}

/// Number of leading lines of `rest` before a heading of level `level` or
/// higher (fewer or equal `#`).
pub open spec fn section_len(rest: Seq<Seq<char>>, level: nat) -> nat
    decreases rest.len(),
{
    if rest.len() == 0 || (rest[0].len() > 0 && rest[0][0] == '#' && hashes(rest[0]) <= level) {
        0
    } else {
        1 + section_len(rest.drop_first(), level)
    }
}

/// The body of the section under `heading`, trimmed; `None` when the heading
/// is absent or the body is empty.
pub open spec fn section_of(content: Seq<char>, heading: Seq<char>) -> Option<Seq<char>> {
    let lines = crate::text::text_lines(content);
    let needle = trim(heading);
    match heading_index(lines, needle) {
        None => None,
        Some(i) => {
            let rest = lines.skip(i + 1);
            let body = rest.take(section_len(rest, hashes(needle)) as int);
            let text = trim(crate::path::join_with(body, seq!['\n']));
            if text.len() == 0 {
                None
            } else {
                Some(text)
            }
        },
    }
}

fn hashes_vec(s: &Vec<char>) -> (n: usize)
    ensures
        n == hashes(s@),
{
    let mut i: usize = 0;
    assert(s@.skip(0) =~= s@);
    while i < s.len() && s[i] == '#'
        invariant
            i <= s.len(),
            hashes(s@) == i + hashes(s@.skip(i as int)),
        decreases s.len() - i,
    {
        assert(s@.skip(i as int).drop_first() =~= s@.skip(i + 1));
        i = i + 1;
    }
    i
}

proof fn lemma_heading_prefix(lines: Seq<Seq<char>>, needle: Seq<char>, k: int)
    requires
        0 <= k <= lines.len(),
        heading_index(lines.take(k), needle) is Some,
    ensures
        heading_index(lines, needle) == heading_index(lines.take(k), needle),
    decreases lines.len(),
{
    if k < lines.len() {
        assert(lines.drop_last().take(k) =~= lines.take(k));
        lemma_heading_prefix(lines.drop_last(), needle, k);
    } else {
        assert(lines.take(k) =~= lines);
    }
}

/// The trimmed body of the Markdown section under `heading`: the lines after
/// the heading up to the next heading of the same or a higher level.
pub fn extract_section(content: &str, heading: &str) -> (r: Option<String>)
    ensures
        match section_of(content@, heading@) {
            Some(t) => r matches Some(s) && s@ == t,
            None => r is None,
        },
{
    let lines = crate::text::text_lines_vec(&chars_of(content));
    let ghost lv = crate::path::views(lines@);
    let needle = trim_vec(&chars_of(heading));
    let mut i: usize = 0;
    while i < lines.len()
        invariant
            i <= lines.len(),
            lv == crate::path::views(lines@),
            lv == crate::text::text_lines(content@),
            needle@ == trim(heading@),
            heading_index(lv.take(i as int), needle@) is None,
        decreases lines.len() - i,
    {
        assert(lv.take(i + 1).drop_last() =~= lv.take(i as int));
        assert(lv.take(i + 1).last() == lines@[i as int]@);
        if crate::text::eq_vec(&trim_vec(&lines[i]), &needle) {
            proof {
                lemma_heading_prefix(lv, needle@, i + 1);
            }
            let level = hashes_vec(&needle);
            let ghost rest = lv.skip(i + 1);
            let mut body: Vec<Vec<char>> = Vec::new();
            let mut j: usize = i + 1;
            assert(rest.skip(0) =~= rest);
            proof {
                if lines.len() == i + 1 {
                    assert(rest =~= Seq::<Seq<char>>::empty());
                }
            }
            while j < lines.len()
                invariant
                    i + 1 <= j <= lines.len(),
                    lv == crate::path::views(lines@),
                    rest == lv.skip(i + 1),
                    section_len(rest, level as nat) == (j - (i + 1)) + section_len(
                        rest.skip(j - (i + 1)),
                        level as nat,
                    ),
                    crate::path::views(body@) == rest.take(j - (i + 1)),
                ensures
                    section_len(rest, level as nat) == j - (i + 1),
                    crate::path::views(body@) == rest.take(j - (i + 1)),
                decreases lines.len() - j,
            {
                let next = &lines[j];
                assert(rest.skip(j - (i + 1))[0] == next@);
                if next.len() > 0 && next[0] == '#' && hashes_vec(next) <= level {
                    break;
                }
                assert(rest.skip(j - (i + 1)).drop_first() =~= rest.skip(j + 1 - (i + 1)));
                let ghost before = body@;
                body.push(clone_chars(next));
                assert(crate::path::views(body@) =~= crate::path::views(before).push(next@));
                assert(rest.take(j + 1 - (i + 1)) =~= rest.take(j - (i + 1)).push(next@));
                j = j + 1;
            }
            let nl = vec!['\n'];
            assert(nl@ =~= seq!['\n']);
            let text = trim_vec(&crate::path::join_vec(&body, &nl));
            if text.len() == 0 {
                return None;
            }
            return Some(string_of(&text));
        }
        i = i + 1;
    }
    assert(lv.take(lines.len() as int) =~= lv);
    None
}

} // verus!
