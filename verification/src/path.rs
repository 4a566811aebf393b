//! Workspace-relative path text: splitting into segments and the component
//! normalization that `std::path::Path::components` performs on Unix paths.
use vstd::prelude::*;

use crate::text::{append_vec, eq_vec};

verus! {

/// The texts held by a vector of character vectors.
pub open spec fn views(v: Seq<Vec<char>>) -> Seq<Seq<char>> {
    v.map_values(|x: Vec<char>| x@)
}

/// `s.split(sep)` (always at least one, possibly empty, piece).
pub open spec fn split_char(s: Seq<char>, sep: char) -> Seq<Seq<char>>
    decreases s.len(),
{
    if s.len() == 0 {
        seq![Seq::<char>::empty()]
    } else {
        let init = split_char(s.drop_last(), sep);
        if s.last() == sep {
            init.push(Seq::<char>::empty())
        } else {
            init.update(init.len() - 1, init.last().push(s.last()))
        }
    }
}

/// `parts.join(sep)`.
pub open spec fn join_with(parts: Seq<Seq<char>>, sep: Seq<char>) -> Seq<char>
    decreases parts.len(),
{
    if parts.len() == 0 {
        Seq::<char>::empty()
    } else if parts.len() == 1 {
        parts[0]
    } else {
        join_with(parts.drop_last(), sep) + sep + parts.last()
    }
}

/// A segment that survives component normalization: not empty and not `.`.
pub open spec fn is_kept_segment(seg: Seq<char>) -> bool {
    seg.len() > 0 && seg != seq!['.']
}

/// The segments of `segs` that survive component normalization, in order.
pub open spec fn kept_segments(segs: Seq<Seq<char>>) -> Seq<Seq<char>>
    decreases segs.len(),
{
    if segs.len() == 0 {
        Seq::<Seq<char>>::empty()
    } else {
        let k = kept_segments(segs.drop_last());
        if is_kept_segment(segs.last()) {
            k.push(segs.last())
        } else {
            k
        }
    }
}

/// The components of a Unix path as text: a leading `/` (root) or leading `.`
/// (current directory) component, then every non-empty segment other than `.`.
pub open spec fn path_components(s: Seq<char>) -> Seq<Seq<char>> {
    let segs = split_char(s, '/');
    if s.len() > 0 && s[0] == '/' {
        seq![seq!['/']] + kept_segments(segs)
    } else if segs[0] == seq!['.'] {
        seq![seq!['.']] + kept_segments(segs.drop_first())
    } else {
        kept_segments(segs)
    }
}

/// The components of `s` joined with `/`.
pub open spec fn normalize_path(s: Seq<char>) -> Seq<char> {
    join_with(path_components(s), seq!['/'])
}

pub proof fn lemma_split_char_nonempty(s: Seq<char>, sep: char)
    ensures
        split_char(s, sep).len() >= 1,
    decreases s.len(),
{
    if s.len() > 0 {
        lemma_split_char_nonempty(s.drop_last(), sep);
    }
}

/// Splits `s` at every `sep`.
pub fn split_char_vec(s: &Vec<char>, sep: char) -> (r: Vec<Vec<char>>)
    ensures
        views(r@) == split_char(s@, sep),
{
    let mut segs: Vec<Vec<char>> = Vec::new();
    let mut cur: Vec<char> = Vec::new();
    let mut i: usize = 0;
    while i < s.len()
        invariant
            i <= s.len(),
            views(segs@).push(cur@) == split_char(s@.take(i as int), sep),
        decreases s.len() - i,
    {
        let c = s[i];
        proof {
            assert(s@.take(i + 1).drop_last() =~= s@.take(i as int));
            lemma_split_char_nonempty(s@.take(i as int), sep);
        }
        if c == sep {
            let done = cur;
            segs.push(done);
            cur = Vec::new();
            assert(views(segs@).push(cur@) =~= split_char(s@.take(i + 1), sep));
        } else {
            let ghost old_cur = cur@;
            cur.push(c);
            assert(views(segs@).push(cur@) =~= split_char(s@.take(i as int), sep).update(
                views(segs@).len() as int,
                old_cur.push(c),
            ));
        }
        i = i + 1;
    }
    assert(s@.take(s.len() as int) =~= s@);
    segs.push(cur);
    assert(views(segs@) =~= split_char(s@, sep));
    segs
}

/// `parts[from..].join(sep)`, restricted to the kept segments, appended after `lead`.
pub fn kept_segments_vec(segs: &Vec<Vec<char>>, from: usize) -> (r: Vec<Vec<char>>)
    requires
        from <= segs.len(),
    ensures
        views(r@) == kept_segments(views(segs@).skip(from as int)),
{
    let mut r: Vec<Vec<char>> = Vec::new();
    let mut i: usize = from;
    let dot = vec!['.'];
    while i < segs.len()
        invariant
            from <= i <= segs.len(),
            dot@ == seq!['.'],
            views(r@) == kept_segments(views(segs@).subrange(from as int, i as int)),
        decreases segs.len() - i,
    {
        let seg = &segs[i];
        proof {
            assert(views(segs@).subrange(from as int, i + 1).drop_last() =~= views(
                segs@,
            ).subrange(from as int, i as int));
        }
        if seg.len() > 0 && !eq_vec(seg, &dot) {
            r.push(seg.clone());
            assert(views(r@) =~= kept_segments(views(segs@).subrange(from as int, i + 1)));
        } else {
            assert(views(r@) =~= kept_segments(views(segs@).subrange(from as int, i + 1)));
        }
        i = i + 1;
    }
    assert(views(segs@).skip(from as int) =~= views(segs@).subrange(from as int, segs.len() as int));
    r
}

/// `parts.join(sep)`.
pub fn join_vec(parts: &Vec<Vec<char>>, sep: &Vec<char>) -> (r: Vec<char>)
    ensures
        r@ == join_with(views(parts@), sep@),
{
    let mut r: Vec<char> = Vec::new();
    let mut i: usize = 0;
    while i < parts.len()
        invariant
            i <= parts.len(),
            r@ == join_with(views(parts@).take(i as int), sep@),
        decreases parts.len() - i,
    {
        proof {
            assert(views(parts@).take(i + 1).drop_last() =~= views(parts@).take(i as int));
        }
        if i > 0 {
            append_vec(&mut r, sep);
        }
        append_vec(&mut r, &parts[i]);
        proof {
            if i == 0 {
                assert(r@ =~= join_with(views(parts@).take(1), sep@));
            }
        }
        i = i + 1;
    }
    assert(views(parts@).take(parts.len() as int) =~= views(parts@));
    r
}

/// `first` followed by the parts of `rest`.
fn prepend_part(first: Vec<char>, rest: &Vec<Vec<char>>) -> (r: Vec<Vec<char>>)
    ensures
        views(r@) == seq![first@] + views(rest@),
{
    let mut r: Vec<Vec<char>> = Vec::new();
    let ghost f = first@;
    r.push(first);
    let mut j: usize = 0;
    while j < rest.len()
        invariant
            j <= rest.len(),
            views(r@) == seq![f] + views(rest@).take(j as int),
        decreases rest.len() - j,
    {
        let ghost before = views(r@);
        r.push(rest[j].clone());
        assert(views(r@) =~= before.push(rest@[j as int]@));
        assert(views(rest@).take(j + 1) =~= views(rest@).take(j as int).push(rest@[j as int]@));
        j = j + 1;
    }
    assert(views(rest@).take(rest.len() as int) =~= views(rest@));
    r
}

/// Exec form of [`path_components`].
pub fn path_components_vec(s: &Vec<char>) -> (r: Vec<Vec<char>>)
    ensures
        views(r@) == path_components(s@),
{
    let segs = split_char_vec(s, '/');
    proof {
        lemma_split_char_nonempty(s@, '/');
    }
    let dot = vec!['.'];
    assert(dot@ =~= seq!['.']);
    let parts: Vec<Vec<char>>;
    if s.len() > 0 && s[0] == '/' {
        let k = kept_segments_vec(&segs, 0);
        let root = vec!['/'];
        assert(root@ =~= seq!['/']);
        parts = prepend_part(root, &k);
        assert(views(segs@).skip(0) =~= views(segs@));
    } else if eq_vec(&segs[0], &dot) {
        let k = kept_segments_vec(&segs, 1);
        let cur = vec!['.'];
        assert(cur@ =~= seq!['.']);
        parts = prepend_part(cur, &k);
        assert(views(segs@).skip(1) =~= views(segs@).drop_first());
    } else {
        parts = kept_segments_vec(&segs, 0);
        assert(views(segs@).skip(0) =~= views(segs@));
    }
    assert(views(parts@) =~= path_components(s@));
    parts
}

/// Exec form of [`normalize_path`].
pub fn normalize_path_vec(s: &Vec<char>) -> (r: Vec<char>)
    ensures
        r@ == normalize_path(s@),
{
    let parts = path_components_vec(s);
    let slash = vec!['/'];
    assert(slash@ =~= seq!['/']);
    join_vec(&parts, &slash)
}

} // verus!
