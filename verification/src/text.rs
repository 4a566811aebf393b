//! Character-sequence model of text and the string operations the daemon uses.
//!
//! Text is modelled as `Seq<char>` (the view of `str` and `String`). Every
//! executable helper here works on `Vec<char>` and states its result over that
//! model, so callers can state their own contracts in terms of these spec
//! functions.
use vstd::prelude::*;

verus! {

// ---------------------------------------------------------------------------
// Spec model
// ---------------------------------------------------------------------------

/// Unicode `White_Space` (what `char::is_whitespace` and `str::trim` use).
pub open spec fn is_ws(c: char) -> bool {
    let u = c as u32;
    ||| u == 0x20
    ||| (0x09 <= u && u <= 0x0D)
    ||| u == 0x85
    ||| u == 0xA0
    ||| u == 0x1680
    ||| (0x2000 <= u && u <= 0x200A)
    ||| u == 0x2028
    ||| u == 0x2029
    ||| u == 0x202F
    ||| u == 0x205F
    ||| u == 0x3000
}

/// A lower-case hexadecimal digit.
pub open spec fn is_hex_lower(c: char) -> bool {
    let u = c as u32;
    (0x30 <= u && u <= 0x39) || (0x61 <= u && u <= 0x66)
}

pub open spec fn is_upper_ascii(c: char) -> bool {
    0x41 <= (c as u32) && (c as u32) <= 0x5A
}

/// ASCII lower-casing of one character (`char::to_ascii_lowercase`).
pub open spec fn lower_char(c: char) -> char {
    if is_upper_ascii(c) {
        ((c as u32) + 32) as char
    } else {
        c
    }
}

/// ASCII lower-casing of a text (`str::to_ascii_lowercase`).
pub open spec fn lower(s: Seq<char>) -> Seq<char> {
    s.map_values(|c: char| lower_char(c))
}

pub open spec fn is_ascii_alnum(c: char) -> bool {
    let u = c as u32;
    ||| (0x30 <= u && u <= 0x39)
    ||| (0x41 <= u && u <= 0x5A)
    ||| (0x61 <= u && u <= 0x7A)
}

/// `s` with leading white space removed (`str::trim_start`).
pub open spec fn trim_start(s: Seq<char>) -> Seq<char>
    decreases s.len(),
{
    if s.len() > 0 && is_ws(s[0]) {
        trim_start(s.drop_first())
    } else {
        s
    }
}

/// `s` with trailing white space removed (`str::trim_end`).
pub open spec fn trim_end(s: Seq<char>) -> Seq<char>
    decreases s.len(),
{
    if s.len() > 0 && is_ws(s.last()) {
        trim_end(s.drop_last())
    } else {
        s
    }
}

/// `s` with white space removed at both ends (`str::trim`).
pub open spec fn trim(s: Seq<char>) -> Seq<char> {
    trim_end(trim_start(s))
}

/// `n` occurs in `h` starting at position `i`.
pub open spec fn occurs_at(h: Seq<char>, n: Seq<char>, i: int) -> bool {
    &&& 0 <= i
    &&& i + n.len() <= h.len()
    &&& h.subrange(i, i + n.len()) == n
}

/// `h` contains `n` (`str::contains`).
pub open spec fn contains(h: Seq<char>, n: Seq<char>) -> bool {
    exists|i: int| occurs_at(h, n, i)
}

/// `str::starts_with`.
pub open spec fn starts_with(h: Seq<char>, p: Seq<char>) -> bool {
    p.len() <= h.len() && h.take(p.len() as int) == p
}

/// `str::ends_with`.
pub open spec fn ends_with(h: Seq<char>, p: Seq<char>) -> bool {
    p.len() <= h.len() && h.skip(h.len() - p.len()) == p
}

/// Position of the first occurrence of `n` in `h` (`str::find`, in characters).
pub open spec fn first_occurrence(h: Seq<char>, n: Seq<char>) -> Option<int> {
    if contains(h, n) {
        Some(choose|i: int| occurs_at(h, n, i) && forall|j: int| 0 <= j < i ==> !occurs_at(h, n, j))
    } else {
        None
    }
}

/// Whether `c` occurs in `s`.
pub open spec fn has_char(s: Seq<char>, c: char) -> bool {
    exists|i: int| 0 <= i < s.len() && s[i] == c
}

/// Replace every occurrence of `from` by `to` (`str::replace` with single characters).
pub open spec fn replace_char(s: Seq<char>, from: char, to: char) -> Seq<char> {
    s.map_values(|c: char| if c == from { to } else { c })
}

/// Number of bytes of the UTF-8 encoding of `c`.
pub open spec fn utf8_width(c: char) -> nat {
    let u = c as u32;
    if u < 0x80 {
        1
    } else if u < 0x800 {
        2
    } else if u < 0x10000 {
        3
    } else {
        4
    }
}

/// Number of bytes of the UTF-8 encoding of `s` (`str::len`).
pub open spec fn byte_len(s: Seq<char>) -> nat
    decreases s.len(),
{
    if s.len() == 0 {
        0
    } else {
        byte_len(s.drop_last()) + utf8_width(s.last())
    }
}

/// Decimal digits of `n` (what `format!("{n}")` prints for an unsigned integer).
pub open spec fn decimal(n: nat) -> Seq<char>
    decreases n,
{
    if n < 10 {
        seq![digit_char(n)]
    } else {
        decimal(n / 10).push(digit_char(n % 10))
    }
}

pub open spec fn digit_char(d: nat) -> char {
    (0x30 + d) as char
}

// ---------------------------------------------------------------------------
// Lemmas
// ---------------------------------------------------------------------------

pub proof fn lemma_byte_len_push(s: Seq<char>, c: char)
    ensures
        byte_len(s.push(c)) == byte_len(s) + utf8_width(c),
{
    assert(s.push(c).drop_last() =~= s);
}

pub proof fn lemma_byte_len_ge_len(s: Seq<char>)
    ensures
        byte_len(s) >= s.len(),
    decreases s.len(),
{
    if s.len() > 0 {
        lemma_byte_len_ge_len(s.drop_last());
    }
}

pub proof fn lemma_byte_len_append(a: Seq<char>, b: Seq<char>)
    ensures
        byte_len(a + b) == byte_len(a) + byte_len(b),
    decreases b.len(),
{
    if b.len() == 0 {
        assert(a + b =~= a);
    } else {
        assert((a + b).drop_last() =~= a + b.drop_last());
        lemma_byte_len_append(a, b.drop_last());
    }
}

pub proof fn lemma_byte_len_prefix(s: Seq<char>, i: int)
    requires
        0 <= i <= s.len(),
    ensures
        byte_len(s.take(i)) <= byte_len(s),
{
    lemma_byte_len_append(s.take(i), s.skip(i));
    assert(s.take(i) + s.skip(i) =~= s);
}

pub proof fn lemma_trim_start_suffix(s: Seq<char>)
    ensures
        trim_start(s).len() <= s.len(),
        trim_start(s) =~= s.skip(s.len() - trim_start(s).len()),
        trim_start(s).len() > 0 ==> !is_ws(trim_start(s)[0]),
        forall|i: int| 0 <= i < s.len() - trim_start(s).len() ==> is_ws(#[trigger] s[i]),
    decreases s.len(),
{
    if s.len() > 0 && is_ws(s[0]) {
        lemma_trim_start_suffix(s.drop_first());
        let t = trim_start(s.drop_first());
        assert forall|i: int| 0 <= i < s.len() - t.len() implies is_ws(#[trigger] s[i]) by {
            if i > 0 {
                assert(s[i] == s.drop_first()[i - 1]);
            }
        }
    }
}

pub proof fn lemma_trim_end_prefix(s: Seq<char>)
    ensures
        trim_end(s).len() <= s.len(),
        trim_end(s) =~= s.take(trim_end(s).len() as int),
        trim_end(s).len() > 0 ==> !is_ws(trim_end(s).last()),
        forall|i: int| trim_end(s).len() <= i < s.len() ==> is_ws(#[trigger] s[i]),
    decreases s.len(),
{
    if s.len() > 0 && is_ws(s.last()) {
        lemma_trim_end_prefix(s.drop_last());
        let t = trim_end(s.drop_last());
        assert forall|i: int| t.len() <= i < s.len() implies is_ws(#[trigger] s[i]) by {
            if i < s.len() - 1 {
                assert(s[i] == s.drop_last()[i]);
            }
        }
    }
}

/// A text whose first and last characters are not white space is its own
/// trim, and a non-empty trim starts and ends with characters that are not.
pub proof fn lemma_trim_ends(s: Seq<char>)
    ensures
        s.len() > 0 && !is_ws(s[0]) && !is_ws(s.last()) ==> trim(s) == s,
        trim(s).len() > 0 ==> !is_ws(trim(s)[0]) && !is_ws(trim(s).last()),
{
    lemma_trim_start_suffix(s);
    let u = trim_start(s);
    lemma_trim_end_prefix(u);
    let t = trim_end(u);
    if t.len() > 0 {
        assert(t[0] == u[0]);
    }
    if s.len() > 0 && !is_ws(s[0]) && !is_ws(s.last()) {
        assert(trim_start(s) == s);
        assert(trim_end(s) == s);
    }
}

/// Trimming twice trims nothing more.
pub proof fn lemma_trim_idempotent(s: Seq<char>)
    ensures
        trim(trim(s)) == trim(s),
{
    let u = trim_start(s);
    lemma_trim_start_suffix(s);
    lemma_trim_end_prefix(u);
    let t = trim_end(u);
    if t.len() > 0 {
        assert(t[0] == u[0]);
        assert(trim_start(t) == t);
        lemma_trim_end_prefix(t);
        assert(trim_end(t) == t);
    } else {
        assert(trim_start(t) == t);
        assert(trim_end(t) == t);
    }
}

// ---------------------------------------------------------------------------
// Executable helpers
// ---------------------------------------------------------------------------

/// Appends one character to a string (`String::push`).
#[verifier::external_body]
pub(crate) fn push_char(s: &mut String, c: char)
    ensures
        final(s)@ == old(s)@.push(c),
{
    s.push(c);
}

/// The characters of `s`, in order.
pub fn chars_of(s: &str) -> (v: Vec<char>)
    ensures
        v@ == s@,
{
    let mut v: Vec<char> = Vec::new();
    for c in it: s.chars()
        invariant
            v@ == it.seq().take(it.index()),
    {
        v.push(c);
    }
    v
}

/// A `String` holding the characters of `v`.
pub fn string_of(v: &Vec<char>) -> (s: String)
    ensures
        s@ == v@,
{
    let mut s = String::new();
    let mut i: usize = 0;
    while i < v.len()
        invariant
            i <= v.len(),
            s@ == v@.take(i as int),
        decreases v.len() - i,
    {
        push_char(&mut s, v[i]);
        assert(v@.take(i as int).push(v@[i as int]) =~= v@.take(i + 1));
        i = i + 1;
    }
    assert(v@.take(v.len() as int) =~= v@);
    s
}

/// A `String` holding the characters of `v[from..to]`.
pub fn string_of_range(v: &Vec<char>, from: usize, to: usize) -> (s: String)
    requires
        from <= to <= v.len(),
    ensures
        s@ == v@.subrange(from as int, to as int),
{
    let mut s = String::new();
    let mut i: usize = from;
    while i < to
        invariant
            from <= i <= to <= v.len(),
            s@ == v@.subrange(from as int, i as int),
        decreases to - i,
    {
        push_char(&mut s, v[i]);
        assert(v@.subrange(from as int, i as int).push(v@[i as int]) =~= v@.subrange(
            from as int,
            i + 1,
        ));
        i = i + 1;
    }
    s
}

/// Exec form of [`is_ws`].
pub fn char_is_ws(c: char) -> (b: bool)
    ensures
        b == is_ws(c),
{
    let u = c as u32;
    u == 0x20 || (0x09 <= u && u <= 0x0D) || u == 0x85 || u == 0xA0 || u == 0x1680 || (0x2000
        <= u && u <= 0x200A) || u == 0x2028 || u == 0x2029 || u == 0x202F || u == 0x205F || u
        == 0x3000
}

/// Exec form of [`lower_char`].
pub fn char_lower(c: char) -> (r: char)
    ensures
        r == lower_char(c),
{
    let u = c as u32;
    if 0x41 <= u && u <= 0x5A {
        let b = (u + 32) as u8;
        let r = b as char;
        assert(r as u32 == u + 32);
        r
    } else {
        c
    }
}

/// Exec form of [`is_ascii_alnum`].
pub fn char_is_ascii_alnum(c: char) -> (b: bool)
    ensures
        b == is_ascii_alnum(c),
{
    let u = c as u32;
    (0x30 <= u && u <= 0x39) || (0x41 <= u && u <= 0x5A) || (0x61 <= u && u <= 0x7A)
}

/// Exec form of [`lower`].
pub fn lower_vec(v: &Vec<char>) -> (r: Vec<char>)
    ensures
        r@ == lower(v@),
{
    let mut r: Vec<char> = Vec::new();
    let mut i: usize = 0;
    while i < v.len()
        invariant
            i <= v.len(),
            r@ == lower(v@.take(i as int)),
        decreases v.len() - i,
    {
        let c = char_lower(v[i]);
        r.push(c);
        assert(lower(v@.take(i + 1)) =~= lower(v@.take(i as int)).push(lower_char(v@[i as int])));
        i = i + 1;
    }
    assert(v@.take(v.len() as int) =~= v@);
    r
}

/// Index of the first non-white-space character (or `v.len()`).
pub fn trim_start_index(v: &Vec<char>) -> (i: usize)
    ensures
        i <= v.len(),
        trim_start(v@) =~= v@.skip(i as int),
{
    proof {
        lemma_trim_start_suffix(v@);
    }
    let mut i: usize = 0;
    while i < v.len() && char_is_ws(v[i])
        invariant
            i <= v.len(),
            forall|j: int| 0 <= j < i ==> is_ws(#[trigger] v@[j]),
        decreases v.len() - i,
    {
        i = i + 1;
    }
    proof {
        let t = trim_start(v@);
        let k = v@.len() - t.len();
        if k < i {
            assert(t[0] == v@[k]);
        } else if k > i {
            assert(is_ws(v@[i as int]));
        }
    }
    i
}

/// Index one past the last non-white-space character of `v[from..]` (at least `from`).
pub fn trim_end_index(v: &Vec<char>, from: usize) -> (e: usize)
    requires
        from <= v.len(),
    ensures
        from <= e <= v.len(),
        trim_end(v@.skip(from as int)) =~= v@.subrange(from as int, e as int),
{
    let ghost s = v@.skip(from as int);
    proof {
        lemma_trim_end_prefix(s);
    }
    let mut e: usize = v.len();
    while e > from && char_is_ws(v[e - 1])
        invariant
            from <= e <= v.len(),
            forall|j: int| e <= j < v.len() ==> is_ws(#[trigger] v@[j]),
        decreases e,
    {
        e = e - 1;
    }
    proof {
        let t = trim_end(s);
        let k = from + t.len();
        if k > e {
            assert(t.last() == s[t.len() - 1]);
            assert(s[t.len() - 1] == v@[k - 1]);
        } else if k < e {
            assert(s[e - 1 - from] == v@[e - 1]);
        }
    }
    e
}

/// Exec form of [`trim`], as the bounds of the trimmed range.
pub fn trim_bounds(v: &Vec<char>) -> (r: (usize, usize))
    ensures
        r.0 <= r.1 <= v.len(),
        trim(v@) =~= v@.subrange(r.0 as int, r.1 as int),
{
    let s = trim_start_index(v);
    let e = trim_end_index(v, s);
    (s, e)
}

/// Exec form of [`trim`].
pub fn trim_vec(v: &Vec<char>) -> (r: Vec<char>)
    ensures
        r@ == trim(v@),
{
    let (s, e) = trim_bounds(v);
    slice_vec(v, s, e)
}

/// Exec form of [`trim_end`].
pub fn trim_end_vec(v: &Vec<char>) -> (r: Vec<char>)
    ensures
        r@ == trim_end(v@),
{
    let e = trim_end_index(v, 0);
    assert(v@.skip(0) =~= v@);
    slice_vec(v, 0, e)
}

/// Exec form of [`trim_start`].
pub fn trim_start_vec(v: &Vec<char>) -> (r: Vec<char>)
    ensures
        r@ == trim_start(v@),
{
    let s = trim_start_index(v);
    slice_vec(v, s, v.len())
}

/// A copy of `v[from..to]`.
pub fn slice_vec(v: &Vec<char>, from: usize, to: usize) -> (r: Vec<char>)
    requires
        from <= to <= v.len(),
    ensures
        r@ == v@.subrange(from as int, to as int),
{
    let mut r: Vec<char> = Vec::new();
    let mut i: usize = from;
    while i < to
        invariant
            from <= i <= to <= v.len(),
            r@ == v@.subrange(from as int, i as int),
        decreases to - i,
    {
        r.push(v[i]);
        assert(v@.subrange(from as int, i as int).push(v@[i as int]) =~= v@.subrange(
            from as int,
            i + 1,
        ));
        i = i + 1;
    }
    r
}

/// `a` followed by `b`.
pub fn concat_vec(a: &Vec<char>, b: &Vec<char>) -> (r: Vec<char>)
    ensures
        r@ == a@ + b@,
{
    let mut r = a.clone();
    assert(r@ == a@);
    let mut i: usize = 0;
    while i < b.len()
        invariant
            i <= b.len(),
            r@ == a@ + b@.take(i as int),
        decreases b.len() - i,
    {
        r.push(b[i]);
        assert(a@ + b@.take(i + 1) =~= (a@ + b@.take(i as int)).push(b@[i as int]));
        i = i + 1;
    }
    assert(b@.take(b.len() as int) =~= b@);
    r
}

/// Appends `b` to `a` in place.
pub fn append_vec(a: &mut Vec<char>, b: &Vec<char>)
    ensures
        final(a)@ == old(a)@ + b@,
{
    let ghost a0 = a@;
    let mut i: usize = 0;
    while i < b.len()
        invariant
            i <= b.len(),
            a@ == a0 + b@.take(i as int),
        decreases b.len() - i,
    {
        a.push(b[i]);
        assert(a0 + b@.take(i + 1) =~= (a0 + b@.take(i as int)).push(b@[i as int]));
        i = i + 1;
    }
    assert(b@.take(b.len() as int) =~= b@);
}

/// Character-wise equality of two texts.
pub fn eq_vec(a: &Vec<char>, b: &Vec<char>) -> (r: bool)
    ensures
        r == (a@ == b@),
{
    if a.len() != b.len() {
        return false;
    }
    let mut i: usize = 0;
    while i < a.len()
        invariant
            a.len() == b.len(),
            i <= a.len(),
            forall|j: int| 0 <= j < i ==> a@[j] == b@[j],
        decreases a.len() - i,
    {
        if a[i] != b[i] {
            return false;
        }
        i = i + 1;
    }
    assert(a@ =~= b@);
    true
}

/// Whether `n` occurs in `h` at position `i`.
pub fn matches_at(h: &Vec<char>, n: &Vec<char>, i: usize) -> (r: bool)
    ensures
        r == occurs_at(h@, n@, i as int),
{
    if i > h.len() || n.len() > h.len() - i {
        return false;
    }
    let mut k: usize = 0;
    while k < n.len()
        invariant
            i + n.len() <= h.len(),
            k <= n.len(),
            forall|j: int| 0 <= j < k ==> h@[i + j] == n@[j],
        decreases n.len() - k,
    {
        if h[i + k] != n[k] {
            assert(h@.subrange(i as int, i + n.len())[k as int] != n@[k as int]);
            return false;
        }
        k = k + 1;
    }
    assert(h@.subrange(i as int, i + n.len()) =~= n@);
    true
}

/// Exec form of [`starts_with`].
pub fn starts_with_vec(h: &Vec<char>, p: &Vec<char>) -> (r: bool)
    ensures
        r == starts_with(h@, p@),
{
    let r = matches_at(h, p, 0);
    assert(h@.take(p.len() as int) =~= h@.subrange(0, p.len() as int));
    r
}

/// Exec form of [`ends_with`].
pub fn ends_with_vec(h: &Vec<char>, p: &Vec<char>) -> (r: bool)
    ensures
        r == ends_with(h@, p@),
{
    if p.len() > h.len() {
        return false;
    }
    let r = matches_at(h, p, h.len() - p.len());
    assert(h@.skip(h.len() - p.len()) =~= h@.subrange(h.len() - p.len(), h.len() as int));
    r
}

/// First position at which `n` occurs in `h`, if any.
pub fn find_vec(h: &Vec<char>, n: &Vec<char>) -> (r: Option<usize>)
    ensures
        r is Some ==> occurs_at(h@, n@, r->0 as int) && forall|j: int|
            0 <= j < r->0 ==> !occurs_at(h@, n@, j),
        r is None ==> !contains(h@, n@),
        r is Some <==> contains(h@, n@),
{
    if n.len() > h.len() {
        return None;
    }
    let last = h.len() - n.len();
    let mut i: usize = 0;
    loop
        invariant
            last == h.len() - n.len(),
            i <= last,
            forall|j: int| 0 <= j < i ==> !occurs_at(h@, n@, j),
        decreases last - i,
    {
        if matches_at(h, n, i) {
            return Some(i);
        }
        if i == last {
            return None;
        }
        i = i + 1;
    }
}

/// Last position at which `n` occurs in `h`, if any (`str::rfind`).
pub fn rfind_vec(h: &Vec<char>, n: &Vec<char>) -> (r: Option<usize>)
    ensures
        r is Some ==> occurs_at(h@, n@, r->0 as int) && forall|j: int|
            r->0 < j ==> !occurs_at(h@, n@, j),
        r is None ==> !contains(h@, n@),
{
    if n.len() > h.len() {
        return None;
    }
    let mut i: usize = h.len() - n.len();
    loop
        invariant
            n.len() <= h.len(),
            i <= h.len() - n.len(),
            forall|j: int| i < j ==> !occurs_at(h@, n@, j),
        decreases i,
    {
        if matches_at(h, n, i) {
            return Some(i);
        }
        if i == 0 {
            return None;
        }
        i = i - 1;
    }
}

/// Exec form of [`contains`].
pub fn contains_vec(h: &Vec<char>, n: &Vec<char>) -> (r: bool)
    ensures
        r == contains(h@, n@),
{
    find_vec(h, n).is_some()
}

/// Exec form of [`has_char`].
pub fn has_char_vec(v: &Vec<char>, c: char) -> (r: bool)
    ensures
        r == has_char(v@, c),
{
    let mut i: usize = 0;
    while i < v.len()
        invariant
            i <= v.len(),
            forall|j: int| 0 <= j < i ==> v@[j] != c,
        decreases v.len() - i,
    {
        if v[i] == c {
            return true;
        }
        i = i + 1;
    }
    false
}

/// Exec form of [`replace_char`].
pub fn replace_char_vec(v: &Vec<char>, from: char, to: char) -> (r: Vec<char>)
    ensures
        r@ == replace_char(v@, from, to),
{
    let mut r: Vec<char> = Vec::new();
    let mut i: usize = 0;
    while i < v.len()
        invariant
            i <= v.len(),
            r@ =~= replace_char(v@.take(i as int), from, to),
        decreases v.len() - i,
    {
        let c = v[i];
        if c == from {
            r.push(to);
        } else {
            r.push(c);
        }
        i = i + 1;
    }
    assert(v@.take(v.len() as int) =~= v@);
    r
}

/// Exec form of [`utf8_width`].
pub fn char_utf8_width(c: char) -> (w: usize)
    ensures
        w == utf8_width(c),
        1 <= w <= 4,
{
    let u = c as u32;
    if u < 0x80 {
        1
    } else if u < 0x800 {
        2
    } else if u < 0x10000 {
        3
    } else {
        4
    }
}

/// Exec form of [`byte_len`], saturating at `usize::MAX`.
pub fn byte_len_vec(v: &Vec<char>) -> (n: usize)
    ensures
        byte_len(v@) <= usize::MAX ==> n == byte_len(v@),
        byte_len(v@) > usize::MAX ==> n == usize::MAX,
{
    let mut n: usize = 0;
    let mut i: usize = 0;
    let mut saturated = false;
    while i < v.len()
        invariant
            i <= v.len(),
            !saturated ==> n == byte_len(v@.take(i as int)),
            saturated ==> n == usize::MAX && byte_len(v@.take(i as int)) > usize::MAX,
        decreases v.len() - i,
    {
        proof {
            lemma_byte_len_push(v@.take(i as int), v@[i as int]);
            assert(v@.take(i as int).push(v@[i as int]) =~= v@.take(i + 1));
        }
        let w = char_utf8_width(v[i]);
        if !saturated {
            if n > usize::MAX - w {
                saturated = true;
                n = usize::MAX;
            } else {
                n = n + w;
            }
        }
        i = i + 1;
    }
    assert(v@.take(v.len() as int) =~= v@);
    n
}

/// Whether the UTF-8 encoding of `v` fits in `limit` bytes.
pub fn byte_len_at_most(v: &Vec<char>, limit: usize) -> (r: bool)
    ensures
        r == (byte_len(v@) <= limit),
{
    let mut n: usize = 0;
    let mut i: usize = 0;
    while i < v.len()
        invariant
            i <= v.len(),
            n == byte_len(v@.take(i as int)),
            n <= limit,
        decreases v.len() - i,
    {
        proof {
            lemma_byte_len_push(v@.take(i as int), v@[i as int]);
            assert(v@.take(i as int).push(v@[i as int]) =~= v@.take(i + 1));
        }
        let w = char_utf8_width(v[i]);
        if w > limit - n {
            proof {
                lemma_byte_len_prefix(v@, i + 1);
            }
            return false;
        }
        n = n + w;
        i = i + 1;
    }
    assert(v@.take(v.len() as int) =~= v@);
    true
}

/// Exec form of [`decimal`].
pub fn decimal_vec(n: u64) -> (r: Vec<char>)
    ensures
        r@ == decimal(n as nat),
    decreases n,
{
    if n < 10 {
        let c = ((n as u8) + 48) as char;
        assert(c as u32 == 0x30 + n);
        let mut r: Vec<char> = Vec::new();
        r.push(c);
        assert(r@ =~= seq![digit_char(n as nat)]);
        r
    } else {
        let mut r = decimal_vec(n / 10);
        let d = n % 10;
        let c = ((d as u8) + 48) as char;
        assert(c as u32 == 0x30 + d);
        r.push(c);
        r
    }
}

/// `prefix` followed by the decimal digits of `n`, as a `String`.
pub fn prefixed_decimal(prefix: &str, n: u64) -> (s: String)
    ensures
        s@ == prefix@ + decimal(n as nat),
{
    let p = chars_of(prefix);
    let d = decimal_vec(n);
    string_of(&concat_vec(&p, &d))
}

} // verus!

verus! {

/// Number of leading characters of `s` whose UTF-8 encoding fits in `budget` bytes.
pub open spec fn chars_within_bytes(s: Seq<char>, budget: nat) -> nat
    decreases s.len(),
{
    if s.len() == 0 || utf8_width(s[0]) > budget {
        0
    } else {
        1 + chars_within_bytes(s.drop_first(), (budget - utf8_width(s[0])) as nat)
    }
}

pub proof fn lemma_chars_within_bytes_bounds(s: Seq<char>, budget: nat)
    ensures
        chars_within_bytes(s, budget) <= s.len(),
        byte_len(s.take(chars_within_bytes(s, budget) as int)) <= budget,
        chars_within_bytes(s, budget) < s.len() ==> byte_len(
            s.take(chars_within_bytes(s, budget) as int + 1),
        ) > budget,
        byte_len(s) <= budget ==> chars_within_bytes(s, budget) == s.len(),
    decreases s.len(),
{
    reveal_with_fuel(byte_len, 2);
    if s.len() == 0 {
        assert(s.take(0) =~= Seq::<char>::empty());
    } else {
        let w = utf8_width(s[0]);
        lemma_byte_len_prepend(s);
        if w > budget {
            assert(s.take(0) =~= Seq::<char>::empty());
            assert(s.take(1) =~= seq![s[0]]);
            lemma_byte_len_prepend(s.take(1));
            assert(s.take(1).drop_first() =~= Seq::<char>::empty());
        } else {
            let rest = s.drop_first();
            let b2 = (budget - w) as nat;
            lemma_chars_within_bytes_bounds(rest, b2);
            let k = chars_within_bytes(rest, b2) as int;
            assert(s.take(k + 1).drop_first() =~= rest.take(k as int));
            lemma_byte_len_prepend(s.take(k + 1));
            if k < rest.len() {
                assert(s.take(k + 2).drop_first() =~= rest.take(k + 1));
                lemma_byte_len_prepend(s.take(k + 2));
            }
        }
    }
}

/// `byte_len` counted from the front.
pub proof fn lemma_byte_len_prepend(s: Seq<char>)
    requires
        s.len() > 0,
    ensures
        byte_len(s) == utf8_width(s[0]) + byte_len(s.drop_first()),
{
    lemma_byte_len_append(seq![s[0]], s.drop_first());
    assert(seq![s[0]] + s.drop_first() =~= s);
    reveal_with_fuel(byte_len, 2);
    assert(seq![s[0]].drop_last() =~= Seq::<char>::empty());
}

/// Exec form of [`chars_within_bytes`].
pub fn chars_within_bytes_vec(v: &Vec<char>, budget: usize) -> (k: usize)
    ensures
        k == chars_within_bytes(v@, budget as nat),
{
    let mut k: usize = 0;
    let mut rem: usize = budget;
    assert(v@.skip(0) =~= v@);
    while k < v.len() && char_utf8_width(v[k]) <= rem
        invariant
            k <= v.len(),
            k + chars_within_bytes(v@.skip(k as int), rem as nat) == chars_within_bytes(
                v@,
                budget as nat,
            ),
        decreases v.len() - k,
    {
        let w = char_utf8_width(v[k]);
        assert(v@.skip(k as int)[0] == v@[k as int]);
        assert(v@.skip(k as int).drop_first() =~= v@.skip(k + 1));
        rem = rem - w;
        k = k + 1;
    }
    proof {
        if k < v.len() {
            assert(v@.skip(k as int)[0] == v@[k as int]);
        }
    }
    k
}

/// `words(s)`: the maximal runs of non-white-space characters (`str::split_whitespace`).
pub open spec fn words(s: Seq<char>) -> Seq<Seq<char>>
    decreases s.len(),
{
    if s.len() == 0 {
        Seq::<Seq<char>>::empty()
    } else {
        let w = words(s.drop_last());
        let c = s.last();
        if is_ws(c) {
            w
        } else if s.len() >= 2 && !is_ws(s[s.len() - 2]) {
            w.update(w.len() - 1, w.last().push(c))
        } else {
            w.push(seq![c])
        }
    }
}

pub proof fn lemma_words_nonempty_when_continuing(s: Seq<char>)
    requires
        s.len() > 0,
        !is_ws(s.last()),
    ensures
        words(s).len() > 0,
    decreases s.len(),
{
    if s.len() >= 2 && !is_ws(s[s.len() - 2]) {
        assert(s.drop_last().last() == s[s.len() - 2]);
        lemma_words_nonempty_when_continuing(s.drop_last());
    }
}

/// The words of `s` joined by single spaces (`split_whitespace().join(" ")`).
pub open spec fn collapse_ws(s: Seq<char>) -> Seq<char> {
    crate::path::join_with(words(s), seq![' '])
}

proof fn lemma_join_update_last(w: Seq<Seq<char>>, c: char)
    requires
        w.len() > 0,
    ensures
        crate::path::join_with(w.update(w.len() - 1, w.last().push(c)), seq![' '])
            == crate::path::join_with(w, seq![' ']).push(c),
{
    let u = w.update(w.len() - 1, w.last().push(c));
    if w.len() == 1 {
    } else {
        assert(u.drop_last() =~= w.drop_last());
    }
}

proof fn lemma_join_push(w: Seq<Seq<char>>, p: Seq<char>)
    ensures
        crate::path::join_with(w.push(p), seq![' ']) == if w.len() == 0 {
            p
        } else {
            crate::path::join_with(w, seq![' ']) + seq![' '] + p
        },
{
    assert(w.push(p).drop_last() =~= w);
}

/// Exec form of [`collapse_ws`].
pub fn collapse_ws_vec(v: &Vec<char>) -> (r: Vec<char>)
    ensures
        r@ == collapse_ws(v@),
{
    let mut out: Vec<char> = Vec::new();
    let mut pending = false;
    let mut i: usize = 0;
    while i < v.len()
        invariant
            i <= v.len(),
            out@ == crate::path::join_with(words(v@.take(i as int)), seq![' ']),
            pending ==> i > 0 && is_ws(v@[i - 1]) && words(v@.take(i as int)).len() > 0,
            !pending && i > 0 && is_ws(v@[i - 1]) ==> words(v@.take(i as int)).len() == 0,
            out@.len() == 0 <==> words(v@.take(i as int)).len() == 0,
        decreases v.len() - i,
    {
        let c = v[i];
        let ghost s1 = v@.take(i + 1);
        assert(s1.drop_last() =~= v@.take(i as int));
        assert(s1.last() == c);
        let ghost w = words(v@.take(i as int));
        if char_is_ws(c) {
            if out.len() > 0 {
                pending = true;
            }
        } else {
            if i > 0 && !char_is_ws(v[i - 1]) {
                assert(s1[s1.len() - 2] == v@[i - 1]);
                proof {
                    lemma_words_nonempty_when_continuing(v@.take(i as int));
                    assert(v@.take(i as int).last() == v@[i - 1]);
                    lemma_join_update_last(w, c);
                }
                out.push(c);
            } else {
                proof {
                    if i > 0 {
                        assert(s1[s1.len() - 2] == v@[i - 1]);
                    }
                    lemma_join_push(w, seq![c]);
                }
                if out.len() > 0 {
                    out.push(' ');
                }
                out.push(c);
                pending = false;
            }
        }
        proof {
            lemma_join_nonempty(words(s1));
        }
        i = i + 1;
    }
    assert(v@.take(v.len() as int) =~= v@);
    out
}

/// Exec form of [`words`] (`str::split_whitespace`).
pub fn words_vec(v: &Vec<char>) -> (r: Vec<Vec<char>>)
    ensures
        crate::path::views(r@) == words(v@),
{
    let mut out: Vec<Vec<char>> = Vec::new();
    let mut i: usize = 0;
    while i < v.len()
        invariant
            i <= v.len(),
            crate::path::views(out@) == words(v@.take(i as int)),
        decreases v.len() - i,
    {
        let c = v[i];
        let ghost s1 = v@.take(i + 1);
        assert(s1.drop_last() =~= v@.take(i as int));
        assert(s1.last() == c);
        if !char_is_ws(c) {
            if i > 0 && !char_is_ws(v[i - 1]) {
                assert(s1[s1.len() - 2] == v@[i - 1]);
                proof {
                    assert(v@.take(i as int).last() == v@[i - 1]);
                    lemma_words_nonempty_when_continuing(v@.take(i as int));
                }
                let last = out.len() - 1;
                let mut w = clone_chars(&out[last]);
                w.push(c);
                out.set(last, w);
                assert(crate::path::views(out@) =~= words(s1));
            } else {
                if i > 0 {
                    assert(s1[s1.len() - 2] == v@[i - 1]);
                }
                let mut w: Vec<char> = Vec::new();
                w.push(c);
                out.push(w);
                assert(crate::path::views(out@) =~= words(s1));
            }
        } else {
            assert(crate::path::views(out@) =~= words(s1));
        }
        i = i + 1;
    }
    assert(v@.take(v.len() as int) =~= v@);
    out
}

/// The white space of `s` is single spaces, each after a character that is
/// not white space (so `s` may end with one space, but not start with one).
pub open spec fn spaced(s: Seq<char>) -> bool {
    forall|i: int|
        0 <= i < s.len() && is_ws(#[trigger] s[i]) ==> s[i] == ' ' && i > 0 && !is_ws(s[i - 1])
}

/// Collapsing spaced text only drops a trailing space.
pub proof fn lemma_collapse_spaced(s: Seq<char>)
    requires
        spaced(s),
    ensures
        collapse_ws(s) == if s.len() > 0 && is_ws(s.last()) {
            s.drop_last()
        } else {
            s
        },
    decreases s.len(),
{
    if s.len() > 0 {
        let p = s.drop_last();
        assert(spaced(p)) by {
            assert forall|i: int| 0 <= i < p.len() && is_ws(#[trigger] p[i]) implies p[i] == ' ' && i > 0 && !is_ws(p[i - 1]) by {
                assert(p[i] == s[i]);
                if i > 0 {
                    assert(p[i - 1] == s[i - 1]);
                }
            }
        }
        lemma_collapse_spaced(p);
        let w = words(p);
        let c = s.last();
        if is_ws(c) {
            assert(s[s.len() - 1] == c);
            assert(!is_ws(p.last()));
        } else if s.len() >= 2 && !is_ws(s[s.len() - 2]) {
            assert(p.last() == s[s.len() - 2]);
            lemma_words_nonempty_when_continuing(p);
            lemma_join_update_last(w, c);
            assert(p.push(c) =~= s);
        } else if s.len() == 1 {
            assert(w.len() == 0);
            assert(w.push(seq![c]) =~= seq![seq![c]]);
            assert(seq![c] =~= s);
        } else {
            assert(s[s.len() - 2] == p.last());
            let q = p.drop_last();
            assert(is_ws(s[s.len() - 2]));
            assert(s.len() - 2 > 0 && !is_ws(s[s.len() - 3]));
            assert(q.last() == s[s.len() - 3]);
            assert(words(p) == words(q));
            lemma_words_nonempty_when_continuing(q);
            lemma_join_push(w, seq![c]);
            assert(q + seq![' '] + seq![c] =~= s);
            assert(s[s.len() - 2] == ' ');
        }
    }
}

/// The words of a text are non-empty and hold no white space.
pub proof fn lemma_words_clean(s: Seq<char>)
    ensures
        forall|i: int| 0 <= i < words(s).len() ==> (#[trigger] words(s)[i]).len() > 0,
        forall|i: int, j: int|
            0 <= i < words(s).len() && 0 <= j < words(s)[i].len() ==> !is_ws(#[trigger] words(s)[i][j]),
    decreases s.len(),
{
    if s.len() > 0 {
        let p = s.drop_last();
        lemma_words_clean(p);
        let w = words(p);
        let c = s.last();
        if !is_ws(c) && s.len() >= 2 && !is_ws(s[s.len() - 2]) {
            assert(p.last() == s[s.len() - 2]);
            lemma_words_nonempty_when_continuing(p);
            let u = w.update(w.len() - 1, w.last().push(c));
            assert forall|i: int, j: int| 0 <= i < u.len() && 0 <= j < u[i].len() implies !is_ws(#[trigger] u[i][j]) by {
                if i == w.len() - 1 && j == w.last().len() {
                } else if i == w.len() - 1 {
                    assert(u[i][j] == w[i][j]);
                } else {
                    assert(u[i] == w[i]);
                }
            }
            assert forall|i: int| 0 <= i < u.len() implies (#[trigger] u[i]).len() > 0 by {
                if i != w.len() - 1 {
                    assert(u[i] == w[i]);
                }
            }
        } else if !is_ws(c) {
            let u = w.push(seq![c]);
            assert forall|i: int, j: int| 0 <= i < u.len() && 0 <= j < u[i].len() implies !is_ws(#[trigger] u[i][j]) by {
                if i < w.len() {
                    assert(u[i] == w[i]);
                }
            }
            assert forall|i: int| 0 <= i < u.len() implies (#[trigger] u[i]).len() > 0 by {
                if i < w.len() {
                    assert(u[i] == w[i]);
                }
            }
        }
    }
}

/// Joining non-empty words without white space by single spaces gives spaced
/// text that ends in a word.
proof fn lemma_join_spaced(w: Seq<Seq<char>>)
    requires
        forall|i: int| 0 <= i < w.len() ==> (#[trigger] w[i]).len() > 0,
        forall|i: int, j: int| 0 <= i < w.len() && 0 <= j < w[i].len() ==> !is_ws(#[trigger] w[i][j]),
    ensures
        spaced(crate::path::join_with(w, seq![' '])),
        crate::path::join_with(w, seq![' ']).len() > 0 ==> !is_ws(
            crate::path::join_with(w, seq![' ']).last(),
        ),
        w.len() > 0 ==> crate::path::join_with(w, seq![' ']).len() > 0,
    decreases w.len(),
{
    let j = crate::path::join_with(w, seq![' ']);
    if w.len() == 1 {
        assert(j == w[0]);
        assert forall|i: int| 0 <= i < j.len() implies !is_ws(#[trigger] j[i]) by {
            assert(j[i] == w[0][i]);
        }
        assert(!is_ws(j[j.len() - 1]));
    } else if w.len() > 1 {
        let v = w.drop_last();
        assert forall|i: int| 0 <= i < v.len() implies (#[trigger] v[i]).len() > 0 by {
            assert(v[i] == w[i]);
        }
        assert forall|i: int, k: int| 0 <= i < v.len() && 0 <= k < v[i].len() implies !is_ws(#[trigger] v[i][k]) by {
            assert(v[i] == w[i]);
        }
        lemma_join_spaced(v);
        let a = crate::path::join_with(v, seq![' ']);
        let b = w.last();
        assert(j == a + seq![' '] + b);
        assert(b == w[w.len() - 1]);
        assert forall|k: int| 0 <= k < b.len() implies !is_ws(#[trigger] b[k]) by {
            assert(b[k] == w[w.len() - 1][k]);
        }
        assert forall|i: int| 0 <= i < j.len() && is_ws(#[trigger] j[i]) implies j[i] == ' ' && i > 0 && !is_ws(j[i - 1]) by {
            if i < a.len() {
                assert(j[i] == a[i]);
                if i > 0 {
                    assert(j[i - 1] == a[i - 1]);
                }
            } else if i == a.len() {
                assert(j[i - 1] == a.last());
            } else {
                assert(j[i] == b[i - a.len() - 1]);
            }
        }
        assert(j.last() == b.last());
    }
}

/// Collapsed text is spaced, and it neither starts nor ends with white space.
pub proof fn lemma_collapse_clean(s: Seq<char>)
    ensures
        spaced(collapse_ws(s)),
        collapse_ws(s).len() > 0 ==> !is_ws(collapse_ws(s).last()),
        trim(collapse_ws(s)) == collapse_ws(s),
{
    lemma_words_clean(s);
    lemma_join_spaced(words(s));
    lemma_trim_spaced(collapse_ws(s));
}

/// Spaced text that does not end with white space is its own trim.
pub proof fn lemma_trim_spaced(s: Seq<char>)
    requires
        spaced(s),
        s.len() > 0 ==> !is_ws(s.last()),
    ensures
        trim(s) == s,
{
    if s.len() > 0 {
        assert(!is_ws(s[0]));
        assert(trim_start(s) == s);
    }
}

/// Bytes of a start never exceed those of a longer start.
pub proof fn lemma_byte_len_prefix_monotone(s: Seq<char>, i: int, j: int)
    requires
        0 <= i <= j <= s.len(),
    ensures
        byte_len(s.take(i)) <= byte_len(s.take(j)),
{
    lemma_byte_len_prefix(s.take(j), i);
    assert(s.take(j).take(i) =~= s.take(i));
}

/// The count of characters within a byte budget is the one whose start fits
/// and whose next start does not.
pub proof fn lemma_chars_within_bytes_exact(s: Seq<char>, budget: nat, k: int)
    requires
        0 <= k < s.len(),
        byte_len(s.take(k)) <= budget,
        byte_len(s.take(k + 1)) > budget,
    ensures
        chars_within_bytes(s, budget) == k,
{
    lemma_chars_within_bytes_bounds(s, budget);
    let c = chars_within_bytes(s, budget) as int;
    if c > k {
        lemma_byte_len_prefix_monotone(s, k + 1, c);
    } else if c < k {
        lemma_byte_len_prefix_monotone(s, c + 1, k);
    }
}

proof fn lemma_join_nonempty(w: Seq<Seq<char>>)
    ensures
        w.len() > 0 && (forall|i: int| 0 <= i < w.len() ==> (#[trigger] w[i]).len() > 0)
            ==> crate::path::join_with(w, seq![' ']).len() > 0,
    decreases w.len(),
{
    if w.len() > 1 {
        lemma_join_nonempty(w.drop_last());
    }
}

} // verus!

verus! {

/// A copy of `v`.
pub fn clone_chars(v: &Vec<char>) -> (r: Vec<char>)
    ensures
        r@ == v@,
{
    let r = v.clone();
    assert(r@ =~= v@);
    r
}

} // verus!

verus! {

/// A line without the `\r` of a `\r\n` ending.
pub open spec fn strip_cr(l: Seq<char>) -> Seq<char> {
    if l.len() > 0 && l.last() == '\r' {
        l.drop_last()
    } else {
        l
    }
}

/// `str::lines`: the text split at `\n` (a `\r` before it dropped), with no
/// line after a final `\n`.
pub open spec fn text_lines(s: Seq<char>) -> Seq<Seq<char>> {
    let p = crate::path::split_char(s, '\n');
    let init = p.drop_last().map_values(|l: Seq<char>| strip_cr(l));
    if p.last().len() > 0 {
        init.push(p.last())
    } else {
        init
    }
}

/// Exec form of [`text_lines`].
pub fn text_lines_vec(s: &Vec<char>) -> (r: Vec<Vec<char>>)
    ensures
        crate::path::views(r@) == text_lines(s@),
{
    let pieces = crate::path::split_char_vec(s, '\n');
    proof {
        crate::path::lemma_split_char_nonempty(s@, '\n');
    }
    let ghost p = crate::path::views(pieces@);
    let mut r: Vec<Vec<char>> = Vec::new();
    let mut i: usize = 0;
    while i + 1 < pieces.len()
        invariant
            i + 1 <= pieces.len(),
            p == crate::path::views(pieces@),
            crate::path::views(r@) == p.drop_last().take(i as int).map_values(
                |l: Seq<char>| strip_cr(l),
            ),
        decreases pieces.len() - i,
    {
        let piece = &pieces[i];
        let line = if piece.len() > 0 && piece[piece.len() - 1] == '\r' {
            slice_vec(piece, 0, piece.len() - 1)
        } else {
            clone_chars(piece)
        };
        assert(line@ =~= strip_cr(piece@));
        let ghost before = r@;
        r.push(line);
        assert(p.drop_last()[i as int] == piece@);
        assert(crate::path::views(r@) =~= crate::path::views(before).push(strip_cr(piece@)));
        assert(p.drop_last().take(i + 1).map_values(|l: Seq<char>| strip_cr(l)) =~= p.drop_last().take(
            i as int,
        ).map_values(|l: Seq<char>| strip_cr(l)).push(strip_cr(piece@)));
        i = i + 1;
    }
    assert(p.drop_last().take(i as int) =~= p.drop_last());
    let last = &pieces[pieces.len() - 1];
    assert(p.last() == last@);
    if last.len() > 0 {
        let ghost before = r@;
        r.push(clone_chars(last));
        assert(crate::path::views(r@) =~= crate::path::views(before).push(last@));
    }
    r
}

} // verus!

