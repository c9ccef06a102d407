//! Text handling over characters: the parts of string processing that the
//! collectors and validators are built from, each with its exact meaning.

pub mod laws;

use vstd::prelude::*;

verus! {

// --------------------------------------------------------------------------
// Characters
// --------------------------------------------------------------------------

/// A character with the Unicode `White_Space` property.
pub open spec fn is_space(c: char) -> bool {
    ||| '\u{9}' <= c <= '\u{d}'
    ||| c == ' '
    ||| c == '\u{85}'
    ||| c == '\u{a0}'
    ||| c == '\u{1680}'
    ||| '\u{2000}' <= c <= '\u{200a}'
    ||| c == '\u{2028}'
    ||| c == '\u{2029}'
    ||| c == '\u{202f}'
    ||| c == '\u{205f}'
    ||| c == '\u{3000}'
}

pub fn space(c: char) -> (r: bool)
    ensures
        r == is_space(c),
{
    ('\u{9}' <= c && c <= '\u{d}') || c == ' ' || c == '\u{85}' || c == '\u{a0}' || c == '\u{1680}'
        || ('\u{2000}' <= c && c <= '\u{200a}') || c == '\u{2028}' || c == '\u{2029}' || c
        == '\u{202f}' || c == '\u{205f}' || c == '\u{3000}'
}

pub open spec fn is_digit(c: char) -> bool {
    '0' <= c <= '9'
}

pub fn digit(c: char) -> (r: bool)
    ensures
        r == is_digit(c),
{
    '0' <= c && c <= '9'
}

pub open spec fn is_upper(c: char) -> bool {
    'A' <= c <= 'Z'
}

pub open spec fn is_lower(c: char) -> bool {
    'a' <= c <= 'z'
}

pub open spec fn is_alphanumeric(c: char) -> bool {
    is_digit(c) || is_upper(c) || is_lower(c)
}

pub fn upper(c: char) -> (r: bool)
    ensures
        r == is_upper(c),
{
    'A' <= c && c <= 'Z'
}

pub fn lower(c: char) -> (r: bool)
    ensures
        r == is_lower(c),
{
    'a' <= c && c <= 'z'
}

/// Whether `c` is an ASCII letter or digit.
pub fn alphanumeric(c: char) -> (r: bool)
    ensures
        r == is_alphanumeric(c),
{
    digit(c) || upper(c) || lower(c)
}

/// A set of characters to search for.
#[derive(Clone, Copy, PartialEq, Eq, Structural)]
pub enum Class {
    /// One given character.
    Only(char),
    /// Every character but one.
    Except(char),
    Space,
    NonSpace,
    NonAlphanumeric,
}

impl Class {
    pub open spec fn has(self, c: char) -> bool {
        match self {
            Class::Only(x) => c == x,
            Class::Except(x) => c != x,
            Class::Space => is_space(c),
            Class::NonSpace => !is_space(c),
            Class::NonAlphanumeric => !is_alphanumeric(c),
        }
    }

    pub fn accepts(&self, c: char) -> (r: bool)
        ensures
            r == self.has(c),
    {
        match self {
            Class::Only(x) => c == *x,
            Class::Except(x) => c != *x,
            Class::Space => space(c),
            Class::NonSpace => !space(c),
            Class::NonAlphanumeric => !alphanumeric(c),
        }
    }
}

// --------------------------------------------------------------------------
// Strings and character vectors
// --------------------------------------------------------------------------

/// `String::push` appends one character.
pub assume_specification[ String::push ](s: &mut String, c: char)
    ensures
        final(s)@ == old(s)@.push(c),
;

/// The characters of a string.
pub fn chars(s: &str) -> (r: Vec<char>)
    ensures
        r@ == s@,
{
    let mut out: Vec<char> = Vec::new();
    for c in it: s.chars()
        invariant
            it.seq() == s@,
            out@ == s@.take(it.index() as int),
    {
        out.push(c);
    }
    assert(s@.take(s@.len() as int) == s@);
    out
}

/// The string made of the characters `from..to`.
pub fn slice(t: &Vec<char>, from: usize, to: usize) -> (r: String)
    requires
        from <= to <= t@.len(),
    ensures
        r@ == t@.subrange(from as int, to as int),
{
    let mut out = String::new();
    let mut i: usize = from;
    while i < to
        invariant
            from <= i <= to <= t@.len(),
            out@ == t@.subrange(from as int, i as int),
        decreases to - i,
    {
        out.push(t[i]);
        assert(t@.subrange(from as int, i + 1) == t@.subrange(from as int, i as int).push(
            t@[i as int],
        ));
        i += 1;
    }
    out
}

/// Whether two strings hold the same characters.
pub fn same(a: &str, b: &str) -> (r: bool)
    ensures
        r == (a@ == b@),
{
    let x = a.as_bytes();
    let y = b.as_bytes();
    proof {
        vstd::utf8::encode_utf8_decode_utf8(a@);
        vstd::utf8::encode_utf8_decode_utf8(b@);
    }
    if x.len() != y.len() {
        return false;
    }
    let mut i: usize = 0;
    while i < x.len()
        invariant
            i <= x@.len(),
            x@.len() == y@.len(),
            x@ == vstd::utf8::encode_utf8(a@),
            y@ == vstd::utf8::encode_utf8(b@),
            forall|j: int| 0 <= j < i ==> x@[j] == y@[j],
        decreases x@.len() - i,
    {
        if x[i] != y[i] {
            return false;
        }
        i += 1;
    }
    assert(x@ =~= y@);
    true
}

/// The characters of each string of a list.
pub open spec fn texts(v: Seq<String>) -> Seq<Seq<char>> {
    v.map_values(|s: String| s@)
}

/// The characters of an optional string.
pub open spec fn optional(v: Option<String>) -> Option<Seq<char>> {
    match v {
        Some(s) => Some(s@),
        None => None,
    }
}

/// The characters of an optional pair of strings.
pub open spec fn pair(v: Option<(String, String)>) -> Option<(Seq<char>, Seq<char>)> {
    match v {
        Some((a, b)) => Some((a@, b@)),
        None => None,
    }
}

/// The concatenation of two strings.
pub fn concat(a: &str, b: &str) -> (r: String)
    ensures
        r@ == a@ + b@,
{
    let mut out = a.to_owned();
    out.append(b);
    out
}

// --------------------------------------------------------------------------
// Searching and splitting
// --------------------------------------------------------------------------

/// The position of the first character of `class` in `s`, or `s.len()` where
/// there is none.
pub open spec fn find(s: Seq<char>, class: Class) -> nat
    decreases s.len(),
{
    if s.len() == 0 || class.has(s[0]) {
        0
    } else {
        1 + find(s.skip(1), class)
    }
}

/// `find` is the least position that holds a character of the class.
pub proof fn lemma_find(s: Seq<char>, class: Class)
    ensures
        find(s, class) <= s.len(),
        find(s, class) < s.len() ==> class.has(s[find(s, class) as int]),
        forall|j: int| 0 <= j < find(s, class) ==> !class.has(#[trigger] s[j]),
    decreases s.len(),
{
    if s.len() != 0 && !class.has(s[0]) {
        lemma_find(s.skip(1), class);
        assert forall|j: int| 0 <= j < find(s, class) implies !class.has(#[trigger] s[j]) by {
            if j > 0 {
                assert(s[j] == s.skip(1)[j - 1]);
            }
        }
    }
}

/// Any position with that property is `find`.
pub proof fn lemma_find_unique(s: Seq<char>, class: Class, k: int)
    requires
        0 <= k <= s.len(),
        k < s.len() ==> class.has(s[k]),
        forall|j: int| 0 <= j < k ==> !class.has(#[trigger] s[j]),
    ensures
        find(s, class) == k,
{
    lemma_find(s, class);
    if find(s, class) < k {
        assert(!class.has(s[find(s, class) as int]));
    }
    if k < find(s, class) {
        assert(!class.has(s[k]));
    }
}

/// The first position at or after `from` that holds a character of `class`.
pub fn find_from(t: &Vec<char>, from: usize, class: Class) -> (r: usize)
    requires
        from <= t@.len(),
    ensures
        r == from + find(t@.skip(from as int), class),
        from <= r <= t@.len(),
        r < t@.len() ==> class.has(t@[r as int]),
{
    let mut i: usize = from;
    while i < t.len() && !class.accepts(t[i])
        invariant
            from <= i <= t@.len(),
            forall|j: int| from <= j < i ==> !class.has(#[trigger] t@[j]),
        decreases t@.len() - i,
    {
        i += 1;
    }
    proof {
        lemma_find_unique(t@.skip(from as int), class, i - from);
    }
    i
}

/// A line without a carriage return at its end.
pub open spec fn without_return(line: Seq<char>) -> Seq<char> {
    if line.len() > 0 && line.last() == '\r' {
        line.drop_last()
    } else {
        line
    }
}

/// The lines of a text: each ends at a newline, alone or after a carriage
/// return, and the last one may end with the text.
pub open spec fn lines_of(s: Seq<char>) -> Seq<Seq<char>>
    decreases s.len(),
{
    let end = find(s, Class::Only('\n')) as int;
    if s.len() == 0 {
        seq![]
    } else if end >= s.len() {
        seq![s]
    } else {
        seq![without_return(s.take(end))] + lines_of(s.skip(end + 1))
    }
}

pub fn lines(s: &str) -> (r: Vec<String>)
    ensures
        texts(r@) == lines_of(s@),
{
    let t = chars(s);
    let mut out: Vec<String> = Vec::new();
    let mut i: usize = 0;
    assert(t@.skip(0) == t@);
    while i < t.len()
        invariant
            i <= t@.len(),
            lines_of(t@) == texts(out@) + lines_of(t@.skip(i as int)),
        decreases t@.len() - i,
    {
        let end = find_from(&t, i, Class::Only('\n'));
        let ghost rest = t@.skip(i as int);
        let ghost before = out@;
        if end == t.len() {
            out.push(slice(&t, i, end));
            assert(out@[out@.len() - 1]@ == rest);
            assert(texts(out@) == texts(before).push(rest));
            assert(t@.skip(end as int).len() == 0);
            i = end;
        } else {
            let stop: usize = if end > i && t[end - 1] == '\r' {
                end - 1
            } else {
                end
            };
            out.push(slice(&t, i, stop));
            proof {
                let line = rest.take(end - i);
                if end > i {
                    assert(line.last() == t@[end - 1]);
                }
                assert(t@.subrange(i as int, stop as int) == without_return(line));
                assert(texts(out@) == texts(before).push(without_return(line)));
                assert(rest.skip(end - i + 1) == t@.skip(end + 1));
            }
            i = end + 1;
        }
        assert(lines_of(t@) == texts(out@) + lines_of(t@.skip(i as int)));
    }
    assert(t@.skip(i as int).len() == 0);
    out
}

/// The pieces of a text between runs of white space.
pub open spec fn fields_of(s: Seq<char>) -> Seq<Seq<char>>
    decreases s.len(),
{
    let start = find(s, Class::NonSpace) as int;
    if start >= s.len() {
        seq![]
    } else {
        let rest = s.skip(start);
        let end = find(rest, Class::Space) as int;
        proof {
            lemma_find(s, Class::NonSpace);
            lemma_find(rest, Class::Space);
        }
        seq![rest.take(end)] + fields_of(rest.skip(end))
    }
}

pub fn fields(s: &str) -> (r: Vec<String>)
    ensures
        texts(r@) == fields_of(s@),
{
    let t = chars(s);
    let mut out: Vec<String> = Vec::new();
    let mut i: usize = find_from(&t, 0, Class::NonSpace);
    assert(t@.skip(0) == t@);
    proof {
        lemma_fields_skip(t@, i as int);
    }
    while i < t.len()
        invariant
            i <= t@.len(),
            i < t@.len() ==> !is_space(t@[i as int]),
            fields_of(t@) == texts(out@) + fields_of(t@.skip(i as int)),
        decreases t@.len() - i,
    {
        let end = find_from(&t, i, Class::Space);
        let next = find_from(&t, end, Class::NonSpace);
        let ghost rest = t@.skip(i as int);
        let ghost before = out@;
        out.push(slice(&t, i, end));
        proof {
            lemma_find(rest, Class::NonSpace);
            assert(find(rest, Class::NonSpace) == 0);
            assert(rest.skip(0) == rest);
            assert(t@.subrange(i as int, end as int) == rest.take(end - i));
            assert(texts(out@) == texts(before).push(rest.take(end - i)));
            assert(rest.skip(end - i) == t@.skip(end as int));
            assert(t@.skip(end as int).skip(next - end) == t@.skip(next as int));
            lemma_fields_skip(t@.skip(end as int), next - end);
            if end == i {
                assert(rest[0] == t@[i as int]);
            }
        }
        i = next;
        assert(fields_of(t@) == texts(out@) + fields_of(t@.skip(i as int)));
    }
    assert(t@.skip(i as int).len() == 0);
    out
}

proof fn lemma_fields_skip(s: Seq<char>, k: int)
    requires
        k == find(s, Class::NonSpace),
    ensures
        fields_of(s) == fields_of(s.skip(k)),
{
    lemma_find(s, Class::NonSpace);
    let u = s.skip(k);
    if k < s.len() {
        assert(u[0] == s[k]);
        assert(find(u, Class::NonSpace) == 0);
        assert(u.skip(0) == u);
    }
}

/// What stands before and after the first character of `class`.
pub open spec fn split_once_of(s: Seq<char>, class: Class) -> Option<(Seq<char>, Seq<char>)> {
    let k = find(s, class) as int;
    if k < s.len() {
        Some((s.take(k), s.skip(k + 1)))
    } else {
        None
    }
}

pub fn split_once(s: &str, class: Class) -> (r: Option<(String, String)>)
    ensures
        pair(r) == split_once_of(s@, class),
{
    let t = chars(s);
    assert(t@.skip(0) == t@);
    let k = find_from(&t, 0, class);
    if k < t.len() {
        let a = slice(&t, 0, k);
        let b = slice(&t, k + 1, t.len());
        assert(a@ == s@.take(k as int));
        assert(b@ == s@.skip(k + 1));
        Some((a, b))
    } else {
        None
    }
}

/// The pieces between the characters of `class`; there is always at least one.
pub open spec fn split_of(s: Seq<char>, class: Class) -> Seq<Seq<char>>
    decreases s.len(),
{
    let k = find(s, class) as int;
    if k >= s.len() {
        seq![s]
    } else {
        seq![s.take(k)] + split_of(s.skip(k + 1), class)
    }
}

pub fn split(s: &str, class: Class) -> (r: Vec<String>)
    ensures
        texts(r@) == split_of(s@, class),
{
    let t = chars(s);
    let mut out: Vec<String> = Vec::new();
    let mut i: usize = 0;
    assert(t@.skip(0) == t@);
    loop
        invariant
            i <= t@.len(),
            t@ == s@,
            split_of(t@, class) == texts(out@) + split_of(t@.skip(i as int), class),
        decreases t@.len() - i,
    {
        let k = find_from(&t, i, class);
        let ghost rest = t@.skip(i as int);
        let ghost before = out@;
        out.push(slice(&t, i, k));
        assert(t@.subrange(i as int, k as int) == rest.take(k - i));
        assert(texts(out@) == texts(before).push(rest.take(k - i)));
        if k == t.len() {
            assert(rest.take(k - i) == rest);
            assert(split_of(t@, class) == texts(out@));
            return out;
        }
        assert(rest.skip(k - i + 1) == t@.skip(k + 1));
        i = k + 1;
        assert(split_of(t@, class) == texts(out@) + split_of(t@.skip(i as int), class));
    }
}

// --------------------------------------------------------------------------
// Trimming, prefixes and suffixes
// --------------------------------------------------------------------------

/// `s` without the characters of `class` at its end.
pub open spec fn trim_end_of(s: Seq<char>, class: Class) -> Seq<char>
    decreases s.len(),
{
    if s.len() > 0 && class.has(s.last()) {
        trim_end_of(s.drop_last(), class)
    } else {
        s
    }
}

/// `s` without the characters outside `rest` at its start.
pub open spec fn trim_start_of(s: Seq<char>, rest: Class) -> Seq<char> {
    s.skip(find(s, rest) as int)
}

/// `s` without white space at either end.
pub open spec fn trim_of(s: Seq<char>) -> Seq<char> {
    trim_end_of(trim_start_of(s, Class::NonSpace), Class::Space)
}

/// `s` without the character `c` at either end.
pub open spec fn trim_char_of(s: Seq<char>, c: char) -> Seq<char> {
    trim_end_of(trim_start_of(s, Class::Except(c)), Class::Only(c))
}

fn trim_between(s: &str, rest: Class, tail: Class) -> (r: String)
    ensures
        r@ == trim_end_of(trim_start_of(s@, rest), tail),
{
    let t = chars(s);
    assert(t@.skip(0) == t@);
    let from = find_from(&t, 0, rest);
    let mut to: usize = t.len();
    assert(t@.subrange(from as int, to as int) == t@.skip(from as int));
    while to > from && tail.accepts(t[to - 1])
        invariant
            from <= to <= t@.len(),
            trim_end_of(t@.skip(from as int), tail) == trim_end_of(
                t@.subrange(from as int, to as int),
                tail,
            ),
        decreases to,
    {
        assert(t@.subrange(from as int, to as int).drop_last() == t@.subrange(
            from as int,
            to - 1,
        ));
        to -= 1;
    }
    slice(&t, from, to)
}

pub fn trim(s: &str) -> (r: String)
    ensures
        r@ == trim_of(s@),
{
    trim_between(s, Class::NonSpace, Class::Space)
}

pub fn trim_char(s: &str, c: char) -> (r: String)
    ensures
        r@ == trim_char_of(s@, c),
{
    trim_between(s, Class::Except(c), Class::Only(c))
}

pub fn trim_end_char(s: &str, c: char) -> (r: String)
    ensures
        r@ == trim_end_of(s@, Class::Only(c)),
{
    let t = chars(s);
    let mut to: usize = t.len();
    assert(t@.take(to as int) == t@);
    while to > 0 && t[to - 1] == c
        invariant
            to <= t@.len(),
            trim_end_of(t@, Class::Only(c)) == trim_end_of(t@.take(to as int), Class::Only(c)),
        decreases to,
    {
        assert(t@.take(to as int).drop_last() == t@.take(to - 1));
        to -= 1;
    }
    let r = slice(&t, 0, to);
    assert(r@ == t@.take(to as int));
    r
}

/// `s` without the character `c` at its start.
pub fn trim_start_char(s: &str, c: char) -> (r: String)
    ensures
        r@ == trim_start_of(s@, Class::Except(c)),
{
    let t = chars(s);
    assert(t@.skip(0) == t@);
    let from = find_from(&t, 0, Class::Except(c));
    let r = slice(&t, from, t.len());
    assert(r@ == t@.skip(from as int));
    r
}

pub open spec fn has_prefix(s: Seq<char>, p: Seq<char>) -> bool {
    p.len() <= s.len() && s.take(p.len() as int) == p
}

pub open spec fn has_suffix(s: Seq<char>, p: Seq<char>) -> bool {
    p.len() <= s.len() && s.skip(s.len() - p.len()) == p
}

/// What follows `p` in a text that starts with it.
pub open spec fn strip_prefix_of(s: Seq<char>, p: Seq<char>) -> Option<Seq<char>> {
    if has_prefix(s, p) {
        Some(s.skip(p.len() as int))
    } else {
        None
    }
}

/// What precedes `p` in a text that ends with it.
pub open spec fn strip_suffix_of(s: Seq<char>, p: Seq<char>) -> Option<Seq<char>> {
    if has_suffix(s, p) {
        Some(s.take(s.len() - p.len()))
    } else {
        None
    }
}

/// Whether the characters of `p` stand in `t` from `at` on.
fn stands_at(t: &Vec<char>, at: usize, p: &Vec<char>) -> (r: bool)
    requires
        at <= t@.len(),
    ensures
        r == has_prefix(t@.skip(at as int), p@),
{
    let n: usize = t.len();
    if p.len() > n - at {
        return false;
    }
    let mut i: usize = 0;
    while i < p.len()
        invariant
            i <= p@.len(),
            at + p@.len() <= n == t@.len(),
            forall|j: int| 0 <= j < i ==> t@[at + j] == p@[j],
        decreases p@.len() - i,
    {
        if t[at + i] != p[i] {
            assert(t@.skip(at as int).take(p@.len() as int)[i as int] == t@[at + i]);
            return false;
        }
        i += 1;
    }
    assert(t@.skip(at as int).take(p@.len() as int) =~= p@);
    true
}

pub fn starts_with(s: &str, p: &str) -> (r: bool)
    ensures
        r == has_prefix(s@, p@),
{
    let t = chars(s);
    assert(t@.skip(0) == t@);
    stands_at(&t, 0, &chars(p))
}

pub fn strip_prefix(s: &str, p: &str) -> (r: Option<String>)
    ensures
        optional(r) == strip_prefix_of(s@, p@),
{
    let t = chars(s);
    let q = chars(p);
    assert(t@.skip(0) == t@);
    if stands_at(&t, 0, &q) {
        let rest = slice(&t, q.len(), t.len());
        assert(rest@ == s@.skip(p@.len() as int));
        Some(rest)
    } else {
        None
    }
}

pub fn strip_suffix(s: &str, p: &str) -> (r: Option<String>)
    ensures
        optional(r) == strip_suffix_of(s@, p@),
{
    let t = chars(s);
    let q = chars(p);
    if q.len() > t.len() {
        return None;
    }
    let at: usize = t.len() - q.len();
    if stands_at(&t, at, &q) {
        assert(t@.skip(at as int).take(q@.len() as int) == t@.skip(at as int));
        let rest = slice(&t, 0, at);
        assert(rest@ == s@.take(s@.len() - p@.len()));
        Some(rest)
    } else {
        assert(t@.skip(at as int).take(q@.len() as int) == t@.skip(at as int));
        None
    }
}

/// The position of the first occurrence of `p` in `s`, or `s.len() + 1` where
/// there is none.
pub open spec fn find_text(s: Seq<char>, p: Seq<char>) -> nat
    decreases s.len(),
{
    if has_prefix(s, p) {
        0
    } else if s.len() == 0 {
        1
    } else {
        1 + find_text(s.skip(1), p)
    }
}

proof fn lemma_find_text_step(t: Seq<char>, i: int, p: Seq<char>)
    requires
        0 <= i <= t.len(),
        !has_prefix(t.skip(i), p),
    ensures
        i < t.len() ==> find_text(t.skip(i), p) == 1 + find_text(t.skip(i + 1), p),
        i == t.len() ==> find_text(t.skip(i), p) == 1,
{
    if i < t.len() {
        assert(t.skip(i).skip(1) == t.skip(i + 1));
    }
}

/// What stands before and after the first occurrence of `p`.
pub open spec fn split_text_of(s: Seq<char>, p: Seq<char>) -> Option<(Seq<char>, Seq<char>)> {
    let k = find_text(s, p) as int;
    if k <= s.len() {
        Some((s.take(k), s.skip(k + p.len())))
    } else {
        None
    }
}

pub fn split_text(s: &str, p: &str) -> (r: Option<(String, String)>)
    ensures
        pair(r) == split_text_of(s@, p@),
{
    let t = chars(s);
    let q = chars(p);
    let n: usize = t.len();
    let mut i: usize = 0;
    assert(t@.skip(0) == t@);
    loop
        invariant
            i <= n == t@.len(),
            t@ == s@,
            q@ == p@,
            find_text(s@, p@) == i + find_text(t@.skip(i as int), p@),
        decreases t@.len() - i,
    {
        if stands_at(&t, i, &q) {
            let a = slice(&t, 0, i);
            let b = slice(&t, i + q.len(), n);
            assert(a@ == s@.take(i as int));
            assert(b@ == s@.skip(i + p@.len()));
            return Some((a, b));
        }
        proof {
            lemma_find_text_step(t@, i as int, p@);
        }
        if i == t.len() {
            return None;
        }
        i += 1;
    }
}

/// `s` with each occurrence of `p`, taken from the left, replaced by `with`.
pub open spec fn replace_of(s: Seq<char>, p: Seq<char>, with: Seq<char>) -> Seq<char>
    decreases s.len(),
{
    if s.len() == 0 || p.len() == 0 {
        s
    } else if has_prefix(s, p) {
        with + replace_of(s.skip(p.len() as int), p, with)
    } else {
        seq![s[0]] + replace_of(s.skip(1), p, with)
    }
}

pub fn replace(s: &str, p: &str, with: &str) -> (r: String)
    requires
        p@.len() > 0,
    ensures
        r@ == replace_of(s@, p@, with@),
{
    let t = chars(s);
    let q = chars(p);
    let mut out = String::new();
    let mut i: usize = 0;
    assert(t@.skip(0) == t@);
    assert(out@ + replace_of(t@.skip(0), p@, with@) == replace_of(s@, p@, with@));
    while i < t.len()
        invariant
            i <= t@.len(),
            t@ == s@,
            q@ == p@,
            p@.len() > 0,
            replace_of(s@, p@, with@) == out@ + replace_of(t@.skip(i as int), p@, with@),
        decreases t@.len() - i,
    {
        let ghost rest = t@.skip(i as int);
        let ghost before = out@;
        if stands_at(&t, i, &q) {
            out.append(with);
            assert(rest.skip(p@.len() as int) == t@.skip(i + p@.len()));
            assert(before + (with@ + replace_of(t@.skip(i + p@.len()), p@, with@)) == (before
                + with@) + replace_of(t@.skip(i + p@.len()), p@, with@));
            i += q.len();
        } else {
            out.push(t[i]);
            assert(rest.skip(1) == t@.skip(i + 1));
            assert(rest[0] == t@[i as int]);
            assert(before + (seq![rest[0]] + replace_of(t@.skip(i + 1), p@, with@))
                == before.push(rest[0]) + replace_of(t@.skip(i + 1), p@, with@));
            i += 1;
        }
    }
    assert(t@.skip(i as int).len() == 0);
    assert(out@ + t@.skip(i as int) == out@);
    out
}

/// Whether `c` occurs in `s`.
pub fn contains(s: &str, c: char) -> (r: bool)
    ensures
        r == s@.contains(c),
{
    let t = chars(s);
    assert(t@.skip(0) == t@);
    let k = find_from(&t, 0, Class::Only(c));
    proof {
        lemma_find(t@, Class::Only(c));
        if k < t@.len() {
            assert(t@[k as int] == c);
        }
    }
    k < t.len()
}

/// The length of a text in UTF-8.
pub open spec fn byte_len(s: Seq<char>) -> nat {
    vstd::utf8::encode_utf8(s).len()
}

pub fn length_in_bytes(s: &str) -> (r: usize)
    ensures
        r == byte_len(s@),
{
    s.as_bytes().len()
}

// --------------------------------------------------------------------------
// Numbers
// --------------------------------------------------------------------------

pub open spec fn all_digits(s: Seq<char>) -> bool {
    forall|i: int| 0 <= i < s.len() ==> is_digit(#[trigger] s[i])
}

/// The number that a run of decimal digits writes.
pub open spec fn digits_value(s: Seq<char>) -> nat
    decreases s.len(),
{
    if s.len() == 0 {
        0
    } else {
        digits_value(s.drop_last()) * 10 + (s.last() as nat - '0' as nat) as nat
    }
}

/// The number that a text writes in decimal: an optional plus sign and one or
/// more digits, in the range of `u64`.
pub open spec fn u64_of(s: Seq<char>) -> Option<u64> {
    let d = if s.len() > 0 && s[0] == '+' {
        s.skip(1)
    } else {
        s
    };
    if d.len() > 0 && all_digits(d) && digits_value(d) <= u64::MAX {
        Some(digits_value(d) as u64)
    } else {
        None
    }
}

proof fn lemma_digits_value_grows(s: Seq<char>, k: int)
    requires
        0 <= k <= s.len(),
        all_digits(s),
    ensures
        digits_value(s.take(k)) <= digits_value(s),
    decreases s.len(),
{
    if k < s.len() {
        assert(all_digits(s.drop_last()));
        lemma_digits_value_grows(s.drop_last(), k);
        assert(s.drop_last().take(k) == s.take(k));
        assert(is_digit(s[s.len() - 1]));
    } else {
        assert(s.take(k) == s);
    }
}

/// The value of a decimal digit.
fn digit_value(c: char) -> (r: u64)
    requires
        is_digit(c),
    ensures
        r == c as nat - '0' as nat,
{
    (c as u32 - '0' as u32) as u64
}

pub fn parse_u64(s: &str) -> (r: Option<u64>)
    ensures
        r == u64_of(s@),
{
    let t = chars(s);
    let from: usize = if t.len() > 0 && t[0] == '+' {
        1
    } else {
        0
    };
    let ghost d = t@.skip(from as int);
    assert(t@.skip(0) == t@);
    if t.len() == from {
        return None;
    }
    let mut value: u64 = 0;
    let mut i: usize = from;
    assert(d.take(0).len() == 0);
    while i < t.len()
        invariant
            from <= i <= t@.len(),
            d == t@.skip(from as int),
            d.len() > 0,
            u64_of(s@) == (if all_digits(d) && digits_value(d) <= u64::MAX {
                Some(digits_value(d) as u64)
            } else {
                None::<u64>
            }),
            value == digits_value(d.take(i - from)),
            all_digits(d.take(i - from)),
        decreases t@.len() - i,
    {
        let c = t[i];
        assert(d[i - from] == c);
        if !digit(c) {
            return None;
        }
        let v = digit_value(c);
        let ghost next = d.take(i - from + 1);
        assert(next.drop_last() == d.take(i - from));
        assert(next.last() == c);
        assert(digits_value(next) == value * 10 + v);
        if value > (u64::MAX - v) / 10 {
            proof {
                if all_digits(d) {
                    lemma_digits_value_grows(d, i - from + 1);
                }
            }
            return None;
        }
        value = value * 10 + v;
        proof {
            assert forall|j: int| 0 <= j < next.len() implies is_digit(#[trigger] next[j]) by {
                if j < i - from {
                    assert(next[j] == d.take(i - from)[j]);
                }
            }
        }
        i += 1;
    }
    assert(d.take(i - from) == d);
    Some(value)
}

/// The decimal digit of value `d`.
pub open spec fn digit_of(d: nat) -> char
    recommends
        d < 10,
{
    if d == 0 {
        '0'
    } else if d == 1 {
        '1'
    } else if d == 2 {
        '2'
    } else if d == 3 {
        '3'
    } else if d == 4 {
        '4'
    } else if d == 5 {
        '5'
    } else if d == 6 {
        '6'
    } else if d == 7 {
        '7'
    } else if d == 8 {
        '8'
    } else {
        '9'
    }
}

/// The decimal digits of `n`, without leading zeros.
pub open spec fn decimal(n: nat) -> Seq<char>
    decreases n,
{
    if n < 10 {
        seq![digit_of(n)]
    } else {
        decimal(n / 10).push(digit_of(n % 10))
    }
}

/// The digits of a negative number follow a minus sign.
pub open spec fn signed_decimal(n: int) -> Seq<char> {
    if n < 0 {
        seq!['-'] + decimal((-n) as nat)
    } else {
        decimal(n as nat)
    }
}

/// The decimal digits of a number.
pub fn number_text(n: u128) -> (r: String)
    ensures
        r@ == decimal(n as nat),
    decreases n,
{
    let mut out = if n < 10 {
        String::new()
    } else {
        number_text(n / 10)
    };
    let d = n % 10;
    let c = if d == 0 {
        '0'
    } else if d == 1 {
        '1'
    } else if d == 2 {
        '2'
    } else if d == 3 {
        '3'
    } else if d == 4 {
        '4'
    } else if d == 5 {
        '5'
    } else if d == 6 {
        '6'
    } else if d == 7 {
        '7'
    } else if d == 8 {
        '8'
    } else {
        '9'
    };
    out.push(c);
    assert(n < 10 ==> out@ == seq![digit_of(n as nat)]);
    out
}

pub fn u64_text(n: u64) -> (r: String)
    ensures
        r@ == decimal(n as nat),
{
    number_text(n as u128)
}

pub fn i32_text(n: i32) -> (r: String)
    ensures
        r@ == signed_decimal(n as int),
{
    if n < 0 {
        let mut out = String::new();
        out.push('-');
        let magnitude = u64_text((-(n as i64)) as u64);
        out.append(magnitude.as_str());
        out
    } else {
        u64_text(n as u64)
    }
}

proof fn lemma_decimal_digits(n: nat)
    ensures
        decimal(n).len() > 0,
        all_digits(decimal(n)),
        digits_value(decimal(n)) == n,
    decreases n,
{
    if n >= 10 {
        lemma_decimal_digits(n / 10);
        let s = decimal(n);
        assert(s.drop_last() == decimal(n / 10));
        assert(s.last() == digit_of(n % 10));
        assert(digits_value(s) == digits_value(decimal(n / 10)) * 10 + n % 10);
        assert forall|i: int| 0 <= i < s.len() implies is_digit(#[trigger] s[i]) by {
            if i < s.len() - 1 {
                assert(s[i] == decimal(n / 10)[i]);
            }
        }
    } else {
        let s = decimal(n);
        assert(s.drop_last().len() == 0);
        assert(s.last() == digit_of(n));
        assert(digits_value(s.drop_last()) == 0);
    }
}

/// Reading back a written number gives that number.
pub proof fn law_number_text_reads_back(n: u64)
    ensures
        u64_of(decimal(n as nat)) == Some(n),
{
    lemma_decimal_digits(n as nat);
    let s = decimal(n as nat);
    assert(is_digit(s[0]));
}

/// Two numbers with the same text are equal.
pub proof fn law_number_text_is_distinct(a: nat, b: nat)
    requires
        decimal(a) == decimal(b),
    ensures
        a == b,
{
    lemma_decimal_digits(a);
    lemma_decimal_digits(b);
}

// --------------------------------------------------------------------------
// Letter case
// --------------------------------------------------------------------------

/// The lower-case form of an ASCII letter; other characters as they are.
pub open spec fn lower_of(c: char) -> char {
    if is_upper(c) {
        (c as u32 + 32) as char
    } else {
        c
    }
}

/// The upper-case form of an ASCII letter; other characters as they are.
pub open spec fn upper_of(c: char) -> char {
    if is_lower(c) {
        (c as u32 - 32) as char
    } else {
        c
    }
}

pub open spec fn lowercase(s: Seq<char>) -> Seq<char> {
    s.map_values(|c: char| lower_of(c))
}

pub open spec fn uppercase(s: Seq<char>) -> Seq<char> {
    s.map_values(|c: char| upper_of(c))
}

fn lower_char(c: char) -> (r: char)
    ensures
        r == lower_of(c),
{
    if upper(c) {
        (c as u8 + 32) as char
    } else {
        c
    }
}

fn upper_char(c: char) -> (r: char)
    ensures
        r == upper_of(c),
{
    if lower(c) {
        (c as u8 - 32) as char
    } else {
        c
    }
}

pub fn to_lowercase(s: &str) -> (r: String)
    ensures
        r@ == lowercase(s@),
{
    let t = chars(s);
    let mut out = String::new();
    let mut i: usize = 0;
    while i < t.len()
        invariant
            i <= t@.len(),
            out@ == lowercase(t@.take(i as int)),
        decreases t@.len() - i,
    {
        out.push(lower_char(t[i]));
        assert(t@.take(i + 1) == t@.take(i as int).push(t@[i as int]));
        assert(lowercase(t@.take(i + 1)) == lowercase(t@.take(i as int)).push(
            lower_of(t@[i as int]),
        ));
        i += 1;
    }
    assert(t@.take(i as int) == t@);
    out
}

pub fn to_uppercase(s: &str) -> (r: String)
    ensures
        r@ == uppercase(s@),
{
    let t = chars(s);
    let mut out = String::new();
    let mut i: usize = 0;
    while i < t.len()
        invariant
            i <= t@.len(),
            out@ == uppercase(t@.take(i as int)),
        decreases t@.len() - i,
    {
        out.push(upper_char(t[i]));
        assert(t@.take(i + 1) == t@.take(i as int).push(t@[i as int]));
        assert(uppercase(t@.take(i + 1)) == uppercase(t@.take(i as int)).push(
            upper_of(t@[i as int]),
        ));
        i += 1;
    }
    assert(t@.take(i as int) == t@);
    out
}

// --------------------------------------------------------------------------
// Decimal fractions
// --------------------------------------------------------------------------

/// `s` without one leading sign.
pub open spec fn unsigned_part(s: Seq<char>) -> Seq<char> {
    if s.len() > 0 && (s[0] == '+' || s[0] == '-') {
        s.skip(1)
    } else {
        s
    }
}

/// Digits with at most one point among them, and at least one digit.
pub open spec fn is_mantissa(s: Seq<char>) -> bool {
    match split_once_of(s, Class::Only('.')) {
        None => s.len() > 0 && all_digits(s),
        Some((a, b)) => all_digits(a) && all_digits(b) && a.len() + b.len() > 0,
    }
}

/// An optionally signed run of digits.
pub open spec fn is_exponent(s: Seq<char>) -> bool {
    let d = unsigned_part(s);
    d.len() > 0 && all_digits(d)
}

/// A mantissa, alone or with an exponent, written in lower case.
pub open spec fn is_number(s: Seq<char>) -> bool {
    match split_once_of(s, Class::Only('e')) {
        None => is_mantissa(s),
        Some((m, x)) => is_mantissa(m) && is_exponent(x),
    }
}

/// A text that writes a double-precision number: in any letter case, an
/// optional sign before `inf`, `infinity`, `nan` or a decimal number.
pub open spec fn is_float(s: Seq<char>) -> bool {
    let u = unsigned_part(lowercase(s));
    u == "inf"@ || u == "infinity"@ || u == "nan"@ || is_number(u)
}

/// Whether `s` consists of decimal digits.
pub fn only_digits(s: &str) -> (r: bool)
    ensures
        r == all_digits(s@),
{
    let t = chars(s);
    let mut i: usize = 0;
    while i < t.len()
        invariant
            i <= t@.len(),
            t@ == s@,
            forall|j: int| 0 <= j < i ==> is_digit(#[trigger] t@[j]),
        decreases t@.len() - i,
    {
        if !digit(t[i]) {
            return false;
        }
        i += 1;
    }
    true
}

fn without_sign(s: &str) -> (r: String)
    ensures
        r@ == unsigned_part(s@),
{
    let t = chars(s);
    if t.len() > 0 && (t[0] == '+' || t[0] == '-') {
        let r = slice(&t, 1, t.len());
        assert(r@ == s@.skip(1));
        r
    } else {
        s.to_owned()
    }
}

fn mantissa(s: &str) -> (r: bool)
    ensures
        r == is_mantissa(s@),
{
    match split_once(s, Class::Only('.')) {
        None => !s.is_empty() && only_digits(s),
        Some((a, b)) => only_digits(a.as_str()) && only_digits(b.as_str()) && !(a.as_str().is_empty()
            && b.as_str().is_empty()),
    }
}

pub fn float(s: &str) -> (r: bool)
    ensures
        r == is_float(s@),
{
    let u = without_sign(to_lowercase(s).as_str());
    if same(u.as_str(), "inf") || same(u.as_str(), "infinity") || same(u.as_str(), "nan") {
        return true;
    }
    match split_once(u.as_str(), Class::Only('e')) {
        None => mantissa(u.as_str()),
        Some((m, x)) => {
            let d = without_sign(x.as_str());
            mantissa(m.as_str()) && !d.as_str().is_empty() && only_digits(d.as_str())
        },
    }
}

// --------------------------------------------------------------------------
// Order
// --------------------------------------------------------------------------

/// `a` stands before `b` in the order of their characters, which is also the
/// order of their bytes.
pub open spec fn before(a: Seq<char>, b: Seq<char>) -> bool
    decreases a.len(),
{
    if b.len() == 0 {
        false
    } else if a.len() == 0 {
        true
    } else if a[0] != b[0] {
        a[0] < b[0]
    } else {
        before(a.skip(1), b.skip(1))
    }
}

pub proof fn lemma_before_irreflexive(a: Seq<char>)
    ensures
        !before(a, a),
    decreases a.len(),
{
    if a.len() > 0 {
        lemma_before_irreflexive(a.skip(1));
    }
}

pub proof fn lemma_before_transitive(a: Seq<char>, b: Seq<char>, c: Seq<char>)
    requires
        before(a, b),
        before(b, c),
    ensures
        before(a, c),
    decreases a.len(),
{
    if a.len() > 0 && b.len() > 0 && c.len() > 0 && a[0] == b[0] && b[0] == c[0] {
        lemma_before_transitive(a.skip(1), b.skip(1), c.skip(1));
    }
}

pub proof fn lemma_before_total(a: Seq<char>, b: Seq<char>)
    ensures
        before(a, b) || before(b, a) || a == b,
    decreases a.len(),
{
    if a.len() > 0 && b.len() > 0 && a[0] == b[0] {
        lemma_before_total(a.skip(1), b.skip(1));
        if a.skip(1) == b.skip(1) {
            assert(a =~= seq![a[0]] + a.skip(1));
            assert(b =~= seq![b[0]] + b.skip(1));
        }
    } else if a.len() == 0 && b.len() == 0 {
        assert(a =~= b);
    }
}

pub fn precedes(a: &str, b: &str) -> (r: bool)
    ensures
        r == before(a@, b@),
{
    let x = chars(a);
    let y = chars(b);
    let mut i: usize = 0;
    assert(x@.skip(0) == x@);
    assert(y@.skip(0) == y@);
    loop
        invariant
            i <= x@.len(),
            i <= y@.len(),
            before(a@, b@) == before(x@.skip(i as int), y@.skip(i as int)),
        decreases x@.len() - i,
    {
        if i == y.len() {
            return false;
        }
        if i == x.len() {
            return true;
        }
        if x[i] != y[i] {
            return x[i] < y[i];
        }
        assert(x@.skip(i as int).skip(1) == x@.skip(i + 1));
        assert(y@.skip(i as int).skip(1) == y@.skip(i + 1));
        i += 1;
    }
}

} // verus!
