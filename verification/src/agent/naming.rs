//! Subjects and the jitter of the first sample.

use crate::text::{
    alphanumeric, chars, concat, is_alphanumeric, slice,
};
use vstd::prelude::*;

verus! {

/// A character of a subject component.
pub open spec fn is_component_char(c: char) -> bool {
    is_alphanumeric(c) || c == '_' || c == '-'
}

/// A component of a subject: neither empty, nor with separators or wildcards.
pub open spec fn is_component(s: Seq<char>) -> bool {
    s.len() > 0 && forall|i: int| 0 <= i < s.len() ==> is_component_char(#[trigger] s[i])
}

fn component_char(c: char) -> (r: bool)
    ensures
        r == is_component_char(c),
{
    alphanumeric(c) || c == '_' || c == '-'
}

/// The content of a check of a component.
pub open spec fn component_view(r: Result<String, String>) -> Result<Seq<char>, Seq<char>> {
    match r {
        Ok(s) => Ok(s@),
        Err(s) => Err(s@),
    }
}

/// Accepts the components of a subject as they stand.
pub fn valid_subject_component(value: &str) -> (r: Result<String, String>)
    ensures
        component_view(r) == (if is_component(value@) {
            Ok::<Seq<char>, Seq<char>>(value@)
        } else {
            Err::<Seq<char>, Seq<char>>(
                "must contain only ASCII letters, digits, '_' or '-'"@,
            )
        }),
{
    let t = chars(value);
    let mut valid = !value.is_empty();
    let mut i: usize = 0;
    while i < t.len()
        invariant
            i <= t@.len(),
            t@ == value@,
            valid == (value@.len() > 0 && forall|j: int|
                0 <= j < i ==> is_component_char(#[trigger] value@[j])),
        decreases t@.len() - i,
    {
        if !component_char(t[i]) {
            valid = false;
        }
        i += 1;
    }
    if valid {
        Ok(value.to_owned())
    } else {
        Err("must contain only ASCII letters, digits, '_' or '-'".to_owned())
    }
}

/// A character that can stand in a component.
pub open spec fn sanitized_char(c: char) -> char {
    if is_component_char(c) {
        c
    } else {
        '-'
    }
}

/// A component made from any text.
pub open spec fn sanitized(s: Seq<char>) -> Seq<char> {
    if s.len() == 0 {
        "unknown"@
    } else {
        s.map_values(|c: char| sanitized_char(c))
    }
}

/// Makes a component from any text.
pub fn sanitize_component(value: &str) -> (r: String)
    ensures
        r@ == sanitized(value@),
{
    if value.is_empty() {
        return "unknown".to_owned();
    }
    let t = chars(value);
    let mut out: Vec<char> = Vec::new();
    let mut i: usize = 0;
    while i < t.len()
        invariant
            i <= t@.len(),
            t@ == value@,
            out@.len() == i,
            forall|j: int| 0 <= j < i ==> #[trigger] out@[j] == sanitized_char(value@[j]),
        decreases t@.len() - i,
    {
        let c = t[i];
        if component_char(c) {
            out.push(c);
        } else {
            out.push('-');
        }
        i += 1;
    }
    assert(out@.subrange(0, out@.len() as int) =~= sanitized(value@));
    slice(&out, 0, out.len())
}

/// What is made into a component is one, and a component stays as it is.
pub proof fn law_sanitized_texts_are_components(s: Seq<char>)
    ensures
        is_component(sanitized(s)),
        is_component(s) ==> sanitized(s) == s,
{
    reveal_strlit("unknown");
    let t = sanitized(s);
    if s.len() == 0 {
        assert("unknown"@.len() == 7);
        assert forall|i: int| 0 <= i < t.len() implies is_component_char(#[trigger] t[i]) by {
            assert(t[0] == 'u' && t[1] == 'n' && t[2] == 'k' && t[3] == 'n');
            assert(t[4] == 'o' && t[5] == 'w' && t[6] == 'n');
        }
    }
    if is_component(s) {
        assert(t =~= s);
    }
}

/// The subject of a publication of a node.
pub open spec fn subject_of(site: Seq<char>, node: Seq<char>, suffix: Seq<char>) -> Seq<char> {
    "spark.v1."@ + site + "."@ + node + "."@ + suffix
}

/// The subject of a publication of a node.
pub fn subject(site: &str, node: &str, suffix: &str) -> (r: String)
    ensures
        r@ == subject_of(site@, node@, suffix@),
{
    let s = concat("spark.v1.", site);
    let s = concat(s.as_str(), ".");
    let s = concat(s.as_str(), node);
    let s = concat(s.as_str(), ".");
    concat(s.as_str(), suffix)
}

/// A hash of some bytes.
pub open spec fn hash_of(bytes: Seq<u8>) -> u64
    decreases bytes.len(),
{
    if bytes.len() == 0 {
        1_469_598_103_934_665_603
    } else {
        ((hash_of(bytes.drop_last()) * 1_099_511_628_211 + bytes.last())
            % 0x1_0000_0000_0000_0000) as u64
    }
}

/// A quarter of an interval in milliseconds, from 1 to 500.
pub open spec fn jitter_ceiling(interval_ms: u128) -> u64 {
    let quarter = interval_ms / 4;
    if quarter < 1 {
        1
    } else if quarter > 500 {
        500
    } else {
        quarter as u64
    }
}

/// How long a node waits before its first sample, in milliseconds.
pub open spec fn jitter_of(node: Seq<char>, interval_ms: u128) -> u64 {
    hash_of(vstd::utf8::encode_utf8(node)) % jitter_ceiling(interval_ms)
}

fn hash(bytes: &[u8]) -> (r: u64)
    ensures
        r == hash_of(bytes@),
{
    let mut hash: u64 = 1_469_598_103_934_665_603;
    let mut i: usize = 0;
    while i < bytes.len()
        invariant
            i <= bytes@.len(),
            hash == hash_of(bytes@.take(i as int)),
        decreases bytes@.len() - i,
    {
        assert(bytes@.take(i + 1).drop_last() =~= bytes@.take(i as int));
        let b = bytes[i];
        let h = hash;
        let product = h.wrapping_mul(1_099_511_628_211);
        hash = product.wrapping_add(b as u64);
        proof {
            let m = 0x1_0000_0000_0000_0000int;
            let p = h * 1_099_511_628_211int;
            assert(product as int == p % m);
            assert(hash as int == (product + b) % m);
            assert((p % m + b) % m == (p + b) % m) by (nonlinear_arith)
                requires
                    m == 0x1_0000_0000_0000_0000int,
            ;
        }
        i += 1;
    }
    assert(bytes@.take(i as int) =~= bytes@);
    hash
}

/// How long a node waits before its first sample, in milliseconds: the same
/// for one node and interval, and less than a quarter of the interval or half
/// a second.
pub fn stable_jitter(node: &str, interval_ms: u128) -> (r: u64)
    ensures
        r == jitter_of(node@, interval_ms),
        r < jitter_ceiling(interval_ms) <= 500,
{
    let h = hash(node.as_bytes());
    let quarter = interval_ms / 4;
    let ceiling: u64 = if quarter < 1 {
        1
    } else if quarter > 500 {
        500
    } else {
        quarter as u64
    };
    h % ceiling
}

proof fn lemma_first_component(a: Seq<char>, r: Seq<char>, b: Seq<char>, s: Seq<char>)
    requires
        is_component(a),
        is_component(b),
        a + "."@ + r == b + "."@ + s,
    ensures
        a == b,
        r == s,
{
    reveal_strlit(".");
    let x = a + "."@ + r;
    let y = b + "."@ + s;
    if a.len() < b.len() {
        assert(x[a.len() as int] == '.');
        assert(y[a.len() as int] == b[a.len() as int]);
    } else if b.len() < a.len() {
        assert(y[b.len() as int] == '.');
        assert(x[b.len() as int] == a[b.len() as int]);
    }
    assert(a =~= x.take(a.len() as int));
    assert(b =~= y.take(b.len() as int));
    assert(r =~= x.skip(a.len() as int + 1));
    assert(s =~= y.skip(b.len() as int + 1));
}

/// Nodes with different names have no subject in common: a subject tells the
/// site, the node and what is published.
pub proof fn law_subjects_tell_nodes_apart(
    site: Seq<char>,
    node: Seq<char>,
    suffix: Seq<char>,
    other_site: Seq<char>,
    other_node: Seq<char>,
    other_suffix: Seq<char>,
)
    requires
        is_component(site),
        is_component(node),
        is_component(other_site),
        is_component(other_node),
        subject_of(site, node, suffix) == subject_of(other_site, other_node, other_suffix),
    ensures
        site == other_site,
        node == other_node,
        suffix == other_suffix,
{
    let n = "spark.v1."@.len() as int;
    let rest = node + "."@ + suffix;
    let other_rest = other_node + "."@ + other_suffix;
    assert(subject_of(site, node, suffix).skip(n) =~= site + "."@ + rest);
    assert(subject_of(other_site, other_node, other_suffix).skip(n) =~= other_site + "."@
        + other_rest);
    lemma_first_component(site, rest, other_site, other_rest);
    lemma_first_component(node, suffix, other_node, other_suffix);
}

} // verus!
