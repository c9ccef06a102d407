//! What holds of texts and their parts.

use super::{
    all_digits, before, decimal, digits_value, fields_of, find, find_text, has_prefix, has_suffix,
    is_alphanumeric, is_digit, is_float, is_lower, is_mantissa, is_number, is_space, is_upper,
    lemma_find, lemma_find_unique, lines_of, lower_of, lowercase, replace_of, signed_decimal,
    split_of, split_once_of, split_text_of, strip_prefix_of, strip_suffix_of, trim_char_of,
    trim_end_of, trim_of, u64_of, unsigned_part, upper_of, uppercase, Class,
};
use vstd::prelude::*;

verus! {

// --------------------------------------------------------------------------
// Characters
// --------------------------------------------------------------------------

/// White space is what Unicode lists as such; among ASCII characters it is the
/// space and the characters from the tabulator to the carriage return.
pub proof fn law_spaces_are_known(c: char)
    ensures
        c < '\u{80}' ==> is_space(c) == (c == ' ' || c == '\t' || c == '\n' || c == '\u{b}' || c
            == '\u{c}' || c == '\r'),
        is_space('\u{85}') && is_space('\u{a0}') && is_space('\u{1680}') && is_space('\u{3000}'),
        is_space('\u{2028}') && is_space('\u{2029}') && is_space('\u{202f}') && is_space(
            '\u{205f}',
        ),
        '\u{2000}' <= c <= '\u{200a}' ==> is_space(c),
        is_alphanumeric(c) || c == '-' || c == '_' || c == '.' ==> !is_space(c),
{
}

/// The letters and digits of ASCII are told apart.
pub proof fn law_letters_and_digits_are_known(c: char)
    ensures
        is_digit(c) <==> 48 <= c as int <= 57,
        is_upper(c) <==> 65 <= c as int <= 90,
        is_lower(c) <==> 97 <= c as int <= 122,
        is_alphanumeric(c) <==> 48 <= c as int <= 57 || 65 <= c as int <= 90 || 97 <= c as int
            <= 122,
{
}

/// A class holds what it is named after.
pub proof fn law_classes_hold_their_characters(c: char, x: char)
    ensures
        Class::Only(x).has(c) == (c == x),
        Class::Except(x).has(c) == (c != x),
        Class::Space.has(c) == is_space(c),
        Class::NonSpace.has(c) == !is_space(c),
        Class::NonAlphanumeric.has(c) == !is_alphanumeric(c),
{
}

/// Letters of ASCII change their case by a fixed step and back, and nothing
/// else changes.
pub proof fn law_cases_are_folded(c: char, s: Seq<char>, i: int)
    requires
        0 <= i < s.len(),
    ensures
        is_upper(c) ==> lower_of(c) as int == c as int + 32 && upper_of(lower_of(c)) == c,
        is_lower(c) ==> upper_of(c) as int == c as int - 32 && lower_of(upper_of(c)) == c,
        !is_upper(c) ==> lower_of(c) == c,
        !is_lower(c) ==> upper_of(c) == c,
        lowercase(s).len() == s.len() && uppercase(s).len() == s.len(),
        lowercase(s)[i] == lower_of(s[i]) && uppercase(s)[i] == upper_of(s[i]),
{
}

// --------------------------------------------------------------------------
// Parts
// --------------------------------------------------------------------------

/// No character of a text is in a class.
pub open spec fn free_of(s: Seq<char>, class: Class) -> bool {
    forall|i: int| 0 <= i < s.len() ==> !class.has(#[trigger] s[i])
}

/// All characters of a text are in a class.
pub open spec fn made_of(s: Seq<char>, class: Class) -> bool {
    forall|i: int| 0 <= i < s.len() ==> class.has(#[trigger] s[i])
}

proof fn lemma_first(a: Seq<char>, c: char, b: Seq<char>, class: Class)
    requires
        free_of(a, class),
        class.has(c),
    ensures
        ({
            let s = a.push(c) + b;
            &&& find(s, class) == a.len()
            &&& s.take(a.len() as int) == a
            &&& s.skip(a.len() as int + 1) == b
            &&& s.len() == a.len() + 1 + b.len()
        }),
{
    let s = a.push(c) + b;
    assert forall|j: int| 0 <= j < a.len() implies !class.has(#[trigger] s[j]) by {
        assert(s[j] == a[j]);
    }
    lemma_find_unique(s, class, a.len() as int);
    assert(s.take(a.len() as int) =~= a);
    assert(s.skip(a.len() as int + 1) =~= b);
}

proof fn lemma_none(a: Seq<char>, class: Class)
    requires
        free_of(a, class),
    ensures
        find(a, class) == a.len(),
{
    lemma_find_unique(a, class, a.len() as int);
}

/// A line ends at the first newline, without a carriage return before it, and
/// the next one begins behind it; a text without a newline is a line as it
/// stands, unless it is empty.
pub proof fn law_lines_end_at_newlines(a: Seq<char>, b: Seq<char>)
    requires
        free_of(a, Class::Only('\n')),
    ensures
        a.len() > 0 && a.last() == '\r' ==> lines_of(a.push('\n') + b) == seq![a.drop_last()]
            + lines_of(b),
        a.len() == 0 || a.last() != '\r' ==> lines_of(a.push('\n') + b) == seq![a] + lines_of(b),
        a.len() > 0 ==> lines_of(a) == seq![a],
        lines_of(Seq::empty()) == Seq::<Seq<char>>::empty(),
{
    lemma_first(a, '\n', b, Class::Only('\n'));
    lemma_none(a, Class::Only('\n'));
}

/// A field ends at the first white space, and the next one begins behind it;
/// white space before a field does not matter, and alone makes none.
pub proof fn law_fields_stand_between_spaces(a: Seq<char>, c: char, b: Seq<char>)
    requires
        free_of(a, Class::Space),
        is_space(c),
    ensures
        a.len() > 0 ==> fields_of(a.push(c) + b) == seq![a] + fields_of(b),
        fields_of(seq![c] + b) == fields_of(b),
        a.len() > 0 ==> fields_of(a) == seq![a],
        fields_of(Seq::empty()) == Seq::<Seq<char>>::empty(),
{
    reveal_with_fuel(fields_of, 3);
    let s = seq![c] + b;
    assert(s.skip(1) =~= b);
    assert(s[0] == c);
    lemma_find(b, Class::NonSpace);
    let start = find(b, Class::NonSpace) as int;
    assert(find(s, Class::NonSpace) == 1 + start);
    assert(s.skip(1 + start) =~= b.skip(start));
    if a.len() > 0 {
        lemma_first(a, c, b, Class::Space);
        let t = a.push(c) + b;
        assert(t[0] == a[0] && !Class::Space.has(a[0]));
        assert(find(t, Class::NonSpace) == 0);
        assert(t.skip(0) =~= t);
        let tail = t.skip(a.len() as int);
        assert(tail =~= s);
        assert(fields_of(t) == seq![a] + fields_of(s));
        lemma_none(a, Class::Space);
        assert(find(a, Class::NonSpace) == 0);
        assert(a.skip(0) =~= a);
        assert(a.take(a.len() as int) =~= a);
        assert(a.skip(a.len() as int) =~= Seq::<char>::empty());
        assert(seq![a] + Seq::<Seq<char>>::empty() =~= seq![a]);
    }
}

/// A text is split at the first character of a class, which belongs to neither
/// part; without one there are no two parts.
pub proof fn law_texts_split_at_the_first(a: Seq<char>, c: char, b: Seq<char>, class: Class)
    requires
        free_of(a, class),
        class.has(c),
    ensures
        split_once_of(a.push(c) + b, class) == Some((a, b)),
        split_once_of(a, class) is None,
        split_of(a.push(c) + b, class) == seq![a] + split_of(b, class),
        split_of(a, class) == seq![a],
{
    lemma_first(a, c, b, class);
    lemma_none(a, class);
}

proof fn lemma_trim_end(s: Seq<char>, class: Class)
    ensures
        trim_end_of(s, class).len() <= s.len(),
        s.take(trim_end_of(s, class).len() as int) == trim_end_of(s, class),
        made_of(s.skip(trim_end_of(s, class).len() as int), class),
        trim_end_of(s, class).len() > 0 ==> !class.has(trim_end_of(s, class).last()),
    decreases s.len(),
{
    if s.len() > 0 && class.has(s.last()) {
        let t = s.drop_last();
        lemma_trim_end(t, class);
        let n = trim_end_of(s, class).len() as int;
        assert(s.take(n) =~= t.take(n));
        assert forall|i: int| 0 <= i < s.skip(n).len() implies class.has(
            #[trigger] s.skip(n)[i],
        ) by {
            if i < t.len() - n {
                assert(s.skip(n)[i] == t.skip(n)[i]);
            }
        }
    } else {
        assert(s.take(s.len() as int) =~= s);
    }
}

/// What is trimmed off a text is white space and nothing else, at either end,
/// and all of it.
pub proof fn law_trimmed_texts_lose_their_spaces(s: Seq<char>)
    ensures
        exists|left: Seq<char>, right: Seq<char>|
            made_of(left, Class::Space) && made_of(right, Class::Space) && s == #[trigger] (left
                + trim_of(s) + right),
        trim_of(s).len() > 0 ==> !is_space(trim_of(s)[0]) && !is_space(trim_of(s).last()),
{
    let k = find(s, Class::NonSpace) as int;
    lemma_find(s, Class::NonSpace);
    let left = s.take(k);
    let m = s.skip(k);
    lemma_trim_end(m, Class::Space);
    let t = trim_of(s);
    let right = m.skip(t.len() as int);
    assert forall|i: int| 0 <= i < left.len() implies Class::Space.has(#[trigger] left[i]) by {
        assert(!Class::NonSpace.has(s[i]));
    }
    assert(made_of(left, Class::Space));
    assert(m =~= m.take(t.len() as int) + right);
    assert(s =~= left + t + right);
    if t.len() > 0 {
        assert(t[0] == m[0] && m[0] == s[k]);
    }
}

/// What is trimmed off a text for a character is that character and nothing
/// else, at either end or at the end alone, and all of it.
pub proof fn law_trimmed_texts_lose_their_character(s: Seq<char>, c: char)
    ensures
        exists|left: Seq<char>, right: Seq<char>|
            made_of(left, Class::Only(c)) && made_of(right, Class::Only(c)) && s == #[trigger] (left
                + trim_char_of(s, c) + right),
        trim_char_of(s, c).len() > 0 ==> trim_char_of(s, c)[0] != c && trim_char_of(s, c).last()
            != c,
        exists|right: Seq<char>|
            made_of(right, Class::Only(c)) && s == #[trigger] (trim_end_of(s, Class::Only(c))
                + right),
        trim_end_of(s, Class::Only(c)).len() > 0 ==> trim_end_of(s, Class::Only(c)).last() != c,
{
    let k = find(s, Class::Except(c)) as int;
    lemma_find(s, Class::Except(c));
    let left = s.take(k);
    let m = s.skip(k);
    lemma_trim_end(m, Class::Only(c));
    let t = trim_char_of(s, c);
    let right = m.skip(t.len() as int);
    assert forall|i: int| 0 <= i < left.len() implies Class::Only(c).has(#[trigger] left[i]) by {
        assert(!Class::Except(c).has(s[i]));
    }
    assert(made_of(left, Class::Only(c)));
    assert(m =~= m.take(t.len() as int) + right);
    assert(s =~= left + t + right);
    if t.len() > 0 {
        assert(t[0] == m[0] && m[0] == s[k]);
    }
    lemma_trim_end(s, Class::Only(c));
    let e = trim_end_of(s, Class::Only(c));
    let tail = s.skip(e.len() as int);
    assert(s =~= e + tail);
}

/// What stands before or behind a text is got back by taking the text off, and
/// what lacks the text there gives nothing.
pub proof fn law_ends_are_stripped(s: Seq<char>, p: Seq<char>, rest: Seq<char>)
    ensures
        strip_prefix_of(p + rest, p) == Some(rest),
        strip_suffix_of(rest + p, p) == Some(rest),
        strip_prefix_of(s, p) matches Some(r) ==> s == p + r,
        strip_suffix_of(s, p) matches Some(r) ==> s == r + p,
        has_prefix(s, p) <==> strip_prefix_of(s, p) is Some,
        has_suffix(s, p) <==> strip_suffix_of(s, p) is Some,
{
    assert((p + rest).take(p.len() as int) =~= p);
    assert((p + rest).skip(p.len() as int) =~= rest);
    assert((rest + p).skip(rest.len() as int) =~= p);
    assert((rest + p).take(rest.len() as int) =~= rest);
    if has_prefix(s, p) {
        assert(s =~= s.take(p.len() as int) + s.skip(p.len() as int));
    }
    if has_suffix(s, p) {
        let n = s.len() - p.len();
        assert(s =~= s.take(n) + s.skip(n));
    }
}

proof fn lemma_find_text(s: Seq<char>, p: Seq<char>)
    ensures
        find_text(s, p) <= s.len() ==> has_prefix(s.skip(find_text(s, p) as int), p),
        forall|j: int|
            0 <= j < find_text(s, p) && j <= s.len() ==> !has_prefix(#[trigger] s.skip(j), p),
    decreases s.len(),
{
    assert(s.skip(0) =~= s);
    if !has_prefix(s, p) && s.len() > 0 {
        let t = s.skip(1);
        lemma_find_text(t, p);
        let k = find_text(t, p) as int;
        if k <= t.len() {
            assert(s.skip(k + 1) =~= t.skip(k));
        }
        assert forall|j: int| 0 <= j < k + 1 && j <= s.len() implies !has_prefix(
            #[trigger] s.skip(j),
            p,
        ) by {
            if j > 0 {
                assert(s.skip(j) =~= t.skip(j - 1));
            }
        }
    }
}

/// A text is split at the first place where another stands in it, which belongs
/// to neither part; where it stands nowhere, there are no two parts.
pub proof fn law_texts_split_at_texts(s: Seq<char>, p: Seq<char>)
    ensures
        split_text_of(s, p) matches Some((a, b)) ==> s == a + p + b,
        split_text_of(s, p) matches Some((a, b)) ==> forall|j: int|
            0 <= j < a.len() ==> !has_prefix(#[trigger] s.skip(j), p),
        split_text_of(s, p) is None ==> forall|j: int|
            0 <= j <= s.len() ==> !has_prefix(#[trigger] s.skip(j), p),
{
    lemma_find_text(s, p);
    let k = find_text(s, p) as int;
    if k <= s.len() {
        let t = s.skip(k);
        assert(t =~= t.take(p.len() as int) + t.skip(p.len() as int));
        assert(t.skip(p.len() as int) =~= s.skip(k + p.len()));
        assert(s =~= s.take(k) + t);
        assert(s =~= s.take(k) + p + s.skip(k + p.len()));
    }
}

/// Each place where a text stands is replaced, from the left, and the characters
/// between stay.
pub proof fn law_places_are_replaced(c: char, s: Seq<char>, p: Seq<char>, with: Seq<char>)
    requires
        p.len() > 0,
    ensures
        replace_of(p + s, p, with) == with + replace_of(s, p, with),
        !has_prefix(seq![c] + s, p) ==> replace_of(seq![c] + s, p, with) == seq![c] + replace_of(
            s,
            p,
            with,
        ),
        replace_of(Seq::empty(), p, with) == Seq::<char>::empty(),
{
    assert((p + s).take(p.len() as int) =~= p);
    assert((p + s).skip(p.len() as int) =~= s);
    assert((seq![c] + s).skip(1) =~= s);
}

// --------------------------------------------------------------------------
// Numbers
// --------------------------------------------------------------------------

/// A decimal text has one digit for each power of ten, the greatest first and
/// none too many.
pub proof fn law_decimals_have_base_ten(n: nat, d: nat)
    requires
        d < 10,
    ensures
        decimal(d).len() == 1 && decimal(d)[0] as int == 48 + d,
        n > 0 ==> decimal(10 * n + d).len() == decimal(n).len() + 1,
        n > 0 ==> decimal(10 * n + d).drop_last() == decimal(n),
        n > 0 ==> decimal(10 * n + d).last() as int == 48 + d,
{
    if n > 0 {
        assert((10 * n + d) / 10 == n);
        assert((10 * n + d) % 10 == d);
        assert(decimal(10 * n + d).drop_last() =~= decimal(n));
    }
}

/// A negative number is the text of its opposite behind a minus sign.
pub proof fn law_negative_numbers_have_a_sign(n: nat)
    ensures
        n > 0 ==> signed_decimal(-(n as int)) == seq!['-'] + decimal(n),
        signed_decimal(n as int) == decimal(n),
{
}

/// A text of digits writes a number in base ten, which is read where it is in
/// range, with or without a plus sign; a text with anything else, or without a
/// digit, writes none.
pub proof fn law_digits_are_read(s: Seq<char>, c: char, i: int)
    ensures
        digits_value(Seq::empty()) == 0,
        is_digit(c) ==> digits_value(s.push(c)) == 10 * digits_value(s) + (c as int - 48),
        s.len() > 0 && all_digits(s) && digits_value(s) <= 0xffff_ffff_ffff_ffff ==> u64_of(s)
            == Some(digits_value(s) as u64) && u64_of(seq!['+'] + s) == Some(
            digits_value(s) as u64,
        ),
        s.len() > 0 && all_digits(s) && digits_value(s) > 0xffff_ffff_ffff_ffff ==> u64_of(s)
            is None,
        0 <= i < s.len() && !is_digit(s[i]) && !(i == 0 && s[i] == '+') ==> u64_of(s) is None,
        u64_of(Seq::empty()) is None && u64_of(seq!['+']) is None,
{
    assert(s.push(c).drop_last() =~= s);
    assert((seq!['+'] + s).skip(1) =~= s);
    assert(seq!['+'].skip(1) =~= Seq::<char>::empty());
    if s.len() > 0 && all_digits(s) {
        assert(is_digit(s[0]));
    }
    if 0 <= i < s.len() && !is_digit(s[i]) && !(i == 0 && s[i] == '+') {
        if s[0] == '+' {
            assert(s.skip(1)[i - 1] == s[i]);
        }
    }
}

proof fn lemma_digits_have_no_case(s: Seq<char>)
    requires
        forall|i: int|
            0 <= i < s.len() ==> is_digit(#[trigger] s[i]) || s[i] == '.' || s[i] == '-' || s[i]
                == '+' || s[i] == 'e',
    ensures
        lowercase(s) == s,
{
    assert(lowercase(s) =~= s);
}

/// Digits write a number, alone, with a point among or beside them, with an
/// exponent, and each with a sign.
pub proof fn law_decimal_numbers_are_numbers(a: Seq<char>, b: Seq<char>, x: Seq<char>)
    requires
        all_digits(a),
        all_digits(b),
        all_digits(x),
        a.len() > 0,
        x.len() > 0,
    ensures
        is_float(a),
        is_float(seq!['-'] + a),
        is_float(seq!['+'] + a),
        is_float(a.push('.') + b),
        is_float(a.push('e') + x),
        is_float((a.push('.') + b).push('e') + x),
        is_float(a.push('e') + (seq!['-'] + x)),
{
    let dot = Class::Only('.');
    let e = Class::Only('e');
    assert(is_digit(a[0]));
    assert(is_digit(x[0]));
    assert(free_of(a, dot) && free_of(a, e)) by {
        assert forall|i: int| 0 <= i < a.len() implies !dot.has(#[trigger] a[i]) && !e.has(
            a[i],
        ) by {
            assert(is_digit(a[i]));
        }
    }
    assert(free_of(b, e)) by {
        assert forall|i: int| 0 <= i < b.len() implies !e.has(#[trigger] b[i]) by {
            assert(is_digit(b[i]));
        }
    }
    law_texts_split_at_the_first(a, '.', b, dot);
    law_texts_split_at_the_first(a, 'e', x, e);
    assert(is_mantissa(a));
    let m = a.push('.') + b;
    assert(is_mantissa(m));
    assert(free_of(m, e)) by {
        assert forall|i: int| 0 <= i < m.len() implies !e.has(#[trigger] m[i]) by {
            if i > a.len() {
                assert(m[i] == b[i - a.len() - 1]);
            } else if i < a.len() {
                assert(m[i] == a[i]);
            }
        }
    }
    law_texts_split_at_the_first(m, 'e', x, e);
    let y = seq!['-'] + x;
    assert(y.skip(1) =~= x);
    law_texts_split_at_the_first(a, 'e', y, e);
    assert(is_number(a) && is_number(m));
    assert(is_number(a.push('e') + x));
    assert(is_number(m.push('e') + x));
    assert(is_number(a.push('e') + y));
    assert((seq!['-'] + a).skip(1) =~= a);
    assert((seq!['+'] + a).skip(1) =~= a);
    let t = seq!['-'] + a;
    let u = seq!['+'] + a;
    assert forall|i: int| 0 <= i < t.len() implies is_digit(#[trigger] t[i]) || t[i] == '-' by {
        if i > 0 {
            assert(t[i] == a[i - 1]);
        }
    }
    assert forall|i: int| 0 <= i < u.len() implies is_digit(#[trigger] u[i]) || u[i] == '+' by {
        if i > 0 {
            assert(u[i] == a[i - 1]);
        }
    }
    lemma_digits_have_no_case(a);
    lemma_digits_have_no_case(t);
    lemma_digits_have_no_case(u);
    lemma_joined_case(a, '.', b);
    lemma_joined_case(a, 'e', x);
    lemma_joined_case(m, 'e', x);
    lemma_joined_case(a, 'e', y);
}

proof fn lemma_joined_case(a: Seq<char>, c: char, b: Seq<char>)
    requires
        c == '.' || c == 'e',
        forall|i: int| 0 <= i < a.len() ==> is_digit(#[trigger] a[i]) || a[i] == '.',
        forall|i: int| 0 <= i < b.len() ==> is_digit(#[trigger] b[i]) || b[i] == '-',
    ensures
        lowercase(a.push(c) + b) == a.push(c) + b,
{
    let s = a.push(c) + b;
    assert forall|i: int| 0 <= i < s.len() implies is_digit(#[trigger] s[i]) || s[i] == '.' || s[i]
        == '-' || s[i] == 'e' by {
        if i > a.len() {
            assert(s[i] == b[i - a.len() - 1]);
        } else if i < a.len() {
            assert(s[i] == a[i]);
        }
    }
    lemma_digits_have_no_case(s);
}

proof fn lemma_not_digits(s: Seq<char>, i: int)
    requires
        0 <= i < s.len(),
        !is_digit(s[i]),
    ensures
        !all_digits(s),
{
}

proof fn lemma_no_mantissa(s: Seq<char>, i: int)
    requires
        0 <= i < s.len(),
        !is_digit(s[i]),
        s[i] != '.',
    ensures
        !is_mantissa(s),
{
    let k = find(s, Class::Only('.')) as int;
    lemma_find(s, Class::Only('.'));
    lemma_not_digits(s, i);
    if k < s.len() {
        if i < k {
            assert(s.take(k)[i] == s[i]);
            lemma_not_digits(s.take(k), i);
        } else {
            assert(s.skip(k + 1)[i - k - 1] == s[i]);
            lemma_not_digits(s.skip(k + 1), i - k - 1);
        }
    }
}

proof fn lemma_no_number(s: Seq<char>, i: int)
    requires
        0 <= i < s.len(),
        !is_alphanumeric(s[i]),
        s[i] != '.' && s[i] != '+' && s[i] != '-',
    ensures
        !is_number(s),
{
    let k = find(s, Class::Only('e')) as int;
    lemma_find(s, Class::Only('e'));
    if k < s.len() {
        let m = s.take(k);
        let x = s.skip(k + 1);
        if i < k {
            assert(m[i] == s[i]);
            lemma_no_mantissa(m, i);
        } else {
            let j = i - k - 1;
            assert(x[j] == s[i]);
            if x[0] == '+' || x[0] == '-' {
                assert(x.skip(1)[j - 1] == s[i]);
                lemma_not_digits(x.skip(1), j - 1);
            } else {
                lemma_not_digits(x, j);
            }
        }
    } else {
        lemma_no_mantissa(s, i);
    }
}

/// A text with anything but letters, digits, points and signs writes no number.
pub proof fn law_other_texts_are_no_numbers(s: Seq<char>, i: int)
    requires
        0 <= i < s.len(),
        !is_alphanumeric(s[i]),
        s[i] != '.' && s[i] != '+' && s[i] != '-',
    ensures
        !is_float(s),
{
    let l = lowercase(s);
    assert(l[i] == s[i]);
    let u = unsigned_part(l);
    let j = if l[0] == '+' || l[0] == '-' {
        i - 1
    } else {
        i
    };
    assert(u[j] == s[i]);
    reveal_strlit("inf");
    reveal_strlit("infinity");
    reveal_strlit("nan");
    assert(forall|n: int| 0 <= n < 3 ==> is_lower(#[trigger] "inf"@[n]));
    assert(forall|n: int| 0 <= n < 8 ==> is_lower(#[trigger] "infinity"@[n]));
    assert(forall|n: int| 0 <= n < 3 ==> is_lower(#[trigger] "nan"@[n]));
    assert("inf"@.len() == 3 && "infinity"@.len() == 8 && "nan"@.len() == 3);
    lemma_no_number(u, j);
}

/// An exponent has a digit, with or without a sign, and no point; a number has
/// no second point.
pub proof fn law_incomplete_numbers_are_no_numbers(a: Seq<char>, b: Seq<char>, x: Seq<char>)
    requires
        all_digits(a),
        all_digits(b),
        all_digits(x),
        a.len() > 0,
    ensures
        !is_float(a.push('e') + Seq::empty()),
        !is_float(a.push('e') + seq!['-']),
        !is_float(a.push('e') + (b.push('.') + x)),
        !is_float(a.push('.') + (b.push('.') + x)),
{
    let e = Class::Only('e');
    let dot = Class::Only('.');
    assert(is_digit(a[0]));
    assert(free_of(a, dot) && free_of(a, e)) by {
        assert forall|i: int| 0 <= i < a.len() implies !dot.has(#[trigger] a[i]) && !e.has(
            a[i],
        ) by {
            assert(is_digit(a[i]));
        }
    }
    let none = Seq::<char>::empty();
    let dash = seq!['-'];
    let y = b.push('.') + x;
    assert(y[b.len() as int] == '.');
    law_texts_split_at_the_first(a, 'e', none, e);
    law_texts_split_at_the_first(a, 'e', dash, e);
    law_texts_split_at_the_first(a, 'e', y, e);
    law_texts_split_at_the_first(a, '.', y, dot);
    assert(dash.skip(1) =~= none);
    lemma_not_digits(y, b.len() as int);
    if y[0] == '+' || y[0] == '-' {
        assert(b.len() > 0 ==> is_digit(b[0]));
    }
    let t = a.push('.') + y;
    assert(free_of(t, e)) by {
        assert forall|i: int| 0 <= i < t.len() implies !e.has(#[trigger] t[i]) by {
            if i < a.len() {
                assert(is_digit(a[i]));
            } else if i > a.len() {
                let j = i - a.len() - 1;
                assert(t[i] == y[j]);
                if j < b.len() {
                    assert(is_digit(b[j]));
                } else if j > b.len() {
                    assert(y[j] == x[j - b.len() - 1]);
                    assert(is_digit(x[j - b.len() - 1]));
                }
            }
        }
    }
    lemma_none(t, e);
    lemma_joined_case(a, 'e', none);
    lemma_joined_case(a, 'e', dash);
    assert forall|i: int| 0 <= i < y.len() implies is_digit(#[trigger] y[i]) || y[i] == '.' by {
        if i < b.len() {
            assert(is_digit(b[i]));
        } else if i > b.len() {
            assert(y[i] == x[i - b.len() - 1]);
        }
    }
    lemma_dotted_case(a, 'e', y);
    lemma_dotted_case(a, '.', y);
    reveal_strlit("inf");
    reveal_strlit("infinity");
    reveal_strlit("nan");
    assert("inf"@[0] == 'i' && "infinity"@[0] == 'i' && "nan"@[0] == 'n');
    assert((a.push('e') + none)[0] == a[0]);
    assert((a.push('e') + dash)[0] == a[0]);
    assert((a.push('e') + y)[0] == a[0]);
    assert(t[0] == a[0]);
    assert(!is_number(a.push('e') + none));
    assert(!is_number(a.push('e') + dash));
    assert(!is_number(a.push('e') + y));
    assert(!is_number(t));
}

proof fn lemma_dotted_case(a: Seq<char>, c: char, b: Seq<char>)
    requires
        c == '.' || c == 'e',
        all_digits(a),
        forall|i: int| 0 <= i < b.len() ==> is_digit(#[trigger] b[i]) || b[i] == '.',
    ensures
        lowercase(a.push(c) + b) == a.push(c) + b,
{
    let s = a.push(c) + b;
    assert forall|i: int| 0 <= i < s.len() implies is_digit(#[trigger] s[i]) || s[i] == '.' || s[i]
        == 'e' by {
        if i > a.len() {
            assert(s[i] == b[i - a.len() - 1]);
        } else if i < a.len() {
            assert(is_digit(a[i]));
        }
    }
    lemma_digits_have_no_case(s);
}

/// The names of the infinities and of what is no number write a number, in any
/// letter case and with a sign; the empty text and a sign alone write none.
pub proof fn law_named_numbers_are_numbers(s: Seq<char>)
    ensures
        lowercase(s) == "inf"@ || lowercase(s) == "infinity"@ || lowercase(s) == "nan"@
            ==> is_float(s) && is_float(seq!['-'] + s),
        !is_float(Seq::empty()),
        !is_float(seq!['-']) && !is_float(seq!['+']) && !is_float(seq!['.']),
{
    reveal_strlit("inf");
    reveal_strlit("infinity");
    reveal_strlit("nan");
    assert("inf"@[0] == 'i' && "infinity"@[0] == 'i' && "nan"@[0] == 'n');
    let none = Seq::<char>::empty();
    assert(lowercase(seq!['-'] + s) =~= seq!['-'] + lowercase(s));
    assert((seq!['-'] + lowercase(s)).skip(1) =~= lowercase(s));
    assert(lowercase(none) =~= none);
    assert(lowercase(seq!['-']) =~= seq!['-']);
    assert(lowercase(seq!['+']) =~= seq!['+']);
    assert(lowercase(seq!['.']) =~= seq!['.']);
    assert(seq!['-'].skip(1) =~= none);
    assert(seq!['+'].skip(1) =~= none);
    lemma_none(none, Class::Only('e'));
    lemma_none(none, Class::Only('.'));
    assert(!is_number(none));
    lemma_none(seq!['.'], Class::Only('e'));
    law_texts_split_at_the_first(none, '.', none, Class::Only('.'));
    assert(none.push('.') + none =~= seq!['.']);
    assert(!is_number(seq!['.']));
}

// --------------------------------------------------------------------------
// Order
// --------------------------------------------------------------------------

/// The first character in which two texts differ decides their order, and a text
/// stands behind its beginnings.
pub proof fn law_the_first_difference_decides(
    p: Seq<char>,
    c: char,
    d: char,
    x: Seq<char>,
    y: Seq<char>,
)
    requires
        c != d,
    ensures
        before(p.push(c) + x, p.push(d) + y) == (c < d),
        before(p, p.push(c) + x),
        !before(p.push(c) + x, p),
    decreases p.len(),
{
    let a = p.push(c) + x;
    let b = p.push(d) + y;
    if p.len() > 0 {
        assert(a[0] == p[0] && b[0] == p[0]);
        assert(a.skip(1) =~= p.skip(1).push(c) + x);
        assert(b.skip(1) =~= p.skip(1).push(d) + y);
        law_the_first_difference_decides(p.skip(1), c, d, x, y);
    } else {
        assert(a[0] == c && b[0] == d);
    }
}

} // verus!
