//! What holds of the operations on text.

use vstd::prelude::*;

use crate::text::{
    before, decimal, digits_value, fields, is_white_space, joined, lemma_blank_list,
    lemma_fields_nonempty, list_items, lowered, replaced, tidied, trimmed, trimmed_end, trimmed_start, unsigned,
};

verus! {

/// White space is what Unicode calls so, by its code points.
pub proof fn law_white_space_is_that_of_unicode(c: char)
    ensures
        is_white_space(c) <==> ({
            let n = c as int;
            n == 0x20 || n == 0x85 || n == 0xa0 || n == 0x1680 || n == 0x2028 || n == 0x2029 || n
                == 0x202f || n == 0x205f || n == 0x3000 || 0x9 <= n <= 0xd || 0x2000 <= n <= 0x200a
        }),
{
}

proof fn lemma_start(s: Seq<char>) -> (a: int)
    ensures
        0 <= a <= s.len(),
        trimmed_start(s) == s.skip(a),
        forall|i: int| 0 <= i < a ==> is_white_space(#[trigger] s[i]),
        a < s.len() ==> !is_white_space(s[a]),
    decreases s.len(),
{
    if s.len() > 0 && is_white_space(s.first()) {
        let rest = s.drop_first();
        let b = lemma_start(rest);
        assert(rest.skip(b) =~= s.skip(b + 1));
        assert forall|i: int| 0 <= i < b + 1 implies is_white_space(#[trigger] s[i]) by {
            if i > 0 {
                assert(rest[i - 1] == s[i]);
            }
        }
        b + 1
    } else {
        assert(s.skip(0) =~= s);
        0
    }
}

proof fn lemma_end(s: Seq<char>) -> (b: int)
    ensures
        0 <= b <= s.len(),
        trimmed_end(s) == s.take(b),
        forall|i: int| b <= i < s.len() ==> is_white_space(#[trigger] s[i]),
        b > 0 ==> !is_white_space(s[b - 1]),
    decreases s.len(),
{
    if s.len() > 0 && is_white_space(s.last()) {
        let rest = s.drop_last();
        let b = lemma_end(rest);
        assert(rest.take(b) =~= s.take(b));
        assert forall|i: int| b <= i < s.len() implies is_white_space(#[trigger] s[i]) by {
            if i < rest.len() {
                assert(rest[i] == s[i]);
            }
        }
        b
    } else {
        assert(s.take(s.len() as int) =~= s);
        s.len() as int
    }
}

/// Trimming takes white space off the two ends, nothing else, and leaves none there.
pub proof fn law_trim_takes_white_space_off_the_ends(s: Seq<char>)
    ensures
        exists|left: Seq<char>, right: Seq<char>|
            s == #[trigger] (left + trimmed(s) + right) && (forall|i: int|
                0 <= i < left.len() ==> is_white_space(#[trigger] left[i])) && (forall|i: int|
                0 <= i < right.len() ==> is_white_space(#[trigger] right[i])),
        trimmed(s).len() > 0 ==> !is_white_space(trimmed(s).first()) && !is_white_space(
            trimmed(s).last(),
        ),
{
    let a = lemma_start(s);
    let middle = s.skip(a);
    let b = lemma_end(middle);
    let left = s.take(a);
    let right = middle.skip(b);
    assert(trimmed(s) == middle.take(b));
    assert(s =~= left + trimmed(s) + right);
    assert forall|i: int| 0 <= i < right.len() implies is_white_space(#[trigger] right[i]) by {
        assert(right[i] == middle[b + i]);
    }
    assert forall|i: int| 0 <= i < left.len() implies is_white_space(#[trigger] left[i]) by {
        assert(left[i] == s[i]);
    }
}

/// Lower case moves ASCII capitals and leaves every other character where it is.
pub proof fn law_lower_case_moves_ascii_capitals(s: Seq<char>, i: int)
    requires
        0 <= i < s.len(),
    ensures
        lowered(s).len() == s.len(),
        65 <= s[i] as int <= 90 ==> lowered(s)[i] as int == s[i] as int + 32,
        !(65 <= s[i] as int <= 90) ==> lowered(s)[i] == s[i],
{
}

/// Replacing swaps one character for another, wherever it stands, and no other.
pub proof fn law_replacing_swaps_one_character(s: Seq<char>, from: char, to: char, i: int)
    requires
        0 <= i < s.len(),
    ensures
        replaced(s, from, to).len() == s.len(),
        s[i] == from ==> replaced(s, from, to)[i] == to,
        s[i] != from ==> replaced(s, from, to)[i] == s[i],
{
}

/// Joining one text gives it back, and joining two lists puts the separator between what they
/// give.
pub proof fn law_joining_puts_the_separator_between(
    a: Seq<Seq<char>>,
    b: Seq<Seq<char>>,
    one: Seq<char>,
    separator: Seq<char>,
)
    ensures
        joined(Seq::empty(), separator).len() == 0,
        joined(seq![one], separator) == one,
        a.len() > 0 && b.len() > 0 ==> joined(a + b, separator) == joined(a, separator) + separator
            + joined(b, separator),
    decreases b.len(),
{
    if a.len() > 0 && b.len() > 0 {
        let start = b.drop_last();
        assert((a + b).drop_last() =~= a + start);
        assert((a + b).last() == b.last());
        if start.len() > 0 {
            law_joining_puts_the_separator_between(a, start, one, separator);
            assert(joined(a + b, separator) =~= joined(a, separator) + separator + joined(
                b,
                separator,
            ));
        } else {
            assert(a + start =~= a);
        }
    }
}

proof fn lemma_joined_push(list: Seq<Seq<char>>, separator: Seq<char>, c: char)
    requires
        list.len() > 0,
    ensures
        joined(list.drop_last().push(list.last().push(c)), separator) == joined(
            list,
            separator,
        ).push(c),
{
    let grown = list.drop_last().push(list.last().push(c));
    assert(grown.drop_last() =~= list.drop_last());
    assert(joined(grown, separator) =~= joined(list, separator).push(c));
}

/// Splitting is undone by joining, and no field holds the separator.
pub proof fn law_splitting_is_undone_by_joining(s: Seq<char>, separator: char)
    ensures
        fields(s, separator).len() > 0,
        joined(fields(s, separator), seq![separator]) == s,
        forall|i: int|
            0 <= i < fields(s, separator).len() ==> !(#[trigger] fields(s, separator)[i]).contains(
                separator,
            ),
    decreases s.len(),
{
    if s.len() > 0 {
        let start = s.drop_last();
        let before = fields(start, separator);
        law_splitting_is_undone_by_joining(start, separator);
        assert(start.push(s.last()) =~= s);
        if s.last() == separator {
            let all = before.push(Seq::empty());
            assert(all.drop_last() =~= before);
            assert(joined(all, seq![separator]) =~= start.push(separator));
        } else {
            lemma_joined_push(before, seq![separator], s.last());
            let all = fields(s, separator);
            assert forall|i: int| 0 <= i < all.len() implies !(#[trigger] all[i]).contains(
                separator,
            ) by {
                if i < before.len() - 1 {
                    assert(all[i] == before[i]);
                } else {
                    let last = before[before.len() - 1];
                    assert(all[i] == last.push(s.last()));
                    if all[i].contains(separator) {
                        let k = all[i].index_of(separator);
                        assert(k < last.len());
                        assert(last[k] == separator);
                        assert(last.contains(separator));
                    }
                }
            }
        }
    }
}

/// The fields of two texts with a separator between them are those of both.
pub proof fn lemma_fields_concat(a: Seq<char>, b: Seq<char>, separator: char)
    ensures
        fields(a.push(separator) + b, separator) == fields(a, separator) + fields(b, separator),
    decreases b.len(),
{
    let whole = a.push(separator) + b;
    if b.len() == 0 {
        assert(whole =~= a.push(separator));
        assert(whole.drop_last() =~= a);
        assert(fields(whole, separator) =~= fields(a, separator) + fields(b, separator));
    } else {
        lemma_fields_nonempty(b.drop_last(), separator);
        lemma_fields_concat(a, b.drop_last(), separator);
        assert(whole.drop_last() =~= a.push(separator) + b.drop_last());
        assert(fields(whole, separator) =~= fields(a, separator) + fields(b, separator));
    }
}

proof fn lemma_filter_concat(a: Seq<Seq<char>>, b: Seq<Seq<char>>)
    ensures
        tidied(a + b) == tidied(a) + tidied(b),
    decreases b.len(),
{
    reveal(Seq::filter);
    let trim = |t: Seq<char>| trimmed(t);
    if b.len() == 0 {
        assert(a + b =~= a);
        assert(tidied(b) =~= Seq::empty());
        assert(tidied(a) + tidied(b) =~= tidied(a));
    } else {
        let start = b.drop_last();
        lemma_filter_concat(a, start);
        assert((a + b).map_values(trim).drop_last() =~= (a + start).map_values(trim));
        assert(b.map_values(trim).drop_last() =~= start.map_values(trim));
        assert(tidied(a + b) =~= tidied(a) + tidied(b));
    }
}

/// A text without separators is its own field.
pub proof fn lemma_single_field(s: Seq<char>, separator: char)
    requires
        !s.contains(separator),
    ensures
        fields(s, separator) == seq![s],
    decreases s.len(),
{
    if s.len() > 0 {
        let start = s.drop_last();
        if start.contains(separator) {
            let i = start.index_of(separator);
            assert(s[i] == separator);
        }
        lemma_single_field(start, separator);
        assert(s[s.len() - 1] == s.last());
        assert(start.push(s.last()) =~= s);
        assert(fields(s, separator) =~= seq![s]);
    } else {
        assert(s =~= Seq::empty());
    }
}

/// A comma list lists what is before a comma, then what is after it; without a comma it lists
/// the text itself without the white space around it, or nothing where that is empty.
pub proof fn law_comma_lists_are_read_in_order(a: Seq<char>, b: Seq<char>)
    ensures
        list_items(a.push(',') + b) == list_items(a) + list_items(b),
        !a.contains(',') && trimmed(a).len() > 0 ==> list_items(a) == seq![trimmed(a)],
        !a.contains(',') && trimmed(a).len() == 0 ==> list_items(a).len() == 0,
{
    lemma_fields_concat(a, b, ',');
    lemma_filter_concat(fields(a, ','), fields(b, ','));
    if !a.contains(',') {
        reveal(Seq::filter);
        lemma_single_field(a, ',');
        let trim = |t: Seq<char>| trimmed(t);
        let one = seq![a].map_values(trim);
        assert(one =~= seq![trimmed(a)]);
        assert(one.drop_last() =~= Seq::empty());
        if trimmed(a).len() > 0 {
            assert(list_items(a) =~= seq![trimmed(a)]);
        } else {
            lemma_blank_list(a);
        }
    }
}

/// One more digit multiplies by ten and adds.
pub proof fn law_digits_count_by_ten(s: Seq<char>, d: nat)
    requires
        d < 10,
    ensures
        digits_value(Seq::empty()) == 0,
        digits_value(s.push((48 + d) as char)) == digits_value(s) * 10 + d,
{
    assert(s.push((48 + d) as char).drop_last() =~= s);
}

/// Decimal digits stand for the number that they were made of, without leading zeros.
pub proof fn law_decimal_stands_for_its_number(n: nat)
    ensures
        digits_value(decimal(n)) == n,
        decimal(n).len() > 0,
        decimal(n)[0] as int == 48 ==> n == 0 && decimal(n).len() == 1,
        forall|i: int| 0 <= i < decimal(n).len() ==> 48 <= #[trigger] decimal(n)[i] as int <= 57,
    decreases n,
{
    if n >= 10 {
        law_decimal_stands_for_its_number(n / 10);
        law_digits_count_by_ten(decimal(n / 10), n % 10);
    } else {
        law_digits_count_by_ten(Seq::empty(), n);
        assert(decimal(n) =~= Seq::empty().push((48 + n) as char));
    }
}

/// A text is a number if and only if it is a run of decimal digits, at least one, with at most
/// one `+` in front, and the number is in range.
pub proof fn law_numbers_are_read_from_digits(digits: Seq<char>)
    requires
        digits.len() > 0,
        digits[0] as int != 43,
    ensures
        unsigned(digits) == unsigned(seq!['+'] + digits),
        unsigned(digits) is Some <==> digits_value(digits) <= u64::MAX && (forall|i: int|
            0 <= i < digits.len() ==> 48 <= #[trigger] digits[i] as int <= 57),
        unsigned(digits) matches Some(n) ==> n == digits_value(digits),
        unsigned(Seq::empty()) is None,
        unsigned(seq!['+']) is None,
        unsigned(seq!['+', '+'] + digits) is None,
{
    assert((seq!['+'] + digits).drop_first() =~= digits);
    let twice = seq!['+', '+'] + digits;
    assert(twice.drop_first()[0] == '+');
    assert(seq!['+'].drop_first() =~= Seq::empty());
}

/// What is written in decimal is read back.
pub proof fn law_written_numbers_are_read_back(n: u64)
    ensures
        unsigned(decimal(n as nat)) == Some(n),
{
    law_decimal_stands_for_its_number(n as nat);
    law_numbers_are_read_from_digits(decimal(n as nat));
}

/// Texts are ordered by the first character in which they differ, and a text comes before what
/// extends it.
pub proof fn law_order_goes_by_the_first_difference(
    start: Seq<char>,
    a: char,
    b: char,
    x: Seq<char>,
    y: Seq<char>,
)
    ensures
        before(start.push(a) + x, start.push(b) + y) <==> (a as int) < (b as int) || (a == b
            && before(x, y)),
        before(start, start.push(a) + x),
        !before(start.push(a) + x, start),
        !before(start, start),
    decreases start.len(),
{
    if start.len() > 0 {
        let rest = start.drop_first();
        law_order_goes_by_the_first_difference(rest, a, b, x, y);
        assert((start.push(a) + x).drop_first() =~= rest.push(a) + x);
        assert((start.push(b) + y).drop_first() =~= rest.push(b) + y);
    } else {
        assert((start.push(a) + x).drop_first() =~= x);
        assert((start.push(b) + y).drop_first() =~= y);
    }
}

} // verus!
