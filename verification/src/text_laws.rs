//! What texts are trimmed, split, joined and read to.

use vstd::prelude::*;

use crate::text;

verus! {

// ---------------------------------------------------------------------------
// White space
// ---------------------------------------------------------------------------

/// White space is what Unicode calls so: the tab and the four line breaks after
/// it, the space, the two of Latin-1, and seventeen beyond.
pub proof fn law_white_space_is_that_of_unicode(c: char)
    ensures
        text::is_white_space(c) <==> {
            let code = c as int;
            ||| 9 <= code <= 13
            ||| code == 32 || code == 133 || code == 160
            ||| code == 5760
            ||| 8192 <= code <= 8202
            ||| code == 8232 || code == 8233 || code == 8239 || code == 8287
            ||| code == 12288
        },
{
}

/// However much white space is put round a text that neither begins nor ends with
/// any, trimming gives back that text.
pub proof fn law_trimming_takes_off_what_stands_round(
    left: Seq<char>,
    inner: Seq<char>,
    right: Seq<char>,
)
    requires
        forall|i: int| 0 <= i < left.len() ==> text::is_white_space(#[trigger] left[i]),
        forall|i: int| 0 <= i < right.len() ==> text::is_white_space(#[trigger] right[i]),
        inner.len() > 0 ==> !text::is_white_space(inner[0]) && !text::is_white_space(
            inner[inner.len() - 1],
        ),
    ensures
        text::trimmed(left + inner + right) == inner,
    decreases left.len() + right.len(),
{
    let whole = left + inner + right;
    if left.len() > 0 {
        let rest = left.skip(1);
        assert forall|i: int| 0 <= i < rest.len() implies text::is_white_space(
            #[trigger] rest[i],
        ) by {
            assert(rest[i] == left[i + 1]);
        }
        law_trimming_takes_off_what_stands_round(rest, inner, right);
        assert(whole[0] == left[0]);
        assert(whole.skip(1) =~= rest + inner + right);
    } else if inner.len() == 0 {
        assert(whole =~= right);
        lemma_blank_start(right);
        assert(text::trimmed_end(Seq::<char>::empty()) == Seq::<char>::empty());
        assert(inner =~= Seq::<char>::empty());
    } else {
        assert(whole[0] == inner[0]);
        assert(text::trimmed_start(whole) == whole);
        if right.len() == 0 {
            assert(whole =~= inner);
        } else {
            let rest = right.drop_last();
            assert forall|i: int| 0 <= i < rest.len() implies text::is_white_space(
                #[trigger] rest[i],
            ) by {
                assert(rest[i] == right[i]);
            }
            law_trimming_takes_off_what_stands_round(left, inner, rest);
            let shorter = left + inner + rest;
            assert(shorter[0] == inner[0]);
            assert(text::trimmed_start(shorter) == shorter);
            assert(whole.last() == right[right.len() - 1]);
            assert(whole.drop_last() =~= shorter);
        }
    }
}

proof fn lemma_blank_start(s: Seq<char>)
    requires
        forall|i: int| 0 <= i < s.len() ==> text::is_white_space(#[trigger] s[i]),
    ensures
        text::trimmed_start(s) == Seq::<char>::empty(),
    decreases s.len(),
{
    if s.len() > 0 {
        let rest = s.skip(1);
        assert forall|i: int| 0 <= i < rest.len() implies text::is_white_space(
            #[trigger] rest[i],
        ) by {
            assert(rest[i] == s[i + 1]);
        }
        lemma_blank_start(rest);
    } else {
        assert(s =~= Seq::<char>::empty());
    }
}

// ---------------------------------------------------------------------------
// Pieces
// ---------------------------------------------------------------------------

/// A text without the separator is one piece, and appending the separator and such
/// a text appends that text to the pieces.
pub proof fn law_pieces_end_at_separators(s: Seq<char>, sep: char, last: Seq<char>)
    requires
        !last.contains(sep),
    ensures
        text::pieces(last, sep) == seq![last],
        text::pieces(s.push(sep) + last, sep) == text::pieces(s, sep).push(last),
    decreases last.len(),
{
    if last.len() == 0 {
        assert(last =~= Seq::<char>::empty());
        assert(text::pieces(last, sep) =~= seq![last]);
        assert(s.push(sep) + last =~= s.push(sep));
        assert(s.push(sep).drop_last() =~= s);
    } else {
        let front = last.drop_last();
        let c = last[last.len() - 1];
        assert(c != sep);
        assert(!front.contains(sep)) by {
            if front.contains(sep) {
                let i = front.index_of(sep);
                assert(last[i] == sep);
            }
        }
        law_pieces_end_at_separators(s, sep, front);
        assert(front.push(c) =~= last);
        assert(seq![front].drop_last().push(front.push(c)) =~= seq![last]);
        let whole = s.push(sep) + last;
        assert(whole.drop_last() =~= s.push(sep) + front);
        assert(whole.last() == c);
        let parts = text::pieces(s, sep).push(front);
        assert(parts.drop_last() =~= text::pieces(s, sep));
    }
}

/// Texts without the separator, once joined by it, are split into the same texts.
pub proof fn law_splitting_undoes_joining(parts: Seq<Seq<char>>, sep: char)
    requires
        parts.len() > 0,
        forall|i: int| 0 <= i < parts.len() ==> !(#[trigger] parts[i]).contains(sep),
    ensures
        text::pieces(text::joined(parts, sep), sep) == parts,
    decreases parts.len(),
{
    let last = parts[parts.len() - 1];
    let front = parts.drop_last();
    assert(parts =~= front.push(last));
    if parts.len() == 1 {
        law_pieces_end_at_separators(Seq::empty(), sep, last);
        assert(parts =~= seq![last]);
    } else {
        assert forall|i: int| 0 <= i < front.len() implies !(#[trigger] front[i]).contains(
            sep,
        ) by {
            assert(front[i] == parts[i]);
        }
        law_splitting_undoes_joining(front, sep);
        law_pieces_end_at_separators(text::joined(front, sep), sep, last);
    }
}

/// No piece holds the separator.
pub proof fn law_pieces_hold_no_separator(s: Seq<char>, sep: char, i: int)
    requires
        0 <= i < text::pieces(s, sep).len(),
    ensures
        !text::pieces(s, sep)[i].contains(sep),
    decreases s.len(),
{
    if s.len() > 0 {
        let front = text::pieces(s.drop_last(), sep);
        let parts = text::pieces(s, sep);
        lemma_pieces_are_some(s.drop_last(), sep);
        if i < parts.len() - 1 {
            assert(parts[i] == front[i]);
            law_pieces_hold_no_separator(s.drop_last(), sep, i);
        } else if s.last() != sep {
            law_pieces_hold_no_separator(s.drop_last(), sep, front.len() - 1);
            let piece = front.last().push(s.last());
            assert(parts[i] == piece);
            if piece.contains(sep) {
                let k = piece.index_of(sep);
                assert(k < front.last().len());
                assert(front.last()[k] == sep);
            }
        }
    }
}

proof fn lemma_pieces_are_some(s: Seq<char>, sep: char)
    ensures
        text::pieces(s, sep).len() > 0,
    decreases s.len(),
{
    if s.len() > 0 {
        lemma_pieces_are_some(s.drop_last(), sep);
    }
}

/// Nothing joined is nothing, one text joined is itself, and one text more is
/// appended after the separator.
pub proof fn law_joining_appends(parts: Seq<Seq<char>>, sep: char, last: Seq<char>)
    ensures
        text::joined(Seq::empty(), sep) == Seq::<char>::empty(),
        text::joined(seq![last], sep) == last,
        parts.len() > 0 ==> text::joined(parts.push(last), sep) == text::joined(parts, sep).push(
            sep,
        ) + last,
{
    assert(parts.push(last).drop_last() =~= parts);
}

/// The entries of a list are what stands between the commas, trimmed.
pub proof fn law_list_entries_are_trimmed_pieces(parts: Seq<Seq<char>>, i: int)
    requires
        0 <= i < parts.len(),
        forall|k: int| 0 <= k < parts.len() ==> !(#[trigger] parts[k]).contains(','),
    ensures
        text::list_entries(text::joined(parts, ',')).len() == parts.len(),
        text::list_entries(text::joined(parts, ','))[i] == text::trimmed(parts[i]),
{
    law_splitting_undoes_joining(parts, ',');
}

/// The parts that are kept are those that hold a character, in order.
pub proof fn law_empty_parts_are_left_out(parts: Seq<Seq<char>>, last: Seq<char>)
    ensures
        text::non_empty(Seq::empty()) == Seq::<Seq<char>>::empty(),
        text::non_empty(parts.push(last)) == if last.len() > 0 {
            text::non_empty(parts).push(last)
        } else {
            text::non_empty(parts)
        },
{
    reveal(Seq::filter);
    assert(parts.push(last).drop_last() =~= parts);
    assert(text::non_empty(Seq::empty()) =~= Seq::<Seq<char>>::empty());
}

/// A text is cut at the first separator, and only where it holds one.
pub proof fn law_cut_is_at_the_first_separator(before: Seq<char>, sep: char, after: Seq<char>)
    requires
        !before.contains(sep),
    ensures
        text::cut(before, sep) is None,
        text::cut(before.push(sep) + after, sep) == Some((before, after)),
{
    before.index_of_first_ensures(sep);
    let whole = before.push(sep) + after;
    whole.index_of_first_ensures(sep);
    assert(whole[before.len() as int] == sep);
    let i = whole.index_of_first(sep)->0;
    if i < before.len() {
        assert(before[i] == sep);
    }
    assert(i == before.len());
    assert(whole.take(i) =~= before);
    assert(whole.skip(i + 1) =~= after);
}

// ---------------------------------------------------------------------------
// Numbers
// ---------------------------------------------------------------------------

/// One digit spells its number, one digit more makes it ten times as large and adds
/// the digit, and a plus sign in front of an unsigned numeral changes nothing.
pub proof fn law_numerals_are_decimal(s: Seq<char>, n: nat, c: char)
    requires
        '0' <= c <= '9',
    ensures
        text::numeral(seq![c]) == Some((c as int - 48) as nat),
        text::numeral(s) == Some(n) ==> text::numeral(s.push(c)) == Some(
            (10 * n + (c as int - 48)) as nat,
        ),
        text::numeral(s) == Some(n) && s[0] != '+' ==> text::numeral(seq!['+'] + s) == Some(n),
{
    let one = seq![c];
    assert(text::unsigned(one) == one);
    assert(one.drop_last() =~= Seq::<char>::empty());
    assert(text::digits_value(one.drop_last()) == 0);
    if text::numeral(s) == Some(n) {
        let digits = text::unsigned(s);
        let longer = s.push(c);
        assert(text::unsigned(longer) =~= digits.push(c));
        assert(digits.push(c).drop_last() =~= digits);
        if s[0] != '+' {
            assert((seq!['+'] + s).skip(1) =~= s);
        }
    }
}

/// What spells a number holds digits only, but for a plus sign in front of them:
/// an empty text, a sign alone and any other character spell none.
pub proof fn law_nothing_else_is_a_numeral(s: Seq<char>, i: int)
    ensures
        text::numeral(Seq::empty()) is None,
        text::numeral(seq!['+']) is None,
        0 <= i < s.len() && !('0' <= s[i] <= '9') && (i > 0 || s[i] != '+') ==> text::numeral(
            s,
        ) is None,
{
    assert(seq!['+'].skip(1) =~= Seq::<char>::empty());
    if 0 <= i < s.len() && !('0' <= s[i] <= '9') && (i > 0 || s[i] != '+') {
        let digits = text::unsigned(s);
        if s[0] == '+' {
            assert(digits[i - 1] == s[i]);
        } else {
            assert(digits[i] == s[i]);
        }
    }
}

/// A numeral is taken where its number is within the bound, and only there.
pub proof fn law_numerals_are_bounded(s: Seq<char>, max: nat)
    ensures
        match text::numeral(s) {
            Some(n) => n <= max ==> text::numeral_within(s, max) == Some(n),
            None => text::numeral_within(s, max) is None,
        },
        text::numeral(s) matches Some(n) && n > max ==> text::numeral_within(s, max) is None,
{
}

/// A number is written without a sign and without leading zeros, by digits alone,
/// and by as many as it needs: ten times the number has one zero more.
pub proof fn law_numbers_are_written_in_decimal(n: nat, d: nat)
    requires
        d < 10,
    ensures
        text::decimal_text(d) == seq![(48 + d) as char],
        n > 0 ==> text::decimal_text(10 * n + d) == text::decimal_text(n).push((48 + d) as char),
{
    assert((10 * n + d) / 10 == n && (10 * n + d) % 10 == d);
}

// ---------------------------------------------------------------------------
// Letter case
// ---------------------------------------------------------------------------

/// Letters of ASCII change case, nothing else changes.
pub proof fn law_letter_case(s: Seq<char>, i: int)
    requires
        0 <= i < s.len(),
    ensures
        text::ascii_lowercase(s).len() == s.len(),
        text::ascii_uppercase(s).len() == s.len(),
        65 <= s[i] as int <= 90 ==> text::ascii_lowercase(s)[i] as int == s[i] as int + 32,
        !(65 <= s[i] as int <= 90) ==> text::ascii_lowercase(s)[i] == s[i],
        97 <= s[i] as int <= 122 ==> text::ascii_uppercase(s)[i] as int == s[i] as int - 32,
        !(97 <= s[i] as int <= 122) ==> text::ascii_uppercase(s)[i] == s[i],
        text::is_ascii_text(s) ==> s[i] as int <= 127,
{
}

/// What is told of a string is all of its characters.
pub proof fn law_strings_are_told_whole(strings: Seq<String>, s: String, i: int)
    ensures
        text::text_of(Some(s)) == Some(s@),
        text::text_of(None) is None,
        text::texts(strings).len() == strings.len(),
        0 <= i < strings.len() ==> text::texts(strings)[i] == strings[i]@,
{
}

} // verus!
