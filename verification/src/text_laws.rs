//! What holds of texts.

use vstd::prelude::*;

use crate::text;

verus! {

/// The number that decimal digits stand for.
pub open spec fn number_in(digits: Seq<char>) -> int
    decreases digits.len(),
{
    if digits.len() == 0 {
        0
    } else {
        10 * number_in(digits.drop_last()) + (digits.last() as int - '0' as int)
    }
}

/// A number in decimal is made of digits, does not begin with a zero unless it is zero, and stands
/// for the number.
pub proof fn lemma_decimal_stands_for(n: nat)
    ensures
        text::decimal(n).len() > 0,
        forall|i: int|
            0 <= i < text::decimal(n).len() ==> '0' <= #[trigger] text::decimal(n)[i] <= '9',
        n > 0 ==> text::decimal(n)[0] != '0',
        n == 0 ==> text::decimal(n) == seq!['0'],
        number_in(text::decimal(n)) == n,
    decreases n,
{
    reveal_with_fuel(number_in, 2);
    if n < 10 {
        assert(text::decimal(n).drop_last() =~= Seq::<char>::empty());
        assert(n == 0 ==> text::decimal(n) =~= seq!['0']);
    } else {
        lemma_decimal_stands_for(n / 10);
        assert(text::decimal(n).drop_last() =~= text::decimal(n / 10));
    }
}

/// Different numbers look different in decimal.
pub proof fn lemma_decimal_tells_apart(a: nat, b: nat)
    requires
        text::decimal(a) == text::decimal(b),
    ensures
        a == b,
{
    lemma_decimal_stands_for(a);
    lemma_decimal_stands_for(b);
}

/// The pieces between separators hold none, and joined again with the separator between them they are
/// the text.
pub proof fn lemma_join_split(of: Seq<char>, separator: char, between: Seq<char>)
    requires
        between == seq![separator],
    ensures
        text::split(of, separator).len() > 0,
        text::join(text::split(of, separator), between) == of,
        forall|i: int|
            0 <= i < text::split(of, separator).len() ==> text::lacks(
                #[trigger] text::split(of, separator)[i],
                separator,
            ),
    decreases of.len(),
{
    if of.len() == 0 {
        assert(text::join(seq![Seq::<char>::empty()], between) =~= of);
    } else {
        let front = of.drop_last();
        lemma_join_split(front, separator, between);
        let before = text::split(front, separator);
        let pieces = text::split(of, separator);
        if of.last() == separator {
            assert(pieces.drop_last() =~= before);
            assert(pieces.last() =~= Seq::<char>::empty());
            assert(text::join(pieces, between) =~= front.push(separator));
            assert(front.push(separator) =~= of);
        } else {
            let grown = before.last().push(of.last());
            assert(pieces.drop_last() =~= before.drop_last());
            assert(pieces.last() == grown);
            assert(text::lacks(before[before.len() - 1], separator));
            assert forall|i: int| 0 <= i < pieces.len() implies text::lacks(
                #[trigger] pieces[i],
                separator,
            ) by {
                if i < before.len() - 1 {
                    assert(pieces[i] == before[i]);
                }
            }
            if before.len() == 1 {
                assert(text::join(pieces, between) =~= grown);
                assert(before.last() == before[0]);
                assert(grown =~= of);
            } else {
                assert(text::join(pieces, between) =~= text::join(before.drop_last(), between)
                    + between + grown);
                assert(text::join(before, between).push(of.last()) =~= of);
                assert(text::join(pieces, between) =~= text::join(before, between).push(
                    of.last(),
                ));
            }
        }
    }
}

/// Joined texts are the texts one after the other, with the separator between each two.
pub proof fn lemma_join_in_turn(a: Seq<Seq<char>>, b: Seq<Seq<char>>, separator: Seq<char>)
    requires
        a.len() > 0,
        b.len() > 0,
    ensures
        text::join(a + b, separator) == text::join(a, separator) + separator + text::join(
            b,
            separator,
        ),
        text::join(seq![a[0]], separator) == a[0],
    decreases b.len(),
{
    assert((a + b).drop_last() =~= a + b.drop_last());
    if b.len() == 1 {
        assert(a + b.drop_last() =~= a);
    } else {
        lemma_join_in_turn(a, b.drop_last(), separator);
        assert(text::join(a + b, separator) =~= text::join(a, separator) + separator + text::join(
            b,
            separator,
        ));
    }
}

/// A negative number in decimal is a `-` before the number without its sign.
pub proof fn lemma_signed_decimal(n: int)
    ensures
        n >= 0 ==> text::signed_decimal(n) == text::decimal(n as nat),
        n < 0 ==> text::signed_decimal(n).len() > 1 && text::signed_decimal(n)[0] == '-' && number_in(
            text::signed_decimal(n).drop_first(),
        ) == -n,
{
    reveal_strlit("-");
    if n < 0 {
        lemma_decimal_stands_for((-n) as nat);
        assert(text::signed_decimal(n).drop_first() =~= text::decimal((-n) as nat));
    }
}

/// Texts of values in memory, in their order, as contracts speak of them.
pub proof fn lemma_text_views(
    texts: Seq<String>,
    options: Seq<Option<String>>,
    one: Option<String>,
    r: Result<String, String>,
)
    ensures
        text::text_views(texts).len() == texts.len(),
        forall|i: int| 0 <= i < texts.len() ==> #[trigger] text::text_views(texts)[i] == texts[i]@,
        text::option_view(one) is Some <==> one is Some,
        one is Some ==> text::option_view(one)->0 == one->0@,
        text::option_views(options).len() == options.len(),
        forall|i: int|
            0 <= i < options.len() ==> #[trigger] text::option_views(options)[i]
                == text::option_view(options[i]),
        r matches Ok(text) ==> text::outcome_view(r) == Ok::<Seq<char>, Seq<char>>(text@),
        r matches Err(e) ==> text::outcome_view(r) == Err::<Seq<char>, Seq<char>>(e@),
{
}

/// Whether every character is whitespace.
pub open spec fn is_blank(of: Seq<char>) -> bool {
    forall|i: int| 0 <= i < of.len() ==> text::is_whitespace(#[trigger] of[i])
}

/// A trimmed text is the text but for whitespace before and behind it, and has none at its ends.
pub proof fn lemma_trimmed(of: Seq<char>) -> (r: (Seq<char>, Seq<char>))
    ensures
        of == r.0 + text::trimmed(of) + r.1,
        is_blank(r.0),
        is_blank(r.1),
        text::trimmed(of).len() > 0 ==> !text::is_whitespace(text::trimmed(of).first())
            && !text::is_whitespace(text::trimmed(of).last()),
    decreases of.len(),
{
    if of.len() == 0 {
        assert(of =~= Seq::<char>::empty() + text::trimmed(of) + Seq::<char>::empty());
        (Seq::empty(), Seq::empty())
    } else if text::is_whitespace(of.first()) {
        let (a, b) = lemma_trimmed(of.drop_first());
        let before = seq![of.first()] + a;
        let inner = text::trimmed(of.drop_first());
        assert(seq![of.first()] + of.drop_first() =~= of);
        assert(seq![of.first()] + (a + inner + b) =~= before + inner + b);
        (before, b)
    } else if text::is_whitespace(of.last()) {
        let (a, b) = lemma_trimmed(of.drop_last());
        let behind = b.push(of.last());
        let inner = text::trimmed(of.drop_last());
        assert(of.drop_last().push(of.last()) =~= of);
        assert((a + inner + b).push(of.last()) =~= a + inner + behind);
        (a, behind)
    } else {
        assert(of =~= Seq::<char>::empty() + text::trimmed(of) + Seq::<char>::empty());
        (Seq::empty(), Seq::empty())
    }
}

} // verus!
