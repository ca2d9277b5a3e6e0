//! Conversions of whole sequences.

use vstd::prelude::*;

verus! {

/// The conversion of every item, in order, or the error of the first that has none.
pub open spec fn decode_all<A, B, E>(items: Seq<A>, decode: spec_fn(A) -> Result<B, E>) -> Result<
    Seq<B>,
    E,
>
    decreases items.len(),
{
    if items.len() == 0 {
        Ok(Seq::empty())
    } else {
        match decode_all(items.drop_last(), decode) {
            Err(e) => Err(e),
            Ok(done) => match decode(items.last()) {
                Err(e) => Err(e),
                Ok(item) => Ok(done.push(item)),
            },
        }
    }
}

/// An error among the first items is the error of all.
pub proof fn lemma_decode_all_prefix<A, B, E>(
    items: Seq<A>,
    decode: spec_fn(A) -> Result<B, E>,
    n: int,
)
    requires
        0 <= n <= items.len(),
        decode_all(items.take(n), decode) is Err,
    ensures
        decode_all(items, decode) == decode_all(items.take(n), decode),
    decreases items.len() - n,
{
    if n < items.len() {
        assert(items.take(n + 1).drop_last() =~= items.take(n));
        lemma_decode_all_prefix(items, decode, n + 1);
    } else {
        assert(items.take(n) =~= items);
    }
}

/// Items that are read back from their encodings are the items that were encoded.
pub proof fn lemma_decode_all_encoded<A, B, E>(
    items: Seq<B>,
    encode: spec_fn(B) -> A,
    decode: spec_fn(A) -> Result<B, E>,
)
    requires
        forall|i: int|
            0 <= i < items.len() ==> decode(encode(#[trigger] items[i])) == Ok::<B, E>(items[i]),
    ensures
        decode_all(items.map_values(encode), decode) == Ok::<Seq<B>, E>(items),
{
    let same = |item: B| item;
    lemma_decode_all_kept(items, encode, decode, same);
    assert(items.map_values(same) =~= items);
}

/// Items that are read back from their encodings are what each is kept as.
pub proof fn lemma_decode_all_kept<A, B, E>(
    items: Seq<B>,
    encode: spec_fn(B) -> A,
    decode: spec_fn(A) -> Result<B, E>,
    kept: spec_fn(B) -> B,
)
    requires
        forall|i: int|
            0 <= i < items.len() ==> decode(encode(#[trigger] items[i])) == Ok::<B, E>(
                kept(items[i]),
            ),
    ensures
        decode_all(items.map_values(encode), decode) == Ok::<Seq<B>, E>(items.map_values(kept)),
    decreases items.len(),
{
    let encoded = items.map_values(encode);
    if items.len() > 0 {
        let rest = items.drop_last();
        assert forall|i: int| 0 <= i < rest.len() implies decode(encode(#[trigger] rest[i])) == Ok::<
            B,
            E,
        >(kept(rest[i])) by {
            assert(rest[i] == items[i]);
        }
        lemma_decode_all_kept(rest, encode, decode, kept);
        assert(encoded.drop_last() =~= rest.map_values(encode));
        assert(items.last() == items[items.len() - 1]);
        assert(rest.map_values(kept).push(kept(items.last())) =~= items.map_values(kept));
    } else {
        assert(items.map_values(kept) =~= Seq::empty());
    }
}

/// The items that come out are the conversions of the items that went in.
pub proof fn lemma_decode_all_items<A, B, E>(items: Seq<A>, decode: spec_fn(A) -> Result<B, E>)
    requires
        decode_all(items, decode) is Ok,
    ensures
        decode_all(items, decode)->Ok_0.len() == items.len(),
        forall|i: int|
            0 <= i < items.len() ==> decode(#[trigger] items[i]) == Ok::<B, E>(
                decode_all(items, decode)->Ok_0[i],
            ),
    decreases items.len(),
{
    if items.len() > 0 {
        let rest = items.drop_last();
        lemma_decode_all_items(rest, decode);
        assert forall|i: int| 0 <= i < items.len() implies decode(#[trigger] items[i]) == Ok::<B, E>(
            decode_all(items, decode)->Ok_0[i],
        ) by {
            if i < rest.len() {
                assert(rest[i] == items[i]);
            }
        }
    }
}

/// A sequence has a conversion where every item has one.
pub proof fn lemma_decode_all_ok<A, B, E>(items: Seq<A>, decode: spec_fn(A) -> Result<B, E>)
    requires
        forall|i: int| 0 <= i < items.len() ==> decode(#[trigger] items[i]) is Ok,
    ensures
        decode_all(items, decode) is Ok,
    decreases items.len(),
{
    if items.len() > 0 {
        let rest = items.drop_last();
        assert forall|i: int| 0 <= i < rest.len() implies decode(#[trigger] rest[i]) is Ok by {
            assert(rest[i] == items[i]);
        }
        lemma_decode_all_ok(rest, decode);
        assert(items.last() == items[items.len() - 1]);
    }
}

/// Items that are encoded back from their conversions are the items that were converted.
pub proof fn lemma_encode_all_decoded<A, B, E>(
    items: Seq<A>,
    decode: spec_fn(A) -> Result<B, E>,
    encode: spec_fn(B) -> A,
)
    requires
        decode_all(items, decode) is Ok,
        forall|i: int|
            0 <= i < items.len() && decode(#[trigger] items[i]) is Ok ==> encode(
                decode(items[i])->Ok_0,
            ) == items[i],
    ensures
        decode_all(items, decode)->Ok_0.map_values(encode) == items,
{
    lemma_decode_all_items(items, decode);
    let done = decode_all(items, decode)->Ok_0;
    assert forall|i: int| 0 <= i < items.len() implies done.map_values(encode)[i]
        == items[i] by {
        assert(decode(items[i]) == Ok::<B, E>(done[i]));
    }
    assert(done.map_values(encode) =~= items);
}

} // verus!
