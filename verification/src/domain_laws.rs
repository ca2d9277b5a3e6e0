//! How names are spelled, and in which order they and blockstamps stand.

use vstd::prelude::*;

use crate::domain;
use crate::domain::Fqdn;
use crate::domain::FqdnError;
use crate::octets;
use crate::text;
use crate::text_laws;
use crate::transaction;
use crate::transaction::Blockstamp;
use crate::transaction::BlockstampView;

verus! {

/// A character in lower case: 32 above where it is one of the 26 capital letters, else itself.
pub open spec fn small(c: char) -> char {
    if 65 <= c as int <= 90 {
        (c as int + 32) as char
    } else {
        c
    }
}

/// A text in lower case.
pub open spec fn in_small(of: Seq<char>) -> Seq<char> {
    Seq::new(of.len(), |i: int| small(of[i]))
}

/// Whether a label may be written with a character: a letter or a digit of ASCII, `-`, `_` or `#`.
pub open spec fn is_spelled_with(c: char) -> bool {
    ||| 97 <= c as int <= 122
    ||| 65 <= c as int <= 90
    ||| 48 <= c as int <= 57
    ||| c == '-'
    ||| c == '_'
    ||| c == '#'
}

/// Whether a text is the spelling of a label: 1 to 255 characters that a label may be written with.
pub open spec fn spells_label(of: Seq<char>) -> bool {
    &&& 1 <= of.len() <= 255
    &&& forall|i: int| 0 <= i < of.len() ==> is_spelled_with(#[trigger] of[i])
}

/// A label is what it is the spelling of in lower case, and exactly the spellings of labels are.
pub proof fn lemma_label_spelled(of: Seq<char>)
    ensures
        domain::checked_label(of) is Ok <==> spells_label(of),
        domain::checked_label(of) is Ok ==> domain::checked_label(of)->Ok_0 == in_small(of),
        of.len() == 0 ==> domain::checked_label(of) == Err::<Seq<char>, FqdnError>(
            FqdnError::EmptyLabel,
        ),
        0 < of.len() <= 63 && (exists|i: int|
            0 <= i < of.len() && !is_spelled_with(#[trigger] of[i])) ==> domain::checked_label(of)
            == Err::<Seq<char>, FqdnError>(FqdnError::InvalidLabelChar),
        of.len() > 255 && (forall|i: int|
            0 <= i < of.len() ==> is_spelled_with(#[trigger] of[i])) ==> domain::checked_label(of)
            == Err::<Seq<char>, FqdnError>(FqdnError::TooLongLabel),
{
    assert forall|c: char| #[trigger] is_spelled_with(c) <==> domain::label_char(c) by {}
    if of.len() == 0 {
        assert(vstd::utf8::encode_utf8(of).len() == 0);
    }
    if forall|i: int| 0 <= i < of.len() ==> is_spelled_with(#[trigger] of[i]) {
        assert(vstd::utf8::is_ascii_chars(of)) by {
            assert forall|j: int| 0 <= j < of.len() implies '\0' <= #[trigger] of[j]
                <= '\u{7f}' by {
                assert(is_spelled_with(of[j]));
            }
        }
        vstd::utf8::is_ascii_chars_encode_utf8(of);
        assert forall|i: int| 0 <= i < of.len() implies domain::label_char(#[trigger] of[i]) by {
            assert(is_spelled_with(of[i]));
        }
        if domain::checked_label(of) is Ok {
            assert(domain::checked_label(of)->Ok_0 =~= in_small(of));
        }
    } else {
        let i = choose|i: int| 0 <= i < of.len() && !is_spelled_with(#[trigger] of[i]);
        assert(!domain::label_char(of[i]));
        lemma_utf8_at_most_four(of);
    }
}

/// A text takes at most four bytes for each character.
proof fn lemma_utf8_at_most_four(of: Seq<char>)
    ensures
        vstd::utf8::encode_utf8(of).len() <= 4 * of.len(),
    decreases of.len(),
{
    if of.len() > 0 {
        lemma_utf8_at_most_four(of.drop_first());
    }
}

proof fn lemma_checked_pieces(pieces: Seq<Seq<char>>)
    ensures
        domain::checked_labels(pieces) is Ok <==> (forall|i: int|
            0 <= i < pieces.len() ==> spells_label(#[trigger] pieces[i])),
        domain::checked_labels(pieces) matches Ok(labels) ==> {
            &&& labels.len() == pieces.len()
            &&& forall|i: int|
                0 <= i < pieces.len() ==> #[trigger] labels[i] == in_small(pieces[i])
        },
        domain::checked_labels(pieces) matches Err(e) ==> exists|i: int|
            0 <= i < pieces.len() && domain::checked_label(#[trigger] pieces[i]) == Err::<
                Seq<char>,
                FqdnError,
            >(e) && (forall|j: int| 0 <= j < i ==> spells_label(#[trigger] pieces[j])),
    decreases pieces.len(),
{
    if pieces.len() > 0 {
        let front = pieces.drop_last();
        let n = pieces.len() - 1;
        lemma_checked_pieces(front);
        lemma_label_spelled(pieces.last());
        if domain::checked_labels(front) is Err {
            let e = domain::checked_labels(front)->Err_0;
            let i = choose|i: int|
                0 <= i < front.len() && domain::checked_label(#[trigger] front[i]) == Err::<
                    Seq<char>,
                    FqdnError,
                >(e) && (forall|j: int| 0 <= j < i ==> spells_label(#[trigger] front[j]));
            assert(pieces[i] == front[i]);
            lemma_label_spelled(pieces[i]);
            assert forall|j: int| 0 <= j < i implies spells_label(#[trigger] pieces[j]) by {
                assert(spells_label(front[j]));
            }
        } else {
            assert forall|j: int| 0 <= j < n implies spells_label(#[trigger] pieces[j]) by {
                assert(spells_label(front[j]));
            }
            assert(pieces[n] == pieces.last());
            if domain::checked_labels(pieces) is Ok {
                let labels = domain::checked_labels(pieces)->Ok_0;
                assert forall|i: int| 0 <= i < pieces.len() implies #[trigger] labels[i]
                    == in_small(pieces[i]) by {
                    if i < n {
                        assert(pieces[i] == front[i]);
                    }
                }
            }
        }
    }
}

/// A name is parsed exactly where it ends in a dot and every piece between dots before it is the
/// spelling of a label; `.` alone is the root.
pub proof fn lemma_when_parsed(name: Seq<char>)
    ensures
        domain::parsed_name(name) is Ok <==> {
            &&& name.len() > 0
            &&& name.last() == '.'
            &&& name.len() > 1 ==> (forall|i: int|
                0 <= i < text::split(name.drop_last(), '.').len() ==> spells_label(
                    #[trigger] text::split(name.drop_last(), '.')[i],
                ))
        },
        name.len() == 0 || name.last() != '.' ==> domain::parsed_name(name) == Err::<
            Seq<Seq<char>>,
            FqdnError,
        >(FqdnError::TrailingDotMissing),
        name == seq!['.'] ==> domain::parsed_name(name) == Ok::<Seq<Seq<char>>, FqdnError>(
            Seq::empty(),
        ),
        name.len() > 1 && name.last() == '.' && domain::parsed_name(name) is Err ==> exists|i: int|
            0 <= i < text::split(name.drop_last(), '.').len() && domain::checked_label(
                #[trigger] text::split(name.drop_last(), '.')[i],
            ) == Err::<Seq<char>, FqdnError>(domain::parsed_name(name)->Err_0) && (forall|j: int|
                0 <= j < i ==> spells_label(#[trigger] text::split(name.drop_last(), '.')[j])),
{
    if name.len() > 1 && name.last() == '.' {
        lemma_checked_pieces(text::split(name.drop_last(), '.'));
    }
}

proof fn lemma_join_small(pieces: Seq<Seq<char>>, labels: Seq<Seq<char>>)
    requires
        labels.len() == pieces.len(),
        forall|i: int| 0 <= i < pieces.len() ==> #[trigger] labels[i] == in_small(pieces[i]),
    ensures
        text::join(labels, "."@) == in_small(text::join(pieces, "."@)),
    decreases pieces.len(),
{
    reveal_strlit(".");
    if pieces.len() == 0 {
        assert(text::join(labels, "."@) =~= in_small(text::join(pieces, "."@)));
    } else if pieces.len() == 1 {
        assert(labels[0] == in_small(pieces[0]));
    } else {
        let a = pieces.drop_last();
        let b = labels.drop_last();
        assert forall|i: int| 0 <= i < a.len() implies #[trigger] b[i] == in_small(a[i]) by {
            assert(labels[i] == in_small(pieces[i]));
        }
        lemma_join_small(a, b);
        let n = pieces.len() - 1;
        assert(labels[n] == in_small(pieces[n]));
        assert(text::join(labels, "."@) =~= in_small(text::join(pieces, "."@)));
    }
}

/// A parsed name, written again, is the name that was parsed in lower case: nothing is lost, added or
/// moved.
pub proof fn lemma_parsed_is_written(name: Seq<char>)
    requires
        domain::parsed_name(name) is Ok,
    ensures
        domain::name_text(domain::parsed_name(name)->Ok_0) == in_small(name),
{
    reveal_strlit(".");
    let labels = domain::parsed_name(name)->Ok_0;
    if name.len() == 1 {
        assert(domain::name_text(labels) =~= in_small(name));
    } else {
        let body = name.drop_last();
        let pieces = text::split(body, '.');
        lemma_checked_pieces(pieces);
        assert("."@ =~= seq!['.']);
        text_laws::lemma_join_split(body, '.', "."@);
        lemma_join_small(pieces, labels);
        assert(domain::name_text(labels) =~= in_small(name));
    }
}

/// A name in the order of DNS ends in a dot, and the pieces between its dots are its labels in turn.
pub proof fn lemma_name_is_its_labels(labels: Seq<Seq<char>>)
    requires
        domain::valid_labels(labels),
    ensures
        labels.len() == 0 ==> domain::name_text(labels) == seq!['.'],
        labels.len() > 0 ==> domain::name_text(labels).last() == '.' && text::split(
            domain::name_text(labels).drop_last(),
            '.',
        ) == labels,
{
    reveal_strlit(".");
    if labels.len() > 0 {
        domain::lemma_labels_lack_dots(labels);
        assert("."@ =~= seq!['.']);
        text::lemma_split_join(labels, '.', "."@);
        assert(domain::name_text(labels).drop_last() =~= text::join(labels, "."@));
    } else {
        assert(domain::name_text(labels) =~= seq!['.']);
    }
}

/// A name from the top level down begins with a dot, and the pieces between its other dots are its
/// labels from the last to the first.
pub proof fn lemma_prefix_order_is_reverse(labels: Seq<Seq<char>>)
    requires
        domain::valid_labels(labels),
        labels.len() > 0,
    ensures
        domain::prefix_order_text(labels)[0] == '.',
        text::split(domain::prefix_order_text(labels).skip(1), '.').len() == labels.len(),
        forall|i: int|
            0 <= i < labels.len() ==> #[trigger] text::split(
                domain::prefix_order_text(labels).skip(1),
                '.',
            )[i] == labels[labels.len() - 1 - i],
{
    reveal_strlit(".");
    let backward = labels.reverse();
    domain::lemma_labels_lack_dots(labels);
    assert forall|i: int| 0 <= i < backward.len() implies text::lacks(
        #[trigger] backward[i],
        '.',
    ) by {
        assert(backward[i] == labels[labels.len() - 1 - i]);
    }
    assert("."@ =~= seq!['.']);
    text::lemma_split_join(backward, '.', "."@);
    assert(domain::prefix_order_text(labels).skip(1) =~= text::join(backward, "."@));
}

/// A name that is written from the top level down is parsed as the pieces between its dots from the
/// last to the first, in lower case, exactly where each is the spelling of a label. Dots in front do
/// not matter, and nothing at all is the root.
pub proof fn lemma_prefix_order_parsed(name: Seq<char>)
    ensures
        domain::parsed_prefix_order(seq!['.'] + name) == domain::parsed_prefix_order(name),
        name.len() == 0 ==> domain::parsed_prefix_order(name) == Ok::<Seq<Seq<char>>, FqdnError>(
            Seq::empty(),
        ),
        name.len() > 0 && name[0] != '.' ==> {
            let pieces = text::split(name, '.');
            &&& domain::parsed_prefix_order(name) is Ok <==> (forall|i: int|
                0 <= i < pieces.len() ==> spells_label(#[trigger] pieces[i]))
            &&& domain::parsed_prefix_order(name) matches Ok(labels) ==> {
                &&& labels.len() == pieces.len()
                &&& forall|i: int|
                    0 <= i < labels.len() ==> #[trigger] labels[i] == in_small(
                        pieces[pieces.len() - 1 - i],
                    )
            }
        },
{
    reveal_strlit(".");
    let dotted = seq!['.'] + name;
    assert("."@ =~= seq!['.']);
    assert("."@.is_prefix_of(dotted)) by {
        assert(dotted.subrange(0, 1) =~= "."@);
    }
    assert(dotted.skip(1) =~= name);
    if name.len() == 0 {
        assert(!"."@.is_prefix_of(name));
        assert(text::split(name, '.').reverse() =~= seq![Seq::<char>::empty()]);
        assert(text::join(seq![Seq::<char>::empty()], "."@) =~= Seq::empty());
        assert(Seq::<char>::empty() + "."@ =~= "."@);
    } else if name[0] != '.' {
        assert(!"."@.is_prefix_of(name)) by {
            if "."@.is_prefix_of(name) {
                assert(name.subrange(0, 1)[0] == name[0]);
            }
        }
        let pieces = text::split(name, '.');
        let backward = pieces.reverse();
        text_laws::lemma_join_split(name, '.', "."@);
        assert forall|i: int| 0 <= i < backward.len() implies text::lacks(
            #[trigger] backward[i],
            '.',
        ) by {
            assert(backward[i] == pieces[pieces.len() - 1 - i]);
        }
        text::lemma_split_join(backward, '.', "."@);
        let body = text::join(backward, "."@);
        assert(body.len() > 0) by {
            if body.len() == 0 {
                assert(body =~= Seq::<char>::empty());
                assert(backward =~= seq![Seq::<char>::empty()]);
                assert(pieces =~= backward.reverse());
                assert(pieces =~= seq![Seq::<char>::empty()]);
                assert(text::join(pieces, "."@) == pieces[0]);
            }
        }
        assert((body + "."@).drop_last() =~= body);
        lemma_checked_pieces(backward);
        assert forall|i: int| 0 <= i < pieces.len() implies backward[pieces.len() - 1 - i]
            == #[trigger] pieces[i] by {}
        if domain::parsed_prefix_order(name) is Ok {
            assert forall|i: int| 0 <= i < pieces.len() implies spells_label(
                #[trigger] pieces[i],
            ) by {
                assert(spells_label(backward[pieces.len() - 1 - i]));
            }
            let labels = domain::parsed_prefix_order(name)->Ok_0;
            assert forall|i: int| 0 <= i < labels.len() implies #[trigger] labels[i] == in_small(
                pieces[pieces.len() - 1 - i],
            ) by {
                assert(labels[i] == in_small(backward[i]));
            }
        }
        if forall|i: int| 0 <= i < pieces.len() ==> spells_label(#[trigger] pieces[i]) {
            assert forall|i: int| 0 <= i < backward.len() implies spells_label(
                #[trigger] backward[i],
            ) by {
                assert(spells_label(pieces[pieces.len() - 1 - i]));
            }
        }
    }
}

/// From the top level down, a domain begins with every domain that it lies below.
pub proof fn lemma_parent_is_prefix(below: Seq<Seq<char>>, parent: Seq<Seq<char>>)
    requires
        below.len() > 0,
        parent.len() > 0,
    ensures
        domain::prefix_order_text(below + parent) == domain::prefix_order_text(parent) + "."@
            + text::join(below.reverse(), "."@),
        domain::prefix_order_text(parent).is_prefix_of(domain::prefix_order_text(below + parent)),
{
    let whole = domain::prefix_order_text(below + parent);
    let top = domain::prefix_order_text(parent);
    assert((below + parent).reverse() =~= parent.reverse() + below.reverse());
    text_laws::lemma_join_in_turn(parent.reverse(), below.reverse(), "."@);
    assert(whole =~= top + "."@ + text::join(below.reverse(), "."@));
    assert(whole.subrange(0, top.len() as int) =~= top);
}

/// Bytes stand in the order of the first byte in which they differ; what ends before they differ
/// stands first.
pub proof fn lemma_first_difference(a: Seq<u8>, b: Seq<u8>, k: int)
    requires
        0 <= k <= a.len(),
        k < b.len(),
        forall|i: int| 0 <= i < k ==> #[trigger] a[i] == b[i],
        k == a.len() || a[k] < b[k],
    ensures
        octets::lex_less(a, b),
        !octets::lex_less(b, a),
    decreases k,
{
    if k > 0 {
        assert(a[0] == b[0]);
        let x = a.drop_first();
        let y = b.drop_first();
        assert forall|i: int| 0 <= i < k - 1 implies #[trigger] x[i] == y[i] by {
            assert(a[i + 1] == b[i + 1]);
        }
        lemma_first_difference(x, y, k - 1);
    }
}

/// What stands before different bytes does not matter where it is the same.
pub proof fn lemma_same_beginning(x: Seq<u8>, a: Seq<u8>, b: Seq<u8>)
    ensures
        octets::lex_less(x + a, x + b) == octets::lex_less(a, b),
    decreases x.len(),
{
    if x.len() == 0 {
        assert(x + a =~= a);
        assert(x + b =~= b);
    } else {
        lemma_same_beginning(x.drop_first(), a, b);
        assert((x + a).drop_first() =~= x.drop_first() + a);
        assert((x + b).drop_first() =~= x.drop_first() + b);
        assert((x + a)[0] == x[0]);
        assert((x + b)[0] == x[0]);
    }
}

/// Names stand in the order of the first labels in which they differ: the shorter label first, and of
/// two as long the one with the lesser character where they first differ. A name that ends before they
/// differ stands first.
pub proof fn lemma_names_by_label(
    same: Seq<Seq<char>>,
    a: Seq<Seq<char>>,
    b: Seq<Seq<char>>,
    k: int,
)
    requires
        domain::valid_labels(a),
        domain::valid_labels(b),
        b.len() > 0,
        a.len() == 0 || a[0].len() < b[0].len() || (a[0].len() == b[0].len() && 0 <= k < a[0].len()
            && a[0][k] < b[0][k] && forall|i: int| 0 <= i < k ==> #[trigger] a[0][i] == b[0][i]),
    ensures
        domain::name_order(same + a, same + b) == std::cmp::Ordering::Less,
        domain::name_order(same + b, same + a) == std::cmp::Ordering::Greater,
{
    domain::lemma_wire_append(same, a);
    domain::lemma_wire_append(same, b);
    let x = domain::wire(a);
    let y = domain::wire(b);
    domain::lemma_wire_first(b);
    assert(1 <= b[0].len() <= 255);
    assert(y[0] == b[0].len());
    if a.len() == 0 {
        assert(x.len() == 0);
        lemma_first_difference(x, y, 0);
    } else {
        domain::lemma_wire_first(a);
        assert(1 <= a[0].len() <= 255);
        assert(x[0] == a[0].len());
        if a[0].len() < b[0].len() {
            lemma_first_difference(x, y, 0);
        } else {
            lemma_wire_differs(a, b, k);
            lemma_first_difference(x, y, k + 1);
        }
    }
    lemma_same_beginning(domain::wire(same), x, y);
    lemma_same_beginning(domain::wire(same), y, x);
}

proof fn lemma_wire_differs(a: Seq<Seq<char>>, b: Seq<Seq<char>>, k: int)
    requires
        domain::valid_labels(a),
        domain::valid_labels(b),
        a.len() > 0,
        b.len() > 0,
        a[0].len() == b[0].len(),
        0 <= k < a[0].len(),
        a[0][k] < b[0][k],
        forall|i: int| 0 <= i < k ==> #[trigger] a[0][i] == b[0][i],
    ensures
        k + 1 < domain::wire(a).len(),
        k + 1 < domain::wire(b).len(),
        forall|i: int| 0 <= i < k + 1 ==> #[trigger] domain::wire(a)[i] == domain::wire(b)[i],
        domain::wire(a)[k + 1] < domain::wire(b)[k + 1],
{
    domain::lemma_wire_first(a);
    domain::lemma_wire_first(b);
    let x = vstd::utf8::encode_utf8(a[0]);
    let y = vstd::utf8::encode_utf8(b[0]);
    assert(domain::label_char(a[0][k]));
    assert(domain::label_char(b[0][k]));
    assert(domain::wire(a)[k + 1] == x[k]);
    assert(domain::wire(b)[k + 1] == y[k]);
    assert(x[k] == a[0][k] as u8);
    assert(y[k] == b[0][k] as u8);
    assert forall|i: int| 0 <= i < k + 1 implies #[trigger] domain::wire(a)[i] == domain::wire(
        b,
    )[i] by {
        if i > 0 {
            assert(domain::wire(a)[i] == x[i - 1]);
            assert(domain::wire(b)[i] == y[i - 1]);
            assert(a[0][i - 1] == b[0][i - 1]);
            assert(x[i - 1] == a[0][i - 1] as u8);
            assert(y[i - 1] == b[0][i - 1] as u8);
        }
    }
}

/// Blockstamps are the same where both their heights and their hashes are, and values in memory stand
/// in the order of what they hold.
pub proof fn lemma_compared_by_parts(a: Blockstamp, b: Blockstamp, x: Fqdn, y: Fqdn)
    ensures
        vstd::std_specs::cmp::PartialEqSpec::eq_spec(&a, &b) <==> a.block_height == b.block_height
            && a.app_hash@ == b.app_hash@,
        vstd::std_specs::cmp::PartialOrdSpec::partial_cmp_spec(&a, &b) == Some(
            transaction::blockstamp_order(a@, b@),
        ),
        vstd::std_specs::cmp::PartialOrdSpec::partial_cmp_spec(&x, &y) == Some(
            domain::name_order(x@, y@),
        ),
        a@.block_height == a.block_height,
        a@.app_hash == a.app_hash@,
{
}

/// Blockstamps stand in the order of their heights; those of one height in that of the first byte in
/// which their application hashes differ.
pub proof fn lemma_blockstamps_by_height(a: BlockstampView, b: BlockstampView, k: int)
    requires
        a.block_height < b.block_height || (a.block_height == b.block_height && 0 <= k
            < b.app_hash.len() && k <= a.app_hash.len() && (k == a.app_hash.len() || a.app_hash[k]
            < b.app_hash[k]) && forall|i: int|
            0 <= i < k ==> #[trigger] a.app_hash[i] == b.app_hash[i]),
    ensures
        transaction::blockstamp_order(a, b) == std::cmp::Ordering::Less,
        transaction::blockstamp_order(b, a) == std::cmp::Ordering::Greater,
{
    if a.block_height == b.block_height {
        lemma_first_difference(a.app_hash, b.app_hash, k);
    }
}

} // verus!
