//! Which JSON texts are read back as they are.

use vstd::prelude::*;

use crate::json;
use crate::text;

verus! {

/// Whether a reader that comes upon `piece` outside of a string leaves it outside of a string and as
/// deep as before, and does not stop in it where there is room for this many levels.
pub open spec fn passes(piece: Seq<char>, levels: int) -> bool {
    forall|before: Seq<char>, after: Seq<char>, depth: int|
        depth + levels <= 127 ==> #[trigger] json::readable_from(
            before + piece + after,
            before.len() as int,
            false,
            depth,
        ) == json::readable_from(
            before + piece + after,
            (before.len() + piece.len()) as int,
            false,
            depth,
        )
}

proof fn lemma_escaped(all: Seq<char>, i: int, c: char, depth: int)
    requires
        0 <= i,
        i + json::escaped(c).len() <= all.len(),
        all.subrange(i, i + json::escaped(c).len()) == json::escaped(c),
    ensures
        json::readable_from(all, i, true, depth) == json::readable_from(
            all,
            i + json::escaped(c).len(),
            true,
            depth,
        ),
{
    reveal_with_fuel(json::readable_from, 6);
    let piece = json::escaped(c);
    assert forall|j: int| 0 <= j < piece.len() implies all[i + j] == #[trigger] piece[j] by {
        assert(all.subrange(i, i + piece.len())[j] == all[i + j]);
    }
    assert(all[i] == piece[0]);
    if piece.len() == 6 {
        assert(0 <= c as int / 16 < 2);
        assert(0 <= c as int % 16 < 16);
        assert(all[i + 2] == piece[2]);
        assert(all[i + 3] == piece[3]);
        assert(all[i + 4] == piece[4]);
        assert(all[i + 5] == piece[5]);
    }
}

proof fn lemma_all_escaped(all: Seq<char>, i: int, string: Seq<char>, depth: int)
    requires
        0 <= i,
        i + json::all_escaped(string).len() <= all.len(),
        all.subrange(i, i + json::all_escaped(string).len()) == json::all_escaped(string),
    ensures
        json::readable_from(all, i, true, depth) == json::readable_from(
            all,
            i + json::all_escaped(string).len(),
            true,
            depth,
        ),
    decreases string.len(),
{
    if string.len() > 0 {
        let front = json::all_escaped(string.drop_last());
        let last = json::escaped(string.last());
        let whole = all.subrange(i, i + front.len() + last.len());
        assert(all.subrange(i, i + front.len()) =~= front) by {
            assert(whole.subrange(0, front.len() as int) =~= front);
        }
        lemma_all_escaped(all, i, string.drop_last(), depth);
        let k = i + front.len();
        assert(all.subrange(k, k + last.len()) =~= last) by {
            assert(whole.subrange(front.len() as int, (front.len() + last.len()) as int) =~= last);
        }
        lemma_escaped(all, k, string.last(), depth);
    }
}

/// A string passes.
pub proof fn lemma_quoted_passes(string: Seq<char>)
    ensures
        passes(json::json_quoted(string), 0),
{
    let piece = json::json_quoted(string);
    let inner = json::all_escaped(string);
    assert forall|before: Seq<char>, after: Seq<char>, depth: int| depth + 0 <= 127 implies
        #[trigger] json::readable_from(
        before + piece + after,
        before.len() as int,
        false,
        depth,
    ) == json::readable_from(
        before + piece + after,
        (before.len() + piece.len()) as int,
        false,
        depth,
    ) by {
        let all = before + piece + after;
        let i = before.len() as int;
        assert(all[i] == piece[0]);
        assert(all.subrange(i + 1, i + 1 + inner.len()) =~= inner) by {
            assert forall|j: int| 0 <= j < inner.len() implies all.subrange(
                i + 1,
                i + 1 + inner.len(),
            )[j] == inner[j] by {
                assert(all[i + 1 + j] == piece[1 + j]);
            }
        }
        lemma_all_escaped(all, i + 1, string, depth);
        assert(all[i + 1 + inner.len()] == piece[(1 + inner.len()) as int]);
    }
}

/// A character that neither opens nor closes anything, nor stands in a number, passes.
pub proof fn lemma_char_passes(c: char)
    requires
        c != '"' && c != '{' && c != '[' && c != '}' && c != ']' && c != '.' && c != 'e',
    ensures
        passes(seq![c], 0),
{
    let piece = seq![c];
    assert forall|before: Seq<char>, after: Seq<char>, depth: int| depth + 0 <= 127 implies
        #[trigger] json::readable_from(
        before + piece + after,
        before.len() as int,
        false,
        depth,
    ) == json::readable_from(
        before + piece + after,
        (before.len() + piece.len()) as int,
        false,
        depth,
    ) by {
        assert((before + piece + after)[before.len() as int] == c);
    }
}

/// What passes with fewer levels passes with more.
pub proof fn lemma_more_levels_pass(piece: Seq<char>, levels: int, more: int)
    requires
        passes(piece, levels),
        levels <= more,
    ensures
        passes(piece, more),
{
}

/// One piece that passes after another passes.
pub proof fn lemma_both_pass(a: Seq<char>, b: Seq<char>, levels: int)
    requires
        passes(a, levels),
        passes(b, levels),
    ensures
        passes(a + b, levels),
{
    let piece = a + b;
    assert forall|before: Seq<char>, after: Seq<char>, depth: int| depth + levels <= 127 implies
        #[trigger] json::readable_from(
        before + piece + after,
        before.len() as int,
        false,
        depth,
    ) == json::readable_from(
        before + piece + after,
        (before.len() + piece.len()) as int,
        false,
        depth,
    ) by {
        let all = before + piece + after;
        assert(all =~= before + a + (b + after));
        assert(all =~= (before + a) + b + after);
        assert(json::readable_from(before + a + (b + after), before.len() as int, false, depth)
            == json::readable_from(all, (before.len() + a.len()) as int, false, depth));
        assert(json::readable_from(
            (before + a) + b + after,
            (before + a).len() as int,
            false,
            depth,
        ) == json::readable_from(all, ((before + a).len() + b.len()) as int, false, depth));
    }
}

/// A piece that passes passes in braces, one level deeper.
pub proof fn lemma_braces_pass(inner: Seq<char>, levels: int)
    requires
        passes(inner, levels),
        levels >= 0,
    ensures
        passes("{"@ + inner + "}"@, levels + 1),
{
    reveal_strlit("{");
    reveal_strlit("}");
    let piece = "{"@ + inner + "}"@;
    assert forall|before: Seq<char>, after: Seq<char>, depth: int| depth + (levels + 1)
        <= 127 implies #[trigger] json::readable_from(
        before + piece + after,
        before.len() as int,
        false,
        depth,
    ) == json::readable_from(
        before + piece + after,
        (before.len() + piece.len()) as int,
        false,
        depth,
    ) by {
        let all = before + piece + after;
        let i = before.len() as int;
        assert(all[i] == '{');
        assert(all =~= (before + "{"@) + inner + ("}"@ + after));
        assert(json::readable_from(
            (before + "{"@) + inner + ("}"@ + after),
            (before + "{"@).len() as int,
            false,
            depth + 1,
        ) == json::readable_from(
            all,
            ((before + "{"@).len() + inner.len()) as int,
            false,
            depth + 1,
        ));
        assert(all[i + 1 + inner.len()] == '}');
    }
}

/// A piece that passes passes in brackets, one level deeper.
pub proof fn lemma_brackets_pass(inner: Seq<char>, levels: int)
    requires
        passes(inner, levels),
        levels >= 0,
    ensures
        passes("["@ + inner + "]"@, levels + 1),
{
    reveal_strlit("[");
    reveal_strlit("]");
    let piece = "["@ + inner + "]"@;
    assert forall|before: Seq<char>, after: Seq<char>, depth: int| depth + (levels + 1)
        <= 127 implies #[trigger] json::readable_from(
        before + piece + after,
        before.len() as int,
        false,
        depth,
    ) == json::readable_from(
        before + piece + after,
        (before.len() + piece.len()) as int,
        false,
        depth,
    ) by {
        let all = before + piece + after;
        let i = before.len() as int;
        assert(all[i] == '[');
        assert(all =~= (before + "["@) + inner + ("]"@ + after));
        assert(json::readable_from(
            (before + "["@) + inner + ("]"@ + after),
            (before + "["@).len() as int,
            false,
            depth + 1,
        ) == json::readable_from(
            all,
            ((before + "["@).len() + inner.len()) as int,
            false,
            depth + 1,
        ));
        assert(all[i + 1 + inner.len()] == ']');
    }
}

/// Pieces that pass pass with commas between them.
pub proof fn lemma_joined_pass(parts: Seq<Seq<char>>, levels: int)
    requires
        forall|i: int| 0 <= i < parts.len() ==> passes(#[trigger] parts[i], levels),
        levels >= 0,
    ensures
        passes(text::join(parts, ","@), levels),
    decreases parts.len(),
{
    reveal_strlit(",");
    if parts.len() == 1 {
        assert(passes(parts[0], levels));
    } else if parts.len() > 1 {
        let front = parts.drop_last();
        assert forall|i: int| 0 <= i < front.len() implies passes(#[trigger] front[i], levels) by {
            assert(front[i] == parts[i]);
        }
        lemma_joined_pass(front, levels);
        assert(","@ =~= seq![',']);
        lemma_char_passes(',');
        lemma_more_levels_pass(","@, 0, levels);
        lemma_both_pass(text::join(front, ","@), ","@, levels);
        assert(passes(parts[parts.len() - 1], levels));
        lemma_both_pass(text::join(front, ","@) + ","@, parts.last(), levels);
    }
}

/// An object whose members pass passes, one level deeper.
pub proof fn lemma_object_passes(members: Seq<(Seq<char>, Seq<char>)>, levels: int)
    requires
        forall|i: int| 0 <= i < members.len() ==> passes((#[trigger] members[i]).1, levels),
        levels >= 0,
    ensures
        passes(json::object_text(members), levels + 1),
{
    reveal_strlit(":");
    let parts = members.map_values(
        |m: (Seq<char>, Seq<char>)| json::json_quoted(m.0) + ":"@ + m.1,
    );
    assert(":"@ =~= seq![':']);
    lemma_char_passes(':');
    lemma_more_levels_pass(":"@, 0, levels);
    assert forall|i: int| 0 <= i < parts.len() implies passes(#[trigger] parts[i], levels) by {
        let m = members[i];
        lemma_quoted_passes(m.0);
        lemma_more_levels_pass(json::json_quoted(m.0), 0, levels);
        lemma_both_pass(json::json_quoted(m.0), ":"@, levels);
        lemma_both_pass(json::json_quoted(m.0) + ":"@, m.1, levels);
    }
    lemma_joined_pass(parts, levels);
    lemma_braces_pass(text::join(parts, ","@), levels);
}

/// An array whose items pass passes, one level deeper.
pub proof fn lemma_array_passes(items: Seq<Seq<char>>, levels: int)
    requires
        forall|i: int| 0 <= i < items.len() ==> passes(#[trigger] items[i], levels),
        levels >= 0,
    ensures
        passes(json::array_text(items), levels + 1),
{
    lemma_joined_pass(items, levels);
    lemma_brackets_pass(text::join(items, ","@), levels);
}

/// `null` passes.
pub proof fn lemma_null_passes()
    ensures
        passes("null"@, 0),
{
    reveal_strlit("null");
    lemma_char_passes('n');
    lemma_char_passes('u');
    lemma_char_passes('l');
    lemma_both_pass(seq!['n'], seq!['u'], 0);
    lemma_both_pass(seq!['n'] + seq!['u'], seq!['l'], 0);
    lemma_both_pass(seq!['n'] + seq!['u'] + seq!['l'], seq!['l'], 0);
    assert("null"@ =~= seq!['n'] + seq!['u'] + seq!['l'] + seq!['l']);
}

/// A text that passes can be read back as it is.
pub proof fn lemma_passing_is_readable(text: Seq<char>, levels: int)
    requires
        passes(text, levels),
        levels <= 127,
    ensures
        json::readable(text),
{
    let empty = Seq::<char>::empty();
    assert(empty + text + empty =~= text);
    assert(json::readable_from(empty + text + empty, empty.len() as int, false, 0)
        == json::readable_from(text, (empty.len() + text.len()) as int, false, 0));
}

} // verus!
