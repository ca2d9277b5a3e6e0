//! Text as sequences of characters: numbers in decimal, joining, splitting and trimming.

use vstd::prelude::*;

verus! {

/// The decimal digit of value `d`.
pub open spec fn digit(d: nat) -> char {
    (48 + d) as char
}

/// `n` written in decimal, without leading zeros.
pub open spec fn decimal(n: nat) -> Seq<char>
    decreases n,
{
    if n < 10 {
        seq![digit(n)]
    } else {
        decimal(n / 10).push(digit(n % 10))
    }
}

/// `n` written in decimal, with a leading `-` where it is negative.
pub open spec fn signed_decimal(n: int) -> Seq<char> {
    if n < 0 {
        "-"@ + decimal((-n) as nat)
    } else {
        decimal(n as nat)
    }
}

/// `parts` one after the other, with `separator` between each two of them.
pub open spec fn join(parts: Seq<Seq<char>>, separator: Seq<char>) -> Seq<char>
    decreases parts.len(),
{
    if parts.len() == 0 {
        Seq::empty()
    } else if parts.len() == 1 {
        parts[0]
    } else {
        join(parts.drop_last(), separator) + separator + parts.last()
    }
}

/// The pieces of `text` between the occurrences of `separator`; one piece more than there are
/// separators.
pub open spec fn split(text: Seq<char>, separator: char) -> Seq<Seq<char>>
    decreases text.len(),
{
    if text.len() == 0 {
        seq![Seq::empty()]
    } else if text.last() == separator {
        split(text.drop_last(), separator).push(Seq::empty())
    } else {
        let before = split(text.drop_last(), separator);
        before.drop_last().push(before.last().push(text.last()))
    }
}

/// `text` without any repetition of `prefix` at its start.
pub open spec fn trim_start(text: Seq<char>, prefix: Seq<char>) -> Seq<char>
    decreases text.len(),
{
    if prefix.len() > 0 && prefix.is_prefix_of(text) {
        trim_start(text.skip(prefix.len() as int), prefix)
    } else {
        text
    }
}

/// The characters with the Unicode property `White_Space`.
pub open spec fn is_whitespace(c: char) -> bool {
    let code = c as u32;
    ||| 0x09 <= code <= 0x0d
    ||| code == 0x20
    ||| code == 0x85
    ||| code == 0xa0
    ||| code == 0x1680
    ||| 0x2000 <= code <= 0x200a
    ||| code == 0x2028
    ||| code == 0x2029
    ||| code == 0x202f
    ||| code == 0x205f
    ||| code == 0x3000
}

/// `text` without the whitespace at its start and at its end.
pub open spec fn trimmed(text: Seq<char>) -> Seq<char>
    decreases text.len(),
{
    if text.len() == 0 {
        text
    } else if is_whitespace(text.first()) {
        trimmed(text.drop_first())
    } else if is_whitespace(text.last()) {
        trimmed(text.drop_last())
    } else {
        text
    }
}

/// A text that neither begins nor ends with whitespace is left as it is.
pub proof fn lemma_nothing_to_trim(text: Seq<char>)
    requires
        text.len() > 0 ==> !is_whitespace(text.first()) && !is_whitespace(text.last()),
    ensures
        trimmed(text) == text,
{
}

/// The view of a text that may not be there.
pub open spec fn option_view(text: Option<String>) -> Option<Seq<char>> {
    match text {
        Some(text) => Some(text@),
        None => None,
    }
}

/// The view of a text that may not be there.
pub open spec fn option_str_view(text: Option<&str>) -> Option<Seq<char>> {
    match text {
        Some(text) => Some(text@),
        None => None,
    }
}

/// Texts that may not be there, as contracts speak of them.
pub open spec fn option_views(texts: Seq<Option<String>>) -> Seq<Option<Seq<char>>> {
    texts.map_values(|t: Option<String>| option_view(t))
}

/// A text or what is said of the error, as contracts speak of them.
pub open spec fn outcome_view(r: Result<String, String>) -> Result<Seq<char>, Seq<char>> {
    match r {
        Ok(text) => Ok(text@),
        Err(e) => Err(e@),
    }
}

/// The views of `texts`, in order.
pub open spec fn text_views(texts: Seq<String>) -> Seq<Seq<char>> {
    texts.map_values(|t: String| t@)
}

fn digit_text(d: u64) -> (r: &'static str)
    requires
        d < 10,
    ensures
        r@ == seq![digit(d as nat)],
{
    proof {
        reveal_strlit("0");
        reveal_strlit("1");
        reveal_strlit("2");
        reveal_strlit("3");
        reveal_strlit("4");
        reveal_strlit("5");
        reveal_strlit("6");
        reveal_strlit("7");
        reveal_strlit("8");
        reveal_strlit("9");
    }
    let r = if d == 0 {
        "0"
    } else if d == 1 {
        "1"
    } else if d == 2 {
        "2"
    } else if d == 3 {
        "3"
    } else if d == 4 {
        "4"
    } else if d == 5 {
        "5"
    } else if d == 6 {
        "6"
    } else if d == 7 {
        "7"
    } else if d == 8 {
        "8"
    } else {
        "9"
    };
    assert(r@ =~= seq![digit(d as nat)]);
    r
}

/// Writes `n` in decimal.
pub fn decimal_text(n: u64) -> (r: String)
    ensures
        r@ == decimal(n as nat),
    decreases n,
{
    if n < 10 {
        digit_text(n).to_string()
    } else {
        let mut text = decimal_text(n / 10);
        text.append(digit_text(n % 10));
        assert(text@ =~= decimal(n as nat));
        text
    }
}

/// Writes `n` in decimal, with a leading `-` where it is negative.
pub fn signed_decimal_text(n: i64) -> (r: String)
    ensures
        r@ == signed_decimal(n as int),
{
    if n < 0 {
        let magnitude: u64 = (-(n + 1)) as u64 + 1;
        let mut text = "-".to_string();
        text.append(decimal_text(magnitude).as_str());
        text
    } else {
        decimal_text(n as u64)
    }
}

/// Writes `parts` one after the other, with `separator` between each two of them.
pub fn join_texts(parts: &Vec<String>, separator: &str) -> (r: String)
    ensures
        r@ == join(text_views(parts@), separator@),
{
    let ghost views = text_views(parts@);
    let mut text = String::new();
    let mut i: usize = 0;
    while i < parts.len()
        invariant
            i <= parts.len(),
            views == text_views(parts@),
            text@ == join(views.take(i as int), separator@),
        decreases parts.len() - i,
    {
        assert(views.take(i + 1).drop_last() =~= views.take(i as int));
        if i > 0 {
            text.append(separator);
            text.append(parts[i].as_str());
        } else {
            text = parts[i].as_str().to_string();
        }
        i += 1;
    }
    assert(views.take(parts.len() as int) =~= views);
    text
}

/// A copy of each of `texts`.
pub fn copy_texts(texts: &Vec<String>) -> (r: Vec<String>)
    ensures
        text_views(r@) == text_views(texts@),
{
    let mut copies: Vec<String> = Vec::new();
    let mut i: usize = 0;
    while i < texts.len()
        invariant
            i <= texts.len(),
            copies@.len() == i,
            forall|j: int| 0 <= j < i ==> (#[trigger] copies@[j])@ == texts@[j]@,
        decreases texts.len() - i,
    {
        copies.push(texts[i].as_str().to_string());
        i += 1;
    }
    assert(text_views(copies@) =~= text_views(texts@));
    copies
}

/// Whether `text` begins with `prefix`.
pub fn starts_with(text: &str, prefix: &str) -> (r: bool)
    ensures
        r == prefix@.is_prefix_of(text@),
{
    let length: usize = prefix.unicode_len();
    if text.unicode_len() < length {
        return false;
    }
    let mut i: usize = 0;
    while i < length
        invariant
            i <= length,
            length == prefix@.len(),
            length <= text@.len(),
            forall|j: int| 0 <= j < i ==> text@[j] == prefix@[j],
        decreases length - i,
    {
        if text.get_char(i) != prefix.get_char(i) {
            assert(text@.subrange(0, length as int)[i as int] == text@[i as int]);
            return false;
        }
        i += 1;
    }
    assert(prefix@ =~= text@.subrange(0, length as int));
    true
}

/// Cuts `text` at every `separator`.
pub fn split_text(text: &str, separator: char) -> (r: Vec<String>)
    ensures
        text_views(r@) == split(text@, separator),
        r@.len() > 0,
{
    let length: usize = text.unicode_len();
    let mut pieces: Vec<String> = Vec::new();
    let mut start: usize = 0;
    let mut i: usize = 0;
    assert(text@.take(0) =~= Seq::<char>::empty());
    assert(text_views(pieces@).push(text@.subrange(0, 0)) =~= split(text@.take(0), separator));
    while i < length
        invariant
            start <= i <= length,
            length == text@.len(),
            text_views(pieces@).push(text@.subrange(start as int, i as int)) == split(
                text@.take(i as int),
                separator,
            ),
        decreases length - i,
    {
        let ghost before = text_views(pieces@).push(text@.subrange(start as int, i as int));
        let ghost piece = text@.subrange(start as int, i as int);
        assert(text@.take(i + 1).drop_last() =~= text@.take(i as int));
        assert(before.drop_last() =~= text_views(pieces@));
        if text.get_char(i) == separator {
            let ghost earlier = text_views(pieces@);
            pieces.push(text.substring_char(start, i).to_string());
            start = i + 1;
            assert(text_views(pieces@) =~= earlier.push(piece));
            assert(text@.subrange(start as int, i + 1) =~= Seq::<char>::empty());
        } else {
            assert(text@.subrange(start as int, i + 1) =~= piece.push(text@[i as int]));
        }
        i += 1;
    }
    let ghost earlier = text_views(pieces@);
    pieces.push(text.substring_char(start, length).to_string());
    assert(text_views(pieces@) =~= earlier.push(text@.subrange(start as int, length as int)));
    assert(text@.take(length as int) =~= text@);
    pieces
}

/// Drops every repetition of `prefix` at the start of `text`.
pub fn trim_start_text<'a>(text: &'a str, prefix: &str) -> (r: &'a str)
    ensures
        r@ == trim_start(text@, prefix@),
    decreases text@.len(),
{
    let length: usize = prefix.unicode_len();
    if length > 0 && starts_with(text, prefix) {
        let rest = text.substring_char(length, text.unicode_len());
        assert(rest@ =~= text@.skip(length as int));
        trim_start_text(rest, prefix)
    } else {
        text
    }
}

fn is_whitespace_char(c: char) -> (r: bool)
    ensures
        r == is_whitespace(c),
{
    let code: u32 = c as u32;
    (0x09 <= code && code <= 0x0d) || code == 0x20 || code == 0x85 || code == 0xa0 || code == 0x1680
        || (0x2000 <= code && code <= 0x200a) || code == 0x2028 || code == 0x2029 || code == 0x202f
        || code == 0x205f || code == 0x3000
}

/// Drops the whitespace at the start and at the end of `text`.
pub fn trim_text(text: &str) -> (r: &str)
    ensures
        r@ == trimmed(text@),
{
    let mut start: usize = 0;
    let mut end: usize = text.unicode_len();
    assert(text@.subrange(0, end as int) =~= text@);
    while start < end && is_whitespace_char(text.get_char(start))
        invariant
            start <= end == text@.len(),
            trimmed(text@.subrange(start as int, end as int)) == trimmed(text@),
        ensures
            start <= end == text@.len(),
            trimmed(text@.subrange(start as int, end as int)) == trimmed(text@),
            start < end ==> !is_whitespace(text@[start as int]),
        decreases end - start,
    {
        assert(text@.subrange(start as int, end as int).drop_first() =~= text@.subrange(
            start + 1,
            end as int,
        ));
        start += 1;
    }
    while start < end && is_whitespace_char(text.get_char(end - 1))
        invariant
            start <= end <= text@.len(),
            trimmed(text@.subrange(start as int, end as int)) == trimmed(text@),
            start < end ==> !is_whitespace(text@[start as int]),
        ensures
            start <= end <= text@.len(),
            trimmed(text@.subrange(start as int, end as int)) == trimmed(text@),
            start < end ==> !is_whitespace(text@[start as int]),
            start < end ==> !is_whitespace(text@[end - 1]),
        decreases end - start,
    {
        assert(text@.subrange(start as int, end as int).drop_last() =~= text@.subrange(
            start as int,
            end - 1,
        ));
        end -= 1;
    }
    text.substring_char(start, end)
}

/// Whether `c` does not occur in `text`.
pub open spec fn lacks(text: Seq<char>, c: char) -> bool {
    forall|i: int| 0 <= i < text.len() ==> #[trigger] text[i] != c
}

proof fn lemma_split_not_empty(text: Seq<char>, separator: char)
    ensures
        split(text, separator).len() > 0,
    decreases text.len(),
{
    if text.len() > 0 {
        lemma_split_not_empty(text.drop_last(), separator);
    }
}

proof fn lemma_split_append(a: Seq<char>, b: Seq<char>, separator: char)
    requires
        lacks(b, separator),
    ensures
        split(a + b, separator) == split(a, separator).drop_last().push(
            split(a, separator).last() + b,
        ),
    decreases b.len(),
{
    lemma_split_not_empty(a, separator);
    let before = split(a, separator);
    if b.len() == 0 {
        assert(a + b =~= a);
        assert(before.last() + b =~= before.last());
        assert(before.drop_last().push(before.last()) =~= before);
    } else {
        let rest = b.drop_last();
        assert forall|i: int| 0 <= i < rest.len() implies #[trigger] rest[i] != separator by {
            assert(rest[i] == b[i]);
        }
        lemma_split_append(a, rest, separator);
        assert((a + b).drop_last() =~= a + rest);
        assert((a + b).last() == b.last());
        assert(b.last() == b[b.len() - 1]);
        let shorter = split(a + rest, separator);
        assert(shorter.drop_last() =~= before.drop_last());
        assert((before.last() + rest).push(b.last()) =~= before.last() + b);
    }
}

/// Cutting joined pieces at the separator gives the pieces back, where no piece holds the
/// separator.
pub proof fn lemma_split_join(parts: Seq<Seq<char>>, separator: char, between: Seq<char>)
    requires
        parts.len() > 0,
        between == seq![separator],
        forall|i: int| 0 <= i < parts.len() ==> lacks(#[trigger] parts[i], separator),
    ensures
        split(join(parts, between), separator) == parts,
    decreases parts.len(),
{
    let empty = Seq::<char>::empty();
    if parts.len() == 1 {
        assert(lacks(parts[0], separator));
        lemma_split_append(empty, parts[0], separator);
        assert(empty + parts[0] =~= parts[0]);
        assert(seq![empty].drop_last().push(parts[0]) =~= parts);
    } else {
        let rest = parts.drop_last();
        assert forall|i: int| 0 <= i < rest.len() implies lacks(#[trigger] rest[i], separator) by {
            assert(rest[i] == parts[i]);
        }
        lemma_split_join(rest, separator, between);
        let head = join(rest, between) + between;
        assert(head.drop_last() =~= join(rest, between));
        assert(head.last() == separator);
        assert(split(head, separator) == rest.push(empty));
        assert(lacks(parts[parts.len() - 1], separator));
        lemma_split_append(head, parts.last(), separator);
        assert(rest.push(empty).drop_last() =~= rest);
        assert(empty + parts.last() =~= parts.last());
        assert(rest.push(parts.last()) =~= parts);
    }
}

/// Joined pieces are not empty where the first piece is not.
pub proof fn lemma_join_not_empty(parts: Seq<Seq<char>>, between: Seq<char>)
    requires
        parts.len() > 0,
        parts[0].len() > 0,
    ensures
        join(parts, between).len() > 0,
    decreases parts.len(),
{
    if parts.len() > 1 {
        lemma_join_not_empty(parts.drop_last(), between);
    }
}

/// Joined pieces start with the first character of the first piece.
pub proof fn lemma_join_first(parts: Seq<Seq<char>>, between: Seq<char>)
    requires
        parts.len() > 0,
        parts[0].len() > 0,
    ensures
        join(parts, between).len() > 0,
        join(parts, between)[0] == parts[0][0],
    decreases parts.len(),
{
    if parts.len() > 1 {
        lemma_join_first(parts.drop_last(), between);
    }
}

} // verus!
