//! A table of numbers, kept in the order of its keys.

use vstd::prelude::*;

use crate::octets;

verus! {

/// One row of a table.
pub struct RowView {
    pub key: Seq<u8>,
    pub value: u64,
}

/// Whether the keys of `rows` ascend, so that none occurs twice.
pub open spec fn ascending(rows: Seq<RowView>) -> bool {
    forall|i: int, j: int|
        0 <= i < j < rows.len() ==> octets::lex_less(#[trigger] rows[i].key, #[trigger] rows[j].key)
}

/// The number of rows before the first whose key is not less than `key`.
pub open spec fn position(rows: Seq<RowView>, key: Seq<u8>) -> int
    decreases rows.len(),
{
    if rows.len() == 0 || !octets::lex_less(rows.first().key, key) {
        0
    } else {
        1 + position(rows.drop_first(), key)
    }
}

/// The value that stands under `key`, if there is one.
pub open spec fn lookup(rows: Seq<RowView>, key: Seq<u8>) -> Option<u64> {
    let i = position(rows, key);
    if i < rows.len() && rows[i].key == key {
        Some(rows[i].value)
    } else {
        None
    }
}

/// The rows once `value` stands under `key`: it replaces what stood there, or goes in between.
pub open spec fn put(rows: Seq<RowView>, key: Seq<u8>, value: u64) -> Seq<RowView> {
    let i = position(rows, key);
    if i < rows.len() && rows[i].key == key {
        rows.update(i, RowView { key, value })
    } else {
        rows.insert(i, RowView { key, value })
    }
}

/// The rows before the position have lesser keys, and the row at it has not.
pub proof fn lemma_position(rows: Seq<RowView>, key: Seq<u8>)
    ensures
        0 <= position(rows, key) <= rows.len(),
        forall|j: int|
            0 <= j < position(rows, key) ==> octets::lex_less(#[trigger] rows[j].key, key),
        position(rows, key) < rows.len() ==> !octets::lex_less(
            rows[position(rows, key)].key,
            key,
        ),
    decreases rows.len(),
{
    if rows.len() > 0 && octets::lex_less(rows.first().key, key) {
        let rest = rows.drop_first();
        lemma_position(rest, key);
        assert forall|j: int| 0 <= j < position(rows, key) implies octets::lex_less(
            #[trigger] rows[j].key,
            key,
        ) by {
            if j > 0 {
                assert(rest[j - 1] == rows[j]);
            }
        }
        if position(rows, key) < rows.len() {
            assert(rest[position(rest, key)] == rows[position(rows, key)]);
        }
    }
}

/// Only one number of rows stands before the first whose key is not less.
pub proof fn lemma_position_unique(rows: Seq<RowView>, key: Seq<u8>, i: int)
    requires
        0 <= i <= rows.len(),
        forall|j: int| 0 <= j < i ==> octets::lex_less(#[trigger] rows[j].key, key),
        i < rows.len() ==> !octets::lex_less(rows[i].key, key),
    ensures
        position(rows, key) == i,
{
    lemma_position(rows, key);
    let p = position(rows, key);
    if p < i {
        assert(octets::lex_less(rows[p].key, key));
    } else if i < p {
        assert(octets::lex_less(rows[i].key, key));
    }
}

/// A key is found exactly where a row has it.
pub proof fn lemma_lookup_row(rows: Seq<RowView>, i: int)
    requires
        ascending(rows),
        0 <= i < rows.len(),
    ensures
        lookup(rows, rows[i].key) == Some(rows[i].value),
{
    octets::lemma_lex_total(rows[i].key, rows[i].key);
    lemma_position_unique(rows, rows[i].key, i);
}

/// What is found stands in a row.
pub proof fn lemma_lookup_found(rows: Seq<RowView>, key: Seq<u8>) -> (i: int)
    requires
        lookup(rows, key) is Some,
    ensures
        0 <= i < rows.len(),
        rows[i].key == key,
        rows[i].value == lookup(rows, key)->0,
{
    lemma_position(rows, key);
    position(rows, key)
}

/// A table stays in order when a value is put into it.
pub proof fn lemma_put_ascending(rows: Seq<RowView>, key: Seq<u8>, value: u64)
    requires
        ascending(rows),
    ensures
        ascending(put(rows, key, value)),
{
    lemma_position(rows, key);
    let p = position(rows, key);
    let after = put(rows, key, value);
    if p < rows.len() && rows[p].key == key {
        assert forall|i: int, j: int| 0 <= i < j < after.len() implies octets::lex_less(
            #[trigger] after[i].key,
            #[trigger] after[j].key,
        ) by {
            assert(after[i].key == rows[i].key);
            assert(after[j].key == rows[j].key);
        }
    } else {
        assert forall|i: int, j: int| 0 <= i < j < after.len() implies octets::lex_less(
            #[trigger] after[i].key,
            #[trigger] after[j].key,
        ) by {
            if i < p {
                assert(after[i] == rows[i]);
                if j == p {
                } else if j < p {
                    assert(after[j] == rows[j]);
                } else {
                    assert(after[j] == rows[j - 1]);
                }
            } else {
                assert(after[j] == rows[j - 1]);
                octets::lemma_lex_total(rows[p].key, key);
                assert(octets::lex_less(key, rows[p].key));
                if i == p {
                    if j - 1 > p {
                        octets::lemma_lex_transitive(key, rows[p].key, rows[j - 1].key);
                    }
                } else {
                    assert(after[i] == rows[i - 1]);
                }
            }
        }
    }
}

/// What was put under a key is found there, and every other key finds what it found before.
pub proof fn lemma_lookup_put(rows: Seq<RowView>, key: Seq<u8>, value: u64, other: Seq<u8>)
    requires
        ascending(rows),
    ensures
        lookup(put(rows, key, value), other) == (if other == key {
            Some(value)
        } else {
            lookup(rows, other)
        }),
{
    lemma_position(rows, key);
    lemma_put_ascending(rows, key, value);
    let p = position(rows, key);
    let after = put(rows, key, value);
    if other == key {
        assert(after[p] == RowView { key, value });
        lemma_lookup_row(after, p);
    } else {
        let replaced = p < rows.len() && rows[p].key == key;
        if lookup(rows, other) is Some {
            let i = lemma_lookup_found(rows, other);
            let k = if replaced || i < p {
                i
            } else {
                i + 1
            };
            assert(after[k] == rows[i]);
            lemma_lookup_row(after, k);
        }
        if lookup(after, other) is Some {
            let k = lemma_lookup_found(after, other);
            let i = if replaced || k < p {
                k
            } else {
                k - 1
            };
            assert(after[k] == rows[i]);
            lemma_lookup_row(rows, i);
        }
    }
}

/// Two tables in which every key finds the same are the same.
pub proof fn lemma_same_rows(a: Seq<RowView>, b: Seq<RowView>)
    requires
        ascending(a),
        ascending(b),
        forall|key: Seq<u8>| #[trigger] lookup(a, key) == lookup(b, key),
    ensures
        a == b,
    decreases a.len(),
{
    if a.len() == 0 {
        if b.len() > 0 {
            lemma_lookup_row(b, 0);
            assert(lookup(a, b[0].key) is None);
        }
        assert(a =~= b);
    } else if b.len() == 0 {
        lemma_lookup_row(a, 0);
        assert(lookup(a, a[0].key) == lookup(b, a[0].key));
    } else {
        let n = a.len() - 1;
        let m = b.len() - 1;
        lemma_lookup_row(a, n);
        lemma_lookup_row(b, m);
        assert(lookup(a, a[n].key) == lookup(b, a[n].key));
        assert(lookup(a, b[m].key) == lookup(b, b[m].key));
        let i = lemma_lookup_found(b, a[n].key);
        let j = lemma_lookup_found(a, b[m].key);
        octets::lemma_lex_total(a[n].key, b[m].key);
        if i < m && j < n {
            assert(octets::lex_less(b[i].key, b[m].key));
            assert(octets::lex_less(a[j].key, a[n].key));
        }
        if i < m {
            assert(octets::lex_less(b[i].key, b[m].key));
        }
        if j < n {
            assert(octets::lex_less(a[j].key, a[n].key));
        }
        assert(a[n] == b[m]);
        let c = a.drop_last();
        let d = b.drop_last();
        assert forall|key: Seq<u8>| #[trigger] lookup(c, key) == lookup(d, key) by {
            lemma_lookup_drop_last(a, key);
            lemma_lookup_drop_last(b, key);
            assert(lookup(a, key) == lookup(b, key));
        }
        lemma_same_rows(c, d);
        assert(a =~= c.push(a[n]));
        assert(b =~= d.push(b[m]));
    }
}

/// A table without its last row is in order.
pub proof fn lemma_drop_last_ascending(rows: Seq<RowView>)
    requires
        ascending(rows),
        rows.len() > 0,
    ensures
        ascending(rows.drop_last()),
{
    let front = rows.drop_last();
    assert forall|i: int, j: int| 0 <= i < j < front.len() implies octets::lex_less(
        #[trigger] front[i].key,
        #[trigger] front[j].key,
    ) by {
        assert(front[i] == rows[i]);
        assert(front[j] == rows[j]);
    }
}

/// Without its last row a table finds every other key as before.
pub proof fn lemma_lookup_drop_last(rows: Seq<RowView>, key: Seq<u8>)
    requires
        ascending(rows),
        rows.len() > 0,
    ensures
        lookup(rows.drop_last(), key) == (if key == rows.last().key {
            None
        } else {
            lookup(rows, key)
        }),
{
    let front = rows.drop_last();
    if lookup(front, key) is Some {
        let i = lemma_lookup_found(front, key);
        assert(rows[i] == front[i]);
        lemma_lookup_row(rows, i);
        assert(octets::lex_less(rows[i].key, rows.last().key));
        octets::lemma_lex_total(rows[i].key, rows.last().key);
    }
    if lookup(rows, key) is Some && key != rows.last().key {
        let i = lemma_lookup_found(rows, key);
        assert(rows[i] == front[i]);
        lemma_lookup_row(front, i);
    }
}

struct Row {
    key: Vec<u8>,
    value: u64,
}

impl View for Row {
    type V = RowView;

    closed spec fn view(&self) -> RowView {
        RowView { key: self.key@, value: self.value }
    }
}

/// A table of numbers under byte strings, in the order of the byte strings.
pub struct Table {
    rows: Vec<Row>,
}

impl View for Table {
    type V = Seq<RowView>;

    closed spec fn view(&self) -> Seq<RowView> {
        self.rows@.map_values(|r: Row| r@)
    }
}

impl Table {
    #[verifier::type_invariant]
    spec fn in_order(self) -> bool {
        ascending(self@)
    }

    /// An empty table.
    pub fn new() -> (r: Self)
        ensures
            r@ == Seq::<RowView>::empty(),
    {
        let rows: Vec<Row> = Vec::new();
        assert(rows@.map_values(|r: Row| r@) =~= Seq::<RowView>::empty());
        Table { rows }
    }

    /// The number of rows.
    pub fn len(&self) -> (r: usize)
        ensures
            r == self@.len(),
            ascending(self@),
    {
        proof {
            use_type_invariant(self);
        }
        self.rows.len()
    }

    /// The key of row `i`.
    pub fn key(&self, i: usize) -> (r: &Vec<u8>)
        requires
            i < self@.len(),
        ensures
            r@ == self@[i as int].key,
    {
        &self.rows[i].key
    }

    /// The value of row `i`.
    pub fn value(&self, i: usize) -> (r: u64)
        requires
            i < self@.len(),
        ensures
            r == self@[i as int].value,
    {
        self.rows[i].value
    }

    fn place(&self, key: &[u8]) -> (r: usize)
        ensures
            r == position(self@, key@),
            r <= self@.len(),
    {
        let mut i: usize = 0;
        while i < self.rows.len() && octets::bytes_less(self.rows[i].key.as_slice(), key)
            invariant
                i <= self.rows.len(),
                forall|j: int| 0 <= j < i ==> octets::lex_less(#[trigger] self@[j].key, key@),
            decreases self.rows.len() - i,
        {
            i += 1;
        }
        proof {
            lemma_position_unique(self@, key@, i as int);
        }
        i
    }

    /// The value that stands under `key`, if there is one.
    pub fn get(&self, key: &[u8]) -> (r: Option<u64>)
        ensures
            r == lookup(self@, key@),
    {
        let i: usize = self.place(key);
        if i < self.rows.len() && octets::same_bytes(self.rows[i].key.as_slice(), key) {
            Some(self.rows[i].value)
        } else {
            None
        }
    }

    /// Puts `value` under `key`, in place of what stood there.
    pub fn put(&mut self, key: Vec<u8>, value: u64)
        ensures
            final(self)@ == put(old(self)@, key@, value),
            ascending(old(self)@),
            ascending(final(self)@),
    {
        proof {
            use_type_invariant(&*self);
        }
        let i: usize = self.place(key.as_slice());
        let ghost before = self@;
        let ghost k = key@;
        let mut rows: Vec<Row> = Vec::new();
        std::mem::swap(&mut rows, &mut self.rows);
        let row = Row { key, value };
        if i < rows.len() && octets::same_bytes(rows[i].key.as_slice(), row.key.as_slice()) {
            rows.set(i, row);
        } else {
            rows.insert(i, row);
        }
        proof {
            lemma_put_ascending(before, k, value);
            assert(rows@.map_values(|r: Row| r@) =~= put(before, k, value));
        }
        self.rows = rows;
    }
}

} // verus!
