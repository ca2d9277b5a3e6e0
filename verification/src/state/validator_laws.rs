//! What holds of the validators in the state whatever is done to them.

use vstd::prelude::*;

use crate::crypto;
use crate::hexadecimal;
use crate::octets;
use crate::sequence;
use crate::state::validator;
use crate::state::validator::UpdateView;
use crate::state::StateErrorView;
use crate::table;
use crate::table::RowView;
use crate::transaction::ValidatorView;

verus! {

/// Whether `key` is the key of a public key of the right length.
pub open spec fn names_validator(key: Seq<u8>) -> bool {
    exists|public_key: Seq<u8>|
        public_key.len() == 32 && key == #[trigger] validator::validator_key(public_key)
}

/// Whether every row stands under the key of a validator, in order.
pub open spec fn canonical(rows: Seq<RowView>) -> bool {
    &&& table::ascending(rows)
    &&& forall|i: int| 0 <= i < rows.len() ==> names_validator((#[trigger] rows[i]).key)
}

/// The public key that `key` is the key of.
spec fn owner_of(key: Seq<u8>) -> Seq<u8> {
    choose|public_key: Seq<u8>|
        public_key.len() == 32 && key == #[trigger] validator::validator_key(public_key)
}

/// The power of a validator in the state, if it is there.
pub open spec fn power_of(rows: Seq<RowView>, public_key: Seq<u8>) -> Option<u64> {
    table::lookup(rows, validator::validator_key(public_key))
}

/// The power that a configuration gives a validator, if it names it: the last one that it gives.
pub open spec fn power_in(validators: Seq<ValidatorView>, public_key: Seq<u8>) -> Option<u64>
    decreases validators.len(),
{
    if validators.len() == 0 {
        None
    } else if validators.last().public_key == public_key {
        Some((validators.last().power as u32) as u64)
    } else {
        power_in(validators.drop_last(), public_key)
    }
}

/// Whether every validator of a configuration has a key of the right length.
pub open spec fn keys_fit(validators: Seq<ValidatorView>) -> bool {
    forall|i: int|
        0 <= i < validators.len() ==> (#[trigger] validators[i]).public_key.len() == 32
}

/// A key in the state names the public key that it was made for.
pub proof fn lemma_key_round_trip(public_key: Seq<u8>)
    ensures
        validator::key_octets(validator::validator_key(public_key)) == Ok::<
            Seq<u8>,
            StateErrorView,
        >(public_key),
{
    let name = "current/validators/"@;
    let digits = hexadecimal::hex_text(public_key);
    let whole = name + digits;
    reveal_strlit("current/validators/");
    assert(name.len() == 19);
    assert(vstd::utf8::is_ascii_chars(name));
    assert(vstd::utf8::is_ascii_chars(digits));
    assert(vstd::utf8::is_ascii_chars(whole));
    vstd::utf8::is_ascii_chars_encode_utf8(name);
    vstd::utf8::is_ascii_chars_encode_utf8(digits);
    vstd::utf8::is_ascii_chars_encode_utf8(whole);
    let prefix = validator::key_prefix();
    let key = validator::validator_key(public_key);
    let rest = vstd::utf8::encode_utf8(digits);
    assert(key.subrange(0, 19) =~= prefix);
    assert(key.subrange(19, key.len() as int) =~= rest);
    assert(octets::begins_with(key, prefix));
    assert(octets::trim_start(key, prefix) == octets::trim_start(rest, prefix));
    assert(!octets::begins_with(rest, prefix)) by {
        if octets::begins_with(rest, prefix) {
            assert(rest.subrange(0, 19)[1] == rest[1]);
            assert(prefix[1] == name[1] as u8);
            assert(rest[1] == digits[1] as u8);
            assert(name[1] == 'u');
            assert(0 <= hexadecimal::half_byte(public_key, 1) < 16);
        }
    }
    assert(octets::trim_start(rest, prefix) == rest);
    hexadecimal::lemma_hex_round_trip(public_key);
}

/// Different validators have different keys in the state.
pub proof fn lemma_key_injective(a: Seq<u8>, b: Seq<u8>)
    requires
        validator::validator_key(a) == validator::validator_key(b),
    ensures
        a == b,
{
    lemma_key_round_trip(a);
    lemma_key_round_trip(b);
}

/// Putting a power under a validator's key changes that validator and no other, and leaves every
/// row under the key of a validator.
pub proof fn lemma_put_power(rows: Seq<RowView>, public_key: Seq<u8>, power: u64)
    requires
        canonical(rows),
        public_key.len() == 32,
    ensures
        canonical(table::put(rows, validator::validator_key(public_key), power)),
        forall|other: Seq<u8>| #[trigger]
            power_of(table::put(rows, validator::validator_key(public_key), power), other) == (
            if other == public_key {
                Some(power)
            } else {
                power_of(rows, other)
            }),
{
    let key = validator::validator_key(public_key);
    let after = table::put(rows, key, power);
    table::lemma_put_ascending(rows, key, power);
    assert forall|i: int| 0 <= i < after.len() implies names_validator(
        (#[trigger] after[i]).key,
    ) by {
        if after[i].key != key {
            table::lemma_lookup_row(after, i);
            table::lemma_lookup_put(rows, key, power, after[i].key);
            let j = table::lemma_lookup_found(rows, after[i].key);
            assert(rows[j].key == after[i].key);
        }
    }
    assert forall|other: Seq<u8>| #[trigger] power_of(after, other) == (if other == public_key {
        Some(power)
    } else {
        power_of(rows, other)
    }) by {
        table::lemma_lookup_put(rows, key, power, validator::validator_key(other));
        if other != public_key && validator::validator_key(other) == key {
            lemma_key_injective(other, public_key);
        }
    }
}

/// A declared validator is in the state with its power, and no other validator changes. One that
/// was there, tombstoned or not, is refused, and nothing changes.
pub proof fn lemma_declared(rows: Seq<RowView>, public_key: Seq<u8>, power: u64)
    requires
        canonical(rows),
        public_key.len() == 32,
    ensures
        canonical(validator::declared(rows, public_key, power).0),
        validator::declared(rows, public_key, power).1 is Some <==> power_of(
            rows,
            public_key,
        ) is Some,
        power_of(rows, public_key) is Some ==> validator::declared(rows, public_key, power).0
            == rows,
        forall|other: Seq<u8>| #[trigger]
            power_of(validator::declared(rows, public_key, power).0, other) == (if other
            == public_key && power_of(rows, public_key) is None {
            Some(power)
        } else {
            power_of(rows, other)
        }),
{
    lemma_put_power(rows, public_key, power);
}

proof fn lemma_canonical_prefix(rows: Seq<RowView>)
    requires
        canonical(rows),
        rows.len() > 0,
    ensures
        canonical(rows.drop_last()),
{
    let front = rows.drop_last();
    table::lemma_drop_last_ascending(rows);
    assert forall|i: int| 0 <= i < front.len() implies names_validator(
        (#[trigger] front[i]).key,
    ) by {
        assert(front[i] == rows[i]);
    }
}

proof fn lemma_power_prefix(rows: Seq<RowView>, owner: Seq<u8>, public_key: Seq<u8>)
    requires
        canonical(rows),
        rows.len() > 0,
        rows.last().key == validator::validator_key(owner),
    ensures
        power_of(rows, public_key) == (if public_key == owner {
            Some(rows.last().value)
        } else {
            power_of(rows.drop_last(), public_key)
        }),
{
    table::lemma_lookup_drop_last(rows, validator::validator_key(public_key));
    table::lemma_lookup_row(rows, rows.len() - 1);
    if public_key != owner && validator::validator_key(public_key) == rows.last().key {
        lemma_key_injective(public_key, owner);
    }
}

/// The active validators can always be read, and are exactly those with some power, each once.
pub proof fn lemma_active_iff(rows: Seq<RowView>)
    requires
        canonical(rows),
    ensures
        validator::active(rows) is Ok,
        forall|u: UpdateView| #[trigger]
            validator::active(rows)->Ok_0.contains(u) <==> (u.pub_key.len() == 32 && u.power > 0
                && power_of(rows, u.pub_key) == Some(u.power)),
        forall|i: int, j: int|
            0 <= i < j < validator::active(rows)->Ok_0.len() ==> (
            #[trigger] validator::active(rows)->Ok_0[i]).pub_key != (
            #[trigger] validator::active(rows)->Ok_0[j]).pub_key,
    decreases rows.len(),
{
    if rows.len() == 0 {
        assert forall|u: UpdateView| !(#[trigger] power_of(rows, u.pub_key) is Some) by {}
    } else {
        let front = rows.drop_last();
        lemma_canonical_prefix(rows);
        lemma_active_iff(front);
        let last = rows[rows.len() - 1];
        assert(names_validator(last.key));
        let owner = owner_of(last.key);
        lemma_key_round_trip(owner);
        let found = validator::active(front)->Ok_0;
        let all = validator::active(rows)->Ok_0;
        let added = UpdateView { pub_key: owner, power: last.value };
        assert(power_of(front, owner) is None) by {
            table::lemma_lookup_drop_last(rows, last.key);
        }
        assert forall|u: UpdateView| #[trigger] all.contains(u) <==> (u.pub_key.len() == 32
            && u.power > 0 && power_of(rows, u.pub_key) == Some(u.power)) by {
            lemma_power_prefix(rows, owner, u.pub_key);
            assert(found.contains(u) <==> (u.pub_key.len() == 32 && u.power > 0 && power_of(
                front,
                u.pub_key,
            ) == Some(u.power)));
            if last.value > 0 {
                assert(all == found.push(added));
                if found.contains(u) {
                    let i = choose|i: int| 0 <= i < found.len() && found[i] == u;
                    assert(all[i] == u);
                }
                if u == added {
                    assert(all[all.len() - 1] == u);
                }
                if all.contains(u) {
                    let i = choose|i: int| 0 <= i < all.len() && all[i] == u;
                    if i < found.len() {
                        assert(found[i] == u);
                    }
                }
            }
        }
        assert forall|i: int, j: int| 0 <= i < j < all.len() implies (#[trigger] all[i]).pub_key
            != (#[trigger] all[j]).pub_key by {
            if last.value > 0 {
                assert(all[i] == found[i]);
                if j < found.len() {
                    assert(all[j] == found[j]);
                } else {
                    assert(found.contains(found[i]));
                }
            }
        }
    }
}

/// The validators of a canonical state are all known, under their public keys.
pub(crate) proof fn lemma_known(rows: Seq<RowView>)
    requires
        canonical(rows),
    ensures
        validator::known(rows) is Ok,
        table::ascending(validator::known(rows)->Ok_0),
        forall|public_key: Seq<u8>|
            public_key.len() == 32 ==> #[trigger] table::lookup(
                validator::known(rows)->Ok_0,
                public_key,
            ) == power_of(rows, public_key),
        forall|public_key: Seq<u8>|
            public_key.len() != 32 ==> #[trigger] table::lookup(
                validator::known(rows)->Ok_0,
                public_key,
            ) is None,
    decreases rows.len(),
{
    let decode = |r: RowView| validator::known_row(r);
    if rows.len() == 0 {
    } else {
        let front = rows.drop_last();
        lemma_canonical_prefix(rows);
        lemma_known(front);
        let last = rows[rows.len() - 1];
        assert(names_validator(last.key));
        let owner = owner_of(last.key);
        lemma_key_round_trip(owner);
        let decoded = sequence::decode_all(front, decode)->Ok_0;
        let row = RowView { key: owner, value: last.value };
        assert(decode(rows.last()) == Ok::<RowView, StateErrorView>(row));
        assert(decoded.push(row).drop_last() =~= decoded);
        let before = validator::known(front)->Ok_0;
        let after = validator::known(rows)->Ok_0;
        assert(after == table::put(before, owner, last.value));
        table::lemma_put_ascending(before, owner, last.value);
        assert forall|public_key: Seq<u8>| public_key.len() == 32 implies #[trigger] table::lookup(
            after,
            public_key,
        ) == power_of(rows, public_key) by {
            table::lemma_lookup_put(before, owner, last.value, public_key);
            lemma_power_prefix(rows, owner, public_key);
            assert(table::lookup(before, public_key) == power_of(front, public_key));
        }
        assert forall|public_key: Seq<u8>| public_key.len() != 32 implies #[trigger] table::lookup(
            after,
            public_key,
        ) is None by {
            table::lemma_lookup_put(before, owner, last.value, public_key);
            assert(table::lookup(before, public_key) is None);
        }
    }
}

/// What a configuration asks for can be read where its keys have the right length.
proof fn lemma_wanted(validators: Seq<ValidatorView>)
    requires
        keys_fit(validators),
    ensures
        validator::wanted(validators) is Ok,
        table::ascending(validator::wanted(validators)->Ok_0),
        forall|public_key: Seq<u8>| #[trigger]
            table::lookup(validator::wanted(validators)->Ok_0, public_key) == power_in(
                validators,
                public_key,
            ),
    decreases validators.len(),
{
    let decode = |v: ValidatorView| validator::wanted_row(v);
    if validators.len() > 0 {
        let front = validators.drop_last();
        assert forall|i: int| 0 <= i < front.len() implies (#[trigger] front[i]).public_key.len()
            == 32 by {
            assert(front[i] == validators[i]);
        }
        lemma_wanted(front);
        let last = validators[validators.len() - 1];
        assert(last.public_key.len() == 32);
        let decoded = sequence::decode_all(front, decode)->Ok_0;
        let row = RowView { key: last.public_key, value: (last.power as u32) as u64 };
        assert(decode(validators.last()) == Ok::<RowView, StateErrorView>(row));
        assert(decoded.push(row).drop_last() =~= decoded);
        let before = validator::wanted(front)->Ok_0;
        let after = validator::wanted(validators)->Ok_0;
        assert(after == table::put(before, row.key, row.value));
        table::lemma_put_ascending(before, row.key, row.value);
        assert forall|public_key: Seq<u8>| #[trigger] table::lookup(after, public_key) == power_in(
            validators,
            public_key,
        ) by {
            table::lemma_lookup_put(before, row.key, row.value, public_key);
            assert(table::lookup(before, public_key) == power_in(front, public_key));
        }
    }
}

proof fn lemma_with_missing(
    rows: Seq<RowView>,
    known: Seq<RowView>,
    wanted: Seq<RowView>,
)
    requires
        canonical(rows),
        table::ascending(wanted),
        forall|public_key: Seq<u8>|
            public_key.len() == 32 ==> #[trigger] table::lookup(known, public_key) == power_of(
                rows,
                public_key,
            ),
        forall|i: int| 0 <= i < wanted.len() ==> (#[trigger] wanted[i]).key.len() == 32,
    ensures
        validator::with_missing(rows, known, wanted).1 is None,
        canonical(validator::with_missing(rows, known, wanted).0),
        forall|public_key: Seq<u8>| #[trigger]
            power_of(validator::with_missing(rows, known, wanted).0, public_key) == (if power_of(
                rows,
                public_key,
            ) is Some {
                power_of(rows, public_key)
            } else {
                table::lookup(wanted, public_key)
            }),
    decreases wanted.len(),
{
    if wanted.len() == 0 {
    } else {
        let front = wanted.drop_last();
        table::lemma_drop_last_ascending(wanted);
        assert forall|i: int| 0 <= i < front.len() implies (#[trigger] front[i]).key.len()
            == 32 by {
            assert(front[i] == wanted[i]);
        }
        lemma_with_missing(rows, known, front);
        let last = wanted[wanted.len() - 1];
        let before = validator::with_missing(rows, known, front).0;
        let after = validator::with_missing(rows, known, wanted).0;
        assert(last.key.len() == 32);
        assert(table::lookup(known, last.key) == power_of(rows, last.key));
        table::lemma_lookup_drop_last(wanted, last.key);
        assert(power_of(before, last.key) == (if power_of(rows, last.key) is Some {
            power_of(rows, last.key)
        } else {
            table::lookup(front, last.key)
        }));
        if power_of(rows, last.key) is None {
            lemma_declared(before, last.key, last.value);
        }
        assert forall|public_key: Seq<u8>| #[trigger] power_of(after, public_key) == (if power_of(
            rows,
            public_key,
        ) is Some {
            power_of(rows, public_key)
        } else {
            table::lookup(wanted, public_key)
        }) by {
            table::lemma_lookup_drop_last(wanted, public_key);
            table::lemma_lookup_row(wanted, wanted.len() - 1);
            assert(power_of(before, public_key) == (if power_of(rows, public_key) is Some {
                power_of(rows, public_key)
            } else {
                table::lookup(front, public_key)
            }));
        }
    }
}

proof fn lemma_without_absent(rows: Seq<RowView>, known: Seq<RowView>, wanted: Seq<RowView>)
    requires
        canonical(rows),
        table::ascending(known),
        forall|i: int| 0 <= i < known.len() ==> (#[trigger] known[i]).key.len() == 32,
    ensures
        canonical(validator::without_absent(rows, known, wanted)),
        forall|public_key: Seq<u8>| #[trigger]
            power_of(validator::without_absent(rows, known, wanted), public_key) == (
            if table::lookup(wanted, public_key) is None && table::lookup(known, public_key) is Some
                && table::lookup(known, public_key)->0 > 0 {
                Some(0u64)
            } else {
                power_of(rows, public_key)
            }),
    decreases known.len(),
{
    if known.len() == 0 {
    } else {
        let front = known.drop_last();
        table::lemma_drop_last_ascending(known);
        assert forall|i: int| 0 <= i < front.len() implies (#[trigger] front[i]).key.len()
            == 32 by {
            assert(front[i] == known[i]);
        }
        lemma_without_absent(rows, front, wanted);
        let last = known[known.len() - 1];
        assert(last.key.len() == 32);
        let before = validator::without_absent(rows, front, wanted);
        let after = validator::without_absent(rows, known, wanted);
        lemma_put_power(before, last.key, 0);
        assert forall|public_key: Seq<u8>| #[trigger] power_of(after, public_key) == (
        if table::lookup(wanted, public_key) is None && table::lookup(known, public_key) is Some
            && table::lookup(known, public_key)->0 > 0 {
            Some(0u64)
        } else {
            power_of(rows, public_key)
        }) by {
            table::lemma_lookup_drop_last(known, public_key);
            table::lemma_lookup_row(known, known.len() - 1);
            assert(power_of(before, public_key) == (if table::lookup(wanted, public_key) is None
                && table::lookup(front, public_key) is Some && table::lookup(
                front,
                public_key,
            )->0 > 0 {
                Some(0u64)
            } else {
                power_of(rows, public_key)
            }));
        }
    }
}

/// Taking over the validators of a configuration never fails on a state that this library wrote,
/// and does this to each validator: one that was in the state keeps its power if the configuration
/// names it and has none otherwise; one that was not gets the power that the configuration gives
/// it, if it names it.
pub proof fn lemma_sync(rows: Seq<RowView>, validators: Seq<ValidatorView>)
    requires
        canonical(rows),
        keys_fit(validators),
        validators.len() > 0,
    ensures
        validator::synced(rows, validators).1 is None,
        canonical(validator::synced(rows, validators).0),
        forall|public_key: Seq<u8>|
            public_key.len() == 32 ==> #[trigger] power_of(
                validator::synced(rows, validators).0,
                public_key,
            ) == (match power_of(rows, public_key) {
                Some(power) => if power_in(validators, public_key) is Some {
                    Some(power)
                } else {
                    Some(0u64)
                },
                None => power_in(validators, public_key),
            }),
{
    lemma_known(rows);
    lemma_wanted(validators);
    let known = validator::known(rows)->Ok_0;
    let wanted = validator::wanted(validators)->Ok_0;
    assert forall|i: int| 0 <= i < wanted.len() implies (#[trigger] wanted[i]).key.len()
        == 32 by {
        table::lemma_lookup_row(wanted, i);
        lemma_power_in_fits(validators, wanted[i].key);
    }
    assert forall|i: int| 0 <= i < known.len() implies (#[trigger] known[i]).key.len() == 32 by {
        table::lemma_lookup_row(known, i);
    }
    lemma_with_missing(rows, known, wanted);
    let added = validator::with_missing(rows, known, wanted).0;
    lemma_without_absent(added, known, wanted);
    let after = validator::synced(rows, validators).0;
    assert forall|public_key: Seq<u8>| public_key.len() == 32 implies #[trigger] power_of(
        after,
        public_key,
    ) == (match power_of(rows, public_key) {
        Some(power) => if power_in(validators, public_key) is Some {
            Some(power)
        } else {
            Some(0u64)
        },
        None => power_in(validators, public_key),
    }) by {
        assert(table::lookup(wanted, public_key) == power_in(validators, public_key));
        assert(table::lookup(known, public_key) == power_of(rows, public_key));
        assert(power_of(added, public_key) == (if power_of(rows, public_key) is Some {
            power_of(rows, public_key)
        } else {
            table::lookup(wanted, public_key)
        }));
    }
}

proof fn lemma_power_in_fits(validators: Seq<ValidatorView>, public_key: Seq<u8>)
    requires
        keys_fit(validators),
        power_in(validators, public_key) is Some,
    ensures
        public_key.len() == 32,
    decreases validators.len(),
{
    let front = validators.drop_last();
    let last = validators[validators.len() - 1];
    assert(last.public_key.len() == 32);
    if last.public_key != public_key {
        assert forall|i: int| 0 <= i < front.len() implies (#[trigger] front[i]).public_key.len()
            == 32 by {
            assert(front[i] == validators[i]);
        }
        lemma_power_in_fits(front, public_key);
    }
}

/// Two canonical states in which every validator has the same power are the same.
pub proof fn lemma_same_powers(a: Seq<RowView>, b: Seq<RowView>)
    requires
        canonical(a),
        canonical(b),
        forall|public_key: Seq<u8>|
            public_key.len() == 32 ==> #[trigger] power_of(a, public_key) == power_of(
                b,
                public_key,
            ),
    ensures
        a == b,
{
    assert forall|key: Seq<u8>| #[trigger] table::lookup(a, key) == table::lookup(b, key) by {
        if table::lookup(a, key) is Some {
            let i = table::lemma_lookup_found(a, key);
            assert(a[i].key == key);
            assert(names_validator(a[i].key));
            let owner = owner_of(key);
            assert(power_of(a, owner) == power_of(b, owner));
        } else if table::lookup(b, key) is Some {
            let i = table::lemma_lookup_found(b, key);
            assert(b[i].key == key);
            assert(names_validator(b[i].key));
            let owner = owner_of(key);
            assert(power_of(a, owner) == power_of(b, owner));
        }
    }
    table::lemma_same_rows(a, b);
}

/// A configuration that names no validators leaves them as they are.
pub proof fn lemma_sync_of_none(rows: Seq<RowView>)
    ensures
        validator::synced(rows, Seq::<ValidatorView>::empty()) == (rows, None::<StateErrorView>),
{
}

/// Taking over a configuration a second time changes nothing.
pub proof fn lemma_sync_twice(rows: Seq<RowView>, validators: Seq<ValidatorView>)
    requires
        canonical(rows),
        keys_fit(validators),
    ensures
        validator::synced(validator::synced(rows, validators).0, validators) == (
            validator::synced(rows, validators).0,
            None::<StateErrorView>,
        ),
{
    if validators.len() > 0 {
        lemma_sync(rows, validators);
        let once = validator::synced(rows, validators).0;
        lemma_sync(once, validators);
        let twice = validator::synced(once, validators).0;
        assert forall|public_key: Seq<u8>| public_key.len() == 32 implies #[trigger] power_of(
            twice,
            public_key,
        ) == power_of(once, public_key) by {
            assert(power_of(once, public_key) == power_of(once, public_key));
        }
        lemma_same_powers(twice, once);
    }
}

/// A configuration that names the validators of the state, and at least the active ones, changes
/// nothing.
pub proof fn lemma_sync_of_same(rows: Seq<RowView>, validators: Seq<ValidatorView>)
    requires
        canonical(rows),
        keys_fit(validators),
        forall|public_key: Seq<u8>|
            public_key.len() == 32 ==> {
                &&& power_in(validators, public_key) is Some ==> #[trigger] power_of(
                    rows,
                    public_key,
                ) is Some
                &&& power_of(rows, public_key) is Some && power_of(rows, public_key)->0 > 0
                    ==> power_in(validators, public_key) is Some
            },
    ensures
        validator::synced(rows, validators) == (rows, None::<StateErrorView>),
{
    if validators.len() > 0 {
        lemma_sync(rows, validators);
        let after = validator::synced(rows, validators).0;
        assert forall|public_key: Seq<u8>| public_key.len() == 32 implies #[trigger] power_of(
            after,
            public_key,
        ) == power_of(rows, public_key) by {
            assert(power_of(rows, public_key) is Some || power_of(rows, public_key) is None);
        }
        lemma_same_powers(after, rows);
    }
}

/// The validators that are found by address are exactly those that have one of the addresses.
pub proof fn lemma_voters(validators: Seq<UpdateView>, addresses: Seq<Seq<u8>>)
    ensures
        forall|public_key: Seq<u8>| #[trigger]
            validator::voters(validators, addresses).contains(public_key) <==> (exists|i: int|
                0 <= i < validators.len() && (#[trigger] validators[i]).pub_key == public_key)
                && addresses.contains(crypto::address(public_key)),
    decreases validators.len(),
{
    let there = validator::addresses_of(validators);
    if validators.len() > 0 {
        let front = validators.drop_last();
        lemma_voters(front, addresses);
        lemma_with_address_prefix(front, validator::addresses_of(front), there, addresses);
        let before = validator::voters(front, addresses);
        let after = validator::voters(validators, addresses);
        let last = validators[validators.len() - 1];
        assert(there[validators.len() - 1] == crypto::address(last.pub_key));
        assert forall|public_key: Seq<u8>| #[trigger] after.contains(public_key) <==> (
        exists|i: int|
            0 <= i < validators.len() && (#[trigger] validators[i]).pub_key == public_key)
            && addresses.contains(crypto::address(public_key)) by {
            assert(before.contains(public_key) <==> (exists|i: int|
                0 <= i < front.len() && (#[trigger] front[i]).pub_key == public_key)
                && addresses.contains(crypto::address(public_key)));
            if before.contains(public_key) {
                let i = choose|i: int|
                    0 <= i < front.len() && (#[trigger] front[i]).pub_key == public_key;
                assert(validators[i] == front[i]);
                let j = choose|j: int| 0 <= j < before.len() && before[j] == public_key;
                assert(after[j] == public_key);
            }
            if last.pub_key == public_key && addresses.contains(crypto::address(public_key)) {
                assert(after[after.len() - 1] == public_key);
            }
            if after.contains(public_key) && !before.contains(public_key) {
                let j = choose|j: int| 0 <= j < after.len() && after[j] == public_key;
                if j < before.len() {
                    assert(before[j] == public_key);
                }
            }
            if exists|i: int|
                0 <= i < validators.len() && (#[trigger] validators[i]).pub_key == public_key {
                let i = choose|i: int|
                    0 <= i < validators.len() && (#[trigger] validators[i]).pub_key
                        == public_key;
                if i < front.len() {
                    assert(front[i] == validators[i]);
                }
            }
        }
    }
}

pub(crate) proof fn lemma_with_address_prefix(
    validators: Seq<UpdateView>,
    a: Seq<Seq<u8>>,
    b: Seq<Seq<u8>>,
    wanted: Seq<Seq<u8>>,
)
    requires
        forall|i: int| 0 <= i < validators.len() ==> #[trigger] a[i] == b[i],
    ensures
        validator::with_address(validators, a, wanted) == validator::with_address(
            validators,
            b,
            wanted,
        ),
    decreases validators.len(),
{
    if validators.len() > 0 {
        lemma_with_address_prefix(validators.drop_last(), a, b, wanted);
        assert(a[validators.len() - 1] == b[validators.len() - 1]);
    }
}

/// Tombstoning never fails on a state that this library wrote. At most one validator changes: an
/// active one with the address, which loses its power; and where one is active with the address,
/// one does.
pub proof fn lemma_tombstone(rows: Seq<RowView>, address: Seq<u8>)
    requires
        canonical(rows),
    ensures
        validator::tombstoned(rows, address).1 is None,
        canonical(validator::tombstoned(rows, address).0),
        forall|public_key: Seq<u8>|
            public_key.len() == 32 && #[trigger] power_of(
                validator::tombstoned(rows, address).0,
                public_key,
            ) != power_of(rows, public_key) ==> {
                &&& crypto::address(public_key) == address
                &&& power_of(rows, public_key) is Some
                &&& power_of(validator::tombstoned(rows, address).0, public_key) == Some(0u64)
            },
        (exists|public_key: Seq<u8>|
            public_key.len() == 32 && crypto::address(public_key) == address && (
            #[trigger] power_of(rows, public_key)) is Some && power_of(rows, public_key)->0 > 0)
            ==> validator::tombstoned(rows, address).0 != rows,
{
    lemma_active_iff(rows);
    let validators = validator::active(rows)->Ok_0;
    let one = seq![address];
    let found = validator::voters(validators, one);
    lemma_voters(validators, one);
    let after = validator::tombstoned(rows, address).0;
    if found.len() > 0 {
        let public_key = found[0];
        assert(found.contains(public_key));
        let i = choose|i: int|
            0 <= i < validators.len() && (#[trigger] validators[i]).pub_key == public_key;
        assert(validators.contains(validators[i]));
        assert(crypto::address(public_key) == address);
        lemma_put_power(rows, public_key, 0);
        assert(power_of(after, public_key) == Some(0u64));
    } else if exists|public_key: Seq<u8>|
        public_key.len() == 32 && crypto::address(public_key) == address && (
        #[trigger] power_of(rows, public_key)) is Some && power_of(rows, public_key)->0 > 0 {
        let public_key = choose|public_key: Seq<u8>|
            public_key.len() == 32 && crypto::address(public_key) == address && (
            #[trigger] power_of(rows, public_key)) is Some && power_of(rows, public_key)->0 > 0;
        let u = UpdateView { pub_key: public_key, power: power_of(rows, public_key)->0 };
        assert(validators.contains(u));
        let i = choose|i: int| 0 <= i < validators.len() && validators[i] == u;
        assert(validators[i].pub_key == public_key);
        assert(one[0] == address);
        assert(found.contains(public_key));
    }
}

/// Whatever validators a configuration names, also where it is refused, the state is as this library
/// writes it afterwards, and a validator without power has none.
pub proof fn lemma_sync_keeps(rows: Seq<RowView>, validators: Seq<ValidatorView>)
    requires
        canonical(rows),
    ensures
        canonical(validator::synced(rows, validators).0),
        forall|public_key: Seq<u8>|
            public_key.len() == 32 && power_of(rows, public_key) == Some(0u64)
                ==> #[trigger] power_of(validator::synced(rows, validators).0, public_key) == Some(
                0u64,
            ),
{
    if validators.len() > 0 && validator::wanted(validators) is Ok {
        let decode = |v: ValidatorView| validator::wanted_row(v);
        sequence::lemma_decode_all_items(validators, decode);
        assert forall|i: int| 0 <= i < validators.len() implies (
        #[trigger] validators[i]).public_key.len() == 32 by {
            assert(decode(validators[i]) is Ok);
        }
        lemma_sync(rows, validators);
    }
}

/// A validator without power never gets any again: not by being declared, not from a
/// configuration, whatever it names, and not when another is tombstoned.
pub proof fn lemma_tombstone_is_final(
    rows: Seq<RowView>,
    public_key: Seq<u8>,
    declared_key: Seq<u8>,
    power: u64,
    validators: Seq<ValidatorView>,
    address: Seq<u8>,
)
    requires
        canonical(rows),
        public_key.len() == 32,
        declared_key.len() == 32,
        power_of(rows, public_key) == Some(0u64),
    ensures
        power_of(validator::declared(rows, declared_key, power).0, public_key) == Some(0u64),
        power_of(validator::synced(rows, validators).0, public_key) == Some(0u64),
        power_of(validator::tombstoned(rows, address).0, public_key) == Some(0u64),
{
    lemma_declared(rows, declared_key, power);
    lemma_sync_keeps(rows, validators);
    lemma_tombstone(rows, address);
}

} // verus!
