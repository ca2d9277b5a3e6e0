//! What is refused, and what is said of it.

use vstd::prelude::*;

use crate::hexadecimal;
use crate::octets;
use crate::sequence;
use crate::state::block_laws;
use crate::state::config;
use crate::state::finalize_block;
use crate::state::init_chain;
use crate::state::validator;
use crate::state::validator::UpdateView;
use crate::state::validator_laws;
use crate::state::StateErrorView;
use crate::table;
use crate::table::RowView;
use crate::text;
use crate::transaction;
use crate::transaction::ConfigView;
use crate::transaction::ValidatorView;
use crate::transaction::VotingConfig;

verus! {

/// Whether a key holds nothing but zeros.
pub open spec fn is_placeholder(key: Seq<u8>) -> bool {
    forall|i: int| 0 <= i < key.len() ==> #[trigger] key[i] == 0u8
}

/// Whether `error` names what is wrong first with a way of voting among this many voters: the total,
/// before that there is no quorum, before that the quorum is above the total.
pub open spec fn is_voting_problem(
    error: Option<StateErrorView>,
    voters: nat,
    voting: VotingConfig,
) -> bool {
    if voting.total.0 != voters {
        error == Some(
            StateErrorView::TotalMismatch { total: voting.total.0, expected: voters as u64 },
        )
    } else if voting.quorum.0 == 0 {
        error == Some(StateErrorView::QuorumZero)
    } else {
        &&& voting.quorum.0 > voting.total.0
        &&& error == Some(
            StateErrorView::QuorumAboveTotal { quorum: voting.quorum.0, total: voting.total.0 },
        )
    }
}

proof fn lemma_first_placeholder(identities: Seq<Seq<u8>>, start: int)
    requires
        0 <= start,
        identities.len() <= usize::MAX,
    ensures
        config::placeholder_from(identities, start) matches Some(index) ==> {
            &&& start <= index < identities.len()
            &&& octets::all_zero(identities[index as int])
            &&& forall|i: int|
                start <= i < index ==> !octets::all_zero(#[trigger] identities[i])
        },
        config::placeholder_from(identities, start) is None ==> (forall|i: int|
            start <= i < identities.len() ==> !octets::all_zero(#[trigger] identities[i])),
    decreases identities.len() - start,
{
    if start < identities.len() && !octets::all_zero(identities[start]) {
        lemma_first_placeholder(identities, start + 1);
    }
}

/// Whether nothing is wrong with a validator of a configuration.
pub open spec fn is_proper_validator(v: ValidatorView) -> bool {
    v.power <= 0xffff_ffff && !is_placeholder(v.public_key)
}

proof fn lemma_first_refused_validator(validators: Seq<ValidatorView>, start: int)
    requires
        0 <= start,
        validators.len() <= usize::MAX,
    ensures
        ({
            let error = config::validator_error_from(validators, start);
            &&& error is None <==> (forall|i: int|
                start <= i < validators.len() ==> is_proper_validator(#[trigger] validators[i]))
            &&& error is Some ==> {
                ||| exists|i: int|
                    start <= i < validators.len() && (#[trigger] validators[i]).power > 0xffff_ffff
                        && error == Some(
                        StateErrorView::ValidatorPower {
                            index: i as usize,
                            power: validators[i].power,
                        },
                    ) && (forall|j: int|
                        start <= j < i ==> is_proper_validator(#[trigger] validators[j]))
                ||| exists|i: int|
                    start <= i < validators.len() && is_placeholder(
                        (#[trigger] validators[i]).public_key,
                    ) && validators[i].power <= 0xffff_ffff && error == Some(
                        StateErrorView::ValidatorPlaceholder { index: i as usize },
                    ) && (forall|j: int|
                        start <= j < i ==> is_proper_validator(#[trigger] validators[j]))
            }
        }),
    decreases validators.len() - start,
{
    if start < validators.len() {
        let v = validators[start];
        assert(octets::all_zero(v.public_key) <==> is_placeholder(v.public_key));
        let error = config::validator_error_from(validators, start);
        if is_proper_validator(v) {
            lemma_first_refused_validator(validators, start + 1);
            if exists|i: int|
                start + 1 <= i < validators.len() && (#[trigger] validators[i]).power > 0xffff_ffff
                    && error == Some(
                    StateErrorView::ValidatorPower {
                        index: i as usize,
                        power: validators[i].power,
                    },
                ) && (forall|j: int|
                    start + 1 <= j < i ==> is_proper_validator(#[trigger] validators[j])) {
                let i = choose|i: int|
                    start + 1 <= i < validators.len() && (
                    #[trigger] validators[i]).power > 0xffff_ffff && error == Some(
                        StateErrorView::ValidatorPower {
                            index: i as usize,
                            power: validators[i].power,
                        },
                    ) && (forall|j: int|
                        start + 1 <= j < i ==> is_proper_validator(#[trigger] validators[j]));
                assert(validators[i].power > 0xffff_ffff);
            } else if error is Some {
                let i = choose|i: int|
                    start + 1 <= i < validators.len() && is_placeholder(
                        (#[trigger] validators[i]).public_key,
                    ) && validators[i].power <= 0xffff_ffff && error == Some(
                        StateErrorView::ValidatorPlaceholder { index: i as usize },
                    ) && (forall|j: int|
                        start + 1 <= j < i ==> is_proper_validator(#[trigger] validators[j]));
                assert(is_placeholder(validators[i].public_key));
            }
        } else {
            assert(validators[start] == v);
        }
    }
}

/// Why a configuration is refused, in this order: there is none before it; its version is not
/// greater; its admins' way of voting, or else its oracles', does not fit them; it allows no
/// subdomain, or fewer than before; an admin's key, or else an oracle's, is a placeholder, the first
/// such; and last the first validator whose power is too great or whose key is a placeholder.
pub proof fn lemma_why_refused(current: ConfigView, new: ConfigView)
    requires
        new.admins.authorized.len() <= usize::MAX,
        new.oracles.authorized.len() <= usize::MAX,
        new.validators.len() <= usize::MAX,
    ensures
        config::config_error(None, new) == Some(StateErrorView::ConfigNotFound),
        ({
            let error = config::config_error(Some(current), new);
            let admins = new.admins.authorized;
            let oracles = new.oracles.authorized;
            if new.version <= current.version {
                error == Some(
                    StateErrorView::VersionNotGreater {
                        version: new.version,
                        current: current.version,
                    },
                )
            } else if !config::votes_fit(admins.len(), new.admins.voting) {
                is_voting_problem(error, admins.len(), new.admins.voting)
            } else if !config::votes_fit(oracles.len(), new.oracles.voting) {
                is_voting_problem(error, oracles.len(), new.oracles.voting)
            } else if new.oracles.max_enrolled_subdomains == 0 {
                error == Some(StateErrorView::SubdomainsZero)
            } else if new.oracles.max_enrolled_subdomains
                < current.oracles.max_enrolled_subdomains {
                error == Some(StateErrorView::SubdomainsDecrease)
            } else if exists|i: int| 0 <= i < admins.len() && is_placeholder(#[trigger] admins[i]) {
                exists|i: int|
                    0 <= i < admins.len() && is_placeholder(#[trigger] admins[i]) && error == Some(
                        StateErrorView::AdminPlaceholder { index: i as usize },
                    ) && (forall|j: int| 0 <= j < i ==> !is_placeholder(#[trigger] admins[j]))
            } else if exists|i: int|
                0 <= i < oracles.len() && is_placeholder((#[trigger] oracles[i]).identity) {
                exists|i: int|
                    0 <= i < oracles.len() && is_placeholder((#[trigger] oracles[i]).identity)
                        && error == Some(
                        StateErrorView::OraclePlaceholder { index: i as usize },
                    ) && (forall|j: int|
                        0 <= j < i ==> !is_placeholder((#[trigger] oracles[j]).identity))
            } else {
                is_validator_problem(error, new.validators)
            }
        }),
{
    let admins = new.admins.authorized;
    let oracles = new.oracles.authorized;
    let identities = config::oracle_identities(oracles);
    lemma_first_placeholder(admins, 0);
    lemma_first_placeholder(identities, 0);
    lemma_first_refused_validator(new.validators, 0);
    let error = config::config_error(Some(current), new);
    assert forall|key: Seq<u8>| #[trigger] octets::all_zero(key) <==> is_placeholder(key) by {}
    if config::placeholder_from(admins, 0) is Some {
        let i = config::placeholder_from(admins, 0)->0 as int;
        assert(is_placeholder(admins[i]));
        assert forall|j: int| 0 <= j < i implies !is_placeholder(#[trigger] admins[j]) by {
            assert(!octets::all_zero(admins[j]));
        }
    } else {
        assert forall|i: int| 0 <= i < admins.len() implies !is_placeholder(
            #[trigger] admins[i],
        ) by {
            assert(!octets::all_zero(admins[i]));
        }
    }
    if config::placeholder_from(identities, 0) is Some {
        let i = config::placeholder_from(identities, 0)->0 as int;
        assert(identities[i] == oracles[i].identity);
        assert(is_placeholder(oracles[i].identity));
        assert forall|j: int| 0 <= j < i implies !is_placeholder(
            (#[trigger] oracles[j]).identity,
        ) by {
            assert(identities[j] == oracles[j].identity);
            assert(!octets::all_zero(identities[j]));
        }
    } else {
        assert forall|i: int| 0 <= i < oracles.len() implies !is_placeholder(
            (#[trigger] oracles[i]).identity,
        ) by {
            assert(identities[i] == oracles[i].identity);
            assert(!octets::all_zero(identities[i]));
        }
    }
}

/// Whether `error` names what is wrong with the first validator that something is wrong with: its
/// power before its key.
pub open spec fn is_validator_problem(
    error: Option<StateErrorView>,
    validators: Seq<ValidatorView>,
) -> bool {
    &&& error is None <==> (forall|i: int|
        0 <= i < validators.len() ==> is_proper_validator(#[trigger] validators[i]))
    &&& error is Some ==> {
        ||| exists|i: int|
            0 <= i < validators.len() && (#[trigger] validators[i]).power > 0xffff_ffff && error
                == Some(
                StateErrorView::ValidatorPower { index: i as usize, power: validators[i].power },
            ) && (forall|j: int| 0 <= j < i ==> is_proper_validator(#[trigger] validators[j]))
        ||| exists|i: int|
            0 <= i < validators.len() && is_placeholder((#[trigger] validators[i]).public_key)
                && validators[i].power <= 0xffff_ffff && error == Some(
                StateErrorView::ValidatorPlaceholder { index: i as usize },
            ) && (forall|j: int| 0 <= j < i ==> is_proper_validator(#[trigger] validators[j]))
    }
}

/// A validator that is in the state is refused with the power that it has there.
pub proof fn lemma_why_not_declared(rows: Seq<RowView>, public_key: Seq<u8>, power: u64)
    ensures
        validator_laws::power_of(rows, public_key) matches Some(held)
            ==> validator::declared(rows, public_key, power).1 == Some(
            StateErrorView::ValidatorExists { public_key, power: held },
        ) && validator::declared(rows, public_key, power).0 == rows,
        validator_laws::power_of(rows, public_key) is None ==> validator::declared(
            rows,
            public_key,
            power,
        ).1 is None,
{
}

/// Validators with a key of the wrong length are refused, and none of the others is taken over
/// then.
pub proof fn lemma_why_not_synced(rows: Seq<RowView>, validators: Seq<ValidatorView>)
    requires
        validator_laws::canonical(rows),
        exists|i: int|
            0 <= i < validators.len() && (#[trigger] validators[i]).public_key.len() != 32,
    ensures
        validator::synced(rows, validators) == (
            rows,
            Some(StateErrorView::InvalidPublicKeyInConfig),
        ),
{
    let bad = choose|i: int|
        0 <= i < validators.len() && (#[trigger] validators[i]).public_key.len() != 32;
    validator_laws::lemma_known(rows);
    let decode = |v: ValidatorView| validator::wanted_row(v);
    if sequence::decode_all(validators, decode) is Ok {
        sequence::lemma_decode_all_items(validators, decode);
        assert(decode(validators[bad]) is Err);
    }
    lemma_wanted_error(validators);
}

/// Validators are not taken over into a state in which a key cannot be read or has the wrong length,
/// with power or without, and nothing changes.
pub proof fn lemma_unreadable_state_is_not_synced(
    rows: Seq<RowView>,
    validators: Seq<ValidatorView>,
    i: int,
)
    requires
        validators.len() > 0,
        0 <= i < rows.len(),
        validator::key_octets(rows[i].key) is Err || validator::key_octets(
            rows[i].key,
        )->Ok_0.len() != 32,
    ensures
        validator::synced(rows, validators).0 == rows,
        validator::synced(rows, validators).1 is Some,
{
    let decode = |r: RowView| validator::known_row(r);
    if sequence::decode_all(rows, decode) is Ok {
        sequence::lemma_decode_all_items(rows, decode);
        assert(decode(rows[i]) is Err);
    }
}

proof fn lemma_wanted_error(validators: Seq<ValidatorView>)
    ensures
        sequence::decode_all(validators, |v: ValidatorView| validator::wanted_row(v)) matches Err(e)
            ==> e == StateErrorView::InvalidPublicKeyInConfig,
    decreases validators.len(),
{
    if validators.len() > 0 {
        lemma_wanted_error(validators.drop_last());
    }
}

/// The active validators can be read exactly where every key in the state can be, and that of each
/// validator with some power is of the right length.
pub proof fn lemma_when_active_is_read(rows: Seq<RowView>)
    ensures
        validator::active(rows) is Ok <==> (forall|i: int|
            0 <= i < rows.len() ==> {
                &&& validator::key_octets((#[trigger] rows[i]).key) is Ok
                &&& rows[i].value > 0 ==> validator::key_octets(rows[i].key)->Ok_0.len() == 32
            }),
    decreases rows.len(),
{
    if rows.len() > 0 {
        let front = rows.drop_last();
        let n = rows.len() - 1;
        lemma_when_active_is_read(front);
        if validator::active(rows) is Ok {
            assert forall|i: int| 0 <= i < rows.len() implies {
                &&& validator::key_octets((#[trigger] rows[i]).key) is Ok
                &&& rows[i].value > 0 ==> validator::key_octets(rows[i].key)->Ok_0.len() == 32
            } by {
                if i < n {
                    assert(front[i] == rows[i]);
                }
            }
        }
        if forall|i: int|
            0 <= i < rows.len() ==> {
                &&& validator::key_octets((#[trigger] rows[i]).key) is Ok
                &&& rows[i].value > 0 ==> validator::key_octets(rows[i].key)->Ok_0.len() == 32
            } {
            assert forall|i: int| 0 <= i < front.len() implies {
                &&& validator::key_octets((#[trigger] front[i]).key) is Ok
                &&& front[i].value > 0 ==> validator::key_octets(front[i].key)->Ok_0.len() == 32
            } by {
                assert(front[i] == rows[i]);
            }
            assert(validator::key_octets(rows[n].key) is Ok);
        }
    }
}

/// Rows are read one after the other: those with some power come out with it, under the public key
/// that theirs names, in the order of the rows.
pub proof fn lemma_active_in_turn(a: Seq<RowView>, b: Seq<RowView>, one: RowView)
    ensures
        validator::active(a) is Ok && validator::active(b) is Ok ==> validator::active(a + b) == Ok::<
            Seq<UpdateView>,
            StateErrorView,
        >(validator::active(a)->Ok_0 + validator::active(b)->Ok_0),
        validator::active(a) is Err ==> validator::active(a + b) == validator::active(a),
        validator::key_octets(one.key) is Ok && one.value == 0 ==> validator::active(seq![one])
            == Ok::<Seq<UpdateView>, StateErrorView>(Seq::empty()),
        validator::key_octets(one.key) is Ok && one.value > 0 && validator::key_octets(
            one.key,
        )->Ok_0.len() == 32 ==> validator::active(seq![one]) == Ok::<
            Seq<UpdateView>,
            StateErrorView,
        >(seq![UpdateView { pub_key: validator::key_octets(one.key)->Ok_0, power: one.value }]),
        validator::key_octets(one.key) is Ok && one.value > 0 && validator::key_octets(
            one.key,
        )->Ok_0.len() != 32 ==> validator::active(seq![one]) == Err::<
            Seq<UpdateView>,
            StateErrorView,
        >(StateErrorView::InvalidPublicKey),
        validator::key_octets(one.key) matches Err(e) ==> validator::active(seq![one]) == Err::<
            Seq<UpdateView>,
            StateErrorView,
        >(e),
    decreases b.len(),
{
    reveal_with_fuel(validator::active, 2);
    assert(seq![one].drop_last() =~= Seq::<RowView>::empty());
    if validator::active(seq![one]) is Ok && one.value > 0 {
        assert(validator::active(seq![one])->Ok_0 =~= seq![
            UpdateView { pub_key: validator::key_octets(one.key)->Ok_0, power: one.value },
        ]);
    }
    if b.len() == 0 {
        assert(a + b =~= a);
        if validator::active(a) is Ok {
            assert(validator::active(a)->Ok_0 + validator::active(b)->Ok_0 =~= validator::active(
                a,
            )->Ok_0);
        }
    } else {
        lemma_active_in_turn(a, b.drop_last(), one);
        assert((a + b).drop_last() =~= a + b.drop_last());
        assert((a + b).last() == b.last());
        if validator::active(a) is Ok && validator::active(b) is Ok {
            assert(validator::active(a + b)->Ok_0 =~= validator::active(a)->Ok_0
                + validator::active(b)->Ok_0);
        }
    }
}

/// A key in the state names the public key that stands in hexadecimal behind `current/validators/`,
/// however often that stands before it, and no public key where what stands behind is not hexadecimal.
pub proof fn lemma_key_named(rest: Seq<u8>)
    requires
        !octets::begins_with(rest, validator::key_prefix()),
    ensures
        validator::key_octets(validator::key_prefix() + rest) == validator::key_octets(rest),
        hexadecimal::hex_octets(rest) matches Ok(public_key) ==> validator::key_octets(rest)
            == Ok::<Seq<u8>, StateErrorView>(public_key),
        hexadecimal::hex_octets(rest) matches Err(cause) ==> validator::key_octets(rest) == Err::<
            Seq<u8>,
            StateErrorView,
        >(StateErrorView::KeyNotHex { cause }),
{
    let prefix = validator::key_prefix();
    let key = prefix + rest;
    assert(key.subrange(0, prefix.len() as int) =~= prefix);
    assert(key.subrange(prefix.len() as int, key.len() as int) =~= rest);
    if prefix.len() == 0 {
        assert(rest.subrange(0, 0) =~= prefix);
    }
}

/// The key of a validator in the state is `current/validators/` and its public key in hexadecimal.
pub proof fn lemma_key_text(public_key: Seq<u8>)
    ensures
        vstd::utf8::encode_utf8("current/validators/"@ + hexadecimal::hex_text(public_key))
            == validator::validator_key(public_key),
        vstd::utf8::encode_utf8("current/validators/"@) == validator::key_prefix(),
{
}

/// Whether no two of these validators have the same key.
pub open spec fn keys_differ(validators: Seq<ValidatorView>) -> bool {
    forall|i: int, j: int|
        0 <= i < j < validators.len() ==> (#[trigger] validators[i]).public_key != (
        #[trigger] validators[j]).public_key
}

proof fn lemma_table_of_distinct(rows: Seq<RowView>)
    requires
        forall|i: int, j: int|
            0 <= i < j < rows.len() ==> (#[trigger] rows[i]).key != (#[trigger] rows[j]).key,
    ensures
        validator::table_of(rows).len() == rows.len(),
        table::ascending(validator::table_of(rows)),
        forall|i: int|
            0 <= i < rows.len() ==> table::lookup(
                validator::table_of(rows),
                (#[trigger] rows[i]).key,
            ) == Some(rows[i].value),
        forall|key: Seq<u8>|
            (forall|i: int| 0 <= i < rows.len() ==> (#[trigger] rows[i]).key != key) ==> (
            #[trigger] table::lookup(validator::table_of(rows), key)) is None,
    decreases rows.len(),
{
    if rows.len() == 0 {
    } else {
        let front = rows.drop_last();
        let n = rows.len() - 1;
        assert forall|i: int, j: int| 0 <= i < j < front.len() implies (#[trigger] front[i]).key
            != (#[trigger] front[j]).key by {
            assert(rows[i].key != rows[j].key);
        }
        lemma_table_of_distinct(front);
        let before = validator::table_of(front);
        let after = validator::table_of(rows);
        let last = rows[n];
        assert(table::lookup(before, last.key) is None) by {
            assert forall|i: int| 0 <= i < front.len() implies (#[trigger] front[i]).key
                != last.key by {
                assert(rows[i].key != rows[n].key);
            }
        }
        table::lemma_put_ascending(before, last.key, last.value);
        table::lemma_position(before, last.key);
        assert forall|i: int| 0 <= i < rows.len() implies table::lookup(
            after,
            (#[trigger] rows[i]).key,
        ) == Some(rows[i].value) by {
            table::lemma_lookup_put(before, last.key, last.value, rows[i].key);
            if i < n {
                assert(front[i] == rows[i]);
                assert(rows[i].key != rows[n].key);
            }
        }
        assert forall|key: Seq<u8>|
            (forall|i: int| 0 <= i < rows.len() ==> (
            #[trigger] rows[i]).key != key) implies (
        #[trigger] table::lookup(after, key)) is None by {
            table::lemma_lookup_put(before, last.key, last.value, key);
            assert(rows[n].key != key);
            assert forall|i: int| 0 <= i < front.len() implies (#[trigger] front[i]).key
                != key by {
                assert(rows[i].key != key);
            }
        }
    }
}

proof fn lemma_table_of_ascends(rows: Seq<RowView>)
    ensures
        table::ascending(validator::table_of(rows)),
    decreases rows.len(),
{
    if rows.len() > 0 {
        lemma_table_of_ascends(rows.drop_last());
        table::lemma_put_ascending(
            validator::table_of(rows.drop_last()),
            rows.last().key,
            rows.last().value,
        );
    }
}

/// Of several validators with one key, in genesis or in a configuration, the last gives its power.
pub proof fn lemma_last_power_counts(
    genesis: Seq<UpdateView>,
    u: UpdateView,
    config: Seq<ValidatorView>,
    v: ValidatorView,
    key: Seq<u8>,
)
    ensures
        table::lookup(init_chain::genesis_powers(genesis.push(u)), key) == (if key == u.pub_key {
            Some(u.power)
        } else {
            table::lookup(init_chain::genesis_powers(genesis), key)
        }),
        table::lookup(init_chain::config_powers(config.push(v)), key) == (if key == v.public_key {
            Some(v.power)
        } else {
            table::lookup(init_chain::config_powers(config), key)
        }),
{
    let told = genesis.map_values(|x: UpdateView| init_chain::genesis_row(x));
    let all_told = genesis.push(u).map_values(|x: UpdateView| init_chain::genesis_row(x));
    assert(all_told.drop_last() =~= told);
    lemma_table_of_ascends(told);
    table::lemma_lookup_put(validator::table_of(told), u.pub_key, u.power, key);
    let named = config.map_values(|x: ValidatorView| init_chain::config_row(x));
    let all_named = config.push(v).map_values(|x: ValidatorView| init_chain::config_row(x));
    assert(all_named.drop_last() =~= named);
    lemma_table_of_ascends(named);
    table::lemma_lookup_put(validator::table_of(named), v.public_key, v.power, key);
}

/// The validators of genesis are declared one after the other; those before one that is refused stay
/// declared, and those behind it are not.
pub proof fn lemma_declared_in_turn(
    rows: Seq<RowView>,
    first: Seq<UpdateView>,
    rest: Seq<UpdateView>,
    one: UpdateView,
)
    ensures
        init_chain::all_declared(rows, first).1 is Some ==> init_chain::all_declared(
            rows,
            first + rest,
        ) == init_chain::all_declared(rows, first),
        init_chain::all_declared(rows, first).1 is None ==> init_chain::all_declared(
            rows,
            first + rest,
        ) == init_chain::all_declared(init_chain::all_declared(rows, first).0, rest),
        init_chain::all_declared(rows, seq![one]) == validator::declared(
            rows,
            one.pub_key,
            one.power,
        ),
    decreases rest.len(),
{
    reveal_with_fuel(init_chain::all_declared, 2);
    assert(seq![one].drop_last() =~= Seq::<UpdateView>::empty());
    if rest.len() == 0 {
        assert(first + rest =~= first);
    } else {
        lemma_declared_in_turn(rows, first, rest.drop_last(), one);
        assert((first + rest).drop_last() =~= first + rest.drop_last());
        assert((first + rest).last() == rest.last());
    }
}

/// Whether a configuration gives a validator of genesis the power that genesis gives it.
pub open spec fn agrees_on(config: Seq<ValidatorView>, u: UpdateView) -> bool {
    exists|j: int|
        0 <= j < config.len() && (#[trigger] config[j]).public_key == u.pub_key && config[j].power
            == u.power
}

/// Genesis and a configuration that names validators, neither of them one twice, agree exactly
/// where they name as many, and the configuration names each validator of genesis with its power.
/// Where they name different numbers, those are said.
pub proof fn lemma_when_genesis_agrees(genesis: Seq<UpdateView>, config: Seq<ValidatorView>)
    requires
        block_laws::distinct(genesis),
        keys_differ(config),
        config.len() > 0,
        genesis.len() <= usize::MAX,
        config.len() <= usize::MAX,
    ensures
        init_chain::genesis_difference(genesis, config) is None <==> genesis.len() == config.len()
            && (forall|i: int| 0 <= i < genesis.len() ==> agrees_on(config, #[trigger] genesis[i])),
        genesis.len() != config.len() ==> init_chain::genesis_difference(genesis, config) == Some(
            StateErrorView::ValidatorCounts {
                genesis: genesis.len() as usize,
                config: config.len() as usize,
            },
        ),
        init_chain::genesis_difference(genesis, config) matches Some(
            StateErrorView::NotInConfig { public_key },
        ) ==> finalize_block::holds_key(genesis, public_key) && (forall|j: int|
            0 <= j < config.len() ==> (#[trigger] config[j]).public_key != public_key),
        init_chain::genesis_difference(genesis, config) matches Some(
            StateErrorView::PowerMismatch { public_key, genesis: told, config: named },
        ) ==> {
            &&& told != named
            &&& exists|i: int|
                0 <= i < genesis.len() && (#[trigger] genesis[i]).pub_key == public_key
                    && genesis[i].power == told
            &&& exists|j: int|
                0 <= j < config.len() && (#[trigger] config[j]).public_key == public_key
                    && config[j].power == named
        },
{
    let g_rows = genesis.map_values(|u: UpdateView| init_chain::genesis_row(u));
    let c_rows = config.map_values(|v: ValidatorView| init_chain::config_row(v));
    assert forall|i: int, j: int| 0 <= i < j < g_rows.len() implies (#[trigger] g_rows[i]).key != (
    #[trigger] g_rows[j]).key by {
        assert(genesis[i].pub_key != genesis[j].pub_key);
    }
    assert forall|i: int, j: int| 0 <= i < j < c_rows.len() implies (#[trigger] c_rows[i]).key != (
    #[trigger] c_rows[j]).key by {
        assert(config[i].public_key != config[j].public_key);
    }
    lemma_table_of_distinct(g_rows);
    lemma_table_of_distinct(c_rows);
    let g = init_chain::genesis_powers(genesis);
    let c = init_chain::config_powers(config);
    assert forall|key: Seq<u8>| (#[trigger] table::lookup(g, key)) is Some implies exists|i: int|
        0 <= i < genesis.len() && (#[trigger] genesis[i]).pub_key == key && genesis[i].power
            == table::lookup(g, key)->0 by {
        let i = choose|i: int| 0 <= i < g_rows.len() && (#[trigger] g_rows[i]).key == key;
        assert(g_rows[i].key == key);
        assert(genesis[i].pub_key == key);
    }
    assert forall|key: Seq<u8>| (#[trigger] table::lookup(c, key)) is Some implies exists|j: int|
        0 <= j < config.len() && (#[trigger] config[j]).public_key == key && config[j].power
            == table::lookup(c, key)->0 by {
        let j = choose|j: int| 0 <= j < c_rows.len() && (#[trigger] c_rows[j]).key == key;
        assert(c_rows[j].key == key);
        assert(config[j].public_key == key);
    }
    assert forall|key: Seq<u8>| (#[trigger] table::lookup(c, key)) is None implies (forall|j: int|
        0 <= j < config.len() ==> (#[trigger] config[j]).public_key != key) by {
        assert forall|j: int| 0 <= j < config.len() implies (
        #[trigger] config[j]).public_key != key by {
            assert(c_rows[j].key == config[j].public_key);
            assert(table::lookup(c, c_rows[j].key) is Some);
        }
    }
    if genesis.len() == config.len() {
        lemma_difference(g, c, 0);
        if forall|i: int| 0 <= i < genesis.len() ==> agrees_on(config, #[trigger] genesis[i]) {
            assert forall|i: int| 0 <= i < g.len() implies table::lookup(
                c,
                (#[trigger] g[i]).key,
            ) == Some(g[i].value) by {
                table::lemma_lookup_row(g, i);
                let k = choose|k: int|
                    0 <= k < genesis.len() && (#[trigger] genesis[k]).pub_key == g[i].key
                        && genesis[k].power == g[i].value;
                assert(agrees_on(config, genesis[k]));
                let j = choose|j: int|
                    0 <= j < config.len() && (#[trigger] config[j]).public_key
                        == genesis[k].pub_key && config[j].power == genesis[k].power;
                assert(c_rows[j].key == g[i].key);
                assert(table::lookup(c, c_rows[j].key) == Some(c_rows[j].value));
            }
        }
        if init_chain::difference_from(g, c, 0) is None {
            assert forall|i: int| 0 <= i < genesis.len() implies agrees_on(
                config,
                #[trigger] genesis[i],
            ) by {
                assert(g_rows[i].key == genesis[i].pub_key);
                assert(table::lookup(g, g_rows[i].key) == Some(genesis[i].power));
                let k = table::lemma_lookup_found(g, genesis[i].pub_key);
                assert(table::lookup(c, g[k].key) == Some(g[k].value));
            }
        } else {
            let k = choose|k: int|
                0 <= k < g.len() && is_difference(
                    init_chain::difference_from(g, c, 0),
                    c,
                    #[trigger] g[k],
                );
            table::lemma_lookup_row(g, k);
            let i = choose|i: int|
                0 <= i < genesis.len() && (#[trigger] genesis[i]).pub_key == g[k].key
                    && genesis[i].power == g[k].value;
            assert(genesis[i].pub_key == g[k].key);
        }
    }
}

/// Whether `error` names how this row of genesis differs from the rows of the configuration.
spec fn is_difference(error: Option<StateErrorView>, config: Seq<RowView>, row: RowView) -> bool {
    match table::lookup(config, row.key) {
        None => error == Some(StateErrorView::NotInConfig { public_key: row.key }),
        Some(power) => power != row.value && error == Some(
            StateErrorView::PowerMismatch {
                public_key: row.key,
                genesis: row.value,
                config: power,
            },
        ),
    }
}

proof fn lemma_difference(genesis: Seq<RowView>, config: Seq<RowView>, start: int)
    requires
        0 <= start,
    ensures
        init_chain::difference_from(genesis, config, start) is None <==> (forall|i: int|
            start <= i < genesis.len() ==> table::lookup(config, (#[trigger] genesis[i]).key)
                == Some(genesis[i].value)),
        init_chain::difference_from(genesis, config, start) is Some ==> exists|i: int|
            start <= i < genesis.len() && is_difference(
                init_chain::difference_from(genesis, config, start),
                config,
                #[trigger] genesis[i],
            ),
    decreases genesis.len() - start,
{
    if start < genesis.len() {
        let row = genesis[start];
        if table::lookup(config, row.key) == Some(row.value) {
            lemma_difference(genesis, config, start + 1);
            if init_chain::difference_from(genesis, config, start) is Some {
                let i = choose|i: int|
                    start + 1 <= i < genesis.len() && is_difference(
                        init_chain::difference_from(genesis, config, start + 1),
                        config,
                        #[trigger] genesis[i],
                    );
                assert(is_difference(
                    init_chain::difference_from(genesis, config, start),
                    config,
                    genesis[i],
                ));
            }
        } else {
            assert(is_difference(
                init_chain::difference_from(genesis, config, start),
                config,
                genesis[start],
            ));
        }
    }
}

/// What is said of a configuration that is refused.
pub proof fn lemma_config_words(
    version: u32,
    current: u32,
    a: u64,
    b: u64,
    index: usize,
)
    ensures
        (StateErrorView::ConfigNotFound).words()
            == "config not found in state; is the state initialized?"@,
        (StateErrorView::VersionNotGreater { version, current }).words() == "new config version "@
            + text::decimal(version as nat) + " must be greater than current version "@
            + text::decimal(current as nat),
        (StateErrorView::TotalMismatch { total: a, expected: b }).words()
            == "voting config total "@ + text::decimal(a as nat)
            + " does not match expected total "@ + text::decimal(b as nat),
        (StateErrorView::QuorumZero).words() == "voting config quorum must be non-zero"@,
        (StateErrorView::QuorumAboveTotal { quorum: a, total: b }).words()
            == "voting config quorum "@ + text::decimal(a as nat)
            + " cannot be greater than total "@ + text::decimal(b as nat),
        (StateErrorView::SubdomainsZero).words() == "max_enrolled_subdomains must be non-zero"@,
        (StateErrorView::SubdomainsDecrease).words() == "max_enrolled_subdomains cannot decrease"@,
        (StateErrorView::AdminPlaceholder { index }).words() == "admin at index "@ + text::decimal(
            index as nat,
        ) + " has an all-zero identity (placeholder not replaced)"@,
        (StateErrorView::OraclePlaceholder { index }).words() == "oracle at index "@
            + text::decimal(index as nat)
            + " has an all-zero identity (placeholder not replaced)"@,
        (StateErrorView::ValidatorPower { index, power: a }).words() == "validator at index "@
            + text::decimal(index as nat) + " has power "@ + text::decimal(a as nat)
            + " which exceeds maximum 4294967295"@,
        (StateErrorView::ValidatorPlaceholder { index }).words() == "validator at index "@
            + text::decimal(index as nat)
            + " has an all-zero public key (placeholder not replaced)"@,
{
}

/// What is said of validators, and of a beginning, that are refused.
pub proof fn lemma_state_words(
    public_key: Seq<u8>,
    a: u64,
    b: u64,
    cause: Seq<char>,
    m: usize,
    n: usize,
)
    ensures
        (StateErrorView::ValidatorExists { public_key, power: a }).words() == "validator "@
            + hexadecimal::hex_text(public_key) + " already exists with power "@ + text::decimal(
            a as nat,
        ),
        (StateErrorView::InvalidPublicKey).words() == "invalid ed25519 public key"@,
        (StateErrorView::InvalidPublicKeyInConfig).words()
            == "invalid ed25519 public key in config"@,
        (StateErrorView::InitialHeight).words() == "initial height must be 1"@,
        (StateErrorView::AppStateNotJson { cause }).words()
            == "failed to parse app_state as JSON: "@ + cause,
        (StateErrorView::NoConfigKey).words() == "app_state must contain a 'config' key"@,
        (StateErrorView::ConfigNotReadable { cause }).words()
            == "failed to deserialize config from app_state.config: "@ + cause,
        (StateErrorView::ValidatorCounts { genesis: m, config: n }).words() == "genesis has "@
            + text::decimal(m as nat) + " validators but config has "@ + text::decimal(n as nat)
            + " validators"@,
        (StateErrorView::PowerMismatch { public_key, genesis: a, config: b }).words()
            == "validator "@ + hexadecimal::hex_text(public_key) + " has power "@ + text::decimal(
            a as nat,
        ) + " in genesis but "@ + text::decimal(b as nat) + " in config"@,
        (StateErrorView::NotInConfig { public_key }).words() == "validator "@
            + hexadecimal::hex_text(public_key) + " in genesis is not in config"@,
{
}

/// The configuration that is handed out to be filled in, part by part.
pub proof fn lemma_template_parts(version: u32)
    ensures
        ({
            let c = transaction::template_view(version);
            &&& c.version == version
            &&& c.admins.voting.total.0 == 0
            &&& c.admins.voting.quorum.0 == 0
            &&& c.admins.voting.timeout.0.secs == 86400
            &&& c.admins.voting.timeout.0.nanos == 0
            &&& c.admins.voting.delay.0.secs == 0
            &&& c.admins.voting.delay.0.nanos == 0
            &&& c.admins.authorized.len() == 1
            &&& c.admins.authorized[0].len() == 64
            &&& is_placeholder(c.admins.authorized[0])
            &&& !c.oracles.enabled
            &&& c.oracles.voting.total.0 == 0
            &&& c.oracles.voting.quorum.0 == 0
            &&& c.oracles.voting.timeout.0.secs == 300
            &&& c.oracles.voting.timeout.0.nanos == 0
            &&& c.oracles.voting.delay.0.secs == 604800
            &&& c.oracles.voting.delay.0.nanos == 0
            &&& c.oracles.max_enrolled_subdomains == 1
            &&& c.oracles.observation_timeout.secs == 300
            &&& c.oracles.observation_timeout.nanos == 0
            &&& c.oracles.authorized.len() == 1
            &&& c.oracles.authorized[0].identity.len() == 64
            &&& is_placeholder(c.oracles.authorized[0].identity)
            &&& c.oracles.authorized[0].endpoint == "127.0.0.1"@
            &&& !c.onion.enabled
            &&& c.validators.len() == 0
        }),
{
}

} // verus!
