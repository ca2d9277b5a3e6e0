//! What holds of the chain from its beginning through every block.

use vstd::prelude::*;

use crate::convert;
use crate::crypto;
use crate::octets;
use crate::sequence;
use crate::state::config;
use crate::state::finalize_block;
use crate::state::finalize_block::FinalizeBlock;
use crate::state::finalize_block::Misbehavior;
use crate::state::init_chain;
use crate::state::init_chain::InitChainView;
use crate::state::validator;
use crate::state::validator::UpdateView;
use crate::state::validator_laws;
use crate::state::StateErrorView;
use crate::state::StateView;
use crate::table;
use crate::table::RowView;
use crate::transaction::ConfigView;
use crate::transaction::ValidatorView;

verus! {

/// Taking over configurations never lowers the version: the configuration at the end has at least
/// the version that was there before, and at least that of every one that was handed in.
pub proof fn lemma_version_never_falls(state: StateView, configs: Seq<ConfigView>)
    requires
        state.config is Some,
    ensures
        finalize_block::applied(state, configs).0.config is Some,
        finalize_block::applied(state, configs).0.config->0.version >= state.config->0.version,
        finalize_block::applied(state, configs).1 is None ==> (forall|i: int|
            0 <= i < configs.len() ==> finalize_block::applied(state, configs).0.config->0.version
                >= (#[trigger] configs[i]).version),
    decreases configs.len(),
{
    if configs.len() > 0 {
        let front = configs.drop_last();
        lemma_version_never_falls(state, front);
        assert forall|i: int|
            0 <= i < configs.len() && finalize_block::applied(
                state,
                configs,
            ).1 is None implies finalize_block::applied(state, configs).0.config->0.version >= (
        #[trigger] configs[i]).version by {
            if i < front.len() {
                assert(front[i] == configs[i]);
            }
        }
    }
}

/// The configuration of the chain is the one before, or one of those that were handed in with a
/// greater version, as its message keeps it.
pub proof fn lemma_config_comes_from(state: StateView, configs: Seq<ConfigView>)
    requires
        state.config is Some,
    ensures
        ({
            let now = finalize_block::applied(state, configs).0.config->0;
            now == state.config->0 || exists|i: int|
                0 <= i < configs.len() && now == convert::kept_config(#[trigger] configs[i])
                    && now.version > state.config->0.version
        }),
    decreases configs.len(),
{
    if configs.len() > 0 {
        let front = configs.drop_last();
        lemma_config_comes_from(state, front);
        lemma_version_never_falls(state, front);
        let now = finalize_block::applied(state, configs).0.config->0;
        let before = finalize_block::applied(state, front).0.config->0;
        if now == before {
            if now != state.config->0 {
                let i = choose|i: int|
                    0 <= i < front.len() && before == convert::kept_config(#[trigger] front[i])
                        && before.version > state.config->0.version;
                assert(configs[i] == front[i]);
            }
        } else {
            assert(now == convert::kept_config(configs[configs.len() - 1]));
        }
    }
}

/// Tombstoning several validators never fails on a state that this library wrote, and takes power
/// away only: each validator keeps its power or has none.
pub proof fn lemma_all_tombstoned(rows: Seq<RowView>, misbehavior: Seq<Misbehavior>)
    requires
        validator_laws::canonical(rows),
    ensures
        finalize_block::all_tombstoned(rows, misbehavior).1 is None,
        validator_laws::canonical(finalize_block::all_tombstoned(rows, misbehavior).0),
        forall|public_key: Seq<u8>|
            public_key.len() == 32 ==> {
                let now = #[trigger] validator_laws::power_of(
                    finalize_block::all_tombstoned(rows, misbehavior).0,
                    public_key,
                );
                now == validator_laws::power_of(rows, public_key) || (now == Some(0u64)
                    && validator_laws::power_of(rows, public_key) is Some)
            },
    decreases misbehavior.len(),
{
    if misbehavior.len() > 0 {
        let front = misbehavior.drop_last();
        lemma_all_tombstoned(rows, front);
        let before = finalize_block::all_tombstoned(rows, front).0;
        validator_laws::lemma_tombstone(before, misbehavior.last().address@);
        let after = finalize_block::all_tombstoned(rows, misbehavior).0;
        assert forall|public_key: Seq<u8>| public_key.len() == 32 implies ({
            let now = #[trigger] validator_laws::power_of(after, public_key);
            now == validator_laws::power_of(rows, public_key) || (now == Some(0u64)
                && validator_laws::power_of(rows, public_key) is Some)
        }) by {
            let then = validator_laws::power_of(before, public_key);
            assert(then == validator_laws::power_of(rows, public_key) || (then == Some(0u64)
                && validator_laws::power_of(rows, public_key) is Some));
        }
    }
}

/// A validator that misbehaved has no power once the block began, where no other validator in the
/// state shares its address.
pub proof fn lemma_misbehavior_is_punished(
    rows: Seq<RowView>,
    misbehavior: Seq<Misbehavior>,
    public_key: Seq<u8>,
    i: int,
)
    requires
        validator_laws::canonical(rows),
        public_key.len() == 32,
        validator_laws::power_of(rows, public_key) is Some,
        0 <= i < misbehavior.len(),
        misbehavior[i].address@ == crypto::address(public_key),
        forall|other: Seq<u8>|
            other.len() == 32 && (#[trigger] validator_laws::power_of(rows, other)) is Some
                && crypto::address(other) == crypto::address(public_key) ==> other == public_key,
    ensures
        validator_laws::power_of(
            finalize_block::all_tombstoned(rows, misbehavior).0,
            public_key,
        ) == Some(0u64),
    decreases misbehavior.len(),
{
    let front = misbehavior.drop_last();
    let last = misbehavior.last();
    lemma_all_tombstoned(rows, front);
    let before = finalize_block::all_tombstoned(rows, front).0;
    let after = finalize_block::all_tombstoned(rows, misbehavior).0;
    validator_laws::lemma_tombstone(before, last.address@);
    if i < front.len() {
        assert(front[i] == misbehavior[i]);
        lemma_misbehavior_is_punished(rows, front, public_key, i);
        assert(validator_laws::power_of(after, public_key) == Some(0u64));
    } else {
        let then = validator_laws::power_of(before, public_key);
        assert(then == validator_laws::power_of(rows, public_key) || then == Some(0u64));
        if then->0 > 0 {
            assert(after != before);
            if validator_laws::power_of(after, public_key) == then {
                assert forall|other: Seq<u8>| other.len() == 32 implies
                    #[trigger] validator_laws::power_of(after, other)
                    == validator_laws::power_of(before, other) by {
                    if validator_laws::power_of(after, other) != validator_laws::power_of(
                        before,
                        other,
                    ) {
                        assert(crypto::address(other) == crypto::address(public_key));
                        assert(validator_laws::power_of(before, other) is Some);
                        assert(validator_laws::power_of(rows, other) is Some);
                    }
                }
                validator_laws::lemma_same_powers(after, before);
            }
        }
    }
}

/// Whether the validators of every configuration have keys of the right length.
pub open spec fn configs_fit(configs: Seq<ConfigView>) -> bool {
    forall|i: int|
        0 <= i < configs.len() ==> validator_laws::keys_fit((#[trigger] configs[i]).validators)
}

/// Taking over configurations, also where it fails, keeps the state as this library writes it and
/// leaves validators without power without it.
pub proof fn lemma_applied_keeps(state: StateView, configs: Seq<ConfigView>)
    requires
        validator_laws::canonical(state.validators),
    ensures
        validator_laws::canonical(finalize_block::applied(state, configs).0.validators),
        forall|public_key: Seq<u8>|
            public_key.len() == 32 && validator_laws::power_of(state.validators, public_key)
                == Some(0u64) ==> #[trigger] validator_laws::power_of(
                finalize_block::applied(state, configs).0.validators,
                public_key,
            ) == Some(0u64),
        finalize_block::applied(state, configs).0.chain_id == state.chain_id,
        finalize_block::applied(state, configs).0.voted == state.voted,
        finalize_block::applied(state, configs).0.block_height == state.block_height,
        finalize_block::applied(state, configs).0.block_time == state.block_time,
    decreases configs.len(),
{
    if configs.len() > 0 {
        let front = configs.drop_last();
        lemma_applied_keeps(state, front);
        let before = finalize_block::applied(state, front).0;
        validator_laws::lemma_sync_keeps(before.validators, configs.last().validators);
        assert forall|public_key: Seq<u8>|
            public_key.len() == 32 && validator_laws::power_of(state.validators, public_key)
                == Some(0u64) implies #[trigger] validator_laws::power_of(
            finalize_block::applied(state, configs).0.validators,
            public_key,
        ) == Some(0u64) by {
            assert(validator_laws::power_of(before.validators, public_key) == Some(0u64));
        }
    }
}

/// Taking over configurations fails only where there is none before, or where a validator's key has
/// the wrong length.
pub proof fn lemma_applied_succeeds(state: StateView, configs: Seq<ConfigView>)
    requires
        state.config is Some,
        validator_laws::canonical(state.validators),
        configs_fit(configs),
    ensures
        finalize_block::applied(state, configs).1 is None,
    decreases configs.len(),
{
    if configs.len() > 0 {
        let front = configs.drop_last();
        assert forall|i: int| 0 <= i < front.len() implies validator_laws::keys_fit(
            (#[trigger] front[i]).validators,
        ) by {
            assert(front[i] == configs[i]);
        }
        lemma_applied_succeeds(state, front);
        lemma_applied_keeps(state, front);
        lemma_version_never_falls(state, front);
        let new = configs[configs.len() - 1];
        assert(validator_laws::keys_fit(new.validators));
        if new.validators.len() > 0 {
            validator_laws::lemma_sync(
                finalize_block::applied(state, front).0.validators,
                new.validators,
            );
        }
    }
}

/// A block never fails on a state that this library wrote and that has a configuration, where the
/// configurations that are taken over name validators by keys of the right length. The state is as
/// the library writes it afterwards, at the height and time of the block, with those recorded that
/// voted, and its version is not below what it was.
pub proof fn lemma_block_succeeds(
    state: StateView,
    request: FinalizeBlock,
    configs: Seq<ConfigView>,
)
    requires
        state.config is Some,
        validator_laws::canonical(state.validators),
        configs_fit(configs),
    ensures
        finalize_block::finalized(state, request, configs).1 is None,
        validator_laws::canonical(
            finalize_block::finalized(state, request, configs).0.validators,
        ),
        finalize_block::finalized(state, request, configs).0.chain_id == state.chain_id,
        finalize_block::finalized(state, request, configs).0.block_height == Some(request.height),
        finalize_block::finalized(state, request, configs).0.block_time == Some(request.time),
        finalize_block::finalized(state, request, configs).0.voted == validator::voters(
            validator::active(state.validators)->Ok_0,
            finalize_block::voting_addresses(request.votes@),
        ),
        finalize_block::finalized(state, request, configs).0.config is Some,
        finalize_block::finalized(state, request, configs).0.config->0.version
            >= state.config->0.version,
{
    validator_laws::lemma_active_iff(state.validators);
    lemma_all_tombstoned(state.validators, request.misbehavior@);
    let begun = finalize_block::begun(state, request).0;
    lemma_applied_succeeds(begun, configs);
    lemma_applied_keeps(begun, configs);
    lemma_version_never_falls(begun, configs);
    validator_laws::lemma_active_iff(finalize_block::applied(begun, configs).0.validators);
}

/// A validator that was tombstoned has no power after any block, also one that fails.
pub proof fn lemma_tombstone_survives_blocks(
    state: StateView,
    request: FinalizeBlock,
    configs: Seq<ConfigView>,
    public_key: Seq<u8>,
)
    requires
        validator_laws::canonical(state.validators),
        public_key.len() == 32,
        validator_laws::power_of(state.validators, public_key) == Some(0u64),
    ensures
        validator_laws::power_of(
            finalize_block::finalized(state, request, configs).0.validators,
            public_key,
        ) == Some(0u64),
{
    lemma_all_tombstoned(state.validators, request.misbehavior@);
    let begun = finalize_block::begun(state, request).0;
    assert(validator_laws::power_of(begun.validators, public_key) == Some(0u64));
    lemma_applied_keeps(begun, configs);
}

/// The powers that consensus holds once it was told these updates in turn: one without power is
/// removed, every other is set.
pub open spec fn told(held: Map<Seq<u8>, u64>, updates: Seq<UpdateView>) -> Map<Seq<u8>, u64>
    decreases updates.len(),
{
    if updates.len() == 0 {
        held
    } else {
        let before = told(held, updates.drop_last());
        if updates.last().power == 0 {
            before.remove(updates.last().pub_key)
        } else {
            before.insert(updates.last().pub_key, updates.last().power)
        }
    }
}

/// The powers of these validators, under their public keys.
pub open spec fn powers(validators: Seq<UpdateView>) -> Map<Seq<u8>, u64> {
    told(Map::empty(), validators)
}

/// Whether these validators all have some power, and no key occurs twice.
pub open spec fn proper(validators: Seq<UpdateView>) -> bool {
    &&& forall|i: int| 0 <= i < validators.len() ==> (#[trigger] validators[i]).power > 0
    &&& forall|i: int, j: int|
        0 <= i < j < validators.len() ==> (#[trigger] validators[i]).pub_key != (
        #[trigger] validators[j]).pub_key
}

proof fn lemma_proper_prefix(validators: Seq<UpdateView>)
    requires
        proper(validators),
        validators.len() > 0,
    ensures
        proper(validators.drop_last()),
{
    let front = validators.drop_last();
    assert forall|i: int| 0 <= i < front.len() implies (#[trigger] front[i]).power > 0 by {
        assert(front[i] == validators[i]);
    }
    assert forall|i: int, j: int| 0 <= i < j < front.len() implies (#[trigger] front[i]).pub_key
        != (#[trigger] front[j]).pub_key by {
        assert(front[i] == validators[i]);
        assert(front[j] == validators[j]);
    }
}

proof fn lemma_holds_key_push(validators: Seq<UpdateView>, key: Seq<u8>)
    requires
        validators.len() > 0,
    ensures
        finalize_block::holds_key(validators, key) <==> (finalize_block::holds_key(
            validators.drop_last(),
            key,
        ) || validators.last().pub_key == key),
{
    let front = validators.drop_last();
    if finalize_block::holds_key(validators, key) && validators.last().pub_key != key {
        let i = choose|i: int|
            0 <= i < validators.len() && (#[trigger] validators[i]).pub_key == key;
        assert(front[i] == validators[i]);
    }
    if finalize_block::holds_key(front, key) {
        let i = choose|i: int| 0 <= i < front.len() && (#[trigger] front[i]).pub_key == key;
        assert(validators[i] == front[i]);
    }
    if validators.last().pub_key == key {
        assert(validators[validators.len() - 1].pub_key == key);
    }
}

proof fn lemma_told_set(held: Map<Seq<u8>, u64>, validators: Seq<UpdateView>, key: Seq<u8>)
    requires
        proper(validators),
    ensures
        finalize_block::holds_key(validators, key) ==> told(held, validators).dom().contains(key)
            && powers(validators).dom().contains(key) && told(held, validators)[key] == powers(
            validators,
        )[key],
        !finalize_block::holds_key(validators, key) ==> (told(held, validators).dom().contains(key)
            <==> held.dom().contains(key)) && (held.dom().contains(key) ==> told(
            held,
            validators,
        )[key] == held[key]) && !powers(validators).dom().contains(key),
    decreases validators.len(),
{
    if validators.len() > 0 {
        lemma_proper_prefix(validators);
        lemma_holds_key_push(validators, key);
        lemma_told_set(held, validators.drop_last(), key);
        assert(validators[validators.len() - 1].power > 0);
    }
}

proof fn lemma_removed(
    before: Seq<UpdateView>,
    now: Seq<UpdateView>,
    held: Map<Seq<u8>, u64>,
    updates: Seq<UpdateView>,
    key: Seq<u8>,
)
    requires
        updates == finalize_block::removed(before, now),
    ensures
        told(held, updates).dom().contains(key) <==> held.dom().contains(key) && !(
        finalize_block::holds_key(before, key) && !finalize_block::holds_key(now, key)),
        told(held, updates).dom().contains(key) ==> told(held, updates)[key] == held[key],
    decreases before.len(),
{
    if before.len() > 0 {
        let front = before.drop_last();
        let rest = finalize_block::removed(front, now);
        lemma_removed(front, now, held, rest, key);
        lemma_holds_key_push(before, key);
        if !finalize_block::holds_key(now, before.last().pub_key) {
            assert(updates.drop_last() =~= rest);
        }
    }
}

proof fn lemma_told_twice(held: Map<Seq<u8>, u64>, a: Seq<UpdateView>, b: Seq<UpdateView>)
    ensures
        told(held, a + b) == told(told(held, a), b),
    decreases b.len(),
{
    if b.len() > 0 {
        assert((a + b).drop_last() =~= a + b.drop_last());
        lemma_told_twice(held, a, b.drop_last());
    } else {
        assert(a + b =~= a);
    }
}

/// Consensus, told the updates of a block, holds exactly the validators that are active after it,
/// where it held those that were active before it.
pub proof fn lemma_updates_reach_consensus(before: Seq<UpdateView>, now: Seq<UpdateView>)
    requires
        proper(before),
        proper(now),
    ensures
        told(powers(before), finalize_block::updates(before, now)) == powers(now),
{
    let gone = finalize_block::removed(before, now);
    let held = powers(before);
    let set = told(held, now);
    lemma_told_twice(held, now, gone);
    let all = told(set, gone);
    assert forall|key: Seq<u8>| #[trigger] all.dom().contains(key) == powers(
        now,
    ).dom().contains(key) by {
        lemma_told_set(held, now, key);
        lemma_told_set(Map::empty(), before, key);
        lemma_removed(before, now, set, gone, key);
    }
    assert forall|key: Seq<u8>| #[trigger] all.dom().contains(key) implies all[key] == powers(
        now,
    )[key] by {
        lemma_told_set(held, now, key);
        lemma_told_set(Map::empty(), before, key);
        lemma_removed(before, now, set, gone, key);
    }
    assert(all.dom() =~= powers(now).dom());
    assert(all =~= powers(now));
}

/// Consensus is told to remove only validators that it holds.
pub proof fn lemma_only_held_are_removed(
    before: Seq<UpdateView>,
    now: Seq<UpdateView>,
    update: UpdateView,
)
    requires
        proper(before),
        proper(now),
        finalize_block::updates(before, now).contains(update),
        update.power == 0,
    ensures
        powers(before).dom().contains(update.pub_key),
        !powers(now).dom().contains(update.pub_key),
{
    let all = finalize_block::updates(before, now);
    let i = choose|i: int| 0 <= i < all.len() && all[i] == update;
    if i < now.len() {
        assert(all[i] == now[i]);
    } else {
        let gone = finalize_block::removed(before, now);
        assert(all[i] == gone[i - now.len()]);
        lemma_removed_is_held(before, now, i - now.len());
    }
    lemma_told_set(Map::empty(), before, update.pub_key);
    lemma_told_set(Map::empty(), now, update.pub_key);
}

proof fn lemma_removed_is_held(before: Seq<UpdateView>, now: Seq<UpdateView>, i: int)
    requires
        0 <= i < finalize_block::removed(before, now).len(),
    ensures
        finalize_block::holds_key(before, finalize_block::removed(before, now)[i].pub_key),
        !finalize_block::holds_key(now, finalize_block::removed(before, now)[i].pub_key),
    decreases before.len(),
{
    let front = before.drop_last();
    let rest = finalize_block::removed(front, now);
    let key = finalize_block::removed(before, now)[i].pub_key;
    lemma_holds_key_push(before, key);
    if i < rest.len() {
        lemma_removed_is_held(front, now, i);
    }
}

/// What consensus is told at the end of a block that succeeds brings its validators from those that
/// were active before the block to those that are active after it.
pub proof fn lemma_block_reaches_consensus(
    state: StateView,
    request: FinalizeBlock,
    configs: Seq<ConfigView>,
)
    requires
        validator_laws::canonical(state.validators),
        finalize_block::finalized(state, request, configs).1 is None,
    ensures
        ({
            let before = validator::active(state.validators)->Ok_0;
            let now = validator::active(
                finalize_block::finalized(state, request, configs).0.validators,
            )->Ok_0;
            told(powers(before), finalize_block::updates(before, now)) == powers(now)
        }),
{
    lemma_blocks_keep_canonical(state, request, configs);
    let after = finalize_block::finalized(state, request, configs).0;
    lemma_active_is_proper(state.validators);
    lemma_active_is_proper(after.validators);
    lemma_updates_reach_consensus(
        validator::active(state.validators)->Ok_0,
        validator::active(after.validators)->Ok_0,
    );
}

proof fn lemma_active_is_proper(rows: Seq<RowView>)
    requires
        validator_laws::canonical(rows),
    ensures
        proper(validator::active(rows)->Ok_0),
{
    validator_laws::lemma_active_iff(rows);
    let found = validator::active(rows)->Ok_0;
    assert forall|i: int| 0 <= i < found.len() implies (#[trigger] found[i]).power > 0 by {
        assert(found.contains(found[i]));
    }
}

/// Whether these validators have keys of the right length, none of which occurs twice.
pub open spec fn distinct(validators: Seq<UpdateView>) -> bool {
    &&& forall|i: int| 0 <= i < validators.len() ==> (#[trigger] validators[i]).pub_key.len() == 32
    &&& forall|i: int, j: int|
        0 <= i < j < validators.len() ==> (#[trigger] validators[i]).pub_key != (
        #[trigger] validators[j]).pub_key
}

/// Declaring validators that are not in the state puts each into it with its power; where one
/// occurs twice or is there already, it is refused.
pub proof fn lemma_all_declared(rows: Seq<RowView>, validators: Seq<UpdateView>)
    requires
        validator_laws::canonical(rows),
        distinct(validators),
        forall|i: int|
            0 <= i < validators.len() ==> validator_laws::power_of(
                rows,
                (#[trigger] validators[i]).pub_key,
            ) is None,
    ensures
        init_chain::all_declared(rows, validators).1 is None,
        validator_laws::canonical(init_chain::all_declared(rows, validators).0),
        forall|i: int|
            0 <= i < validators.len() ==> validator_laws::power_of(
                init_chain::all_declared(rows, validators).0,
                (#[trigger] validators[i]).pub_key,
            ) == Some(validators[i].power),
        forall|public_key: Seq<u8>|
            !finalize_block::holds_key(validators, public_key) ==> #[trigger]
                validator_laws::power_of(
                init_chain::all_declared(rows, validators).0,
                public_key,
            ) == validator_laws::power_of(rows, public_key),
    decreases validators.len(),
{
    if validators.len() > 0 {
        let front = validators.drop_last();
        let last = validators[validators.len() - 1];
        assert(distinct(front)) by {
            assert forall|i: int| 0 <= i < front.len() implies (#[trigger] front[i]).pub_key.len()
                == 32 by {
                assert(front[i] == validators[i]);
            }
            assert forall|i: int, j: int| 0 <= i < j < front.len() implies (
            #[trigger] front[i]).pub_key != (#[trigger] front[j]).pub_key by {
                assert(front[i] == validators[i]);
                assert(front[j] == validators[j]);
            }
        }
        assert forall|i: int| 0 <= i < front.len() implies validator_laws::power_of(
            rows,
            (#[trigger] front[i]).pub_key,
        ) is None by {
            assert(front[i] == validators[i]);
        }
        lemma_all_declared(rows, front);
        let before = init_chain::all_declared(rows, front).0;
        let after = init_chain::all_declared(rows, validators).0;
        assert(!finalize_block::holds_key(front, last.pub_key)) by {
            if finalize_block::holds_key(front, last.pub_key) {
                let i = choose|i: int|
                    0 <= i < front.len() && (#[trigger] front[i]).pub_key == last.pub_key;
                assert(validators[i] == front[i]);
            }
        }
        assert(validator_laws::power_of(before, last.pub_key) is None);
        validator_laws::lemma_declared(before, last.pub_key, last.power);
        assert forall|i: int| 0 <= i < validators.len() implies validator_laws::power_of(
            after,
            (#[trigger] validators[i]).pub_key,
        ) == Some(validators[i].power) by {
            if i < front.len() {
                assert(front[i] == validators[i]);
            }
        }
        assert forall|public_key: Seq<u8>|
            !finalize_block::holds_key(validators, public_key) implies #[trigger]
        validator_laws::power_of(after, public_key) == validator_laws::power_of(
            rows,
            public_key,
        ) by {
            lemma_holds_key_push(validators, public_key);
            assert(validator_laws::power_of(before, public_key) == validator_laws::power_of(
                rows,
                public_key,
            ));
        }
    }
}

/// A chain that begins at height 1 with a configuration and validators that it agrees with, none
/// twice, has that configuration, as its message keeps it, and each validator with the power that genesis gives it, and no
/// other validator.
pub proof fn lemma_chain_begins(
    state: StateView,
    request: InitChainView,
    config: ConfigView,
)
    requires
        state.validators.len() == 0,
        request.initial_height == 1,
        distinct(request.validators),
        init_chain::genesis_difference(request.validators, config.validators) is None,
    ensures
        ({
            let begun = init_chain::started(
                state,
                request,
                Ok::<ConfigView, StateErrorView>(config),
            );
            &&& begun.1 is None
            &&& begun.0.chain_id == Some(request.chain_id)
            &&& begun.0.config == Some(convert::kept_config(config))
            &&& validator_laws::canonical(begun.0.validators)
            &&& forall|i: int|
                0 <= i < request.validators.len() ==> validator_laws::power_of(
                    begun.0.validators,
                    (#[trigger] request.validators[i]).pub_key,
                ) == Some(request.validators[i].power)
            &&& forall|public_key: Seq<u8>|
                !finalize_block::holds_key(request.validators, public_key) ==> (#[trigger]
                validator_laws::power_of(begun.0.validators, public_key)) is None
        }),
{
    let rows = state.validators;
    assert(validator_laws::canonical(rows));
    lemma_all_declared(rows, request.validators);
}

/// A configuration that agrees with genesis names the same validators with the same powers.
pub proof fn lemma_genesis_agrees(genesis: Seq<UpdateView>, config: Seq<ValidatorView>)
    requires
        config.len() > 0,
        init_chain::genesis_difference(genesis, config) is None,
    ensures
        init_chain::genesis_powers(genesis) == init_chain::config_powers(config),
{
    let g = init_chain::genesis_powers(genesis);
    let c = init_chain::config_powers(config);
    validator::lemma_table_of_rows(genesis.map_values(|u: UpdateView| init_chain::genesis_row(u)));
    validator::lemma_table_of_rows(config.map_values(|v: ValidatorView| init_chain::config_row(v)));
    lemma_no_difference(g, c, 0);
    assert forall|i: int| 0 <= i < g.len() implies g[i] == c[i] by {
        lemma_at_or_after(g, c, i);
        lemma_at_or_before(g, c, i);
    }
    assert(g =~= c);
}

proof fn lemma_no_difference(genesis: Seq<RowView>, config: Seq<RowView>, start: int)
    requires
        0 <= start,
        init_chain::difference_from(genesis, config, start) is None,
    ensures
        forall|i: int|
            start <= i < genesis.len() ==> table::lookup(config, (#[trigger] genesis[i]).key)
                == Some(genesis[i].value),
    decreases genesis.len() - start,
{
    if start < genesis.len() {
        lemma_no_difference(genesis, config, start + 1);
    }
}

/// Row `i` of `a` stands in `b` at `i` or after it.
proof fn lemma_at_or_after(a: Seq<RowView>, b: Seq<RowView>, i: int)
    requires
        table::ascending(a),
        table::ascending(b),
        forall|j: int|
            0 <= j < a.len() ==> table::lookup(b, (#[trigger] a[j]).key) == Some(a[j].value),
        0 <= i < a.len(),
    ensures
        table::position(b, a[i].key) >= i,
        table::position(b, a[i].key) < b.len(),
        b[table::position(b, a[i].key)] == a[i],
    decreases i,
{
    assert(table::lookup(b, a[i].key) == Some(a[i].value));
    table::lemma_position(b, a[i].key);
    if i > 0 {
        lemma_at_or_after(a, b, i - 1);
        lemma_positions_ascend(a, b, i - 1, i);
    }
}

/// Row `i` of `a` stands in `b` as far from the end or farther.
proof fn lemma_at_or_before(a: Seq<RowView>, b: Seq<RowView>, i: int)
    requires
        table::ascending(a),
        table::ascending(b),
        a.len() == b.len(),
        forall|j: int|
            0 <= j < a.len() ==> table::lookup(b, (#[trigger] a[j]).key) == Some(a[j].value),
        0 <= i < a.len(),
    ensures
        table::position(b, a[i].key) <= i,
    decreases a.len() - i,
{
    lemma_at_or_after(a, b, i);
    if i + 1 < a.len() {
        lemma_at_or_before(a, b, i + 1);
        lemma_positions_ascend(a, b, i, i + 1);
    }
}

proof fn lemma_positions_ascend(a: Seq<RowView>, b: Seq<RowView>, i: int, j: int)
    requires
        table::ascending(a),
        table::ascending(b),
        0 <= i < j < a.len(),
        table::lookup(b, a[i].key) == Some(a[i].value),
        table::lookup(b, a[j].key) == Some(a[j].value),
    ensures
        table::position(b, a[i].key) < table::position(b, a[j].key),
{
    table::lemma_position(b, a[i].key);
    table::lemma_position(b, a[j].key);
    let p = table::position(b, a[i].key);
    let q = table::position(b, a[j].key);
    assert(octets::lex_less(a[i].key, a[j].key));
    octets::lemma_lex_total(a[i].key, a[j].key);
    assert(b[p].key == a[i].key);
    assert(b[q].key == a[j].key);
    if q < p {
        assert(octets::lex_less(b[q].key, b[p].key));
    }
}

/// A configuration that was accepted is taken over, as its message keeps it, when its turn comes,
/// where its validators have keys of the right length.
pub proof fn lemma_accepted_is_applied(state: StateView, new: ConfigView)
    requires
        config::config_error(state.config, new) is None,
        validator_laws::canonical(state.validators),
        validator_laws::keys_fit(new.validators),
    ensures
        finalize_block::applied(state, seq![new]).1 is None,
        finalize_block::applied(state, seq![new]).0.config == Some(convert::kept_config(new)),
{
    let one = seq![new];
    assert(one.drop_last() =~= Seq::empty());
    assert(one.last() == new);
    assert(finalize_block::applied(state, one.drop_last()) == (state, None::<StateErrorView>));
    if new.validators.len() > 0 {
        validator_laws::lemma_sync(state.validators, new.validators);
    }
}

/// A validator that an accepted configuration brings in has exactly the power that it gives.
pub proof fn lemma_accepted_powers_fit(current: ConfigView, new: ConfigView, i: int)
    requires
        config::config_error(Some(current), new) is None,
        new.admins.authorized.len() <= u64::MAX,
        new.oracles.authorized.len() <= u64::MAX,
        0 <= i < new.validators.len(),
        new.validators[i].public_key.len() == 32,
    ensures
        validator::wanted_row(new.validators[i]) == Ok::<RowView, StateErrorView>(
            RowView { key: new.validators[i].public_key, value: new.validators[i].power },
        ),
{
    config::lemma_accepted_iff(current, new);
}

/// After every block, also one that fails, the validators are as this library writes them, where
/// they were before.
pub proof fn lemma_blocks_keep_canonical(
    state: StateView,
    request: FinalizeBlock,
    configs: Seq<ConfigView>,
)
    requires
        validator_laws::canonical(state.validators),
    ensures
        validator_laws::canonical(
            finalize_block::finalized(state, request, configs).0.validators,
        ),
{
    lemma_all_tombstoned(state.validators, request.misbehavior@);
    lemma_applied_keeps(finalize_block::begun(state, request).0, configs);
}

proof fn lemma_declaring_keeps_canonical(rows: Seq<RowView>, validators: Seq<UpdateView>)
    requires
        validator_laws::canonical(rows),
        forall|i: int|
            0 <= i < validators.len() ==> (#[trigger] validators[i]).pub_key.len() == 32,
    ensures
        validator_laws::canonical(init_chain::all_declared(rows, validators).0),
    decreases validators.len(),
{
    if validators.len() > 0 {
        let front = validators.drop_last();
        assert forall|i: int| 0 <= i < front.len() implies (#[trigger] front[i]).pub_key.len()
            == 32 by {
            assert(front[i] == validators[i]);
        }
        lemma_declaring_keeps_canonical(rows, front);
        let last = validators[validators.len() - 1];
        assert(last.pub_key.len() == 32);
        validator_laws::lemma_declared(
            init_chain::all_declared(rows, front).0,
            last.pub_key,
            last.power,
        );
    }
}

/// However the chain begins, also where it fails to, the validators are as this library writes them,
/// where they were before.
pub proof fn lemma_beginning_keeps_canonical(
    state: StateView,
    request: InitChainView,
    config: Result<ConfigView, StateErrorView>,
)
    requires
        validator_laws::canonical(state.validators),
        forall|i: int|
            0 <= i < request.validators.len() ==> (
            #[trigger] request.validators[i]).pub_key.len() == 32,
    ensures
        validator_laws::canonical(init_chain::started(state, request, config).0.validators),
{
    lemma_declaring_keeps_canonical(state.validators, request.validators);
}

} // verus!
