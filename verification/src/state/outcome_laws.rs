//! What a block, and the beginning of the chain, make of what they are given.

use vstd::prelude::*;

use crate::convert;
use crate::convert_laws;
use crate::crypto;
use crate::state::config;
use crate::state::finalize_block;
use crate::state::finalize_block::BlockIdFlag;
use crate::state::finalize_block::BlockSignatureInfo;
use crate::state::finalize_block::ExecTxResultView;
use crate::state::finalize_block::FinalizeBlock;
use crate::state::finalize_block::Misbehavior;
use crate::state::finalize_block::VoteInfo;
use crate::state::init_chain;
use crate::state::init_chain::InitChainView;
use crate::state::validator;
use crate::state::validator::UpdateView;
use crate::state::validator_laws;
use crate::state::StateError;
use crate::state::StateErrorView;
use crate::state::StateView;
use crate::table::RowView;
use crate::transaction::Config;
use crate::transaction::ConfigView;
use crate::transaction::HashObservedView;
use crate::transaction::OracleVoteValueView;
use crate::transaction::ValidatorView;

verus! {

/// Configurations are taken over one after the other: to take over some and then others is to take
/// over all of them, unless it failed at one of the first.
pub proof fn lemma_taken_in_turn(state: StateView, first: Seq<ConfigView>, rest: Seq<ConfigView>)
    ensures
        finalize_block::applied(state, first).1 is Some ==> finalize_block::applied(
            state,
            first + rest,
        ) == finalize_block::applied(state, first),
        finalize_block::applied(state, first).1 is None ==> finalize_block::applied(
            state,
            first + rest,
        ) == finalize_block::applied(finalize_block::applied(state, first).0, rest),
    decreases rest.len(),
{
    if rest.len() == 0 {
        assert(first + rest =~= first);
    } else {
        lemma_taken_in_turn(state, first, rest.drop_last());
        assert((first + rest).drop_last() =~= first + rest.drop_last());
        assert((first + rest).last() == rest.last());
    }
}

/// A configuration with a greater version is taken over whatever it holds: it is the configuration
/// from then on, its validators are brought into the state, and nothing else changes. One whose
/// version is not greater changes nothing, and without a configuration none is taken over.
pub proof fn lemma_taken_over(state: StateView, new: ConfigView)
    ensures
        ({
            let after = finalize_block::applied(state, seq![new]);
            &&& state.config is None ==> after == (state, Some(StateErrorView::ConfigNotFound))
            &&& state.config is Some && state.config->0.version >= new.version ==> after == (
                state,
                None::<StateErrorView>,
            )
            &&& state.config is Some && state.config->0.version < new.version ==> {
                &&& after.0.config == Some(convert::kept_config(new))
                &&& after.0.config->0.version == new.version
                &&& after.0.config->0.admins.authorized == new.admins.authorized
                &&& after.0.config->0.oracles.enabled == new.oracles.enabled
                &&& after.0.config->0.onion.enabled == new.onion.enabled
                &&& after.0.config->0.validators.len() == new.validators.len()
                &&& after.0.validators == validator::synced(state.validators, new.validators).0
                &&& after.1 == validator::synced(state.validators, new.validators).1
                &&& after.0.chain_id == state.chain_id
                &&& after.0.voted == state.voted
                &&& after.0.block_height == state.block_height
                &&& after.0.block_time == state.block_time
            }
        }),
{
    let one = seq![new];
    assert(one.drop_last() =~= Seq::<ConfigView>::empty());
    assert(one.last() == new);
    assert(finalize_block::applied(state, one.drop_last()) == (state, None::<StateErrorView>));
    convert_laws::lemma_config_is_kept(new);
}

/// Whether a configuration names a validator.
pub open spec fn names(validators: Seq<ValidatorView>, public_key: Seq<u8>) -> bool {
    exists|i: int| 0 <= i < validators.len() && (#[trigger] validators[i]).public_key == public_key
}

/// The power that a configuration gives a validator is there exactly where it names it.
pub proof fn lemma_power_in_iff(validators: Seq<ValidatorView>, public_key: Seq<u8>)
    ensures
        validator_laws::power_in(validators, public_key) is Some <==> names(validators, public_key),
    decreases validators.len(),
{
    if validators.len() > 0 {
        let front = validators.drop_last();
        let n = validators.len() - 1;
        lemma_power_in_iff(front, public_key);
        if validators.last().public_key == public_key {
            assert(validators[n].public_key == public_key);
        } else if names(front, public_key) {
            let i = choose|i: int|
                0 <= i < front.len() && (#[trigger] front[i]).public_key == public_key;
            assert(validators[i].public_key == public_key);
        } else if names(validators, public_key) {
            let i = choose|i: int|
                0 <= i < validators.len() && (#[trigger] validators[i]).public_key == public_key;
            assert(front[i].public_key == public_key);
        }
    }
}

/// The power that a configuration gives a validator is the last one that it gives, in 32 bits.
pub proof fn lemma_power_in(validators: Seq<ValidatorView>, public_key: Seq<u8>, i: int)
    requires
        0 <= i < validators.len(),
        validators[i].public_key == public_key,
        forall|j: int|
            i < j < validators.len() ==> (#[trigger] validators[j]).public_key != public_key,
    ensures
        validator_laws::power_in(validators, public_key) == Some(
            (validators[i].power % 0x1_0000_0000) as u64,
        ),
    decreases validators.len(),
{
    let n = validators.len() - 1;
    if i < n {
        let front = validators.drop_last();
        assert(validators[n].public_key != public_key);
        assert forall|j: int| i < j < front.len() implies (
        #[trigger] front[j]).public_key != public_key by {
            assert(validators[j].public_key != public_key);
        }
        lemma_power_in(front, public_key, i);
    } else {
        let power = validators[i].power;
        assert((power as u32) as u64 == (power % 0x1_0000_0000) as u64) by (bit_vector);
    }
}

/// Once a configuration with a greater version that names validators was taken over, however many
/// it names and whatever the configuration before it named: a validator that was in the state keeps
/// its power where the configuration names it, and has none where it does not; one that was not is
/// in the state exactly where the configuration names it, with the power that it gives.
pub proof fn lemma_taken_over_powers(
    state: StateView,
    new: ConfigView,
    public_key: Seq<u8>,
    i: int,
)
    requires
        state.config is Some,
        state.config->0.version < new.version,
        validator_laws::canonical(state.validators),
        validator_laws::keys_fit(new.validators),
        new.validators.len() > 0,
        public_key.len() == 32,
    ensures
        ({
            let before = validator_laws::power_of(state.validators, public_key);
            let taken = finalize_block::applied(state, seq![new]);
            let after = validator_laws::power_of(taken.0.validators, public_key);
            &&& taken.1 is None
            &&& before is Some && names(new.validators, public_key) ==> after == before
            &&& before is Some && !names(new.validators, public_key) ==> after == Some(0u64)
            &&& before is None && !names(new.validators, public_key) ==> after is None
            &&& before is None && 0 <= i < new.validators.len() && new.validators[i].public_key
                == public_key && (forall|j: int|
                i < j < new.validators.len() ==> (
                #[trigger] new.validators[j]).public_key != public_key) && new.validators[i].power
                <= 0xffff_ffff ==> after == Some(new.validators[i].power)
        }),
{
    lemma_taken_over(state, new);
    validator_laws::lemma_sync(state.validators, new.validators);
    lemma_power_in_iff(new.validators, public_key);
    if 0 <= i < new.validators.len() && new.validators[i].public_key == public_key && (forall|j: int|
        i < j < new.validators.len() ==> (#[trigger] new.validators[j]).public_key
            != public_key) {
        assert(new.validators[i].public_key == public_key);
        lemma_power_in(new.validators, public_key, i);
    }
}

/// What a validator's power comes to in a row is its power, where that fits 32 bits.
pub proof fn lemma_wanted_power(v: ValidatorView)
    ensures
        validator::wanted_row(v) is Ok <==> v.public_key.len() == 32,
        validator::wanted_row(v) is Err ==> validator::wanted_row(v)->Err_0
            == StateErrorView::InvalidPublicKeyInConfig,
        validator::wanted_row(v) matches Ok(row) ==> row.key == v.public_key && row.value == (v.power
            % 0x1_0000_0000) as u64,
{
    let power = v.power;
    assert((power as u32) as u64 == (power % 0x1_0000_0000) as u64) by (bit_vector);
}

/// What becomes canonical of a promoted observation is its domain, and what was found there, whole.
pub proof fn lemma_canonical_is_promoted(
    domain: Seq<Seq<char>>,
    value: OracleVoteValueView,
)
    ensures
        finalize_block::canonical_view((domain, value)).0 == domain,
        finalize_block::canonical_view((domain, value)).1 == value.hash_observed,
        value.hash_observed matches HashObservedView::Hash(hash)
            ==> finalize_block::canonical_view((domain, value)).1 == HashObservedView::Hash(hash),
{
}

/// Two promoted observations of different things become different canonical values.
pub proof fn lemma_canonical_tells_apart(
    a: (Seq<Seq<char>>, OracleVoteValueView),
    b: (Seq<Seq<char>>, OracleVoteValueView),
)
    requires
        finalize_block::canonical_view(a) == finalize_block::canonical_view(b),
    ensures
        a.0 == b.0,
        a.1.hash_observed == b.1.hash_observed,
{
}

/// What came of steps is the value, or the error, that they gave.
pub proof fn lemma_outcomes(
    checked: Result<(), StateError>,
    error: Option<StateErrorView>,
    parsed: Result<Config, String>,
    config: Result<Config, StateError>,
    delivered: Result<(), String>,
)
    requires
        config::check_outcome(checked, error),
    ensures
        checked is Ok <==> error is None,
        checked matches Err(e) ==> error == Some(e@),
        parsed matches Ok(c) ==> init_chain::parsed_view(parsed) == Ok::<ConfigView, Seq<char>>(c@),
        parsed matches Err(e) ==> init_chain::parsed_view(parsed) == Err::<ConfigView, Seq<char>>(
            e@,
        ),
        config matches Ok(c) ==> init_chain::config_view(config) == Ok::<
            ConfigView,
            StateErrorView,
        >(c@),
        config matches Err(e) ==> init_chain::config_view(config) == Err::<
            ConfigView,
            StateErrorView,
        >(e@),
        finalize_block::delivery_view(delivered) is Ok <==> delivered is Ok,
        delivered matches Err(e) ==> finalize_block::delivery_view(delivered) == Err::<
            (),
            Seq<char>,
        >(e@),
{
}

/// What consensus hands over and is told, of values in memory, part by part, as contracts speak of
/// them.
pub proof fn lemma_request_parts(
    request: init_chain::InitChain,
    update: validator::Update,
    result: finalize_block::ExecTxResult,
)
    ensures
        request@.time == request.time,
        request@.chain_id == request.chain_id@,
        request@.consensus_params == request.consensus_params@,
        request@.app_state_bytes == request.app_state_bytes@,
        request@.initial_height == request.initial_height,
        request@.validators.len() == request.validators@.len(),
        forall|i: int|
            0 <= i < request.validators@.len() ==> #[trigger] request@.validators[i]
                == request.validators@[i]@,
        update@.pub_key == update.pub_key.bytes@,
        update@.power == update.power,
        result@.code == result.code,
        result@.data == result.data@,
        result@.log == result.log@,
        result@.info == result.info@,
        result@.gas_wanted == result.gas_wanted,
        result@.gas_used == result.gas_used,
        result@.codespace == result.codespace@,
        result@.events.len() == result.events@.len(),
{
}

/// What consensus is told of a transaction: code 0 and nothing else where it was executed, code 1
/// and the error where it was not.
pub proof fn lemma_tx_result(outcome: Result<(), Seq<char>>)
    ensures
        ({
            let told = finalize_block::tx_result_view(outcome);
            &&& outcome is Ok ==> told.code == 0 && told.log.len() == 0
            &&& outcome matches Err(e) ==> told.code == 1 && told.log == e
            &&& told.data.len() == 0
            &&& told.info.len() == 0
            &&& told.gas_wanted == 0
            &&& told.gas_used == 0
            &&& told.events.len() == 0
            &&& told.codespace.len() == 0
        }),
{
}

/// Whether a validator did anything else than stay away.
pub open spec fn took_part(vote: VoteInfo) -> bool {
    vote.sig_info != BlockSignatureInfo::Flag(BlockIdFlag::Absent)
}

/// Those that voted are those that did not stay away, in their order.
pub proof fn lemma_voting_addresses(a: Seq<VoteInfo>, b: Seq<VoteInfo>, vote: VoteInfo)
    ensures
        finalize_block::voting_addresses(a + b) == finalize_block::voting_addresses(a)
            + finalize_block::voting_addresses(b),
        took_part(vote) ==> finalize_block::voting_addresses(seq![vote]) == seq![vote.address@],
        !took_part(vote) ==> finalize_block::voting_addresses(seq![vote]).len() == 0,
    decreases b.len(),
{
    reveal_with_fuel(finalize_block::voting_addresses, 2);
    assert(seq![vote].drop_last() =~= Seq::<VoteInfo>::empty());
    assert(seq![vote].last() == vote);
    if b.len() == 0 {
        assert(a + b =~= a);
        assert(finalize_block::voting_addresses(a) + finalize_block::voting_addresses(b)
            =~= finalize_block::voting_addresses(a));
    } else {
        lemma_voting_addresses(a, b.drop_last(), vote);
        assert((a + b).drop_last() =~= a + b.drop_last());
        assert((a + b).last() == b.last());
        assert(finalize_block::voting_addresses(a + b) =~= finalize_block::voting_addresses(a)
            + finalize_block::voting_addresses(b));
    }
    assert(took_part(vote) ==> finalize_block::voting_addresses(seq![vote])
        =~= seq![vote.address@]);
}

/// An address is among those that voted exactly where a vote is from it that did not stay away.
pub proof fn lemma_voted_iff(votes: Seq<VoteInfo>, address: Seq<u8>)
    ensures
        finalize_block::voting_addresses(votes).contains(address) <==> exists|i: int|
            0 <= i < votes.len() && (#[trigger] votes[i]).address@ == address && took_part(
                votes[i],
            ),
    decreases votes.len(),
{
    if votes.len() > 0 {
        let front = votes.drop_last();
        lemma_voted_iff(front, address);
        let before = finalize_block::voting_addresses(front);
        let all = finalize_block::voting_addresses(votes);
        let n = votes.len() - 1;
        if all.contains(address) {
            let k = choose|k: int| 0 <= k < all.len() && all[k] == address;
            if k < before.len() {
                assert(before[k] == address);
                let i = choose|i: int|
                    0 <= i < front.len() && (#[trigger] front[i]).address@ == address && took_part(
                        front[i],
                    );
                assert(votes[i].address@ == address);
            } else {
                assert(votes[n].address@ == address);
            }
        }
        if exists|i: int|
            0 <= i < votes.len() && (#[trigger] votes[i]).address@ == address && took_part(
                votes[i],
            ) {
            let i = choose|i: int|
                0 <= i < votes.len() && (#[trigger] votes[i]).address@ == address && took_part(
                    votes[i],
                );
            if i < n {
                assert(front[i].address@ == address);
                let k = choose|k: int| 0 <= k < before.len() && before[k] == address;
                assert(all[k] == address);
            } else {
                assert(all[all.len() - 1] == address);
            }
        }
    } else {
        assert(!finalize_block::voting_addresses(votes).contains(address));
    }
}

/// Those that are found by address stand in the order of the validators.
pub proof fn lemma_voters_in_order(
    a: Seq<UpdateView>,
    b: Seq<UpdateView>,
    one: UpdateView,
    addresses: Seq<Seq<u8>>,
)
    ensures
        validator::voters(a + b, addresses) == validator::voters(a, addresses) + validator::voters(
            b,
            addresses,
        ),
        addresses.contains(crypto::address(one.pub_key)) ==> validator::voters(seq![one], addresses)
            == seq![one.pub_key],
        !addresses.contains(crypto::address(one.pub_key)) ==> validator::voters(
            seq![one],
            addresses,
        ).len() == 0,
    decreases b.len(),
{
    reveal_with_fuel(validator::with_address, 2);
    assert(seq![one].drop_last() =~= Seq::<UpdateView>::empty());
    assert(validator::addresses_of(seq![one])[0] == crypto::address(one.pub_key));
    if b.len() == 0 {
        assert(a + b =~= a);
        assert(validator::voters(b, addresses) =~= Seq::<Seq<u8>>::empty());
        assert(validator::voters(a, addresses) + validator::voters(b, addresses)
            =~= validator::voters(a, addresses));
    } else {
        let front = b.drop_last();
        lemma_voters_in_order(a, front, one, addresses);
        assert((a + b).drop_last() =~= a + front);
        validator_laws::lemma_with_address_prefix(
            a + front,
            validator::addresses_of(a + b),
            validator::addresses_of(a + front),
            addresses,
        );
        validator_laws::lemma_with_address_prefix(
            front,
            validator::addresses_of(b),
            validator::addresses_of(front),
            addresses,
        );
        assert(validator::addresses_of(a + b)[(a + b).len() - 1] == crypto::address(
            b.last().pub_key,
        ));
        assert(validator::addresses_of(b)[b.len() - 1] == crypto::address(b.last().pub_key));
        assert(validator::voters(a + b, addresses) =~= validator::voters(a, addresses)
            + validator::voters(b, addresses));
    }
    assert(addresses.contains(crypto::address(one.pub_key)) ==> validator::voters(
        seq![one],
        addresses,
    ) =~= seq![one.pub_key]);
}

/// The keys that are found by address are those of the validators at whose place one of the wanted
/// addresses stands.
pub proof fn lemma_selected_iff(
    validators: Seq<UpdateView>,
    addresses: Seq<Seq<u8>>,
    wanted: Seq<Seq<u8>>,
    public_key: Seq<u8>,
)
    ensures
        validator::with_address(validators, addresses, wanted).contains(public_key) <==> exists|
            i: int,
        |
            0 <= i < validators.len() && (#[trigger] validators[i]).pub_key == public_key
                && wanted.contains(addresses[i]),
        validator::with_address(validators, addresses, wanted).len() <= validators.len(),
    decreases validators.len(),
{
    if validators.len() > 0 {
        let front = validators.drop_last();
        let n = validators.len() - 1;
        lemma_selected_iff(front, addresses, wanted, public_key);
        let before = validator::with_address(front, addresses, wanted);
        let all = validator::with_address(validators, addresses, wanted);
        if all.contains(public_key) {
            let k = choose|k: int| 0 <= k < all.len() && all[k] == public_key;
            if k < before.len() {
                assert(before[k] == public_key);
                let i = choose|i: int|
                    0 <= i < front.len() && (#[trigger] front[i]).pub_key == public_key
                        && wanted.contains(addresses[i]);
                assert(validators[i].pub_key == public_key);
            } else {
                assert(validators[n].pub_key == public_key);
            }
        }
        if exists|i: int|
            0 <= i < validators.len() && (#[trigger] validators[i]).pub_key == public_key
                && wanted.contains(addresses[i]) {
            let i = choose|i: int|
                0 <= i < validators.len() && (#[trigger] validators[i]).pub_key == public_key
                    && wanted.contains(addresses[i]);
            if i < n {
                assert(front[i].pub_key == public_key);
                let k = choose|k: int| 0 <= k < before.len() && before[k] == public_key;
                assert(all[k] == public_key);
            } else {
                assert(all[all.len() - 1] == public_key);
            }
        }
    } else {
        assert(!validator::with_address(validators, addresses, wanted).contains(public_key));
    }
}

/// Misbehaviour is punished one after the other.
pub proof fn lemma_punished_in_turn(
    rows: Seq<RowView>,
    first: Seq<Misbehavior>,
    rest: Seq<Misbehavior>,
    one: Misbehavior,
)
    ensures
        finalize_block::all_tombstoned(rows, first).1 is Some ==> finalize_block::all_tombstoned(
            rows,
            first + rest,
        ) == finalize_block::all_tombstoned(rows, first),
        finalize_block::all_tombstoned(rows, first).1 is None ==> finalize_block::all_tombstoned(
            rows,
            first + rest,
        ) == finalize_block::all_tombstoned(finalize_block::all_tombstoned(rows, first).0, rest),
        finalize_block::all_tombstoned(rows, seq![one]) == validator::tombstoned(
            rows,
            one.address@,
        ),
    decreases rest.len(),
{
    reveal_with_fuel(finalize_block::all_tombstoned, 2);
    assert(seq![one].drop_last() =~= Seq::<Misbehavior>::empty());
    if rest.len() == 0 {
        assert(first + rest =~= first);
    } else {
        lemma_punished_in_turn(rows, first, rest.drop_last(), one);
        assert((first + rest).drop_last() =~= first + rest.drop_last());
        assert((first + rest).last() == rest.last());
    }
}

/// Tombstoning an address takes the power of one validator at most, the first active one with it.
pub proof fn lemma_one_is_tombstoned(
    rows: Seq<RowView>,
    address: Seq<u8>,
    a: Seq<u8>,
    b: Seq<u8>,
)
    requires
        validator_laws::canonical(rows),
        a.len() == 32,
        b.len() == 32,
        validator_laws::power_of(validator::tombstoned(rows, address).0, a)
            != validator_laws::power_of(rows, a),
        validator_laws::power_of(validator::tombstoned(rows, address).0, b)
            != validator_laws::power_of(rows, b),
    ensures
        a == b,
        exists|i: int|
            0 <= i < validator::active(rows)->Ok_0.len() && (#[trigger] validator::active(
                rows,
            )->Ok_0[i]).pub_key == a,
        validator::voters(validator::active(rows)->Ok_0, seq![address])[0] == a,
{
    validator_laws::lemma_active_iff(rows);
    let active = validator::active(rows)->Ok_0;
    let found = validator::voters(active, seq![address]);
    validator_laws::lemma_voters(active, seq![address]);
    if found.len() > 0 {
        assert(found.contains(found[0]));
        let i = choose|i: int|
            0 <= i < active.len() && (#[trigger] active[i]).pub_key == found[0];
        assert(active.contains(active[i]));
        validator_laws::lemma_put_power(rows, found[0], 0);
        assert(active[i].pub_key == a);
    }
}

/// A block stops at its first step that fails, with the state as that step left it: who voted is not
/// recorded where the active validators cannot be read, and no configuration is taken over where the
/// block did not begin.
pub proof fn lemma_block_stops(
    state: StateView,
    request: FinalizeBlock,
    configs: Seq<ConfigView>,
)
    ensures
        validator::active(state.validators) matches Err(e) ==> finalize_block::finalized(
            state,
            request,
            configs,
        ) == (state, Some(e)),
        ({
            let begun = finalize_block::begun(state, request);
            let taken = finalize_block::applied(begun.0, configs);
            let after = finalize_block::finalized(state, request, configs);
            &&& begun.1 is Some ==> after == begun
            &&& begun.1 is None ==> after.0 == taken.0
            &&& begun.1 is None && taken.1 is Some ==> after.1 == taken.1
            &&& begun.1 is None && taken.1 is None ==> (after.1 is None <==> validator::active(
                taken.0.validators,
            ) is Ok)
            &&& begun.1 is Some ==> after.0.block_height == state.block_height
                && after.0.block_time == state.block_time && after.0.config == state.config
        }),
{
}

/// A validator whose address is not among those that misbehaved keeps its power.
pub proof fn lemma_others_keep_power(
    rows: Seq<RowView>,
    misbehavior: Seq<Misbehavior>,
    public_key: Seq<u8>,
)
    requires
        validator_laws::canonical(rows),
        public_key.len() == 32,
        forall|i: int|
            0 <= i < misbehavior.len() ==> (#[trigger] misbehavior[i]).address@ != crypto::address(
                public_key,
            ),
    ensures
        finalize_block::all_tombstoned(rows, misbehavior).1 is None,
        validator_laws::canonical(finalize_block::all_tombstoned(rows, misbehavior).0),
        validator_laws::power_of(finalize_block::all_tombstoned(rows, misbehavior).0, public_key)
            == validator_laws::power_of(rows, public_key),
    decreases misbehavior.len(),
{
    if misbehavior.len() > 0 {
        let front = misbehavior.drop_last();
        assert forall|i: int| 0 <= i < front.len() implies (
        #[trigger] front[i]).address@ != crypto::address(public_key) by {
            assert(misbehavior[i].address@ != crypto::address(public_key));
        }
        lemma_others_keep_power(rows, front, public_key);
        let before = finalize_block::all_tombstoned(rows, front).0;
        let n = misbehavior.len() - 1;
        assert(misbehavior[n].address@ != crypto::address(public_key));
        validator_laws::lemma_tombstone(before, misbehavior.last().address@);
    }
}

/// When a block begins, those active validators are recorded as voters from which there is a vote
/// that did not stay away, the block has the height and time of the request, a validator that did not
/// misbehave keeps its power, and the configuration and the name of the chain stay.
pub proof fn lemma_block_begins(state: StateView, request: FinalizeBlock, public_key: Seq<u8>)
    requires
        validator_laws::canonical(state.validators),
        public_key.len() == 32,
    ensures
        ({
            let after = finalize_block::begun(state, request);
            &&& after.1 is None
            &&& after.0.block_height == Some(request.height)
            &&& after.0.block_time == Some(request.time)
            &&& after.0.config == state.config
            &&& after.0.chain_id == state.chain_id
            &&& after.0.voted.contains(public_key) <==> {
                &&& validator_laws::power_of(state.validators, public_key) is Some
                &&& validator_laws::power_of(state.validators, public_key)->0 > 0
                &&& exists|i: int|
                    0 <= i < request.votes@.len() && (#[trigger] request.votes@[i]).address@
                        == crypto::address(public_key) && took_part(request.votes@[i])
            }
            &&& (forall|i: int|
                0 <= i < request.misbehavior@.len() ==> (
                #[trigger] request.misbehavior@[i]).address@ != crypto::address(public_key))
                ==> validator_laws::power_of(after.0.validators, public_key)
                == validator_laws::power_of(state.validators, public_key)
        }),
{
    validator_laws::lemma_active_iff(state.validators);
    let active = validator::active(state.validators)->Ok_0;
    let addresses = finalize_block::voting_addresses(request.votes@);
    validator_laws::lemma_voters(active, addresses);
    lemma_voted_iff(request.votes@, crypto::address(public_key));
    crate::state::block_laws::lemma_all_tombstoned(state.validators, request.misbehavior@);
    if forall|i: int|
        0 <= i < request.misbehavior@.len() ==> (#[trigger] request.misbehavior@[i]).address@
            != crypto::address(public_key) {
        lemma_others_keep_power(state.validators, request.misbehavior@, public_key);
    }
    if exists|i: int| 0 <= i < active.len() && (#[trigger] active[i]).pub_key == public_key {
        let i = choose|i: int|
            0 <= i < active.len() && (#[trigger] active[i]).pub_key == public_key;
        assert(active.contains(active[i]));
    }
    if validator_laws::power_of(state.validators, public_key) is Some && validator_laws::power_of(
        state.validators,
        public_key,
    )->0 > 0 {
        let u = UpdateView {
            pub_key: public_key,
            power: validator_laws::power_of(state.validators, public_key)->0,
        };
        assert(active.contains(u));
        let i = choose|i: int| 0 <= i < active.len() && active[i] == u;
        assert(active[i].pub_key == public_key);
    }
}

/// Consensus is told of every validator that is active now, in their order, with its power, and then
/// of those that were active and are not any more, in their order, without power, and of no other.
pub proof fn lemma_told_of_validators(before: Seq<UpdateView>, now: Seq<UpdateView>)
    ensures
        ({
            let told = finalize_block::updates(before, now);
            &&& told.len() >= now.len()
            &&& forall|i: int| 0 <= i < now.len() ==> #[trigger] told[i] == now[i]
            &&& forall|i: int|
                now.len() <= i < told.len() ==> {
                    &&& (#[trigger] told[i]).power == 0
                    &&& exists|j: int|
                        0 <= j < before.len() && (#[trigger] before[j]).pub_key == told[i].pub_key
                    &&& forall|j: int|
                        0 <= j < now.len() ==> (#[trigger] now[j]).pub_key != told[i].pub_key
                }
            &&& forall|j: int|
                0 <= j < before.len() ==> (exists|i: int|
                    0 <= i < told.len() && (#[trigger] told[i]).pub_key == (
                    #[trigger] before[j]).pub_key)
        }),
{
    let gone = finalize_block::removed(before, now);
    lemma_gone(before, now);
    let told = finalize_block::updates(before, now);
    assert forall|i: int| now.len() <= i < told.len() implies {
        &&& (#[trigger] told[i]).power == 0
        &&& exists|j: int|
            0 <= j < before.len() && (#[trigger] before[j]).pub_key == told[i].pub_key
        &&& forall|j: int| 0 <= j < now.len() ==> (#[trigger] now[j]).pub_key != told[i].pub_key
    } by {
        assert(told[i] == gone[i - now.len()]);
    }
    assert forall|j: int| 0 <= j < before.len() implies (exists|i: int|
        0 <= i < told.len() && (#[trigger] told[i]).pub_key == (
        #[trigger] before[j]).pub_key) by {
        if exists|k: int| 0 <= k < now.len() && (#[trigger] now[k]).pub_key == before[j].pub_key {
            let k = choose|k: int|
                0 <= k < now.len() && (#[trigger] now[k]).pub_key == before[j].pub_key;
            assert(told[k].pub_key == before[j].pub_key);
        } else {
            let k = choose|k: int|
                0 <= k < gone.len() && (#[trigger] gone[k]).pub_key == before[j].pub_key;
            assert(told[now.len() + k].pub_key == before[j].pub_key);
        }
    }
}

proof fn lemma_gone(before: Seq<UpdateView>, now: Seq<UpdateView>)
    ensures
        ({
            let gone = finalize_block::removed(before, now);
            &&& forall|i: int|
                0 <= i < gone.len() ==> {
                    &&& (#[trigger] gone[i]).power == 0
                    &&& exists|j: int|
                        0 <= j < before.len() && (#[trigger] before[j]).pub_key == gone[i].pub_key
                    &&& forall|j: int|
                        0 <= j < now.len() ==> (#[trigger] now[j]).pub_key != gone[i].pub_key
                }
            &&& forall|j: int|
                0 <= j < before.len() ==> (exists|k: int|
                    0 <= k < now.len() && (#[trigger] now[k]).pub_key == (
                    #[trigger] before[j]).pub_key) || (exists|k: int|
                    0 <= k < gone.len() && (#[trigger] gone[k]).pub_key == before[j].pub_key)
        }),
    decreases before.len(),
{
    if before.len() > 0 {
        let front = before.drop_last();
        let n = before.len() - 1;
        lemma_gone(front, now);
        let rest = finalize_block::removed(front, now);
        let gone = finalize_block::removed(before, now);
        assert forall|i: int| 0 <= i < gone.len() implies {
            &&& (#[trigger] gone[i]).power == 0
            &&& exists|j: int|
                0 <= j < before.len() && (#[trigger] before[j]).pub_key == gone[i].pub_key
            &&& forall|j: int|
                0 <= j < now.len() ==> (#[trigger] now[j]).pub_key != gone[i].pub_key
        } by {
            if i < rest.len() {
                assert(gone[i] == rest[i]);
                let j = choose|j: int|
                    0 <= j < front.len() && (#[trigger] front[j]).pub_key == rest[i].pub_key;
                assert(before[j].pub_key == gone[i].pub_key);
            } else {
                assert(before[n].pub_key == gone[i].pub_key);
            }
        }
        assert forall|j: int| 0 <= j < before.len() implies (exists|k: int|
            0 <= k < now.len() && (#[trigger] now[k]).pub_key == (
            #[trigger] before[j]).pub_key) || (exists|k: int|
            0 <= k < gone.len() && (#[trigger] gone[k]).pub_key == before[j].pub_key) by {
            if j < n {
                assert(front[j] == before[j]);
                if !(exists|k: int|
                    0 <= k < now.len() && (#[trigger] now[k]).pub_key == front[j].pub_key) {
                    let k = choose|k: int|
                        0 <= k < rest.len() && (#[trigger] rest[k]).pub_key == front[j].pub_key;
                    assert(gone[k].pub_key == before[j].pub_key);
                }
            } else if !finalize_block::holds_key(now, before[n].pub_key) {
                assert(gone[gone.len() - 1].pub_key == before[j].pub_key);
            }
        }
    }
}

/// Those that are removed stand in the order in which they were active, one after the other.
pub proof fn lemma_removed_in_order(
    a: Seq<UpdateView>,
    b: Seq<UpdateView>,
    one: UpdateView,
    now: Seq<UpdateView>,
)
    ensures
        finalize_block::removed(a + b, now) == finalize_block::removed(a, now)
            + finalize_block::removed(b, now),
        (exists|j: int| 0 <= j < now.len() && (#[trigger] now[j]).pub_key == one.pub_key)
            ==> finalize_block::removed(seq![one], now).len() == 0,
        (forall|j: int| 0 <= j < now.len() ==> (#[trigger] now[j]).pub_key != one.pub_key)
            ==> finalize_block::removed(seq![one], now) == seq![
            UpdateView { pub_key: one.pub_key, power: 0 },
        ],
    decreases b.len(),
{
    reveal_with_fuel(finalize_block::removed, 2);
    assert(seq![one].drop_last() =~= Seq::<UpdateView>::empty());
    if b.len() == 0 {
        assert(a + b =~= a);
        assert(finalize_block::removed(a, now) + finalize_block::removed(b, now)
            =~= finalize_block::removed(a, now));
    } else {
        lemma_removed_in_order(a, b.drop_last(), one, now);
        assert((a + b).drop_last() =~= a + b.drop_last());
        assert((a + b).last() == b.last());
        assert(finalize_block::removed(a + b, now) =~= finalize_block::removed(a, now)
            + finalize_block::removed(b, now));
    }
    if !finalize_block::holds_key(now, one.pub_key) {
        assert(finalize_block::removed(seq![one], now) =~= seq![
            UpdateView { pub_key: one.pub_key, power: 0 },
        ]);
    }
}

/// A chain whose genesis holds no application state begins with a configuration of version 0 that
/// has no admins and needs no votes, takes effect at once, has its oracles switched off and waiting
/// for good, lists no onion services, and names no validators.
pub proof fn lemma_chain_without_app_state(
    state: StateView,
    request: InitChainView,
    member: Result<Option<Seq<char>>, Seq<char>>,
    parsed: Result<ConfigView, Seq<char>>,
)
    requires
        request.initial_height == 1,
        request.app_state_bytes.len() == 0,
    ensures
        ({
            let begun = init_chain::started(
                state,
                request,
                init_chain::first_config(request.app_state_bytes, member, parsed),
            );
            let config = begun.0.config->0;
            &&& begun.0.config is Some
            &&& config.version == 0
            &&& config.admins.authorized.len() == 0
            &&& config.admins.voting.total.0 == 0
            &&& config.admins.voting.quorum.0 == 0
            &&& config.admins.voting.timeout.0.secs == 0
            &&& config.admins.voting.timeout.0.nanos == 0
            &&& config.admins.voting.delay.0.secs == 0
            &&& config.admins.voting.delay.0.nanos == 0
            &&& !config.oracles.enabled
            &&& config.oracles.authorized.len() == 0
            &&& config.oracles.voting.total.0 == 0
            &&& config.oracles.voting.quorum.0 == 0
            &&& config.oracles.voting.timeout.0.secs == 0
            &&& config.oracles.voting.timeout.0.nanos == 0
            &&& config.oracles.voting.delay.0.secs == 0x7fff_ffff_ffff_ffff
            &&& config.oracles.voting.delay.0.nanos == 0
            &&& config.oracles.max_enrolled_subdomains == 0
            &&& config.oracles.observation_timeout.secs == 0x7fff_ffff_ffff_ffff
            &&& config.oracles.observation_timeout.nanos == 0
            &&& !config.onion.enabled
            &&& config.validators.len() == 0
            &&& begun.0.chain_id == Some(request.chain_id)
        }),
{
    let config = init_chain::first_config(request.app_state_bytes, member, parsed)->Ok_0;
    convert_laws::lemma_config_is_kept(config);
}

/// The configuration of genesis is what was read of the application state; each way in which it
/// cannot be read has its own error, with the cause.
pub proof fn lemma_first_config(
    app_state: Seq<u8>,
    member: Result<Option<Seq<char>>, Seq<char>>,
    parsed: Result<ConfigView, Seq<char>>,
)
    requires
        app_state.len() > 0,
    ensures
        ({
            let first = init_chain::first_config(app_state, member, parsed);
            &&& first is Ok <==> member is Ok && member->Ok_0 is Some && parsed is Ok
            &&& first is Ok ==> first->Ok_0 == parsed->Ok_0
            &&& member matches Err(cause) ==> first == Err::<ConfigView, StateErrorView>(
                StateErrorView::AppStateNotJson { cause },
            )
            &&& member is Ok && member->Ok_0 is None ==> first == Err::<ConfigView, StateErrorView>(
                StateErrorView::NoConfigKey,
            )
            &&& member is Ok && member->Ok_0 is Some && parsed is Err ==> first == Err::<
                ConfigView,
                StateErrorView,
            >(StateErrorView::ConfigNotReadable { cause: parsed->Err_0 })
        }),
{
}

/// A chain that does not begin at height 1 leaves the state as it is; one whose configuration cannot
/// be had has its name and nothing else.
pub proof fn lemma_chain_refused(
    state: StateView,
    request: InitChainView,
    config: Result<ConfigView, StateErrorView>,
)
    ensures
        request.initial_height != 1 ==> init_chain::started(state, request, config) == (
            state,
            Some(StateErrorView::InitialHeight),
        ),
        request.initial_height == 1 && config is Err ==> {
            let begun = init_chain::started(state, request, config);
            &&& begun.1 == Some(config->Err_0)
            &&& begun.0.chain_id == Some(request.chain_id)
            &&& begun.0.config == state.config
            &&& begun.0.validators == state.validators
            &&& begun.0.voted == state.voted
            &&& begun.0.block_height == state.block_height
            &&& begun.0.block_time == state.block_time
        },
        request.initial_height == 1 && config is Ok ==> {
            let begun = init_chain::started(state, request, config);
            &&& begun.0.chain_id == Some(request.chain_id)
            &&& begun.0.config is Some
            &&& begun.0.config->0.version == config->Ok_0.version
            &&& begun.0.voted == state.voted
            &&& begun.0.block_height == state.block_height
            &&& begun.0.block_time == state.block_time
            &&& init_chain::genesis_difference(request.validators, config->Ok_0.validators) is Some
                ==> begun.0.validators == state.validators
        },
{
    if config is Ok {
        convert_laws::lemma_config_is_kept(config->Ok_0);
    }
}

} // verus!
