//! The steps of a block.
//!
//! A block goes through these steps in turn, each of which takes what the one before it gave. Between
//! them the vote queues of admins and oracles are worked off, which hold what is not part of this
//! state.
//!
//! 1. `begin_block` records who voted, tombstones who misbehaved, and moves to the new block.
//! 2. Each transaction is delivered, and `deliver` says what consensus is told of it.
//! 3. `apply_configs` takes over the configurations whose vote and delay are over.
//! 4. `settle` picks what becomes canonical of the observations whose vote and delay are over.
//! 5. `end` says how the validators changed.

use vstd::prelude::*;

use crate::clock::Time;
use crate::convert;
use crate::crypto::PublicKey;
use crate::domain::Domain;
use crate::domain::PrefixOrderDomain;
use crate::octets;
use crate::state::config;
use crate::state::validator;
use crate::state::validator::Update;
use crate::state::validator::UpdateView;
use crate::state::State;
use crate::state::StateError;
use crate::state::StateErrorView;
use crate::state::StateView;
use crate::table::RowView;
use crate::transaction::Config;
use crate::transaction::ConfigView;
use crate::transaction::HashObserved;
use crate::transaction::HashObservedView;
use crate::transaction::OracleVoteValue;
use crate::transaction::OracleVoteValueView;

verus! {

/// What a validator did with the last block.
#[derive(Clone, Copy, Debug, PartialEq, Eq)]
pub enum BlockIdFlag {
    Absent,
    Commit,
    Nil,
}

/// Whether and how a validator signed the last block.
#[derive(Clone, Copy, Debug, PartialEq, Eq)]
pub enum BlockSignatureInfo {
    Flag(BlockIdFlag),
    LegacySigned,
}

/// The vote of a validator on the last block.
#[derive(Clone, Copy, Debug, PartialEq, Eq)]
pub struct VoteInfo {
    pub address: [u8; 20],
    pub sig_info: BlockSignatureInfo,
}

/// A validator that misbehaved.
#[derive(Clone, Copy, Debug, PartialEq, Eq)]
pub struct Misbehavior {
    pub address: [u8; 20],
}

/// What consensus hands over with a block, but for its transactions.
#[derive(Clone, Debug, PartialEq, Eq)]
pub struct FinalizeBlock {
    pub votes: Vec<VoteInfo>,
    pub misbehavior: Vec<Misbehavior>,
    pub height: u64,
    pub time: Time,
}

/// What consensus is told of a transaction.
#[derive(Clone, Debug, PartialEq, Eq)]
pub struct ExecTxResult {
    pub code: u32,
    pub data: Vec<u8>,
    pub log: String,
    pub info: String,
    pub gas_wanted: i64,
    pub gas_used: i64,
    /// The events, as encoded protobuf messages.
    pub events: Vec<Vec<u8>>,
    pub codespace: String,
}

pub struct ExecTxResultView {
    pub code: u32,
    pub data: Seq<u8>,
    pub log: Seq<char>,
    pub info: Seq<char>,
    pub gas_wanted: i64,
    pub gas_used: i64,
    pub events: Seq<Seq<u8>>,
    pub codespace: Seq<char>,
}

impl View for ExecTxResult {
    type V = ExecTxResultView;

    open spec fn view(&self) -> ExecTxResultView {
        ExecTxResultView {
            code: self.code,
            data: self.data@,
            log: self.log@,
            info: self.info@,
            gas_wanted: self.gas_wanted,
            gas_used: self.gas_used,
            events: self.events@.map_values(|e: Vec<u8>| e@),
            codespace: self.codespace@,
        }
    }
}

/// A block that began. Each step of a block takes what the step before it gave, so that none is left
/// out and none comes too soon.
#[derive(Debug)]
pub struct BlockStart {
    active: Vec<Update>,
}

/// A block whose transactions were delivered.
#[derive(Debug)]
pub struct DeliveredBlock {
    active: Vec<Update>,
    tx_results: Vec<ExecTxResult>,
}

/// A block whose configurations were taken over.
#[derive(Debug)]
pub struct ConfiguredBlock {
    active: Vec<Update>,
    tx_results: Vec<ExecTxResult>,
}

/// A block whose observations were promoted.
#[derive(Debug)]
pub struct SettledBlock {
    active: Vec<Update>,
    tx_results: Vec<ExecTxResult>,
    canonical: Vec<(Domain, HashObserved)>,
}

/// What consensus is told of a block, and what became canonical in it.
#[derive(Clone, Debug, PartialEq, Eq)]
pub struct FinalizeBlockResponse {
    pub tx_results: Vec<ExecTxResult>,
    pub canonical: Vec<(Domain, HashObserved)>,
    pub validator_updates: Vec<Update>,
    /// The new consensus parameters, as an encoded protobuf message. A block sets none.
    pub consensus_param_updates: Option<Vec<u8>>,
    /// The hash of the state. It is empty until the caller fills it in.
    pub app_hash: Vec<u8>,
    /// The events, as encoded protobuf messages. A block has none of its own.
    pub events: Vec<Vec<u8>>,
}

/// Whether a response leaves the consensus parameters as they are, the hash of the state to the
/// caller, and names no events.
pub open spec fn leaves_the_rest(response: FinalizeBlockResponse) -> bool {
    &&& response.consensus_param_updates is None
    &&& response.app_hash@ == Seq::<u8>::empty()
    &&& response.events@ == Seq::<Vec<u8>>::empty()
}

/// Whether a signature stands for a vote: only absence does not.
pub open spec fn is_vote(sig_info: BlockSignatureInfo) -> bool {
    match sig_info {
        BlockSignatureInfo::Flag(BlockIdFlag::Absent) => false,
        BlockSignatureInfo::Flag(_) => true,
        BlockSignatureInfo::LegacySigned => true,
    }
}

/// The addresses of those that voted.
pub open spec fn voting_addresses(votes: Seq<VoteInfo>) -> Seq<Seq<u8>>
    decreases votes.len(),
{
    if votes.len() == 0 {
        Seq::empty()
    } else {
        let before = voting_addresses(votes.drop_last());
        if is_vote(votes.last().sig_info) {
            before.push(votes.last().address@)
        } else {
            before
        }
    }
}

/// The rows once each of these was tombstoned in turn, up to the first error.
pub open spec fn all_tombstoned(rows: Seq<RowView>, misbehavior: Seq<Misbehavior>) -> (
    Seq<RowView>,
    Option<StateErrorView>,
)
    decreases misbehavior.len(),
{
    if misbehavior.len() == 0 {
        (rows, None)
    } else {
        let before = all_tombstoned(rows, misbehavior.drop_last());
        if before.1 is Some {
            before
        } else {
            validator::tombstoned(before.0, misbehavior.last().address@)
        }
    }
}

/// The state once a block began, and the error, if there was one.
pub open spec fn begun(state: StateView, request: FinalizeBlock) -> (
    StateView,
    Option<StateErrorView>,
) {
    match validator::active(state.validators) {
        Err(e) => (state, Some(e)),
        Ok(active) => {
            let voted = StateView {
                voted: validator::voters(active, voting_addresses(request.votes@)),
                ..state
            };
            let rows = all_tombstoned(state.validators, request.misbehavior@);
            let tombstoned = validator::with_validators(voted, rows.0);
            if rows.1 is Some {
                (tombstoned, rows.1)
            } else {
                (
                    StateView {
                        block_height: Some(request.height),
                        block_time: Some(request.time),
                        ..tombstoned
                    },
                    None,
                )
            }
        },
    }
}

/// What came of delivering a transaction, as contracts speak of it.
pub open spec fn delivery_view(outcome: Result<(), String>) -> Result<(), Seq<char>> {
    match outcome {
        Ok(_) => Ok(()),
        Err(e) => Err(e@),
    }
}

/// What consensus is told of a transaction: code 0 where it was executed, else code 1 and the
/// error.
pub open spec fn tx_result_view(outcome: Result<(), Seq<char>>) -> ExecTxResultView {
    ExecTxResultView {
        code: if outcome is Ok {
            0
        } else {
            1
        },
        data: Seq::empty(),
        log: match outcome {
            Ok(_) => Seq::empty(),
            Err(e) => e,
        },
        info: Seq::empty(),
        gas_wanted: 0,
        gas_used: 0,
        events: Seq::empty(),
        codespace: Seq::empty(),
    }
}

/// The state once these configurations were taken over in turn, and the error, if there was one. A
/// configuration whose version is not above the current one is passed over.
pub open spec fn applied(state: StateView, configs: Seq<ConfigView>) -> (
    StateView,
    Option<StateErrorView>,
)
    decreases configs.len(),
{
    if configs.len() == 0 {
        (state, None)
    } else {
        let before = applied(state, configs.drop_last());
        let new = configs.last();
        if before.1 is Some {
            before
        } else {
            match before.0.config {
                None => (before.0, Some(StateErrorView::ConfigNotFound)),
                Some(current) => if current.version >= new.version {
                    before
                } else {
                    let configured = StateView {
                        config: Some(convert::kept_config(new)),
                        ..before.0
                    };
                    let rows = validator::synced(configured.validators, new.validators);
                    (validator::with_validators(configured, rows.0), rows.1)
                },
            }
        }
    }
}

/// The validators of `before` that are not in `now`, without power.
pub open spec fn removed(before: Seq<UpdateView>, now: Seq<UpdateView>) -> Seq<UpdateView>
    decreases before.len(),
{
    if before.len() == 0 {
        Seq::empty()
    } else {
        let rest = removed(before.drop_last(), now);
        if holds_key(now, before.last().pub_key) {
            rest
        } else {
            rest.push(UpdateView { pub_key: before.last().pub_key, power: 0 })
        }
    }
}

/// Whether one of these validators has this key.
pub open spec fn holds_key(validators: Seq<UpdateView>, pub_key: Seq<u8>) -> bool {
    exists|i: int| 0 <= i < validators.len() && (#[trigger] validators[i]).pub_key == pub_key
}

/// What consensus is told of the validators: those that are active now, and then those that were
/// active before the block and are not now, without power.
pub open spec fn updates(before: Seq<UpdateView>, now: Seq<UpdateView>) -> Seq<UpdateView> {
    now + removed(before, now)
}

/// How a promoted observation is spoken of in contracts.
pub open spec fn promoted_view(promoted: (PrefixOrderDomain, OracleVoteValue)) -> (
    Seq<Seq<char>>,
    OracleVoteValueView,
) {
    (promoted.0@, promoted.1@)
}

/// What becomes canonical of a promoted observation: the hash for the domain.
pub open spec fn canonical_view(promoted: (Seq<Seq<char>>, OracleVoteValueView)) -> (
    Seq<Seq<char>>,
    HashObservedView,
) {
    (promoted.0, promoted.1.hash_observed)
}

/// The state once a block was finalized, and the error, if there was one.
pub open spec fn finalized(
    state: StateView,
    request: FinalizeBlock,
    configs: Seq<ConfigView>,
) -> (StateView, Option<StateErrorView>) {
    let started = begun(state, request);
    if started.1 is Some {
        started
    } else {
        let reconfigured = applied(started.0, configs);
        if reconfigured.1 is Some {
            reconfigured
        } else {
            match validator::active(reconfigured.0.validators) {
                Err(e) => (reconfigured.0, Some(e)),
                Ok(_) => (reconfigured.0, None),
            }
        }
    }
}

fn addresses_of_voters(votes: &Vec<VoteInfo>) -> (r: Vec<[u8; 20]>)
    ensures
        r@.map_values(|a: [u8; 20]| a@) == voting_addresses(votes@),
{
    let mut addresses: Vec<[u8; 20]> = Vec::new();
    let mut i: usize = 0;
    proof {
        assert(votes@.take(0) =~= Seq::empty());
        assert(addresses@.map_values(|a: [u8; 20]| a@) =~= Seq::empty());
    }
    while i < votes.len()
        invariant
            i <= votes.len(),
            addresses@.map_values(|a: [u8; 20]| a@) == voting_addresses(votes@.take(i as int)),
        decreases votes.len() - i,
    {
        proof {
            assert(votes@.take(i + 1).drop_last() =~= votes@.take(i as int));
            assert(votes@.take(i + 1).last() == votes@[i as int]);
        }
        let voted = match votes[i].sig_info {
            BlockSignatureInfo::Flag(BlockIdFlag::Absent) => false,
            BlockSignatureInfo::Flag(BlockIdFlag::Commit) => true,
            BlockSignatureInfo::Flag(BlockIdFlag::Nil) => true,
            BlockSignatureInfo::LegacySigned => true,
        };
        if voted {
            let ghost before = addresses@.map_values(|a: [u8; 20]| a@);
            let address = votes[i].address;
            addresses.push(address);
            assert(addresses@.map_values(|a: [u8; 20]| a@) =~= before.push(address@));
        }
        i += 1;
    }
    assert(votes@.take(votes@.len() as int) =~= votes@);
    addresses
}

proof fn lemma_all_tombstoned_prefix(rows: Seq<RowView>, misbehavior: Seq<Misbehavior>, n: int)
    requires
        0 <= n <= misbehavior.len(),
        all_tombstoned(rows, misbehavior.take(n)).1 is Some,
    ensures
        all_tombstoned(rows, misbehavior) == all_tombstoned(rows, misbehavior.take(n)),
    decreases misbehavior.len() - n,
{
    if n < misbehavior.len() {
        assert(misbehavior.take(n + 1).drop_last() =~= misbehavior.take(n));
        lemma_all_tombstoned_prefix(rows, misbehavior, n + 1);
    } else {
        assert(misbehavior.take(n) =~= misbehavior);
    }
}

proof fn lemma_applied_prefix(state: StateView, configs: Seq<ConfigView>, n: int)
    requires
        0 <= n <= configs.len(),
        applied(state, configs.take(n)).1 is Some,
    ensures
        applied(state, configs) == applied(state, configs.take(n)),
    decreases configs.len() - n,
{
    if n < configs.len() {
        assert(configs.take(n + 1).drop_last() =~= configs.take(n));
        lemma_applied_prefix(state, configs, n + 1);
    } else {
        assert(configs.take(n) =~= configs);
    }
}

/// Whether consensus is told of a transaction what came of delivering it: code 0 where it was
/// executed, else code 1 and the error, and nothing else.
pub open spec fn tells(result: ExecTxResult, outcome: Result<(), String>) -> bool {
    &&& outcome is Ok ==> result.code == 0 && result.log@.len() == 0
    &&& outcome matches Err(e) ==> result.code == 1 && result.log@ == e@
    &&& result.data@.len() == 0
    &&& result.info@.len() == 0
    &&& result.gas_wanted == 0
    &&& result.gas_used == 0
    &&& result.events@.len() == 0
    &&& result.codespace@.len() == 0
}

/// What consensus is told of a transaction, from what came of delivering it.
pub fn tx_result(outcome: Result<(), String>) -> (r: ExecTxResult)
    ensures
        r@ == tx_result_view(delivery_view(outcome)),
        tells(r, outcome),
{
    let (code, log) = match outcome {
        Ok(_) => (0u32, String::new()),
        Err(e) => (1u32, e),
    };
    let result = ExecTxResult {
        code,
        data: Vec::new(),
        log,
        info: String::new(),
        gas_wanted: 0,
        gas_used: 0,
        events: Vec::new(),
        codespace: String::new(),
    };
    assert(result@.events =~= Seq::empty());
    result
}

/// What consensus is told of each transaction, in their order.
pub fn tx_results(outcomes: Vec<Result<(), String>>) -> (r: Vec<ExecTxResult>)
    ensures
        r@.map_values(|t: ExecTxResult| t@) == outcomes@.map_values(
            |o: Result<(), String>| tx_result_view(delivery_view(o)),
        ),
        r@.len() == outcomes@.len(),
        forall|i: int| 0 <= i < outcomes@.len() ==> tells(#[trigger] r@[i], outcomes@[i]),
{
    let ghost all = outcomes@;
    let mut results: Vec<ExecTxResult> = Vec::new();
    for outcome in it: outcomes.into_iter()
        invariant
            it.seq() == all,
            results@.len() == it.index(),
            forall|i: int| 0 <= i < results@.len() ==> tells(#[trigger] results@[i], all[i]),
            forall|i: int|
                0 <= i < results@.len() ==> (#[trigger] results@[i])@ == tx_result_view(
                    delivery_view(all[i]),
                ),
    {
        results.push(tx_result(outcome));
    }
    assert(results@.map_values(|t: ExecTxResult| t@) =~= all.map_values(
        |o: Result<(), String>| tx_result_view(delivery_view(o)),
    ));
    results
}

/// What becomes canonical of the observations whose vote and delay are over.
pub fn canonical_updates(promoted: Vec<(PrefixOrderDomain, OracleVoteValue)>) -> (r: Vec<
    (Domain, HashObserved),
>)
    ensures
        r@.map_values(|c: (Domain, HashObserved)| (c.0@, c.1@)) == promoted@.map_values(
            |p: (PrefixOrderDomain, OracleVoteValue)| canonical_view(promoted_view(p)),
        ),
        r@.len() == promoted@.len(),
        forall|i: int|
            0 <= i < promoted@.len() ==> (#[trigger] r@[i]).0@ == promoted@[i].0@ && r@[i].1
                == promoted@[i].1.hash_observed,
{
    let ghost all = promoted@;
    let mut canonical: Vec<(Domain, HashObserved)> = Vec::new();
    for item in it: promoted.into_iter()
        invariant
            it.seq() == all,
            canonical@.len() == it.index(),
            forall|i: int|
                0 <= i < canonical@.len() ==> (#[trigger] canonical@[i]).0@ == all[i].0@
                    && canonical@[i].1 == all[i].1.hash_observed,
            forall|i: int|
                0 <= i < canonical@.len() ==> ((#[trigger] canonical@[i]).0@, canonical@[i].1@)
                    == canonical_view(promoted_view(all[i])),
    {
        let (subdomain, value) = item;
        canonical.push((Domain::from(subdomain), value.hash_observed));
    }
    assert(canonical@.map_values(|c: (Domain, HashObserved)| (c.0@, c.1@)) =~= all.map_values(
        |p: (PrefixOrderDomain, OracleVoteValue)| canonical_view(promoted_view(p)),
    ));
    canonical
}

fn is_among(validators: &Vec<Update>, pub_key: &PublicKey) -> (r: bool)
    ensures
        r == holds_key(validators@.map_values(|u: Update| u@), pub_key@),
{
    let ghost views = validators@.map_values(|u: Update| u@);
    let mut i: usize = 0;
    while i < validators.len()
        invariant
            i <= validators.len(),
            views == validators@.map_values(|u: Update| u@),
            forall|j: int| 0 <= j < i ==> (#[trigger] views[j]).pub_key != pub_key@,
        decreases validators.len() - i,
    {
        assert(views[i as int] == validators@[i as int]@);
        if octets::same_bytes(
            validators[i].pub_key.bytes.as_slice(),
            pub_key.bytes.as_slice(),
        ) {
            return true;
        }
        i += 1;
    }
    false
}

/// What consensus is told of the validators: those that are active now, and then those that were
/// active before the block and are not now, without power.
pub fn validator_updates(before: &Vec<Update>, now: Vec<Update>) -> (r: Vec<Update>)
    ensures
        r@.map_values(|u: Update| u@) == updates(
            before@.map_values(|u: Update| u@),
            now@.map_values(|u: Update| u@),
        ),
{
    let ghost old_views = before@.map_values(|u: Update| u@);
    let ghost new_views = now@.map_values(|u: Update| u@);
    let mut gone: Vec<Update> = Vec::new();
    let mut i: usize = 0;
    proof {
        assert(old_views.take(0) =~= Seq::empty());
        assert(gone@.map_values(|u: Update| u@) =~= Seq::empty());
    }
    while i < before.len()
        invariant
            i <= before.len(),
            old_views == before@.map_values(|u: Update| u@),
            new_views == now@.map_values(|u: Update| u@),
            gone@.map_values(|u: Update| u@) == removed(old_views.take(i as int), new_views),
        decreases before.len() - i,
    {
        proof {
            assert(old_views.take(i + 1).drop_last() =~= old_views.take(i as int));
            assert(old_views.take(i + 1).last() == before@[i as int]@);
        }
        let pub_key = before[i].pub_key;
        if !is_among(&now, &pub_key) {
            let ghost rest = gone@.map_values(|u: Update| u@);
            let update = Update { pub_key, power: 0 };
            gone.push(update);
            assert(gone@.map_values(|u: Update| u@) =~= rest.push(update@));
        }
        i += 1;
    }
    assert(old_views.take(old_views.len() as int) =~= old_views);
    let mut all = now;
    let ghost gone_views = gone@;
    all.append(&mut gone);
    assert(all@.map_values(|u: Update| u@) =~= new_views + gone_views.map_values(|u: Update| u@));
    all
}

impl State {
    /// Begins a block: records who voted on the last block, tombstones who misbehaved, and moves to
    /// the height and time of the block.
    pub fn begin_block(&mut self, request: &FinalizeBlock) -> (r: Result<BlockStart, StateError>)
        ensures
            match r {
                Ok(start) => {
                    &&& begun(old(self)@, *request).1 is None
                    &&& validator::active(old(self)@.validators) == Ok::<
                        Seq<UpdateView>,
                        StateErrorView,
                    >(start.active_before())
                },
                Err(e) => begun(old(self)@, *request).1 == Some(e@),
            },
            final(self)@ == begun(old(self)@, *request).0,
    {
        let addresses = addresses_of_voters(&request.votes);
        match self.mark_validators_voted(&addresses) {
            Ok(_) => {},
            Err(e) => return Err(e),
        }
        let active = match self.active_validators() {
            Ok(active) => active,
            Err(e) => return Err(e),
        };
        match self.tombstone_all(&request.misbehavior) {
            Ok(_) => {},
            Err(e) => return Err(e),
        }
        self.block_height = Some(request.height);
        self.block_time = Some(request.time);
        Ok(BlockStart { active })
    }

    fn tombstone_all(&mut self, misbehavior: &Vec<Misbehavior>) -> (r: Result<(), StateError>)
        ensures
            config::check_outcome(r, all_tombstoned(old(self)@.validators, misbehavior@).1),
            final(self)@ == validator::with_validators(
                old(self)@,
                all_tombstoned(old(self)@.validators, misbehavior@).0,
            ),
    {
        let ghost before = self@;
        let ghost rows = self@.validators;
        let ghost bad = misbehavior@;
        let mut i: usize = 0;
        assert(bad.take(0) =~= Seq::empty());
        while i < misbehavior.len()
            invariant
                i <= misbehavior.len(),
                bad == misbehavior@,
                before == old(self)@,
                rows == before.validators,
                all_tombstoned(rows, bad.take(i as int)).1 is None,
                self@ == validator::with_validators(
                    before,
                    all_tombstoned(rows, bad.take(i as int)).0,
                ),
            decreases misbehavior.len() - i,
        {
            proof {
                assert(bad.take(i + 1).drop_last() =~= bad.take(i as int));
                assert(bad.take(i + 1).last() == bad[i as int]);
            }
            match self.tombstone_validator(&misbehavior[i].address) {
                Ok(_) => {},
                Err(e) => {
                    proof {
                        lemma_all_tombstoned_prefix(rows, bad, i + 1);
                    }
                    return Err(e);
                },
            }
            i += 1;
        }
        assert(bad.take(bad.len() as int) =~= bad);
        Ok(())
    }

    /// Takes over the configurations whose vote and delay are over, and with each its validators.
    /// One whose version is not above the current one is passed over: it is an old one that was
    /// handed in again behind a newer one.
    pub fn apply_configs(&mut self, configs: Vec<Config>) -> (r: Result<(), StateError>)
        ensures
            config::check_outcome(
                r,
                applied(old(self)@, configs@.map_values(|c: Config| c@)).1,
            ),
            final(self)@ == applied(old(self)@, configs@.map_values(|c: Config| c@)).0,
    {
        let ghost before = self@;
        let ghost all = configs@;
        let ghost views = configs@.map_values(|c: Config| c@);
        assert(views.take(0) =~= Seq::empty());
        for new in it: configs.into_iter()
            invariant
                it.seq() == all,
                views == all.map_values(|c: Config| c@),
                before == old(self)@,
                applied(before, views.take(it.index() as int)).1 is None,
                self@ == applied(before, views.take(it.index() as int)).0,
        {
            let ghost n = it.index() as int;
            proof {
                assert(new == all[n]);
                assert(views.take(n + 1).drop_last() =~= views.take(n));
                assert(views.take(n + 1).last() == new@);
            }
            let current_version: u32 = match self.config() {
                Ok(current) => current.version,
                Err(e) => {
                    proof {
                        lemma_applied_prefix(before, views, n + 1);
                    }
                    return Err(e);
                },
            };
            if current_version < new.version {
                let outcome = self.take_over(new);
                match outcome {
                    Ok(_) => {},
                    Err(e) => {
                        proof {
                            lemma_applied_prefix(before, views, n + 1);
                        }
                        return Err(e);
                    },
                }
            }
        }
        assert(views.take(views.len() as int) =~= views);
        Ok(())
    }

    fn take_over(&mut self, new: Config) -> (r: Result<(), StateError>)
        ensures
            config::check_outcome(
                r,
                validator::synced(old(self)@.validators, new@.validators).1,
            ),
            final(self)@ == validator::with_validators(
                (StateView { config: Some(convert::kept_config(new@)), ..old(self)@ }),
                validator::synced(old(self)@.validators, new@.validators).0,
            ),
    {
        let outcome = self.sync_validators_from_config(&new.validators);
        self.set_config(new);
        outcome
    }

    /// Ends a block: what consensus is told of the validators, given those that were active before
    /// the block.
    pub fn end_block(&self, before: &Vec<Update>) -> (r: Result<Vec<Update>, StateError>)
        ensures
            match r {
                Ok(told) => {
                    &&& validator::active(self@.validators) is Ok
                    &&& told@.map_values(|u: Update| u@) == updates(
                        before@.map_values(|u: Update| u@),
                        validator::active(self@.validators)->Ok_0,
                    )
                },
                Err(e) => validator::active(self@.validators) == Err::<
                    Seq<UpdateView>,
                    StateErrorView,
                >(e@),
            },
    {
        match self.active_validators() {
            Ok(now) => Ok(validator_updates(before, now)),
            Err(e) => Err(e),
        }
    }

    /// Finalizes a block, given what the vote queues did with it: what came of delivering each
    /// transaction, and which configurations and observations are over their vote and delay.
    pub fn finalize_block(
        &mut self,
        request: &FinalizeBlock,
        deliveries: Vec<Result<(), String>>,
        configs: Vec<Config>,
        observations: Vec<(PrefixOrderDomain, OracleVoteValue)>,
    ) -> (r: Result<FinalizeBlockResponse, StateError>)
        ensures
            match r {
                Ok(response) => {
                    &&& finalized(
                        old(self)@,
                        *request,
                        configs@.map_values(|c: Config| c@),
                    ).1 is None
                    &&& response.tx_results@.map_values(|t: ExecTxResult| t@)
                        == deliveries@.map_values(
                        |o: Result<(), String>| tx_result_view(delivery_view(o)),
                    )
                    &&& response.canonical@.map_values(
                        |c: (Domain, HashObserved)| (c.0@, c.1@),
                    ) == observations@.map_values(
                        |p: (PrefixOrderDomain, OracleVoteValue)| canonical_view(promoted_view(p)),
                    )
                    &&& response.canonical@.len() == observations@.len()
                    &&& forall|i: int|
                        0 <= i < observations@.len() ==> (#[trigger] response.canonical@[i]).0@
                            == observations@[i].0@ && response.canonical@[i].1@
                            == observations@[i].1@.hash_observed
                    &&& response.tx_results@.len() == deliveries@.len()
                    &&& forall|i: int|
                        0 <= i < deliveries@.len() ==> {
                            &&& (#[trigger] response.tx_results@[i]).code == (if deliveries@[i] is Ok {
                                0u32
                            } else {
                                1u32
                            })
                            &&& deliveries@[i] matches Err(e) ==> response.tx_results@[i].log@
                                == e@
                        }
                    &&& response.validator_updates@.map_values(|u: Update| u@) == updates(
                        validator::active(old(self)@.validators)->Ok_0,
                        validator::active(final(self)@.validators)->Ok_0,
                    )
                    &&& leaves_the_rest(response)
                },
                Err(e) => finalized(
                    old(self)@,
                    *request,
                    configs@.map_values(|c: Config| c@),
                ).1 == Some(e@),
            },
            final(self)@ == finalized(
                old(self)@,
                *request,
                configs@.map_values(|c: Config| c@),
            ).0,
    {
        let ghost told = deliveries@;
        let start = match self.begin_block(request) {
            Ok(start) => start,
            Err(e) => return Err(e),
        };
        let configured = match start.deliver(deliveries).apply_configs(self, configs) {
            Ok(configured) => configured,
            Err(e) => return Err(e),
        };
        let ghost promoted = observations@;
        let r = configured.settle(observations).end(self);
        proof {
            if r is Ok {
                let response = r->Ok_0;
                let canonical = response.canonical@.map_values(
                    |c: (Domain, HashObserved)| (c.0@, c.1@),
                );
                assert forall|i: int| 0 <= i < promoted.len() implies (
                #[trigger] response.canonical@[i]).0@ == promoted[i].0@
                    && response.canonical@[i].1@ == promoted[i].1@.hash_observed by {
                    assert(canonical[i] == (response.canonical@[i].0@, response.canonical@[i].1@));
                }
                let results = response.tx_results@.map_values(|t: ExecTxResult| t@);
                assert(results == told.map_values(
                    |o: Result<(), String>| tx_result_view(delivery_view(o)),
                ));
                assert(results.len() == told.len());
                assert forall|i: int| 0 <= i < told.len() implies (
                #[trigger] response.tx_results@[i])@ == tx_result_view(delivery_view(told[i])) by {
                    assert(results[i] == response.tx_results@[i]@);
                }
            }
        }
        r
    }
}

impl BlockStart {
    /// The validators that were active before the block.
    pub closed spec fn active_before(self) -> Seq<UpdateView> {
        self.active@.map_values(|u: Update| u@)
    }

    /// The validators that were active before the block.
    pub fn active(&self) -> (r: &Vec<Update>)
        ensures
            r@.map_values(|u: Update| u@) == self.active_before(),
    {
        &self.active
    }

    /// The block once its transactions were delivered, with what came of each.
    pub fn deliver(self, deliveries: Vec<Result<(), String>>) -> (r: DeliveredBlock)
        ensures
            r.active_before() == self.active_before(),
            r.results() == deliveries@.map_values(
                |o: Result<(), String>| tx_result_view(delivery_view(o)),
            ),
    {
        DeliveredBlock { active: self.active, tx_results: tx_results(deliveries) }
    }
}

impl DeliveredBlock {
    /// The validators that were active before the block.
    pub closed spec fn active_before(self) -> Seq<UpdateView> {
        self.active@.map_values(|u: Update| u@)
    }

    /// What consensus is told of each transaction.
    pub closed spec fn results(self) -> Seq<ExecTxResultView> {
        self.tx_results@.map_values(|t: ExecTxResult| t@)
    }

    /// The block once the configurations whose vote and delay are over were taken over.
    pub fn apply_configs(self, state: &mut State, configs: Vec<Config>) -> (r: Result<
        ConfiguredBlock,
        StateError,
    >)
        ensures
            match r {
                Ok(configured) => {
                    &&& applied(old(state)@, configs@.map_values(|c: Config| c@)).1 is None
                    &&& configured.active_before() == self.active_before()
                    &&& configured.results() == self.results()
                },
                Err(e) => applied(old(state)@, configs@.map_values(|c: Config| c@)).1 == Some(e@),
            },
            final(state)@ == applied(old(state)@, configs@.map_values(|c: Config| c@)).0,
    {
        match state.apply_configs(configs) {
            Ok(_) => Ok(ConfiguredBlock { active: self.active, tx_results: self.tx_results }),
            Err(e) => Err(e),
        }
    }
}

impl ConfiguredBlock {
    /// The validators that were active before the block.
    pub closed spec fn active_before(self) -> Seq<UpdateView> {
        self.active@.map_values(|u: Update| u@)
    }

    /// What consensus is told of each transaction.
    pub closed spec fn results(self) -> Seq<ExecTxResultView> {
        self.tx_results@.map_values(|t: ExecTxResult| t@)
    }

    /// The block once the observations whose vote and delay are over were promoted.
    pub fn settle(self, observations: Vec<(PrefixOrderDomain, OracleVoteValue)>) -> (r:
        SettledBlock)
        ensures
            r.active_before() == self.active_before(),
            r.results() == self.results(),
            r.canonical_after() == observations@.map_values(
                |p: (PrefixOrderDomain, OracleVoteValue)| canonical_view(promoted_view(p)),
            ),
            r.canonical_after().len() == observations@.len(),
            forall|i: int|
                0 <= i < observations@.len() ==> (#[trigger] r.canonical_after()[i]).0
                    == observations@[i].0@ && r.canonical_after()[i].1
                    == observations@[i].1.hash_observed@,
    {
        SettledBlock {
            active: self.active,
            tx_results: self.tx_results,
            canonical: canonical_updates(observations),
        }
    }
}

impl SettledBlock {
    /// The validators that were active before the block.
    pub closed spec fn active_before(self) -> Seq<UpdateView> {
        self.active@.map_values(|u: Update| u@)
    }

    /// What consensus is told of each transaction.
    pub closed spec fn results(self) -> Seq<ExecTxResultView> {
        self.tx_results@.map_values(|t: ExecTxResult| t@)
    }

    /// What became canonical.
    pub closed spec fn canonical_after(self) -> Seq<(Seq<Seq<char>>, HashObservedView)> {
        self.canonical@.map_values(|c: (Domain, HashObserved)| (c.0@, c.1@))
    }

    /// What became canonical, in turn.
    pub fn canonical(&self) -> (r: &Vec<(Domain, HashObserved)>)
        ensures
            r@.map_values(|c: (Domain, HashObserved)| (c.0@, c.1@)) == self.canonical_after(),
    {
        &self.canonical
    }

    /// Ends the block: what consensus is told of it.
    pub fn end(self, state: &State) -> (r: Result<FinalizeBlockResponse, StateError>)
        ensures
            match r {
                Ok(response) => {
                    &&& validator::active(state@.validators) is Ok
                    &&& response.tx_results@.map_values(|t: ExecTxResult| t@) == self.results()
                    &&& response.canonical@.map_values(
                        |c: (Domain, HashObserved)| (c.0@, c.1@),
                    ) == self.canonical_after()
                    &&& response.validator_updates@.map_values(|u: Update| u@) == updates(
                        self.active_before(),
                        validator::active(state@.validators)->Ok_0,
                    )
                    &&& leaves_the_rest(response)
                },
                Err(e) => validator::active(state@.validators) == Err::<
                    Seq<UpdateView>,
                    StateErrorView,
                >(e@),
            },
    {
        match state.end_block(&self.active) {
            Ok(validator_updates) => Ok(
                FinalizeBlockResponse {
                    tx_results: self.tx_results,
                    canonical: self.canonical,
                    validator_updates,
                    consensus_param_updates: None,
                    app_hash: Vec::new(),
                    events: Vec::new(),
                },
            ),
            Err(e) => Err(e),
        }
    }
}

} // verus!
