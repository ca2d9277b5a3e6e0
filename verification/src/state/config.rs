//! The current configuration, and which configurations may follow it.

use vstd::prelude::*;

use crate::convert;
use crate::error::ParseErrorView;
use crate::octets;
use crate::proto;
use crate::state::State;
use crate::state::StateError;
use crate::state::StateErrorView;
use crate::state::StateView;
use crate::transaction;
use crate::transaction::Admin;
use crate::transaction::Config;
use crate::transaction::ConfigView;
use crate::transaction::Oracle;
use crate::transaction::OracleView;
use crate::transaction::Total;
use crate::transaction::Validator;
use crate::transaction::ValidatorView;
use crate::transaction::VotingConfig;

verus! {

/// What is wrong with a way of voting among `expected` voters, if anything is.
pub open spec fn voting_error(expected: u64, voting: VotingConfig) -> Option<StateErrorView> {
    if voting.total.0 != expected {
        Some(StateErrorView::TotalMismatch { total: voting.total.0, expected })
    } else if voting.quorum.0 == 0 {
        Some(StateErrorView::QuorumZero)
    } else if voting.quorum.0 > voting.total.0 {
        Some(
            StateErrorView::QuorumAboveTotal { quorum: voting.quorum.0, total: voting.total.0 },
        )
    } else {
        None
    }
}

/// The index of the first identity of zeros, from `start` on, if there is one.
pub open spec fn placeholder_from(identities: Seq<Seq<u8>>, start: int) -> Option<usize>
    decreases identities.len() - start,
{
    if start >= identities.len() {
        None
    } else if octets::all_zero(identities[start]) {
        Some(start as usize)
    } else {
        placeholder_from(identities, start + 1)
    }
}

/// What is wrong with the first validator that something is wrong with, from `start` on.
pub open spec fn validator_error_from(
    validators: Seq<ValidatorView>,
    start: int,
) -> Option<StateErrorView>
    decreases validators.len() - start,
{
    if start >= validators.len() {
        None
    } else if validators[start].power > u32::MAX {
        Some(
            StateErrorView::ValidatorPower {
                index: start as usize,
                power: validators[start].power,
            },
        )
    } else if octets::all_zero(validators[start].public_key) {
        Some(StateErrorView::ValidatorPlaceholder { index: start as usize })
    } else {
        validator_error_from(validators, start + 1)
    }
}

/// The identities of the oracles.
pub open spec fn oracle_identities(oracles: Seq<OracleView>) -> Seq<Seq<u8>> {
    oracles.map_values(|o: OracleView| o.identity)
}

/// Why `new` may not follow the current configuration, or `None` where it may.
pub open spec fn config_error(current: Option<ConfigView>, new: ConfigView) -> Option<
    StateErrorView,
> {
    if current is None {
        Some(StateErrorView::ConfigNotFound)
    } else if new.version <= current->0.version {
        Some(
            StateErrorView::VersionNotGreater {
                version: new.version,
                current: current->0.version,
            },
        )
    } else if voting_error(new.admins.authorized.len() as u64, new.admins.voting) is Some {
        voting_error(new.admins.authorized.len() as u64, new.admins.voting)
    } else if voting_error(new.oracles.authorized.len() as u64, new.oracles.voting) is Some {
        voting_error(new.oracles.authorized.len() as u64, new.oracles.voting)
    } else if new.oracles.max_enrolled_subdomains == 0 {
        Some(StateErrorView::SubdomainsZero)
    } else if new.oracles.max_enrolled_subdomains < current->0.oracles.max_enrolled_subdomains {
        Some(StateErrorView::SubdomainsDecrease)
    } else if placeholder_from(new.admins.authorized, 0) is Some {
        Some(
            StateErrorView::AdminPlaceholder {
                index: placeholder_from(new.admins.authorized, 0)->0,
            },
        )
    } else if placeholder_from(oracle_identities(new.oracles.authorized), 0) is Some {
        Some(
            StateErrorView::OraclePlaceholder {
                index: placeholder_from(oracle_identities(new.oracles.authorized), 0)->0,
            },
        )
    } else {
        validator_error_from(new.validators, 0)
    }
}

/// Whether a check came out as `error` says.
pub open spec fn check_outcome(
    r: Result<(), StateError>,
    error: Option<StateErrorView>,
) -> bool {
    match r {
        Ok(_) => error is None,
        Err(e) => error == Some(e@),
    }
}

fn placeholder_admin(admins: &Vec<Admin>) -> (r: Option<usize>)
    ensures
        r == placeholder_from(admins@.map_values(|a: Admin| a@), 0),
{
    let ghost identities = admins@.map_values(|a: Admin| a@);
    let mut i: usize = 0;
    while i < admins.len()
        invariant
            i <= admins.len(),
            identities == admins@.map_values(|a: Admin| a@),
            placeholder_from(identities, 0) == placeholder_from(identities, i as int),
        decreases admins.len() - i,
    {
        if State::is_all_zeros(admins[i].identity.as_slice()) {
            return Some(i);
        }
        i += 1;
    }
    None
}

fn placeholder_oracle(oracles: &Vec<Oracle>) -> (r: Option<usize>)
    ensures
        r == placeholder_from(oracle_identities(oracles@.map_values(|o: Oracle| o@)), 0),
{
    let ghost identities = oracle_identities(oracles@.map_values(|o: Oracle| o@));
    let mut i: usize = 0;
    while i < oracles.len()
        invariant
            i <= oracles.len(),
            identities == oracle_identities(oracles@.map_values(|o: Oracle| o@)),
            placeholder_from(identities, 0) == placeholder_from(identities, i as int),
        decreases oracles.len() - i,
    {
        if State::is_all_zeros(oracles[i].identity.as_slice()) {
            return Some(i);
        }
        i += 1;
    }
    None
}

fn refused_validator(validators: &Vec<Validator>) -> (r: Option<StateError>)
    ensures
        match r {
            Some(e) => validator_error_from(validators@.map_values(|v: Validator| v@), 0) == Some(
                e@,
            ),
            None => validator_error_from(validators@.map_values(|v: Validator| v@), 0) is None,
        },
{
    let ghost views = validators@.map_values(|v: Validator| v@);
    let mut i: usize = 0;
    while i < validators.len()
        invariant
            i <= validators.len(),
            views == validators@.map_values(|v: Validator| v@),
            validator_error_from(views, 0) == validator_error_from(views, i as int),
        decreases validators.len() - i,
    {
        if validators[i].power > u32::MAX as u64 {
            return Some(StateError::ValidatorPower { index: i, power: validators[i].power });
        }
        if State::is_all_zeros(validators[i].public_key.as_slice()) {
            return Some(StateError::ValidatorPlaceholder { index: i });
        }
        i += 1;
    }
    None
}

impl State {
    /// The current configuration.
    pub fn config(&self) -> (r: Result<&Config, StateError>)
        ensures
            match r {
                Ok(config) => self@.config == Some(config@),
                Err(e) => self@.config is None && e@ == StateErrorView::ConfigNotFound,
            },
    {
        match &self.config {
            Some(config) => Ok(config),
            None => Err(StateError::ConfigNotFound),
        }
    }

    /// Makes `config` the current configuration, as its message keeps it: numbers that are too great
    /// for the message become the greatest, parts of a second are dropped, and an oracle without an
    /// endpoint answers at the local host.
    pub fn set_config(&mut self, config: Config)
        ensures
            final(self)@ == (StateView {
                config: Some(convert::kept_config(config@)),
                ..old(self)@
            }),
            convert::decode_config(convert::encode_config(config@)) == Ok::<
                ConfigView,
                ParseErrorView,
            >(final(self)@.config->0),
    {
        proof {
            convert::lemma_config_kept(config@);
        }
        match Config::try_from(proto::Config::from(config)) {
            Ok(kept) => {
                self.config = Some(kept);
            },
            Err(_) => {},
        }
    }

    /// Checks that `new` is consistent in itself, and that it may follow the current configuration.
    pub fn check_config(&self, new: &Config) -> (r: Result<(), StateError>)
        ensures
            check_outcome(r, config_error(self@.config, new@)),
    {
        let current = match self.config() {
            Ok(current) => current,
            Err(e) => return Err(e),
        };
        if new.version <= current.version {
            return Err(
                StateError::VersionNotGreater { version: new.version, current: current.version },
            );
        }
        match Self::check_voting_config(
            Total(new.admins.authorized.len() as u64),
            &new.admins.voting,
        ) {
            Ok(_) => {},
            Err(e) => return Err(e),
        }
        match Self::check_voting_config(
            Total(new.oracles.authorized.len() as u64),
            &new.oracles.voting,
        ) {
            Ok(_) => {},
            Err(e) => return Err(e),
        }
        if new.oracles.max_enrolled_subdomains == 0 {
            return Err(StateError::SubdomainsZero);
        }
        if new.oracles.max_enrolled_subdomains < current.oracles.max_enrolled_subdomains {
            return Err(StateError::SubdomainsDecrease);
        }
        match placeholder_admin(&new.admins.authorized) {
            Some(index) => return Err(StateError::AdminPlaceholder { index }),
            None => {},
        }
        match placeholder_oracle(&new.oracles.authorized) {
            Some(index) => return Err(StateError::OraclePlaceholder { index }),
            None => {},
        }
        match refused_validator(&new.validators) {
            Some(e) => Err(e),
            None => Ok(()),
        }
    }

    /// Checks that a way of voting is consistent in itself, and that it is one among
    /// `expected_total` voters.
    pub fn check_voting_config(expected_total: Total, voting: &VotingConfig) -> (r: Result<
        (),
        StateError,
    >)
        ensures
            check_outcome(r, voting_error(expected_total.0, *voting)),
    {
        if voting.total.0 != expected_total.0 {
            return Err(
                StateError::TotalMismatch {
                    total: voting.total.0,
                    expected: expected_total.0,
                },
            );
        }
        if voting.quorum.0 == 0 {
            return Err(StateError::QuorumZero);
        }
        if voting.quorum.0 > voting.total.0 {
            return Err(
                StateError::QuorumAboveTotal {
                    quorum: voting.quorum.0,
                    total: voting.total.0,
                },
            );
        }
        Ok(())
    }

    /// Whether all bytes are zero, as those of a placeholder are.
    pub fn is_all_zeros(bytes: &[u8]) -> (r: bool)
        ensures
            r == octets::all_zero(bytes@),
    {
        let mut i: usize = 0;
        while i < bytes.len()
            invariant
                i <= bytes.len(),
                forall|j: int| 0 <= j < i ==> bytes@[j] == 0,
            decreases bytes.len() - i,
        {
            if bytes[i] != 0 {
                return false;
            }
            i += 1;
        }
        true
    }
}

/// A configuration that was accepted has a greater version than the one before it.
pub proof fn lemma_accepted_version_grows(current: ConfigView, new: ConfigView)
    requires
        config_error(Some(current), new) is None,
    ensures
        new.version > current.version,
{
}

/// A configuration that was accepted allows at least as many subdomains as the one before it.
pub proof fn lemma_accepted_subdomains_grow(current: ConfigView, new: ConfigView)
    requires
        config_error(Some(current), new) is None,
    ensures
        new.oracles.max_enrolled_subdomains >= current.oracles.max_enrolled_subdomains,
        new.oracles.max_enrolled_subdomains > 0,
{
}

proof fn lemma_no_placeholder(identities: Seq<Seq<u8>>, start: int)
    requires
        0 <= start,
    ensures
        placeholder_from(identities, start) is None <==> (forall|i: int|
            start <= i < identities.len() ==> !octets::all_zero(#[trigger] identities[i])),
    decreases identities.len() - start,
{
    if start < identities.len() {
        lemma_no_placeholder(identities, start + 1);
    }
}

proof fn lemma_no_validator_error(validators: Seq<ValidatorView>, start: int)
    requires
        0 <= start,
    ensures
        validator_error_from(validators, start) is None <==> (forall|i: int|
            start <= i < validators.len() ==> (#[trigger] validators[i]).power <= u32::MAX
                && !octets::all_zero(validators[i].public_key)),
    decreases validators.len() - start,
{
    if start < validators.len() {
        lemma_no_validator_error(validators, start + 1);
    }
}

/// Whether a way of voting fits `voters` voters: each has one vote, and the quorum is some of
/// them, at most all.
pub open spec fn votes_fit(voters: nat, voting: VotingConfig) -> bool {
    &&& voting.total.0 == voters
    &&& 1 <= voting.quorum.0 <= voters
}

/// A configuration is accepted exactly where its version is greater, its ways of voting fit their
/// voters, its limit of subdomains is above zero and does not fall, no key is a placeholder, and no
/// validator's power is too great.
pub proof fn lemma_accepted_iff(current: ConfigView, new: ConfigView)
    requires
        new.admins.authorized.len() <= u64::MAX,
        new.oracles.authorized.len() <= u64::MAX,
    ensures
        config_error(Some(current), new) is None <==> {
            &&& new.version > current.version
            &&& votes_fit(new.admins.authorized.len(), new.admins.voting)
            &&& votes_fit(new.oracles.authorized.len(), new.oracles.voting)
            &&& new.oracles.max_enrolled_subdomains > 0
            &&& new.oracles.max_enrolled_subdomains >= current.oracles.max_enrolled_subdomains
            &&& forall|i: int|
                0 <= i < new.admins.authorized.len() ==> !octets::all_zero(
                    #[trigger] new.admins.authorized[i],
                )
            &&& forall|i: int|
                0 <= i < new.oracles.authorized.len() ==> !octets::all_zero(
                    (#[trigger] new.oracles.authorized[i]).identity,
                )
            &&& forall|i: int|
                0 <= i < new.validators.len() ==> (#[trigger] new.validators[i]).power <= u32::MAX
                    && !octets::all_zero(new.validators[i].public_key)
        },
{
    lemma_no_placeholder(new.admins.authorized, 0);
    let identities = oracle_identities(new.oracles.authorized);
    lemma_no_placeholder(identities, 0);
    lemma_no_validator_error(new.validators, 0);
    if placeholder_from(identities, 0) is None {
        assert forall|i: int| 0 <= i < new.oracles.authorized.len() implies !octets::all_zero(
            (#[trigger] new.oracles.authorized[i]).identity,
        ) by {
            assert(!octets::all_zero(identities[i]));
        }
    } else if forall|i: int|
        0 <= i < new.oracles.authorized.len() ==> !octets::all_zero(
            (#[trigger] new.oracles.authorized[i]).identity,
        ) {
        assert forall|i: int| 0 <= i < identities.len() implies !octets::all_zero(
            #[trigger] identities[i],
        ) by {
            assert(identities[i] == new.oracles.authorized[i].identity);
        }
    }
}

/// The configuration that is handed out to be filled in is never accepted as it stands.
pub proof fn lemma_template_is_refused(current: Option<ConfigView>, version: u32)
    ensures
        config_error(current, transaction::template_view(version)) is Some,
{
    let template = transaction::template_view(version);
    assert(template.admins.authorized.len() == 1);
    assert(voting_error(1, template.admins.voting) is Some);
}

} // verus!
