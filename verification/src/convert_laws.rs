//! What messages say of what they carry, part by part.

use vstd::prelude::*;

use crate::clock::Duration;
use crate::clock::Time;
use crate::convert;
use crate::domain;
use crate::error::ParseError;
use crate::error::ParseErrorView;
use crate::error::Target;
use crate::hexadecimal;
use crate::proto;
use crate::sequence;
use crate::text_laws;
use crate::transaction;
use crate::transaction::ActionView;
use crate::transaction::ConfigView;
use crate::transaction::HashObservedView;
use crate::transaction::ObservationView;
use crate::transaction::OracleVoteValueView;
use crate::transaction::OracleView;
use crate::transaction::TransactionView;
use crate::transaction::ValidatorView;
use crate::transaction::VotingConfig;

verus! {

/// Whether a way of voting is the one in its message: the same numbers, and spans of whole seconds.
pub open spec fn same_voting(m: proto::VotingConfig, c: VotingConfig) -> bool {
    &&& c.total.0 == m.total
    &&& c.quorum.0 == m.quorum
    &&& c.timeout.0.secs == m.timeout && c.timeout.0.nanos == 0
    &&& c.delay.0.secs == m.delay && c.delay.0.nanos == 0
}

/// Whether no number in the message of a way of voting is negative.
pub open spec fn votes_are_natural(m: proto::VotingConfig) -> bool {
    m.total >= 0 && m.quorum >= 0 && m.timeout >= 0 && m.delay >= 0
}

/// Whether everything in the message of a configuration is there, and no number is negative or, for
/// the version, too great.
pub open spec fn is_complete(m: proto::ConfigView) -> bool {
    &&& 0 <= m.version <= 0xffff_ffff
    &&& m.admin_config is Some
    &&& m.admin_config->0.voting_config is Some
    &&& votes_are_natural(m.admin_config->0.voting_config->0)
    &&& m.oracle_config is Some
    &&& m.oracle_config->0.max_enrolled_subdomains >= 0
    &&& m.oracle_config->0.observation_timeout >= 0
    &&& m.oracle_config->0.voting_config is Some
    &&& votes_are_natural(m.oracle_config->0.voting_config->0)
    &&& forall|i: int|
        0 <= i < m.oracle_config->0.oracles.len() ==> (
        #[trigger] m.oracle_config->0.oracles[i]).public_key is Some
    &&& m.onion_config is Some
    &&& forall|i: int| 0 <= i < m.validators.len() ==> (#[trigger] m.validators[i]).power >= 0
}

/// Whether a configuration says, part by part, what its message says. An oracle that names no endpoint
/// in the message answers at the local host.
pub open spec fn same_config(m: proto::ConfigView, c: ConfigView) -> bool {
    let admins = m.admin_config->0;
    let oracles = m.oracle_config->0;
    &&& c.version == m.version
    &&& c.admins.authorized == admins.admins
    &&& same_voting(admins.voting_config->0, c.admins.voting)
    &&& c.oracles.enabled == oracles.enabled
    &&& same_voting(oracles.voting_config->0, c.oracles.voting)
    &&& c.oracles.max_enrolled_subdomains == oracles.max_enrolled_subdomains
    &&& c.oracles.observation_timeout.secs == oracles.observation_timeout
    &&& c.oracles.observation_timeout.nanos == 0
    &&& c.oracles.authorized.len() == oracles.oracles.len()
    &&& forall|i: int|
        0 <= i < oracles.oracles.len() ==> {
            &&& (#[trigger] c.oracles.authorized[i]).identity == oracles.oracles[i].public_key->0
            &&& oracles.oracles[i].endpoint.len() > 0 ==> c.oracles.authorized[i].endpoint
                == oracles.oracles[i].endpoint
            &&& oracles.oracles[i].endpoint.len() == 0 ==> c.oracles.authorized[i].endpoint
                == "127.0.0.1"@
        }
    &&& c.onion.enabled == m.onion_config->0.enabled
    &&& c.validators.len() == m.validators.len()
    &&& forall|i: int|
        0 <= i < m.validators.len() ==> (#[trigger] c.validators[i]).public_key
            == m.validators[i].public_key && c.validators[i].power == m.validators[i].power
}

/// A configuration is read from a message exactly where the message is complete, and says what the
/// message says.
pub proof fn lemma_config_is_read(m: proto::ConfigView)
    ensures
        convert::decode_config(m) is Ok <==> is_complete(m),
        convert::decode_config(m) matches Ok(c) ==> same_config(m, c),
{
    if m.oracle_config is Some {
        let decode_one = |o: proto::OracleView| convert::decode_oracle(o);
        let oracles = m.oracle_config->0.oracles;
        if forall|i: int|
            0 <= i < oracles.len() ==> (#[trigger] oracles[i]).public_key is Some {
            assert forall|i: int| 0 <= i < oracles.len() implies decode_one(
                #[trigger] oracles[i],
            ) is Ok by {}
            sequence::lemma_decode_all_ok(oracles, decode_one);
        }
        if sequence::decode_all(oracles, decode_one) is Ok {
            sequence::lemma_decode_all_items(oracles, decode_one);
            let found = sequence::decode_all(oracles, decode_one)->Ok_0;
            assert forall|i: int| 0 <= i < oracles.len() implies (
            #[trigger] oracles[i]).public_key is Some && decode_one(oracles[i]) == Ok::<
                OracleView,
                ParseErrorView,
            >(found[i]) by {}
        }
    }
    let decode_other = |v: proto::ValidatorView| convert::decode_validator(v);
    if forall|i: int| 0 <= i < m.validators.len() ==> (#[trigger] m.validators[i]).power >= 0 {
        assert forall|i: int| 0 <= i < m.validators.len() implies decode_other(
            #[trigger] m.validators[i],
        ) is Ok by {}
        sequence::lemma_decode_all_ok(m.validators, decode_other);
    }
    if sequence::decode_all(m.validators, decode_other) is Ok {
        sequence::lemma_decode_all_items(m.validators, decode_other);
        let found = sequence::decode_all(m.validators, decode_other)->Ok_0;
        assert forall|i: int| 0 <= i < m.validators.len() implies (
        #[trigger] m.validators[i]).power >= 0 && decode_other(m.validators[i]) == Ok::<
            ValidatorView,
            ParseErrorView,
        >(found[i]) by {}
    }
    if convert::decode_config(m) is Ok {
        let c = convert::decode_config(m)->Ok_0;
        let oracles = m.oracle_config->0.oracles;
        let decode_one = |o: proto::OracleView| convert::decode_oracle(o);
        let found = sequence::decode_all(oracles, decode_one)->Ok_0;
        assert(c.oracles.authorized == found);
        assert forall|i: int| 0 <= i < oracles.len() implies {
            &&& (#[trigger] c.oracles.authorized[i]).identity == oracles[i].public_key->0
            &&& oracles[i].endpoint.len() > 0 ==> c.oracles.authorized[i].endpoint
                == oracles[i].endpoint
            &&& oracles[i].endpoint.len() == 0 ==> c.oracles.authorized[i].endpoint
                == "127.0.0.1"@
        } by {
            assert(decode_one(oracles[i]) == Ok::<OracleView, ParseErrorView>(found[i]));
        }
        let others = sequence::decode_all(m.validators, decode_other)->Ok_0;
        assert(c.validators == others);
        assert forall|i: int| 0 <= i < m.validators.len() implies (
        #[trigger] c.validators[i]).public_key == m.validators[i].public_key
            && c.validators[i].power == m.validators[i].power by {
            assert(decode_other(m.validators[i]) == Ok::<ValidatorView, ParseErrorView>(
                others[i],
            ));
        }
    }
}

/// Whether `written` is the number `x`, or the greatest that a message holds where `x` is greater.
pub open spec fn is_written(x: u64, written: i64) -> bool {
    &&& x <= 0x7fff_ffff_ffff_ffff ==> written == x
    &&& x > 0x7fff_ffff_ffff_ffff ==> written == 0x7fff_ffff_ffff_ffff
}

/// Whether the message of a way of voting says what it is, in whole seconds.
pub open spec fn writes_voting(c: VotingConfig, m: proto::VotingConfig) -> bool {
    &&& is_written(c.total.0, m.total)
    &&& is_written(c.quorum.0, m.quorum)
    &&& is_written(c.timeout.0.secs, m.timeout)
    &&& is_written(c.delay.0.secs, m.delay)
}

/// The message for a configuration says, part by part, what the configuration says.
pub proof fn lemma_config_is_written(c: ConfigView)
    ensures
        ({
            let m = convert::encode_config(c);
            &&& m.version == c.version
            &&& m.admin_config is Some
            &&& m.admin_config->0.admins == c.admins.authorized
            &&& m.admin_config->0.voting_config is Some
            &&& writes_voting(c.admins.voting, m.admin_config->0.voting_config->0)
            &&& m.oracle_config is Some
            &&& m.oracle_config->0.enabled == c.oracles.enabled
            &&& m.oracle_config->0.voting_config is Some
            &&& writes_voting(c.oracles.voting, m.oracle_config->0.voting_config->0)
            &&& is_written(
                c.oracles.max_enrolled_subdomains,
                m.oracle_config->0.max_enrolled_subdomains,
            )
            &&& is_written(
                c.oracles.observation_timeout.secs,
                m.oracle_config->0.observation_timeout,
            )
            &&& m.oracle_config->0.oracles.len() == c.oracles.authorized.len()
            &&& forall|i: int|
                0 <= i < c.oracles.authorized.len() ==> (
                #[trigger] m.oracle_config->0.oracles[i]).public_key == Some(
                    c.oracles.authorized[i].identity,
                ) && m.oracle_config->0.oracles[i].endpoint == c.oracles.authorized[i].endpoint
            &&& m.onion_config is Some
            &&& m.onion_config->0.enabled == c.onion.enabled
            &&& m.validators.len() == c.validators.len()
            &&& forall|i: int|
                0 <= i < c.validators.len() ==> (#[trigger] m.validators[i]).public_key
                    == c.validators[i].public_key && is_written(
                    c.validators[i].power,
                    m.validators[i].power,
                )
        }),
{
}

/// What a configuration becomes where it is kept as a message: numbers up to the greatest that a
/// message holds stay, spans lose their parts of a second, an oracle without an endpoint answers at
/// the local host, and everything else stays.
pub proof fn lemma_config_is_kept(c: ConfigView)
    ensures
        ({
            let k = convert::kept_config(c);
            &&& k.version == c.version
            &&& k.admins.authorized == c.admins.authorized
            &&& keeps_voting(c.admins.voting, k.admins.voting)
            &&& k.oracles.enabled == c.oracles.enabled
            &&& keeps_voting(c.oracles.voting, k.oracles.voting)
            &&& is_kept(c.oracles.max_enrolled_subdomains, k.oracles.max_enrolled_subdomains)
            &&& keeps_span(c.oracles.observation_timeout, k.oracles.observation_timeout)
            &&& k.oracles.authorized.len() == c.oracles.authorized.len()
            &&& forall|i: int|
                0 <= i < c.oracles.authorized.len() ==> {
                    &&& (#[trigger] k.oracles.authorized[i]).identity
                        == c.oracles.authorized[i].identity
                    &&& c.oracles.authorized[i].endpoint.len() > 0
                        ==> k.oracles.authorized[i].endpoint == c.oracles.authorized[i].endpoint
                    &&& c.oracles.authorized[i].endpoint.len() == 0
                        ==> k.oracles.authorized[i].endpoint == "127.0.0.1"@
                }
            &&& k.onion.enabled == c.onion.enabled
            &&& k.validators.len() == c.validators.len()
            &&& forall|i: int|
                0 <= i < c.validators.len() ==> (#[trigger] k.validators[i]).public_key
                    == c.validators[i].public_key && is_kept(
                    c.validators[i].power,
                    k.validators[i].power,
                )
        }),
{
}

/// Whether `kept` is the number `x`, or the greatest that a message holds where `x` is greater.
pub open spec fn is_kept(x: u64, kept: u64) -> bool {
    &&& x <= 0x7fff_ffff_ffff_ffff ==> kept == x
    &&& x > 0x7fff_ffff_ffff_ffff ==> kept == 0x7fff_ffff_ffff_ffff
}

/// Whether `kept` is the span `d` in whole seconds.
pub open spec fn keeps_span(d: Duration, kept: Duration) -> bool {
    is_kept(d.secs, kept.secs) && kept.nanos == 0
}

/// Whether `kept` is the way of voting `c`, in whole seconds.
pub open spec fn keeps_voting(c: VotingConfig, kept: VotingConfig) -> bool {
    &&& is_kept(c.total.0, kept.total.0)
    &&& is_kept(c.quorum.0, kept.quorum.0)
    &&& keeps_span(c.timeout.0, kept.timeout.0)
    &&& keeps_span(c.delay.0, kept.delay.0)
}

/// Whether a timestamp lies in the years 1 to 9999 and its nanoseconds make less than a second.
pub open spec fn is_point(m: proto::Timestamp) -> bool {
    -62_135_596_800 <= m.seconds <= 253_402_300_799 && 0 <= m.nanos <= 999_999_999
}

/// A vote for a configuration is read exactly where its message is complete; the admin is whose
/// signature it bears, and the configuration and the times are those of the message.
pub proof fn lemma_reconfigure_is_read(m: proto::ReconfigureView)
    ensures
        convert::decode_reconfigure(m) is Ok <==> {
            &&& m.signature is Some
            &&& m.config is Some && is_complete(m.config->0)
            &&& m.not_before is Some && is_point(m.not_before->0)
            &&& m.not_after is Some && is_point(m.not_after->0)
        },
        convert::decode_reconfigure(m) matches Ok(r) ==> {
            &&& r.admin == m.signature->0.public_key
            &&& same_config(m.config->0, r.config)
            &&& r.not_before.seconds == m.not_before->0.seconds
            &&& r.not_before.nanos == m.not_before->0.nanos
            &&& r.not_after.seconds == m.not_after->0.seconds
            &&& r.not_after.nanos == m.not_after->0.nanos
        },
        m.signature is None ==> convert::decode_reconfigure(m) == Err::<
            transaction::ReconfigureView,
            ParseErrorView,
        >(ParseErrorView { target: Target::Admin, value: "missing"@ }),
{
    if m.config is Some {
        lemma_config_is_read(m.config->0);
    }
}

/// The message for a vote for a configuration bears the admin's key, no signature yet, and the times.
pub proof fn lemma_reconfigure_is_written(r: transaction::ReconfigureView)
    requires
        r.not_before.nanos <= 999_999_999,
        r.not_after.nanos <= 999_999_999,
    ensures
        ({
            let m = convert::encode_reconfigure(r);
            &&& m.signature is Some
            &&& m.signature->0.public_key == r.admin
            &&& m.signature->0.signature.len() == 0
            &&& m.config == Some(convert::encode_config(r.config))
            &&& m.not_before is Some
            &&& m.not_before->0.seconds == r.not_before.seconds
            &&& m.not_before->0.nanos == r.not_before.nanos
            &&& m.not_after is Some
            &&& m.not_after->0.seconds == r.not_after.seconds
            &&& m.not_after->0.nanos == r.not_after.nanos
        }),
{
}

/// Whether what was found is what the bytes of a message say: 32 bytes are a hash, and none say that
/// nothing was found.
pub open spec fn same_found(bytes: Seq<u8>, found: HashObservedView) -> bool {
    &&& bytes.len() == 32 ==> found == HashObservedView::Hash(bytes)
    &&& bytes.len() == 0 ==> found == HashObservedView::NotFound
}

/// What was found is read from 32 bytes or none, and nothing else.
pub proof fn lemma_hash_is_read(bytes: Seq<u8>)
    ensures
        convert::decode_hash_observed(bytes) is Ok <==> bytes.len() == 32 || bytes.len() == 0,
        convert::decode_hash_observed(bytes) matches Ok(found) ==> same_found(bytes, found),
        convert::decode_hash_observed(bytes) matches Err(e) ==> e == (ParseErrorView {
            target: Target::HashObserved,
            value: hexadecimal::hex_text(bytes),
        }),
        convert::encode_hash_observed(HashObservedView::Hash(bytes)) == bytes,
        convert::encode_hash_observed(HashObservedView::NotFound).len() == 0,
{
}

/// Whether the parts of an observation's message are there and well formed.
pub open spec fn is_observed(m: proto::ObservationView) -> bool {
    &&& domain::parsed_name(m.domain) is Ok
    &&& domain::parsed_name(m.zone) is Ok
    &&& m.hash_observed is Some
    &&& m.hash_observed->0.len() == 32 || m.hash_observed->0.len() == 0
    &&& m.blockstamp is Some
    &&& m.blockstamp->0.block_number >= 0
}

/// Whether an observation says, part by part, what its message says.
pub open spec fn same_observation(m: proto::ObservationView, o: ObservationView) -> bool {
    &&& Ok::<Seq<Seq<char>>, domain::FqdnError>(o.domain) == domain::parsed_name(m.domain)
    &&& Ok::<Seq<Seq<char>>, domain::FqdnError>(o.zone) == domain::parsed_name(m.zone)
    &&& same_found(m.hash_observed->0, o.hash_observed)
    &&& o.blockstamp.block_height == m.blockstamp->0.block_number
    &&& o.blockstamp.app_hash == m.blockstamp->0.block_hash
}

/// An observation is read exactly where its message is complete, and says what the message says.
pub proof fn lemma_observation_is_read(m: proto::ObservationView)
    ensures
        convert::decode_observation(m) is Ok <==> is_observed(m),
        convert::decode_observation(m) matches Ok(o) ==> same_observation(m, o),
{
}

/// The message for an observation says what the observation says.
pub proof fn lemma_observation_is_written(o: ObservationView)
    ensures
        ({
            let m = convert::encode_observation(o);
            &&& m.domain == domain::name_text(o.domain)
            &&& m.zone == domain::name_text(o.zone)
            &&& m.hash_observed is Some
            &&& o.hash_observed matches HashObservedView::Hash(hash) ==> m.hash_observed->0 == hash
            &&& o.hash_observed is NotFound ==> m.hash_observed->0.len() == 0
            &&& m.blockstamp is Some
            &&& m.blockstamp->0.block_hash == o.blockstamp.app_hash
            &&& is_written(o.blockstamp.block_height, m.blockstamp->0.block_number)
        }),
{
}

/// A vote on a domain is read exactly where its message is complete; the oracle is whose signature it
/// bears.
pub proof fn lemma_observe_is_read(m: proto::ObserveView)
    ensures
        convert::decode_observe(m) is Ok <==> m.signature is Some && m.observation is Some
            && is_observed(m.observation->0),
        convert::decode_observe(m) matches Ok(o) ==> o.oracle == m.signature->0.public_key
            && same_observation(m.observation->0, o.observation),
        m.signature is None ==> convert::decode_observe(m) == Err::<
            transaction::ObserveView,
            ParseErrorView,
        >(ParseErrorView { target: Target::OracleIdentity, value: "missing"@ }),
{
    if m.observation is Some {
        lemma_observation_is_read(m.observation->0);
    }
}

/// The message for a vote on a domain bears the oracle's key, and no signature yet.
pub proof fn lemma_observe_is_written(o: transaction::ObserveView)
    ensures
        ({
            let m = convert::encode_observe(o);
            &&& m.signature is Some
            &&& m.signature->0.public_key == o.oracle
            &&& m.signature->0.signature.len() == 0
            &&& m.observation == Some(convert::encode_observation(o.observation))
        }),
{
}

/// An action is read as the vote that it is: one for a configuration as one for a configuration, one
/// on a domain as one on a domain.
pub proof fn lemma_action_is_read(m: proto::ActionView)
    ensures
        m is Missing ==> convert::decode_action(m) is Err,
        m matches proto::ActionView::Reconfigure(r) ==> {
            &&& convert::decode_action(m) is Ok <==> convert::decode_reconfigure(r) is Ok
            &&& convert::decode_action(m) matches Ok(a) ==> a == ActionView::Reconfigure(
                convert::decode_reconfigure(r)->Ok_0,
            )
            &&& convert::decode_action(m) matches Err(e) ==> convert::decode_reconfigure(r) == Err::<
                transaction::ReconfigureView,
                ParseErrorView,
            >(e)
        },
        m matches proto::ActionView::Observe(o) ==> {
            &&& convert::decode_action(m) is Ok <==> convert::decode_observe(o) is Ok
            &&& convert::decode_action(m) matches Ok(a) ==> a == ActionView::Observe(
                convert::decode_observe(o)->Ok_0,
            )
            &&& convert::decode_action(m) matches Err(e) ==> convert::decode_observe(o) == Err::<
                transaction::ObserveView,
                ParseErrorView,
            >(e)
        },
{
}

/// The message for an action is one of its own kind.
pub proof fn lemma_action_is_written(a: ActionView)
    ensures
        a matches ActionView::Reconfigure(r) ==> convert::encode_action(a)
            == proto::ActionView::Reconfigure(convert::encode_reconfigure(r)),
        a matches ActionView::Observe(o) ==> convert::encode_action(a)
            == proto::ActionView::Observe(convert::encode_observe(o)),
{
}

/// A transaction is read with all its actions, in their order, and for the chain that it names; it is
/// read exactly where each of its actions is.
pub proof fn lemma_transaction_is_read(m: proto::TransactionView)
    ensures
        convert::decode_transaction(m) is Ok <==> (forall|i: int|
            0 <= i < m.actions.len() ==> convert::decode_action(#[trigger] m.actions[i]) is Ok),
        convert::decode_transaction(m) matches Ok(t) ==> {
            &&& t.chain_id == m.chain_id
            &&& t.actions.len() == m.actions.len()
            &&& forall|i: int|
                0 <= i < m.actions.len() ==> convert::decode_action(m.actions[i]) == Ok::<
                    ActionView,
                    ParseErrorView,
                >(#[trigger] t.actions[i])
        },
{
    let decode = |a: proto::ActionView| convert::decode_action(a);
    if forall|i: int|
        0 <= i < m.actions.len() ==> convert::decode_action(#[trigger] m.actions[i]) is Ok {
        assert forall|i: int| 0 <= i < m.actions.len() implies decode(
            #[trigger] m.actions[i],
        ) is Ok by {}
        sequence::lemma_decode_all_ok(m.actions, decode);
    }
    if convert::decode_transaction(m) is Ok {
        sequence::lemma_decode_all_items(m.actions, decode);
        let t = convert::decode_transaction(m)->Ok_0;
        assert forall|i: int| 0 <= i < m.actions.len() implies convert::decode_action(
            #[trigger] m.actions[i],
        ) == Ok::<ActionView, ParseErrorView>(t.actions[i]) by {
            assert(decode(m.actions[i]) == Ok::<ActionView, ParseErrorView>(t.actions[i]));
        }
    }
}

/// The message for a transaction has a message for each action, in their order, and names the chain.
pub proof fn lemma_transaction_is_written(t: TransactionView)
    ensures
        ({
            let m = convert::encode_transaction(t);
            &&& m.chain_id == t.chain_id
            &&& m.actions.len() == t.actions.len()
            &&& forall|i: int|
                0 <= i < t.actions.len() ==> #[trigger] m.actions[i] == convert::encode_action(
                    t.actions[i],
                )
        }),
{
}

/// A vote value is read exactly where its message has a hash of 32 bytes or none and names a zone, and
/// says what the message says; the message for one says what it says.
pub proof fn lemma_vote_value_is_read(m: proto::OracleVoteValueView, v: OracleVoteValueView)
    ensures
        convert::decode_vote_value(m) is Ok <==> {
            &&& m.hash_observed is Some
            &&& m.hash_observed->0.len() == 32 || m.hash_observed->0.len() == 0
            &&& domain::parsed_name(m.zone) is Ok
        },
        convert::decode_vote_value(m) matches Ok(read) ==> same_found(
            m.hash_observed->0,
            read.hash_observed,
        ) && Ok::<Seq<Seq<char>>, domain::FqdnError>(read.zone) == domain::parsed_name(m.zone),
        convert::encode_vote_value(v).zone == domain::name_text(v.zone),
        convert::encode_vote_value(v).hash_observed is Some,
        v.hash_observed matches HashObservedView::Hash(hash) ==> convert::encode_vote_value(
            v,
        ).hash_observed->0 == hash,
        v.hash_observed is NotFound ==> convert::encode_vote_value(v).hash_observed->0.len() == 0,
{
}

/// The configuration of a value in memory, part by part, as contracts speak of it.
pub proof fn lemma_config_parts(c: transaction::Config)
    ensures
        c@.version == c.version,
        c@.admins.voting == c.admins.voting,
        c@.admins.authorized.len() == c.admins.authorized@.len(),
        forall|i: int|
            0 <= i < c.admins.authorized@.len() ==> #[trigger] c@.admins.authorized[i]
                == c.admins.authorized@[i].identity@,
        c@.oracles.enabled == c.oracles.enabled,
        c@.oracles.voting == c.oracles.voting,
        c@.oracles.max_enrolled_subdomains == c.oracles.max_enrolled_subdomains,
        c@.oracles.observation_timeout == c.oracles.observation_timeout,
        c@.oracles.authorized.len() == c.oracles.authorized@.len(),
        forall|i: int|
            0 <= i < c.oracles.authorized@.len() ==> (#[trigger] c@.oracles.authorized[i]).identity
                == c.oracles.authorized@[i].identity@ && c@.oracles.authorized[i].endpoint
                == c.oracles.authorized@[i].endpoint@,
        c@.onion.enabled == c.onion.enabled,
        c@.validators.len() == c.validators@.len(),
        forall|i: int|
            0 <= i < c.validators@.len() ==> (#[trigger] c@.validators[i]).public_key
                == c.validators@[i].public_key@ && c@.validators[i].power == c.validators@[i].power,
{
}

/// The configuration message of a value in memory, part by part, as contracts speak of it.
pub proof fn lemma_config_message_parts(m: proto::Config)
    ensures
        m@.version == m.version,
        m@.admin_config is Some <==> m.admin_config is Some,
        m.admin_config is Some ==> m@.admin_config->0.voting_config
            == m.admin_config->0.voting_config && m@.admin_config->0.admins.len()
            == m.admin_config->0.admins@.len(),
        m.admin_config is Some ==> (forall|i: int|
            0 <= i < m.admin_config->0.admins@.len() ==> #[trigger] m@.admin_config->0.admins[i]
                == m.admin_config->0.admins@[i].public_key@),
        m@.oracle_config is Some <==> m.oracle_config is Some,
        m.oracle_config is Some ==> {
            let part = m.oracle_config->0;
            let seen = m@.oracle_config->0;
            &&& seen.enabled == part.enabled
            &&& seen.voting_config == part.voting_config
            &&& seen.max_enrolled_subdomains == part.max_enrolled_subdomains
            &&& seen.observation_timeout == part.observation_timeout
            &&& seen.oracles.len() == part.oracles@.len()
            &&& forall|i: int|
                0 <= i < part.oracles@.len() ==> {
                    &&& (#[trigger] seen.oracles[i]).endpoint == part.oracles@[i].endpoint@
                    &&& seen.oracles[i].public_key is Some <==> part.oracles@[i].public_key is Some
                    &&& part.oracles@[i].public_key is Some ==> seen.oracles[i].public_key->0
                        == part.oracles@[i].public_key->0.public_key@
                }
        },
        m@.onion_config == m.onion_config,
        m@.validators.len() == m.validators@.len(),
        forall|i: int|
            0 <= i < m.validators@.len() ==> (#[trigger] m@.validators[i]).public_key
                == m.validators@[i].public_key@ && m@.validators[i].power == m.validators@[i].power,
{
}

/// The votes and observations of values in memory, part by part, as contracts speak of them.
pub proof fn lemma_vote_parts(
    r: transaction::Reconfigure,
    o: transaction::Observe,
    v: transaction::OracleVoteValue,
    t: transaction::Transaction,
)
    ensures
        r@.config == r.config@,
        r@.not_before == r.not_before,
        r@.not_after == r.not_after,
        r@.admin == r.admin.identity@,
        o@.oracle == o.oracle.identity@,
        o@.observation.domain == o.observation.domain.name@,
        o@.observation.zone == o.observation.zone.name@,
        o@.observation.blockstamp.block_height == o.observation.blockstamp.block_height,
        o@.observation.blockstamp.app_hash == o.observation.blockstamp.app_hash@,
        o.observation.hash_observed matches transaction::HashObserved::Hash(hash)
            ==> o@.observation.hash_observed == HashObservedView::Hash(hash@),
        o.observation.hash_observed is NotFound ==> o@.observation.hash_observed is NotFound,
        v@.zone == v.zone.name@,
        v.hash_observed matches transaction::HashObserved::Hash(hash) ==> v@.hash_observed
            == HashObservedView::Hash(hash@),
        v.hash_observed is NotFound ==> v@.hash_observed is NotFound,
        t@.chain_id == t.chain_id.0@,
        t@.actions.len() == t.actions@.len(),
        forall|i: int| 0 <= i < t.actions@.len() ==> #[trigger] t@.actions[i] == t.actions@[i]@,
{
}

/// The messages of votes and observations in memory, part by part, as contracts speak of them.
pub proof fn lemma_vote_message_parts(
    r: proto::Reconfigure,
    o: proto::Observe,
    v: proto::OracleVoteValue,
    t: proto::Transaction,
)
    ensures
        r@.not_before == r.not_before,
        r@.not_after == r.not_after,
        r@.signature is Some <==> r.signature is Some,
        r.signature matches Some(s) ==> r@.signature->0.public_key == s.public_key@
            && r@.signature->0.signature == s.signature@,
        r@.config is Some <==> r.config is Some,
        r.config matches Some(c) ==> r@.config->0 == c@,
        o@.signature is Some <==> o.signature is Some,
        o.signature matches Some(s) ==> o@.signature->0.public_key == s.public_key@
            && o@.signature->0.signature == s.signature@,
        o@.observation is Some <==> o.observation is Some,
        o.observation matches Some(seen) ==> {
            let view = o@.observation->0;
            &&& view.domain == seen.domain@
            &&& view.zone == seen.zone@
            &&& view.hash_observed is Some <==> seen.hash_observed is Some
            &&& seen.hash_observed matches Some(h) ==> view.hash_observed->0 == h.hash@
            &&& view.blockstamp is Some <==> seen.blockstamp is Some
            &&& seen.blockstamp matches Some(b) ==> view.blockstamp->0.block_hash == b.block_hash@
                && view.blockstamp->0.block_number == b.block_number
        },
        v@.zone == v.zone@,
        v@.hash_observed is Some <==> v.hash_observed is Some,
        v.hash_observed matches Some(h) ==> v@.hash_observed->0 == h.hash@,
        t@.chain_id == t.chain_id@,
        t@.actions.len() == t.actions@.len(),
        forall|i: int|
            0 <= i < t.actions@.len() ==> {
                &&& (#[trigger] t@.actions[i]) is Missing <==> t.actions@[i].action is None
                &&& t.actions@[i].action matches Some(proto::ActionBody::Reconfigure(r))
                    ==> t@.actions[i] == proto::ActionView::Reconfigure(r@)
                &&& t.actions@[i].action matches Some(proto::ActionBody::Observe(o))
                    ==> t@.actions[i] == proto::ActionView::Observe(o@)
            },
{
}

/// What came of a conversion is the value, or the error, that it gave.
pub proof fn lemma_outcome<T: View>(r: Result<T, ParseError>)
    ensures
        convert::outcome(r) is Ok <==> r is Ok,
        r is Ok ==> convert::outcome(r)->Ok_0 == r->Ok_0@,
        r is Err ==> convert::outcome(r)->Err_0.target == r->Err_0.target
            && convert::outcome(r)->Err_0.value == r->Err_0.value@,
{
}

/// A name is read as it is parsed, and what is no name is an error that holds it.
pub proof fn lemma_name_is_read(value: Seq<char>, target: Target)
    ensures
        convert::decode_name(value, target) is Ok <==> domain::parsed_name(value) is Ok,
        convert::decode_name(value, target) matches Ok(labels) ==> domain::parsed_name(value)
            == Ok::<Seq<Seq<char>>, domain::FqdnError>(labels),
        convert::decode_name(value, target) matches Err(e) ==> e.target == target && e.value
            == value,
{
}

/// Whether an error says that a part is missing.
pub open spec fn says_missing(e: ParseErrorView, target: Target) -> bool {
    e.target == target && e.value == "missing"@
}

/// Whether an error names a negative number, as it is written.
pub open spec fn says_negative(e: ParseErrorView, target: Target, x: i64) -> bool {
    &&& e.target == target
    &&& e.value.len() > 1
    &&& e.value[0] == '-'
    &&& text_laws::number_in(e.value.drop_first()) == -x
}

/// Whether an error names the first negative number of a way of voting: its total, its quorum, its
/// timeout, and last its delay.
pub open spec fn says_negative_vote(e: ParseErrorView, m: proto::VotingConfig) -> bool {
    if m.total < 0 {
        says_negative(e, Target::Total, m.total)
    } else if m.quorum < 0 {
        says_negative(e, Target::Quorum, m.quorum)
    } else if m.timeout < 0 {
        says_negative(e, Target::Timeout, m.timeout)
    } else {
        m.delay < 0 && says_negative(e, Target::Delay, m.delay)
    }
}

/// A way of voting with a negative number is refused for the first of them.
pub proof fn lemma_voting_refused(m: proto::VotingConfig)
    ensures
        convert::decode_voting_config(m) is Ok <==> votes_are_natural(m),
        convert::decode_voting_config(m) matches Ok(c) ==> same_voting(m, c),
        convert::decode_voting_config(m) matches Err(e) ==> says_negative_vote(e, m),
{
    text_laws::lemma_signed_decimal(m.total as int);
    text_laws::lemma_signed_decimal(m.quorum as int);
    text_laws::lemma_signed_decimal(m.timeout as int);
    text_laws::lemma_signed_decimal(m.delay as int);
}

proof fn lemma_oracles_refused(oracles: Seq<proto::OracleView>)
    ensures
        sequence::decode_all(oracles, |o: proto::OracleView| convert::decode_oracle(o)) is Ok <==> (
        forall|i: int| 0 <= i < oracles.len() ==> (#[trigger] oracles[i]).public_key is Some),
        sequence::decode_all(
            oracles,
            |o: proto::OracleView| convert::decode_oracle(o),
        ) matches Err(e) ==> says_missing(e, Target::OracleIdentity),
    decreases oracles.len(),
{
    if oracles.len() > 0 {
        let front = oracles.drop_last();
        let n = oracles.len() - 1;
        lemma_oracles_refused(front);
        if forall|i: int| 0 <= i < oracles.len() ==> (#[trigger] oracles[i]).public_key is Some {
            assert forall|i: int| 0 <= i < front.len() implies (
            #[trigger] front[i]).public_key is Some by {
                assert(oracles[i].public_key is Some);
            }
            assert(oracles[n].public_key is Some);
        } else {
            let i = choose|i: int|
                0 <= i < oracles.len() && (#[trigger] oracles[i]).public_key is None;
            if i < n {
                assert(front[i].public_key is None);
            }
        }
    }
}

proof fn lemma_validators_refused(validators: Seq<proto::ValidatorView>)
    ensures
        sequence::decode_all(
            validators,
            |v: proto::ValidatorView| convert::decode_validator(v),
        ) matches Err(e) ==> e == (ParseErrorView { target: Target::U64, value: "invalid power"@ }),
    decreases validators.len(),
{
    if validators.len() > 0 {
        lemma_validators_refused(validators.drop_last());
    }
}

/// Why the message of a configuration is refused, in this order: its version; its admins, and their
/// way of voting; its oracles, with their limit of subdomains, their keys, their way of voting, and
/// the span that an observation may lie back; the onion services; and last its validators.
pub proof fn lemma_config_refused(m: proto::ConfigView)
    ensures
        convert::decode_config(m) matches Err(e) ==> {
            let admins = m.admin_config->0;
            let oracles = m.oracle_config->0;
            if m.version < 0 || m.version > 0xffff_ffff {
                says_missing(e, Target::U32)
            } else if m.admin_config is None {
                says_missing(e, Target::AdminConfig)
            } else if admins.voting_config is None {
                says_missing(e, Target::VotingConfig)
            } else if !votes_are_natural(admins.voting_config->0) {
                says_negative_vote(e, admins.voting_config->0)
            } else if m.oracle_config is None {
                says_missing(e, Target::OracleConfig)
            } else if oracles.max_enrolled_subdomains < 0 {
                says_missing(e, Target::U64)
            } else if exists|i: int|
                0 <= i < oracles.oracles.len() && (
                #[trigger] oracles.oracles[i]).public_key is None {
                says_missing(e, Target::OracleIdentity)
            } else if oracles.voting_config is None {
                says_missing(e, Target::VotingConfig)
            } else if !votes_are_natural(oracles.voting_config->0) {
                says_negative_vote(e, oracles.voting_config->0)
            } else if oracles.observation_timeout < 0 {
                says_missing(e, Target::Duration)
            } else if m.onion_config is None {
                says_missing(e, Target::OnionConfig)
            } else {
                e == (ParseErrorView { target: Target::U64, value: "invalid power"@ })
            }
        },
{
    if m.admin_config is Some && m.admin_config->0.voting_config is Some {
        lemma_voting_refused(m.admin_config->0.voting_config->0);
    }
    if m.oracle_config is Some {
        lemma_oracles_refused(m.oracle_config->0.oracles);
        if m.oracle_config->0.voting_config is Some {
            lemma_voting_refused(m.oracle_config->0.voting_config->0);
        }
    }
    lemma_validators_refused(m.validators);
}

/// Why votes are refused: for what they lack, their signature first, or for what is wrong with the
/// first of the parts that they hold.
pub proof fn lemma_vote_refused(r: proto::ReconfigureView, o: proto::ObserveView)
    ensures
        convert::decode_reconfigure(r) matches Err(e) ==> {
            if r.signature is None {
                says_missing(e, Target::Admin)
            } else if r.config is None {
                says_missing(e, Target::Config)
            } else if !is_complete(r.config->0) {
                convert::decode_config(r.config->0) == Err::<ConfigView, ParseErrorView>(e)
            } else {
                says_missing(e, Target::Time)
            }
        },
        convert::decode_observe(o) matches Err(e) ==> {
            let seen = o.observation->0;
            if o.signature is None {
                says_missing(e, Target::OracleIdentity)
            } else if o.observation is None {
                says_missing(e, Target::Observation)
            } else if domain::parsed_name(seen.domain) is Err {
                e == (ParseErrorView { target: Target::Domain, value: seen.domain })
            } else if domain::parsed_name(seen.zone) is Err {
                e == (ParseErrorView { target: Target::Zone, value: seen.zone })
            } else if seen.hash_observed is None {
                says_missing(e, Target::HashObserved)
            } else if seen.hash_observed->0.len() != 0 && seen.hash_observed->0.len() != 32 {
                e == (ParseErrorView {
                    target: Target::HashObserved,
                    value: hexadecimal::hex_text(seen.hash_observed->0),
                })
            } else {
                says_missing(e, Target::Blockstamp)
            }
        },
        convert::decode_action(proto::ActionView::Missing) matches Err(e) && says_missing(
            e,
            Target::Action,
        ),
{
    if r.config is Some {
        lemma_config_is_read(r.config->0);
    }
}

/// A transaction is refused for the first of its actions that is.
pub proof fn lemma_transaction_refused(m: proto::TransactionView, n: int)
    requires
        0 <= n < m.actions.len(),
        convert::decode_action(m.actions[n]) is Err,
        forall|i: int| 0 <= i < n ==> convert::decode_action(#[trigger] m.actions[i]) is Ok,
    ensures
        convert::decode_transaction(m) == Err::<TransactionView, ParseErrorView>(
            convert::decode_action(m.actions[n])->Err_0,
        ),
{
    let decode = |a: proto::ActionView| convert::decode_action(a);
    let first = m.actions.take(n);
    assert forall|i: int| 0 <= i < first.len() implies decode(#[trigger] first[i]) is Ok by {
        assert(m.actions[i] == first[i]);
    }
    sequence::lemma_decode_all_ok(first, decode);
    assert(m.actions.take(n + 1).drop_last() =~= first);
    assert(m.actions.take(n + 1).last() == m.actions[n]);
    sequence::lemma_decode_all_prefix(m.actions, decode, n + 1);
}

/// Why a vote value is refused: it has no hash, or one of the wrong length, or names no zone.
pub proof fn lemma_vote_value_refused(m: proto::OracleVoteValueView)
    ensures
        convert::decode_vote_value(m) matches Err(e) ==> {
            if m.hash_observed is None {
                e == (ParseErrorView {
                    target: Target::OracleVoteValue,
                    value: "missing hash_observed"@,
                })
            } else if m.hash_observed->0.len() != 0 && m.hash_observed->0.len() != 32 {
                e == (ParseErrorView {
                    target: Target::HashObserved,
                    value: hexadecimal::hex_text(m.hash_observed->0),
                })
            } else {
                &&& domain::parsed_name(m.zone) is Err
                &&& e.target == Target::OracleVoteValue
                &&& e.value == "invalid zone: "@ + domain::parsed_name(m.zone)->Err_0.words()
            }
        },
{
}

/// A point in time is read from a timestamp exactly where it is one, and stays the same.
pub proof fn lemma_time_is_read(m: proto::Timestamp, t: Time)
    ensures
        convert::decode_time(Some(m)) is Ok <==> is_point(m),
        convert::decode_time(Some(m)) matches Ok(read) ==> read.seconds == m.seconds && read.nanos
            == m.nanos,
        convert::decode_time(None) is Err,
        t.nanos <= 999_999_999 ==> convert::encode_time(t).seconds == t.seconds
            && convert::encode_time(t).nanos == t.nanos,
{
}

} // verus!
