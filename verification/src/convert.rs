//! Conversions between the domain types and the messages that they travel as.
//!
//! Domain types hold no signatures. Signatures are checked over the message, and only the public
//! keys go into the domain types; for signing, the domain type is turned into a message, and the
//! signature is put into the message.

use vstd::prelude::*;

use crate::clock::Duration;
use crate::clock::Time;
use crate::crypto::KeyPair;
use crate::domain;
use crate::domain::Domain;
use crate::domain::Fqdn;
use crate::domain::FqdnError;
use crate::domain::PrefixOrderDomain;
use crate::domain::Zone;
use crate::error;
use crate::error::ParseError;
use crate::error::ParseErrorView;
use crate::error::Target;
use crate::hexadecimal;
use crate::octets;
use crate::proto;
use crate::sequence;
use crate::text;
use crate::transaction::Action;
use crate::transaction::ActionView;
use crate::transaction::Admin;
use crate::transaction::AdminConfig;
use crate::transaction::AdminConfigView;
use crate::transaction::Blockstamp;
use crate::transaction::BlockstampView;
use crate::transaction::ChainId;
use crate::transaction::Config;
use crate::transaction::ConfigView;
use crate::transaction::Delay;
use crate::transaction::Empty;
use crate::transaction::HashObserved;
use crate::transaction::HashObservedView;
use crate::transaction::Observation;
use crate::transaction::ObservationView;
use crate::transaction::Observe;
use crate::transaction::ObserveView;
use crate::transaction::OnionConfig;
use crate::transaction::Oracle;
use crate::transaction::OracleConfig;
use crate::transaction::OracleConfigView;
use crate::transaction::OracleIdentity;
use crate::transaction::OracleView;
use crate::transaction::OracleVoteValue;
use crate::transaction::OracleVoteValueView;
use crate::transaction::Quorum;
use crate::transaction::Reconfigure;
use crate::transaction::ReconfigureView;
use crate::transaction::Timeout;
use crate::transaction::Total;
use crate::transaction::Transaction;
use crate::transaction::TransactionView;
use crate::transaction::Unsigned;
use crate::transaction::Validator;
use crate::transaction::ValidatorView;
use crate::transaction::VotingConfig;

verus! {

/// What came of a conversion: the value as the contracts speak of it, or the error.
pub open spec fn outcome<T: View>(r: Result<T, ParseError>) -> Result<T::V, ParseErrorView> {
    match r {
        Ok(done) => Ok(done@),
        Err(e) => Err(e@),
    }
}

/// `x`, or the greatest `i64` where it is greater.
pub open spec fn saturated(x: u64) -> i64 {
    if x <= i64::MAX {
        x as i64
    } else {
        i64::MAX
    }
}

fn saturate(x: u64) -> (r: i64)
    ensures
        r == saturated(x),
{
    if x <= i64::MAX as u64 {
        x as i64
    } else {
        i64::MAX
    }
}

/// `x` without its sign, or the error for it where it is negative.
pub open spec fn natural(x: i64, e: ParseErrorView) -> Result<u64, ParseErrorView> {
    if x < 0 {
        Err(e)
    } else {
        Ok(x as u64)
    }
}

/// The error for a number that was to become a `target`.
pub open spec fn number_error(target: Target, x: i64) -> ParseErrorView {
    ParseErrorView { target, value: text::signed_decimal(x as int) }
}


/// The transaction in a message.
pub open spec fn decode_transaction(m: proto::TransactionView) -> Result<
    TransactionView,
    ParseErrorView,
> {
    match sequence::decode_all(m.actions, |a: proto::ActionView| decode_action(a)) {
        Err(e) => Err(e),
        Ok(actions) => Ok(TransactionView { chain_id: m.chain_id, actions }),
    }
}

/// The message for a transaction.
pub open spec fn encode_transaction(t: TransactionView) -> proto::TransactionView {
    proto::TransactionView {
        chain_id: t.chain_id,
        actions: t.actions.map_values(|a: ActionView| encode_action(a)),
    }
}


fn decode_actions(items: Vec<proto::Action>) -> (r: Result<Vec<Action>, ParseError>)
    ensures
        match r {
            Ok(done) => sequence::decode_all(
                items@.map_values(|m: proto::Action| m@),
                |m: proto::ActionView| decode_action(m),
            ) == Ok::<_, ParseErrorView>(done@.map_values(|d: Action| d@)),
            Err(e) => sequence::decode_all(
                items@.map_values(|m: proto::Action| m@),
                |m: proto::ActionView| decode_action(m),
            ) == Err::<Seq<ActionView>, ParseErrorView>(e@),
        },
{
    let ghost all = items@;
    let ghost views = all.map_values(|m: proto::Action| m@);
    let ghost decode = |m: proto::ActionView| decode_action(m);
    let mut done: Vec<Action> = Vec::new();
    assert(views.take(0) =~= Seq::empty());
    assert(done@.map_values(|d: Action| d@) =~= Seq::empty());
    for item in it: items.into_iter()
        invariant
            it.seq() == all,
            views == all.map_values(|m: proto::Action| m@),
            decode == (|m: proto::ActionView| decode_action(m)),
            sequence::decode_all(views.take(it.index() as int), decode) == Ok::<_, ParseErrorView>(
                done@.map_values(|d: Action| d@),
            ),
    {
        let ghost n = it.index() as int;
        assert(item == all[n]);
        assert(views.take(n + 1).drop_last() =~= views.take(n));
        assert(views.take(n + 1).last() == item@);
        match Action::try_from(item) {
            Ok(value) => {
                let ghost before = done@.map_values(|d: Action| d@);
                done.push(value);
                assert(done@.map_values(|d: Action| d@) =~= before.push(value@));
            },
            Err(e) => {
                proof {
                    sequence::lemma_decode_all_prefix(views, decode, n + 1);
                }
                return Err(e);
            },
        }
    }
    assert(views.take(all.len() as int) =~= views);
    Ok(done)
}


fn encode_actions(items: Vec<Action>) -> (r: Vec<proto::Action>)
    ensures
        r@.map_values(|m: proto::Action| m@) == items@.map_values(|d: Action| d@).map_values(
            |d: ActionView| encode_action(d),
        ),
{
    let ghost all = items@;
    let mut done: Vec<proto::Action> = Vec::new();
    for item in it: items.into_iter()
        invariant
            it.seq() == all,
            done@.len() == it.index(),
            forall|i: int| 0 <= i < done@.len() ==> (#[trigger] done@[i])@ == encode_action(all[i]@),
    {
        done.push(proto::Action::from(item));
    }
    assert(done@.map_values(|m: proto::Action| m@) =~= all.map_values(|d: Action| d@).map_values(
        |d: ActionView| encode_action(d),
    ));
    done
}

impl vstd::std_specs::convert::TryFromSpecImpl<proto::Transaction> for Transaction {
    open spec fn obeys_try_from_spec() -> bool {
        false
    }

    open spec fn try_from_spec(value: proto::Transaction) -> Result<Transaction, ParseError> {
        arbitrary()
    }
}

impl TryFrom<proto::Transaction> for Transaction {
    type Error = ParseError;

    fn try_from(value: proto::Transaction) -> (r: Result<Transaction, ParseError>)
        ensures
            outcome(r) == decode_transaction(value@),
    {
        match decode_actions(value.actions) {
            Err(e) => Err(e),
            Ok(actions) => Ok(Transaction { chain_id: ChainId(value.chain_id), actions }),
        }
    }
}

impl vstd::std_specs::convert::FromSpecImpl<Transaction> for proto::Transaction {
    open spec fn obeys_from_spec() -> bool {
        false
    }

    open spec fn from_spec(value: Transaction) -> proto::Transaction {
        arbitrary()
    }
}

impl From<Transaction> for proto::Transaction {
    fn from(value: Transaction) -> (r: proto::Transaction)
        ensures
            r@ == encode_transaction(value@),
    {
        proto::Transaction {
            chain_id: value.chain_id.0,
            actions: encode_actions(value.actions),
        }
    }
}

impl vstd::std_specs::convert::TryFromSpecImpl<String> for ChainId {
    open spec fn obeys_try_from_spec() -> bool {
        false
    }

    open spec fn try_from_spec(value: String) -> Result<ChainId, ParseError> {
        arbitrary()
    }
}

impl TryFrom<String> for ChainId {
    type Error = ParseError;

    fn try_from(value: String) -> (r: Result<ChainId, ParseError>)
        ensures
            r is Ok <==> value@.len() > 0,
            r matches Ok(chain_id) ==> chain_id@ == value@,
            r matches Err(e) ==> e@ == (ParseErrorView { target: Target::ChainId, value: value@ }),
    {
        if value.as_str().is_empty() {
            Err(ParseError::new(Target::ChainId, value.as_str()))
        } else {
            Ok(ChainId(value))
        }
    }
}

impl vstd::std_specs::convert::FromSpecImpl<ChainId> for String {
    open spec fn obeys_from_spec() -> bool {
        false
    }

    open spec fn from_spec(value: ChainId) -> String {
        arbitrary()
    }
}

impl From<ChainId> for String {
    fn from(value: ChainId) -> (r: String)
        ensures
            r@ == value@,
    {
        value.0
    }
}


/// The name that `value` spells, or the error for `value` as a `target`.
pub open spec fn decode_name(value: Seq<char>, target: Target) -> Result<
    Seq<Seq<char>>,
    ParseErrorView,
> {
    match domain::parsed_name(value) {
        Ok(labels) => Ok(labels),
        Err(_) => Err(ParseErrorView { target, value }),
    }
}

fn parse_name(value: &str, target: Target) -> (r: Result<Fqdn, ParseError>)
    ensures
        match r {
            Ok(name) => {
                &&& decode_name(value@, target) == Ok::<_, ParseErrorView>(name@)
                &&& name.valid()
            },
            Err(e) => decode_name(value@, target) == Err::<Seq<Seq<char>>, ParseErrorView>(e@),
        },
{
    match Fqdn::from_ascii_str(value) {
        Ok(name) => Ok(name),
        Err(_) => Err(ParseError::new(target, value)),
    }
}

impl vstd::std_specs::convert::TryFromSpecImpl<String> for Domain {
    open spec fn obeys_try_from_spec() -> bool {
        false
    }

    open spec fn try_from_spec(value: String) -> Result<Domain, ParseError> {
        arbitrary()
    }
}

impl TryFrom<String> for Domain {
    type Error = ParseError;

    fn try_from(value: String) -> (r: Result<Domain, ParseError>)
        ensures
            outcome(r) == decode_name(value@, Target::Domain),
    {
        match parse_name(value.as_str(), Target::Domain) {
            Ok(name) => Ok(Domain { name }),
            Err(e) => Err(e),
        }
    }
}

impl vstd::std_specs::convert::FromSpecImpl<Domain> for String {
    open spec fn obeys_from_spec() -> bool {
        false
    }

    open spec fn from_spec(value: Domain) -> String {
        arbitrary()
    }
}

impl From<Domain> for String {
    fn from(value: Domain) -> (r: String)
        ensures
            r@ == domain::name_text(value@),
    {
        value.to_string()
    }
}

impl vstd::std_specs::convert::TryFromSpecImpl<String> for Zone {
    open spec fn obeys_try_from_spec() -> bool {
        false
    }

    open spec fn try_from_spec(value: String) -> Result<Zone, ParseError> {
        arbitrary()
    }
}

impl TryFrom<String> for Zone {
    type Error = ParseError;

    fn try_from(value: String) -> (r: Result<Zone, ParseError>)
        ensures
            outcome(r) == decode_name(value@, Target::Zone),
    {
        match parse_name(value.as_str(), Target::Zone) {
            Ok(name) => Ok(Zone { name }),
            Err(e) => Err(e),
        }
    }
}

impl vstd::std_specs::convert::FromSpecImpl<Zone> for String {
    open spec fn obeys_from_spec() -> bool {
        false
    }

    open spec fn from_spec(value: Zone) -> String {
        arbitrary()
    }
}

impl From<Zone> for String {
    fn from(value: Zone) -> (r: String)
        ensures
            r@ == domain::name_text(value@),
    {
        value.to_string()
    }
}

impl vstd::std_specs::convert::FromSpecImpl<PrefixOrderDomain> for String {
    open spec fn obeys_from_spec() -> bool {
        false
    }

    open spec fn from_spec(value: PrefixOrderDomain) -> String {
        arbitrary()
    }
}

impl From<PrefixOrderDomain> for String {
    fn from(value: PrefixOrderDomain) -> (r: String)
        ensures
            r@ == domain::prefix_order_text(value@),
    {
        value.to_string()
    }
}

impl vstd::std_specs::convert::TryFromSpecImpl<String> for PrefixOrderDomain {
    open spec fn obeys_try_from_spec() -> bool {
        false
    }

    open spec fn try_from_spec(value: String) -> Result<PrefixOrderDomain, ParseError> {
        arbitrary()
    }
}

impl TryFrom<String> for PrefixOrderDomain {
    type Error = ParseError;

    fn try_from(value: String) -> (r: Result<PrefixOrderDomain, ParseError>)
        ensures
            match r {
                Ok(done) => domain::parsed_prefix_order(value@) == Ok::<_, FqdnError>(done@),
                Err(e) => {
                    &&& domain::parsed_prefix_order(value@) is Err
                    &&& e@ == (ParseErrorView { target: Target::PrefixOrderDomain, value: value@ })
                },
            },
    {
        match PrefixOrderDomain::from_str(value.as_str()) {
            Ok(domain) => Ok(domain),
            Err(_) => Err(ParseError::new(Target::PrefixOrderDomain, value.as_str())),
        }
    }
}

impl vstd::std_specs::convert::TryFromSpecImpl<proto::Signature> for Unsigned {
    open spec fn obeys_try_from_spec() -> bool {
        false
    }

    open spec fn try_from_spec(value: proto::Signature) -> Result<Unsigned, ParseError> {
        arbitrary()
    }
}

impl TryFrom<proto::Signature> for Unsigned {
    type Error = ParseError;

    fn try_from(value: proto::Signature) -> (r: Result<Unsigned, ParseError>)
        ensures
            r matches Ok(unsigned) && unsigned@ == value@.public_key,
    {
        Ok(Unsigned { public_key: value.public_key })
    }
}

impl vstd::std_specs::convert::FromSpecImpl<Unsigned> for proto::Signature {
    open spec fn obeys_from_spec() -> bool {
        false
    }

    open spec fn from_spec(value: Unsigned) -> proto::Signature {
        arbitrary()
    }
}

impl From<Unsigned> for proto::Signature {
    fn from(value: Unsigned) -> (r: proto::Signature)
        ensures
            r@ == proto::SignatureView::unsigned(value@),
    {
        proto::Signature::unsigned(value.public_key)
    }
}

impl vstd::std_specs::convert::FromSpecImpl<KeyPair> for Unsigned {
    open spec fn obeys_from_spec() -> bool {
        false
    }

    open spec fn from_spec(value: KeyPair) -> Unsigned {
        arbitrary()
    }
}

impl From<KeyPair> for Unsigned {
    fn from(value: KeyPair) -> (r: Unsigned)
        ensures
            r@ == value@,
    {
        Unsigned { public_key: value.public_key() }
    }
}


/// The action in a message.
pub open spec fn decode_action(m: proto::ActionView) -> Result<ActionView, ParseErrorView> {
    match m {
        proto::ActionView::Reconfigure(r) => match decode_reconfigure(r) {
            Err(e) => Err(e),
            Ok(r) => Ok(ActionView::Reconfigure(r)),
        },
        proto::ActionView::Observe(o) => match decode_observe(o) {
            Err(e) => Err(e),
            Ok(o) => Ok(ActionView::Observe(o)),
        },
        proto::ActionView::Missing => Err(error::missing(Target::Action)),
    }
}

/// The message for an action.
pub open spec fn encode_action(a: ActionView) -> proto::ActionView {
    match a {
        ActionView::Reconfigure(r) => proto::ActionView::Reconfigure(encode_reconfigure(r)),
        ActionView::Observe(o) => proto::ActionView::Observe(encode_observe(o)),
    }
}

impl vstd::std_specs::convert::TryFromSpecImpl<proto::Action> for Action {
    open spec fn obeys_try_from_spec() -> bool {
        false
    }

    open spec fn try_from_spec(value: proto::Action) -> Result<Action, ParseError> {
        arbitrary()
    }
}

impl TryFrom<proto::Action> for Action {
    type Error = ParseError;

    fn try_from(value: proto::Action) -> (r: Result<Action, ParseError>)
        ensures
            outcome(r) == decode_action(value@),
    {
        match value.action {
            Some(proto::ActionBody::Reconfigure(reconfigure)) => {
                match Reconfigure::try_from(reconfigure) {
                    Ok(reconfigure) => Ok(Action::Reconfigure(reconfigure)),
                    Err(e) => Err(e),
                }
            },
            Some(proto::ActionBody::Observe(observe)) => {
                match Observe::try_from(observe) {
                    Ok(observe) => Ok(Action::Observe(observe)),
                    Err(e) => Err(e),
                }
            },
            None => Err(ParseError::missing(Target::Action)),
        }
    }
}

impl vstd::std_specs::convert::FromSpecImpl<Action> for proto::Action {
    open spec fn obeys_from_spec() -> bool {
        false
    }

    open spec fn from_spec(value: Action) -> proto::Action {
        arbitrary()
    }
}

impl From<Action> for proto::Action {
    fn from(value: Action) -> (r: proto::Action)
        ensures
            r@ == encode_action(value@),
    {
        match value {
            Action::Reconfigure(reconfigure) => proto::Action {
                action: Some(
                    proto::ActionBody::Reconfigure(proto::Reconfigure::from(reconfigure)),
                ),
            },
            Action::Observe(observe) => proto::Action {
                action: Some(proto::ActionBody::Observe(proto::Observe::from(observe))),
            },
        }
    }
}


/// The time in a message that must have one.
pub open spec fn decode_time(m: Option<proto::Timestamp>) -> Result<Time, ParseErrorView> {
    match m {
        None => Err(error::missing(Target::Time)),
        Some(stamp) => match Time::of_timestamp(stamp.seconds, stamp.nanos) {
            None => Err(error::missing(Target::Time)),
            Some(time) => Ok(time),
        },
    }
}

/// The message for a time.
pub open spec fn encode_time(t: Time) -> proto::Timestamp {
    proto::Timestamp { seconds: t.seconds, nanos: t.nanos as i32 }
}

fn parse_time(stamp: Option<proto::Timestamp>) -> (r: Result<Time, ParseError>)
    ensures
        match r {
            Ok(time) => decode_time(stamp) == Ok::<_, ParseErrorView>(time),
            Err(e) => decode_time(stamp) == Err::<Time, ParseErrorView>(e@),
        },
{
    match stamp {
        None => Err(ParseError::missing(Target::Time)),
        Some(stamp) => match Time::from_timestamp(stamp.seconds, stamp.nanos) {
            None => Err(ParseError::missing(Target::Time)),
            Some(time) => Ok(time),
        },
    }
}

fn write_time(time: Time) -> (r: proto::Timestamp)
    ensures
        r == encode_time(time),
{
    proto::Timestamp { seconds: time.seconds, nanos: time.nanos as i32 }
}

/// The vote for a configuration in a message. The admin is whoever the signature belongs to.
pub open spec fn decode_reconfigure(m: proto::ReconfigureView) -> Result<
    ReconfigureView,
    ParseErrorView,
> {
    match m.signature {
        None => Err(error::missing(Target::Admin)),
        Some(signature) => match m.config {
            None => Err(error::missing(Target::Config)),
            Some(config) => match decode_config(config) {
                Err(e) => Err(e),
                Ok(config) => match decode_time(m.not_before) {
                    Err(e) => Err(e),
                    Ok(not_before) => match decode_time(m.not_after) {
                        Err(e) => Err(e),
                        Ok(not_after) => Ok(
                            ReconfigureView {
                                config,
                                not_before,
                                not_after,
                                admin: signature.public_key,
                            },
                        ),
                    },
                },
            },
        },
    }
}

/// The message for a vote for a configuration, before it is signed.
pub open spec fn encode_reconfigure(r: ReconfigureView) -> proto::ReconfigureView {
    proto::ReconfigureView {
        signature: Some(proto::SignatureView::unsigned(r.admin)),
        config: Some(encode_config(r.config)),
        not_before: Some(encode_time(r.not_before)),
        not_after: Some(encode_time(r.not_after)),
    }
}

impl vstd::std_specs::convert::TryFromSpecImpl<proto::Reconfigure> for Reconfigure {
    open spec fn obeys_try_from_spec() -> bool {
        false
    }

    open spec fn try_from_spec(value: proto::Reconfigure) -> Result<Reconfigure, ParseError> {
        arbitrary()
    }
}

impl TryFrom<proto::Reconfigure> for Reconfigure {
    type Error = ParseError;

    fn try_from(value: proto::Reconfigure) -> (r: Result<Reconfigure, ParseError>)
        ensures
            outcome(r) == decode_reconfigure(value@),
    {
        let signature = match value.signature {
            Some(signature) => signature,
            None => return Err(ParseError::missing(Target::Admin)),
        };
        let admin = match Unsigned::try_from(signature) {
            Ok(unsigned) => match Admin::try_from(unsigned) {
                Ok(admin) => admin,
                Err(e) => return Err(e),
            },
            Err(e) => return Err(e),
        };
        let config = match value.config {
            Some(config) => match Config::try_from(config) {
                Ok(config) => config,
                Err(e) => return Err(e),
            },
            None => return Err(ParseError::missing(Target::Config)),
        };
        let not_before = match parse_time(value.not_before) {
            Ok(time) => time,
            Err(e) => return Err(e),
        };
        let not_after = match parse_time(value.not_after) {
            Ok(time) => time,
            Err(e) => return Err(e),
        };
        Ok(Reconfigure { config, not_before, not_after, admin })
    }
}

impl vstd::std_specs::convert::FromSpecImpl<Reconfigure> for proto::Reconfigure {
    open spec fn obeys_from_spec() -> bool {
        false
    }

    open spec fn from_spec(value: Reconfigure) -> proto::Reconfigure {
        arbitrary()
    }
}

impl From<Reconfigure> for proto::Reconfigure {
    fn from(value: Reconfigure) -> (r: proto::Reconfigure)
        ensures
            r@ == encode_reconfigure(value@),
    {
        proto::Reconfigure {
            signature: Some(proto::Signature::from(value.admin)),
            config: Some(proto::Config::from(value.config)),
            not_before: Some(write_time(value.not_before)),
            not_after: Some(write_time(value.not_after)),
        }
    }
}


/// The vote on a domain in a message. The oracle is whoever the signature belongs to.
pub open spec fn decode_observe(m: proto::ObserveView) -> Result<ObserveView, ParseErrorView> {
    match m.signature {
        None => Err(error::missing(Target::OracleIdentity)),
        Some(signature) => match m.observation {
            None => Err(error::missing(Target::Observation)),
            Some(observation) => match decode_observation(observation) {
                Err(e) => Err(e),
                Ok(observation) => Ok(ObserveView { observation, oracle: signature.public_key }),
            },
        },
    }
}

/// The message for a vote on a domain, before it is signed.
pub open spec fn encode_observe(o: ObserveView) -> proto::ObserveView {
    proto::ObserveView {
        signature: Some(proto::SignatureView::unsigned(o.oracle)),
        observation: Some(encode_observation(o.observation)),
    }
}

impl vstd::std_specs::convert::TryFromSpecImpl<proto::Observe> for Observe {
    open spec fn obeys_try_from_spec() -> bool {
        false
    }

    open spec fn try_from_spec(value: proto::Observe) -> Result<Observe, ParseError> {
        arbitrary()
    }
}

impl TryFrom<proto::Observe> for Observe {
    type Error = ParseError;

    fn try_from(value: proto::Observe) -> (r: Result<Observe, ParseError>)
        ensures
            outcome(r) == decode_observe(value@),
    {
        let signature = match value.signature {
            Some(signature) => signature,
            None => return Err(ParseError::missing(Target::OracleIdentity)),
        };
        let oracle = match Unsigned::try_from(signature) {
            Ok(unsigned) => match OracleIdentity::try_from(unsigned) {
                Ok(oracle) => oracle,
                Err(e) => return Err(e),
            },
            Err(e) => return Err(e),
        };
        let observation = match value.observation {
            Some(observation) => match Observation::try_from(observation) {
                Ok(observation) => observation,
                Err(e) => return Err(e),
            },
            None => return Err(ParseError::missing(Target::Observation)),
        };
        Ok(Observe { observation, oracle })
    }
}

impl vstd::std_specs::convert::FromSpecImpl<Observe> for proto::Observe {
    open spec fn obeys_from_spec() -> bool {
        false
    }

    open spec fn from_spec(value: Observe) -> proto::Observe {
        arbitrary()
    }
}

impl From<Observe> for proto::Observe {
    fn from(value: Observe) -> (r: proto::Observe)
        ensures
            r@ == encode_observe(value@),
    {
        proto::Observe {
            signature: Some(proto::Signature::from(value.oracle)),
            observation: Some(proto::Observation::from(value.observation)),
        }
    }
}


/// The configuration in a message.
pub open spec fn decode_config(m: proto::ConfigView) -> Result<ConfigView, ParseErrorView> {
    if !(0 <= m.version <= u32::MAX) {
        Err(error::missing(Target::U32))
    } else {
        match m.admin_config {
            None => Err(error::missing(Target::AdminConfig)),
            Some(admins) => match decode_admin_config(admins) {
                Err(e) => Err(e),
                Ok(admins) => match m.oracle_config {
                    None => Err(error::missing(Target::OracleConfig)),
                    Some(oracles) => match decode_oracle_config(oracles) {
                        Err(e) => Err(e),
                        Ok(oracles) => match m.onion_config {
                            None => Err(error::missing(Target::OnionConfig)),
                            Some(onion) => match sequence::decode_all(
                                m.validators,
                                |v: proto::ValidatorView| decode_validator(v),
                            ) {
                                Err(e) => Err(e),
                                Ok(validators) => Ok(
                                    ConfigView {
                                        version: m.version as u32,
                                        admins,
                                        oracles,
                                        onion: OnionConfig { enabled: onion.enabled },
                                        validators,
                                    },
                                ),
                            },
                        },
                    },
                },
            },
        }
    }
}

/// The message for a configuration.
pub open spec fn encode_config(c: ConfigView) -> proto::ConfigView {
    proto::ConfigView {
        version: c.version as i64,
        admin_config: Some(encode_admin_config(c.admins)),
        oracle_config: Some(encode_oracle_config(c.oracles)),
        onion_config: Some(proto::OnionConfig { enabled: c.onion.enabled }),
        validators: c.validators.map_values(|v: ValidatorView| encode_validator(v)),
    }
}


fn decode_validators(items: Vec<proto::Validator>) -> (r: Result<Vec<Validator>, ParseError>)
    ensures
        match r {
            Ok(done) => sequence::decode_all(
                items@.map_values(|m: proto::Validator| m@),
                |m: proto::ValidatorView| decode_validator(m),
            ) == Ok::<_, ParseErrorView>(done@.map_values(|d: Validator| d@)),
            Err(e) => sequence::decode_all(
                items@.map_values(|m: proto::Validator| m@),
                |m: proto::ValidatorView| decode_validator(m),
            ) == Err::<Seq<ValidatorView>, ParseErrorView>(e@),
        },
{
    let ghost all = items@;
    let ghost views = all.map_values(|m: proto::Validator| m@);
    let ghost decode = |m: proto::ValidatorView| decode_validator(m);
    let mut done: Vec<Validator> = Vec::new();
    assert(views.take(0) =~= Seq::empty());
    assert(done@.map_values(|d: Validator| d@) =~= Seq::empty());
    for item in it: items.into_iter()
        invariant
            it.seq() == all,
            views == all.map_values(|m: proto::Validator| m@),
            decode == (|m: proto::ValidatorView| decode_validator(m)),
            sequence::decode_all(views.take(it.index() as int), decode) == Ok::<_, ParseErrorView>(
                done@.map_values(|d: Validator| d@),
            ),
    {
        let ghost n = it.index() as int;
        assert(item == all[n]);
        assert(views.take(n + 1).drop_last() =~= views.take(n));
        assert(views.take(n + 1).last() == item@);
        match Validator::try_from(item) {
            Ok(value) => {
                let ghost before = done@.map_values(|d: Validator| d@);
                done.push(value);
                assert(done@.map_values(|d: Validator| d@) =~= before.push(value@));
            },
            Err(e) => {
                proof {
                    sequence::lemma_decode_all_prefix(views, decode, n + 1);
                }
                return Err(e);
            },
        }
    }
    assert(views.take(all.len() as int) =~= views);
    Ok(done)
}


fn encode_validators(items: Vec<Validator>) -> (r: Vec<proto::Validator>)
    ensures
        r@.map_values(|m: proto::Validator| m@) == items@.map_values(|d: Validator| d@).map_values(
            |d: ValidatorView| encode_validator(d),
        ),
{
    let ghost all = items@;
    let mut done: Vec<proto::Validator> = Vec::new();
    for item in it: items.into_iter()
        invariant
            it.seq() == all,
            done@.len() == it.index(),
            forall|i: int| 0 <= i < done@.len() ==> (#[trigger] done@[i])@ == encode_validator(all[i]@),
    {
        done.push(proto::Validator::from(item));
    }
    assert(done@.map_values(|m: proto::Validator| m@) =~= all.map_values(|d: Validator| d@).map_values(
        |d: ValidatorView| encode_validator(d),
    ));
    done
}

impl vstd::std_specs::convert::TryFromSpecImpl<proto::Config> for Config {
    open spec fn obeys_try_from_spec() -> bool {
        false
    }

    open spec fn try_from_spec(value: proto::Config) -> Result<Config, ParseError> {
        arbitrary()
    }
}

impl TryFrom<proto::Config> for Config {
    type Error = ParseError;

    fn try_from(value: proto::Config) -> (r: Result<Config, ParseError>)
        ensures
            outcome(r) == decode_config(value@),
            r matches Ok(c) ==> {
                &&& c.version == value.version
                &&& value.oracle_config is Some
                &&& c.oracles.enabled == value.oracle_config->0.enabled
                &&& value.onion_config is Some
                &&& c.onion.enabled == value.onion_config->0.enabled
            },
    {
        if value.version < 0 || value.version > u32::MAX as i64 {
            return Err(ParseError::missing(Target::U32));
        }
        let version: u32 = value.version as u32;
        let admins = match value.admin_config {
            Some(admins) => match AdminConfig::try_from(admins) {
                Ok(admins) => admins,
                Err(e) => return Err(e),
            },
            None => return Err(ParseError::missing(Target::AdminConfig)),
        };
        let oracles = match value.oracle_config {
            Some(oracles) => match OracleConfig::try_from(oracles) {
                Ok(oracles) => oracles,
                Err(e) => return Err(e),
            },
            None => return Err(ParseError::missing(Target::OracleConfig)),
        };
        let onion = match value.onion_config {
            Some(onion) => match OnionConfig::try_from(onion) {
                Ok(onion) => onion,
                Err(e) => return Err(e),
            },
            None => return Err(ParseError::missing(Target::OnionConfig)),
        };
        match decode_validators(value.validators) {
            Err(e) => Err(e),
            Ok(validators) => Ok(Config { version, admins, oracles, onion, validators }),
        }
    }
}

impl vstd::std_specs::convert::FromSpecImpl<Config> for proto::Config {
    open spec fn obeys_from_spec() -> bool {
        false
    }

    open spec fn from_spec(value: Config) -> proto::Config {
        arbitrary()
    }
}

impl From<Config> for proto::Config {
    fn from(value: Config) -> (r: proto::Config)
        ensures
            r@ == encode_config(value@),
            r.version == value.version,
            r.oracle_config is Some,
            r.oracle_config->0.enabled == value.oracles.enabled,
            r.onion_config is Some,
            r.onion_config->0.enabled == value.onion.enabled,
    {
        proto::Config {
            version: value.version as i64,
            admin_config: Some(proto::AdminConfig::from(value.admins)),
            oracle_config: Some(proto::OracleConfig::from(value.oracles)),
            onion_config: Some(proto::OnionConfig::from(value.onion)),
            validators: encode_validators(value.validators),
        }
    }
}


/// The admin part of a configuration message.
pub open spec fn decode_admin_config(m: proto::AdminConfigView) -> Result<
    AdminConfigView,
    ParseErrorView,
> {
    match m.voting_config {
        None => Err(error::missing(Target::VotingConfig)),
        Some(voting) => match decode_voting_config(voting) {
            Err(e) => Err(e),
            Ok(voting) => Ok(AdminConfigView { voting, authorized: m.admins }),
        },
    }
}

/// The message for the admin part of a configuration.
pub open spec fn encode_admin_config(c: AdminConfigView) -> proto::AdminConfigView {
    proto::AdminConfigView {
        admins: c.authorized,
        voting_config: Some(encode_voting_config(c.voting)),
    }
}

fn decode_admins(items: Vec<proto::Admin>) -> (r: Result<Vec<Admin>, ParseError>)
    ensures
        r matches Ok(done) && done@.map_values(|a: Admin| a@) == items@.map_values(
            |a: proto::Admin| a@,
        ),
{
    let ghost all = items@;
    let mut done: Vec<Admin> = Vec::new();
    for item in it: items.into_iter()
        invariant
            it.seq() == all,
            done@.len() == it.index(),
            forall|i: int| 0 <= i < done@.len() ==> (#[trigger] done@[i])@ == all[i]@,
    {
        match Admin::try_from(item) {
            Ok(admin) => done.push(admin),
            Err(e) => return Err(e),
        }
    }
    assert(done@.map_values(|a: Admin| a@) =~= all.map_values(|a: proto::Admin| a@));
    Ok(done)
}

fn encode_admins(items: Vec<Admin>) -> (r: Vec<proto::Admin>)
    ensures
        r@.map_values(|a: proto::Admin| a@) == items@.map_values(|a: Admin| a@),
{
    let ghost all = items@;
    let mut done: Vec<proto::Admin> = Vec::new();
    for item in it: items.into_iter()
        invariant
            it.seq() == all,
            done@.len() == it.index(),
            forall|i: int| 0 <= i < done@.len() ==> (#[trigger] done@[i])@ == all[i]@,
    {
        done.push(proto::Admin::from(item));
    }
    assert(done@.map_values(|a: proto::Admin| a@) =~= all.map_values(|a: Admin| a@));
    done
}

impl vstd::std_specs::convert::TryFromSpecImpl<proto::AdminConfig> for AdminConfig {
    open spec fn obeys_try_from_spec() -> bool {
        false
    }

    open spec fn try_from_spec(value: proto::AdminConfig) -> Result<AdminConfig, ParseError> {
        arbitrary()
    }
}

impl TryFrom<proto::AdminConfig> for AdminConfig {
    type Error = ParseError;

    fn try_from(value: proto::AdminConfig) -> (r: Result<AdminConfig, ParseError>)
        ensures
            outcome(r) == decode_admin_config(value@),
    {
        let authorized = match decode_admins(value.admins) {
            Ok(admins) => admins,
            Err(e) => return Err(e),
        };
        match value.voting_config {
            Some(voting) => match VotingConfig::try_from(voting) {
                Ok(voting) => Ok(AdminConfig { voting, authorized }),
                Err(e) => Err(e),
            },
            None => Err(ParseError::missing(Target::VotingConfig)),
        }
    }
}

impl vstd::std_specs::convert::FromSpecImpl<AdminConfig> for proto::AdminConfig {
    open spec fn obeys_from_spec() -> bool {
        false
    }

    open spec fn from_spec(value: AdminConfig) -> proto::AdminConfig {
        arbitrary()
    }
}

impl From<AdminConfig> for proto::AdminConfig {
    fn from(value: AdminConfig) -> (r: proto::AdminConfig)
        ensures
            r@ == encode_admin_config(value@),
    {
        proto::AdminConfig {
            admins: encode_admins(value.authorized),
            voting_config: Some(proto::VotingConfig::from(value.voting)),
        }
    }
}


/// The oracle part of a configuration message.
pub open spec fn decode_oracle_config(m: proto::OracleConfigView) -> Result<
    OracleConfigView,
    ParseErrorView,
> {
    match natural(m.max_enrolled_subdomains, error::missing(Target::U64)) {
        Err(e) => Err(e),
        Ok(max_enrolled_subdomains) => match sequence::decode_all(
            m.oracles,
            |o: proto::OracleView| decode_oracle(o),
        ) {
            Err(e) => Err(e),
            Ok(authorized) => match m.voting_config {
                None => Err(error::missing(Target::VotingConfig)),
                Some(voting) => match decode_voting_config(voting) {
                    Err(e) => Err(e),
                    Ok(voting) => match natural(
                        m.observation_timeout,
                        error::missing(Target::Duration),
                    ) {
                        Err(e) => Err(e),
                        Ok(secs) => Ok(
                            OracleConfigView {
                                enabled: m.enabled,
                                voting,
                                max_enrolled_subdomains,
                                observation_timeout: Duration::whole(secs),
                                authorized,
                            },
                        ),
                    },
                },
            },
        },
    }
}

/// The message for the oracle part of a configuration. Numbers that are too great become the
/// greatest, and parts of a second are dropped.
pub open spec fn encode_oracle_config(c: OracleConfigView) -> proto::OracleConfigView {
    proto::OracleConfigView {
        enabled: c.enabled,
        oracles: c.authorized.map_values(|o: OracleView| encode_oracle(o)),
        voting_config: Some(encode_voting_config(c.voting)),
        max_enrolled_subdomains: saturated(c.max_enrolled_subdomains),
        observation_timeout: saturated(c.observation_timeout.secs),
    }
}


fn decode_oracles(items: Vec<proto::Oracle>) -> (r: Result<Vec<Oracle>, ParseError>)
    ensures
        match r {
            Ok(done) => sequence::decode_all(
                items@.map_values(|m: proto::Oracle| m@),
                |m: proto::OracleView| decode_oracle(m),
            ) == Ok::<_, ParseErrorView>(done@.map_values(|d: Oracle| d@)),
            Err(e) => sequence::decode_all(
                items@.map_values(|m: proto::Oracle| m@),
                |m: proto::OracleView| decode_oracle(m),
            ) == Err::<Seq<OracleView>, ParseErrorView>(e@),
        },
{
    let ghost all = items@;
    let ghost views = all.map_values(|m: proto::Oracle| m@);
    let ghost decode = |m: proto::OracleView| decode_oracle(m);
    let mut done: Vec<Oracle> = Vec::new();
    assert(views.take(0) =~= Seq::empty());
    assert(done@.map_values(|d: Oracle| d@) =~= Seq::empty());
    for item in it: items.into_iter()
        invariant
            it.seq() == all,
            views == all.map_values(|m: proto::Oracle| m@),
            decode == (|m: proto::OracleView| decode_oracle(m)),
            sequence::decode_all(views.take(it.index() as int), decode) == Ok::<_, ParseErrorView>(
                done@.map_values(|d: Oracle| d@),
            ),
    {
        let ghost n = it.index() as int;
        assert(item == all[n]);
        assert(views.take(n + 1).drop_last() =~= views.take(n));
        assert(views.take(n + 1).last() == item@);
        match Oracle::try_from(item) {
            Ok(value) => {
                let ghost before = done@.map_values(|d: Oracle| d@);
                done.push(value);
                assert(done@.map_values(|d: Oracle| d@) =~= before.push(value@));
            },
            Err(e) => {
                proof {
                    sequence::lemma_decode_all_prefix(views, decode, n + 1);
                }
                return Err(e);
            },
        }
    }
    assert(views.take(all.len() as int) =~= views);
    Ok(done)
}


fn encode_oracles(items: Vec<Oracle>) -> (r: Vec<proto::Oracle>)
    ensures
        r@.map_values(|m: proto::Oracle| m@) == items@.map_values(|d: Oracle| d@).map_values(
            |d: OracleView| encode_oracle(d),
        ),
{
    let ghost all = items@;
    let mut done: Vec<proto::Oracle> = Vec::new();
    for item in it: items.into_iter()
        invariant
            it.seq() == all,
            done@.len() == it.index(),
            forall|i: int| 0 <= i < done@.len() ==> (#[trigger] done@[i])@ == encode_oracle(all[i]@),
    {
        done.push(proto::Oracle::from(item));
    }
    assert(done@.map_values(|m: proto::Oracle| m@) =~= all.map_values(|d: Oracle| d@).map_values(
        |d: OracleView| encode_oracle(d),
    ));
    done
}

impl vstd::std_specs::convert::TryFromSpecImpl<proto::OracleConfig> for OracleConfig {
    open spec fn obeys_try_from_spec() -> bool {
        false
    }

    open spec fn try_from_spec(value: proto::OracleConfig) -> Result<OracleConfig, ParseError> {
        arbitrary()
    }
}

impl TryFrom<proto::OracleConfig> for OracleConfig {
    type Error = ParseError;

    fn try_from(value: proto::OracleConfig) -> (r: Result<OracleConfig, ParseError>)
        ensures
            outcome(r) == decode_oracle_config(value@),
            r matches Ok(c) ==> {
                &&& c.enabled == value.enabled
                &&& c.max_enrolled_subdomains == value.max_enrolled_subdomains
                &&& c.observation_timeout.secs == value.observation_timeout
                &&& c.observation_timeout.nanos == 0
            },
    {
        if value.max_enrolled_subdomains < 0 {
            return Err(ParseError::missing(Target::U64));
        }
        let max_enrolled_subdomains: u64 = value.max_enrolled_subdomains as u64;
        let authorized = match decode_oracles(value.oracles) {
            Ok(oracles) => oracles,
            Err(e) => return Err(e),
        };
        let voting = match value.voting_config {
            Some(voting) => match VotingConfig::try_from(voting) {
                Ok(voting) => voting,
                Err(e) => return Err(e),
            },
            None => return Err(ParseError::missing(Target::VotingConfig)),
        };
        if value.observation_timeout < 0 {
            return Err(ParseError::missing(Target::Duration));
        }
        let observation_timeout = Duration::from_secs(value.observation_timeout as u64);
        Ok(
            OracleConfig {
                enabled: value.enabled,
                voting,
                max_enrolled_subdomains,
                observation_timeout,
                authorized,
            },
        )
    }
}

impl vstd::std_specs::convert::FromSpecImpl<OracleConfig> for proto::OracleConfig {
    open spec fn obeys_from_spec() -> bool {
        false
    }

    open spec fn from_spec(value: OracleConfig) -> proto::OracleConfig {
        arbitrary()
    }
}

impl From<OracleConfig> for proto::OracleConfig {
    fn from(value: OracleConfig) -> (r: proto::OracleConfig)
        ensures
            r@ == encode_oracle_config(value@),
            r.enabled == value.enabled,
            r.voting_config is Some,
            value.max_enrolled_subdomains <= i64::MAX ==> r.max_enrolled_subdomains
                == value.max_enrolled_subdomains,
            value.observation_timeout.secs <= i64::MAX ==> r.observation_timeout
                == value.observation_timeout.secs,
    {
        proto::OracleConfig {
            enabled: value.enabled,
            oracles: encode_oracles(value.authorized),
            voting_config: Some(proto::VotingConfig::from(value.voting)),
            max_enrolled_subdomains: saturate(value.max_enrolled_subdomains),
            observation_timeout: saturate(value.observation_timeout.as_secs()),
        }
    }
}

impl vstd::std_specs::convert::TryFromSpecImpl<proto::OnionConfig> for OnionConfig {
    open spec fn obeys_try_from_spec() -> bool {
        false
    }

    open spec fn try_from_spec(value: proto::OnionConfig) -> Result<OnionConfig, ParseError> {
        arbitrary()
    }
}

impl TryFrom<proto::OnionConfig> for OnionConfig {
    type Error = ParseError;

    fn try_from(value: proto::OnionConfig) -> (r: Result<OnionConfig, ParseError>)
        ensures
            r matches Ok(onion) && onion.enabled == value.enabled,
    {
        Ok(OnionConfig { enabled: value.enabled })
    }
}

impl vstd::std_specs::convert::FromSpecImpl<OnionConfig> for proto::OnionConfig {
    open spec fn obeys_from_spec() -> bool {
        false
    }

    open spec fn from_spec(value: OnionConfig) -> proto::OnionConfig {
        arbitrary()
    }
}

impl From<OnionConfig> for proto::OnionConfig {
    fn from(value: OnionConfig) -> (r: proto::OnionConfig)
        ensures
            r == (proto::OnionConfig { enabled: value.enabled }),
    {
        proto::OnionConfig { enabled: value.enabled }
    }
}


/// The voting part of a configuration message. The first number that is negative is the error.
pub open spec fn decode_voting_config(m: proto::VotingConfig) -> Result<
    VotingConfig,
    ParseErrorView,
> {
    if m.total < 0 {
        Err(number_error(Target::Total, m.total))
    } else if m.quorum < 0 {
        Err(number_error(Target::Quorum, m.quorum))
    } else if m.timeout < 0 {
        Err(number_error(Target::Timeout, m.timeout))
    } else if m.delay < 0 {
        Err(number_error(Target::Delay, m.delay))
    } else {
        Ok(
            VotingConfig {
                total: Total(m.total as u64),
                quorum: Quorum(m.quorum as u64),
                timeout: Timeout(Duration::whole(m.timeout as u64)),
                delay: Delay(Duration::whole(m.delay as u64)),
            },
        )
    }
}

/// The message for the voting part of a configuration. Numbers that are too great become the
/// greatest, and parts of a second are dropped.
pub open spec fn encode_voting_config(c: VotingConfig) -> proto::VotingConfig {
    proto::VotingConfig {
        total: saturated(c.total.0),
        quorum: saturated(c.quorum.0),
        timeout: saturated(c.timeout.0.secs),
        delay: saturated(c.delay.0.secs),
    }
}

fn negative(target: Target, x: i64) -> (r: ParseError)
    ensures
        r@ == number_error(target, x),
{
    ParseError::new(target, text::signed_decimal_text(x).as_str())
}

impl vstd::std_specs::convert::TryFromSpecImpl<proto::VotingConfig> for VotingConfig {
    open spec fn obeys_try_from_spec() -> bool {
        false
    }

    open spec fn try_from_spec(value: proto::VotingConfig) -> Result<VotingConfig, ParseError> {
        arbitrary()
    }
}

impl TryFrom<proto::VotingConfig> for VotingConfig {
    type Error = ParseError;

    fn try_from(value: proto::VotingConfig) -> (r: Result<VotingConfig, ParseError>)
        ensures
            match r {
                Ok(done) => decode_voting_config(value) == Ok::<_, ParseErrorView>(done),
                Err(e) => decode_voting_config(value) == Err::<VotingConfig, ParseErrorView>(e@),
            },
            r matches Ok(c) ==> {
                &&& c.total.0 == value.total
                &&& c.quorum.0 == value.quorum
                &&& c.timeout.0.secs == value.timeout
                &&& c.delay.0.secs == value.delay
            },
    {
        if value.total < 0 {
            return Err(negative(Target::Total, value.total));
        }
        if value.quorum < 0 {
            return Err(negative(Target::Quorum, value.quorum));
        }
        if value.timeout < 0 {
            return Err(negative(Target::Timeout, value.timeout));
        }
        if value.delay < 0 {
            return Err(negative(Target::Delay, value.delay));
        }
        Ok(
            VotingConfig {
                total: Total(value.total as u64),
                quorum: Quorum(value.quorum as u64),
                timeout: Timeout(Duration::from_secs(value.timeout as u64)),
                delay: Delay(Duration::from_secs(value.delay as u64)),
            },
        )
    }
}

impl vstd::std_specs::convert::FromSpecImpl<VotingConfig> for proto::VotingConfig {
    open spec fn obeys_from_spec() -> bool {
        false
    }

    open spec fn from_spec(value: VotingConfig) -> proto::VotingConfig {
        arbitrary()
    }
}

impl From<VotingConfig> for proto::VotingConfig {
    fn from(value: VotingConfig) -> (r: proto::VotingConfig)
        ensures
            r == encode_voting_config(value),
            value.total.0 <= i64::MAX ==> r.total == value.total.0,
            value.quorum.0 <= i64::MAX ==> r.quorum == value.quorum.0,
            value.timeout.0.secs <= i64::MAX ==> r.timeout == value.timeout.0.secs,
            value.delay.0.secs <= i64::MAX ==> r.delay == value.delay.0.secs,
    {
        proto::VotingConfig {
            total: saturate(value.total.0),
            quorum: saturate(value.quorum.0),
            timeout: saturate(value.timeout.0.as_secs()),
            delay: saturate(value.delay.0.as_secs()),
        }
    }
}


/// The observation in a message.
pub open spec fn decode_observation(m: proto::ObservationView) -> Result<
    ObservationView,
    ParseErrorView,
> {
    match decode_name(m.domain, Target::Domain) {
        Err(e) => Err(e),
        Ok(domain) => match decode_name(m.zone, Target::Zone) {
            Err(e) => Err(e),
            Ok(zone) => match m.hash_observed {
                None => Err(error::missing(Target::HashObserved)),
                Some(hash) => match decode_hash_observed(hash) {
                    Err(e) => Err(e),
                    Ok(hash_observed) => match m.blockstamp {
                        None => Err(error::missing(Target::Blockstamp)),
                        Some(blockstamp) => match decode_blockstamp(blockstamp) {
                            Err(_) => Err(error::missing(Target::Blockstamp)),
                            Ok(blockstamp) => Ok(
                                ObservationView { domain, zone, blockstamp, hash_observed },
                            ),
                        },
                    },
                },
            },
        },
    }
}

/// The message for an observation.
pub open spec fn encode_observation(o: ObservationView) -> proto::ObservationView {
    proto::ObservationView {
        domain: domain::name_text(o.domain),
        zone: domain::name_text(o.zone),
        hash_observed: Some(encode_hash_observed(o.hash_observed)),
        blockstamp: Some(encode_blockstamp(o.blockstamp)),
    }
}

impl vstd::std_specs::convert::TryFromSpecImpl<proto::Observation> for Observation {
    open spec fn obeys_try_from_spec() -> bool {
        false
    }

    open spec fn try_from_spec(value: proto::Observation) -> Result<Observation, ParseError> {
        arbitrary()
    }
}

impl TryFrom<proto::Observation> for Observation {
    type Error = ParseError;

    fn try_from(value: proto::Observation) -> (r: Result<Observation, ParseError>)
        ensures
            outcome(r) == decode_observation(value@),
    {
        let domain = match parse_name(value.domain.as_str(), Target::Domain) {
            Ok(name) => Domain { name },
            Err(e) => return Err(e),
        };
        let zone = match parse_name(value.zone.as_str(), Target::Zone) {
            Ok(name) => Zone { name },
            Err(e) => return Err(e),
        };
        let hash_observed = match value.hash_observed {
            Some(hash) => match HashObserved::try_from(hash) {
                Ok(hash) => hash,
                Err(e) => return Err(e),
            },
            None => return Err(ParseError::missing(Target::HashObserved)),
        };
        let blockstamp = match value.blockstamp {
            Some(blockstamp) => match Blockstamp::try_from(blockstamp) {
                Ok(blockstamp) => blockstamp,
                Err(_) => return Err(ParseError::missing(Target::Blockstamp)),
            },
            None => return Err(ParseError::missing(Target::Blockstamp)),
        };
        Ok(Observation { domain, zone, blockstamp, hash_observed })
    }
}

impl vstd::std_specs::convert::FromSpecImpl<Observation> for proto::Observation {
    open spec fn obeys_from_spec() -> bool {
        false
    }

    open spec fn from_spec(value: Observation) -> proto::Observation {
        arbitrary()
    }
}

impl From<Observation> for proto::Observation {
    fn from(value: Observation) -> (r: proto::Observation)
        ensures
            r@ == encode_observation(value@),
    {
        proto::Observation {
            domain: String::from(value.domain),
            zone: String::from(value.zone),
            hash_observed: Some(proto::HashObserved::from(value.hash_observed)),
            blockstamp: Some(proto::Blockstamp::from(value.blockstamp)),
        }
    }
}


/// The blockstamp in a message.
pub open spec fn decode_blockstamp(m: proto::BlockstampView) -> Result<
    BlockstampView,
    ParseErrorView,
> {
    match natural(m.block_number, error::missing(Target::Height)) {
        Err(e) => Err(e),
        Ok(block_height) => Ok(BlockstampView { block_height, app_hash: m.block_hash }),
    }
}

/// The message for a blockstamp.
pub open spec fn encode_blockstamp(b: BlockstampView) -> proto::BlockstampView {
    proto::BlockstampView { block_hash: b.app_hash, block_number: saturated(b.block_height) }
}

impl vstd::std_specs::convert::TryFromSpecImpl<proto::Blockstamp> for Blockstamp {
    open spec fn obeys_try_from_spec() -> bool {
        false
    }

    open spec fn try_from_spec(value: proto::Blockstamp) -> Result<Blockstamp, ParseError> {
        arbitrary()
    }
}

impl TryFrom<proto::Blockstamp> for Blockstamp {
    type Error = ParseError;

    fn try_from(value: proto::Blockstamp) -> (r: Result<Blockstamp, ParseError>)
        ensures
            outcome(r) == decode_blockstamp(value@),
    {
        if value.block_number < 0 {
            return Err(ParseError::missing(Target::Height));
        }
        Ok(Blockstamp { block_height: value.block_number as u64, app_hash: value.block_hash })
    }
}

impl vstd::std_specs::convert::FromSpecImpl<Blockstamp> for proto::Blockstamp {
    open spec fn obeys_from_spec() -> bool {
        false
    }

    open spec fn from_spec(value: Blockstamp) -> proto::Blockstamp {
        arbitrary()
    }
}

impl From<Blockstamp> for proto::Blockstamp {
    fn from(value: Blockstamp) -> (r: proto::Blockstamp)
        ensures
            r@ == encode_blockstamp(value@),
    {
        proto::Blockstamp {
            block_hash: value.app_hash,
            block_number: saturate(value.block_height),
        }
    }
}

impl vstd::std_specs::convert::TryFromSpecImpl<proto::Admin> for Admin {
    open spec fn obeys_try_from_spec() -> bool {
        false
    }

    open spec fn try_from_spec(value: proto::Admin) -> Result<Admin, ParseError> {
        arbitrary()
    }
}

impl TryFrom<proto::Admin> for Admin {
    type Error = ParseError;

    fn try_from(value: proto::Admin) -> (r: Result<Admin, ParseError>)
        ensures
            r matches Ok(admin) && admin@ == value@,
    {
        Ok(Admin { identity: value.public_key })
    }
}

impl vstd::std_specs::convert::TryFromSpecImpl<Unsigned> for Admin {
    open spec fn obeys_try_from_spec() -> bool {
        false
    }

    open spec fn try_from_spec(value: Unsigned) -> Result<Admin, ParseError> {
        arbitrary()
    }
}

impl TryFrom<Unsigned> for Admin {
    type Error = ParseError;

    fn try_from(value: Unsigned) -> (r: Result<Admin, ParseError>)
        ensures
            r matches Ok(admin) && admin@ == value@,
    {
        Ok(Admin { identity: value.public_key })
    }
}

impl vstd::std_specs::convert::FromSpecImpl<Admin> for proto::Admin {
    open spec fn obeys_from_spec() -> bool {
        false
    }

    open spec fn from_spec(value: Admin) -> proto::Admin {
        arbitrary()
    }
}

impl From<Admin> for proto::Admin {
    fn from(value: Admin) -> (r: proto::Admin)
        ensures
            r@ == value@,
    {
        proto::Admin { public_key: value.identity }
    }
}

impl vstd::std_specs::convert::FromSpecImpl<Admin> for proto::Signature {
    open spec fn obeys_from_spec() -> bool {
        false
    }

    open spec fn from_spec(value: Admin) -> proto::Signature {
        arbitrary()
    }
}

impl From<Admin> for proto::Signature {
    fn from(value: Admin) -> (r: proto::Signature)
        ensures
            r@ == proto::SignatureView::unsigned(value@),
    {
        proto::Signature::unsigned(value.identity)
    }
}


/// The validator in a message.
pub open spec fn decode_validator(m: proto::ValidatorView) -> Result<
    ValidatorView,
    ParseErrorView,
> {
    match natural(m.power, ParseErrorView { target: Target::U64, value: "invalid power"@ }) {
        Err(e) => Err(e),
        Ok(power) => Ok(ValidatorView { public_key: m.public_key, power }),
    }
}

/// The message for a validator.
pub open spec fn encode_validator(v: ValidatorView) -> proto::ValidatorView {
    proto::ValidatorView { public_key: v.public_key, power: saturated(v.power) }
}

impl vstd::std_specs::convert::TryFromSpecImpl<proto::Validator> for Validator {
    open spec fn obeys_try_from_spec() -> bool {
        false
    }

    open spec fn try_from_spec(value: proto::Validator) -> Result<Validator, ParseError> {
        arbitrary()
    }
}

impl TryFrom<proto::Validator> for Validator {
    type Error = ParseError;

    fn try_from(value: proto::Validator) -> (r: Result<Validator, ParseError>)
        ensures
            outcome(r) == decode_validator(value@),
    {
        if value.power < 0 {
            return Err(ParseError::new(Target::U64, "invalid power"));
        }
        Ok(Validator { public_key: value.public_key, power: value.power as u64 })
    }
}

impl vstd::std_specs::convert::FromSpecImpl<Validator> for proto::Validator {
    open spec fn obeys_from_spec() -> bool {
        false
    }

    open spec fn from_spec(value: Validator) -> proto::Validator {
        arbitrary()
    }
}

impl From<Validator> for proto::Validator {
    fn from(value: Validator) -> (r: proto::Validator)
        ensures
            r@ == encode_validator(value@),
    {
        proto::Validator { public_key: value.public_key, power: saturate(value.power) }
    }
}


/// The oracle in a message. One that names no endpoint answers at the local host.
pub open spec fn decode_oracle(m: proto::OracleView) -> Result<OracleView, ParseErrorView> {
    match m.public_key {
        None => Err(error::missing(Target::OracleIdentity)),
        Some(identity) => Ok(
            OracleView {
                identity,
                endpoint: if m.endpoint.len() == 0 {
                    "127.0.0.1"@
                } else {
                    m.endpoint
                },
            },
        ),
    }
}

/// The message for an oracle.
pub open spec fn encode_oracle(o: OracleView) -> proto::OracleView {
    proto::OracleView { public_key: Some(o.identity), endpoint: o.endpoint }
}

impl vstd::std_specs::convert::TryFromSpecImpl<proto::Oracle> for Oracle {
    open spec fn obeys_try_from_spec() -> bool {
        false
    }

    open spec fn try_from_spec(value: proto::Oracle) -> Result<Oracle, ParseError> {
        arbitrary()
    }
}

impl TryFrom<proto::Oracle> for Oracle {
    type Error = ParseError;

    fn try_from(value: proto::Oracle) -> (r: Result<Oracle, ParseError>)
        ensures
            outcome(r) == decode_oracle(value@),
    {
        let public_key = match value.public_key {
            Some(identity) => identity.public_key,
            None => return Err(ParseError::missing(Target::OracleIdentity)),
        };
        let endpoint = if value.endpoint.as_str().is_empty() {
            crate::transaction::default_oracle_endpoint()
        } else {
            value.endpoint
        };
        Ok(Oracle { identity: public_key, endpoint })
    }
}

impl vstd::std_specs::convert::FromSpecImpl<Oracle> for proto::Oracle {
    open spec fn obeys_from_spec() -> bool {
        false
    }

    open spec fn from_spec(value: Oracle) -> proto::Oracle {
        arbitrary()
    }
}

impl From<Oracle> for proto::Oracle {
    fn from(value: Oracle) -> (r: proto::Oracle)
        ensures
            r@ == encode_oracle(value@),
    {
        proto::Oracle {
            public_key: Some(proto::OracleIdentity { public_key: value.identity }),
            endpoint: value.endpoint,
        }
    }
}

impl vstd::std_specs::convert::FromSpecImpl<OracleIdentity> for proto::OracleIdentity {
    open spec fn obeys_from_spec() -> bool {
        false
    }

    open spec fn from_spec(value: OracleIdentity) -> proto::OracleIdentity {
        arbitrary()
    }
}

impl From<OracleIdentity> for proto::OracleIdentity {
    fn from(value: OracleIdentity) -> (r: proto::OracleIdentity)
        ensures
            r@ == value@,
    {
        proto::OracleIdentity { public_key: value.identity }
    }
}

impl vstd::std_specs::convert::TryFromSpecImpl<proto::OracleIdentity> for OracleIdentity {
    open spec fn obeys_try_from_spec() -> bool {
        false
    }

    open spec fn try_from_spec(value: proto::OracleIdentity) -> Result<OracleIdentity, ParseError> {
        arbitrary()
    }
}

impl TryFrom<proto::OracleIdentity> for OracleIdentity {
    type Error = ParseError;

    fn try_from(value: proto::OracleIdentity) -> (r: Result<OracleIdentity, ParseError>)
        ensures
            r matches Ok(oracle) && oracle@ == value@,
    {
        Ok(OracleIdentity { identity: value.public_key })
    }
}

impl vstd::std_specs::convert::TryFromSpecImpl<Unsigned> for OracleIdentity {
    open spec fn obeys_try_from_spec() -> bool {
        false
    }

    open spec fn try_from_spec(value: Unsigned) -> Result<OracleIdentity, ParseError> {
        arbitrary()
    }
}

impl TryFrom<Unsigned> for OracleIdentity {
    type Error = ParseError;

    fn try_from(value: Unsigned) -> (r: Result<OracleIdentity, ParseError>)
        ensures
            r matches Ok(oracle) && oracle@ == value@,
    {
        Ok(OracleIdentity { identity: value.public_key })
    }
}

impl vstd::std_specs::convert::FromSpecImpl<OracleIdentity> for proto::Signature {
    open spec fn obeys_from_spec() -> bool {
        false
    }

    open spec fn from_spec(value: OracleIdentity) -> proto::Signature {
        arbitrary()
    }
}

impl From<OracleIdentity> for proto::Signature {
    fn from(value: OracleIdentity) -> (r: proto::Signature)
        ensures
            r@ == proto::SignatureView::unsigned(value@),
    {
        proto::Signature::unsigned(value.identity)
    }
}

impl vstd::std_specs::convert::FromSpecImpl<Oracle> for proto::Signature {
    open spec fn obeys_from_spec() -> bool {
        false
    }

    open spec fn from_spec(value: Oracle) -> proto::Signature {
        arbitrary()
    }
}

impl From<Oracle> for proto::Signature {
    fn from(value: Oracle) -> (r: proto::Signature)
        ensures
            r@ == proto::SignatureView::unsigned(value@.identity),
    {
        proto::Signature::unsigned(value.identity)
    }
}

impl vstd::std_specs::convert::FromSpecImpl<Empty> for String {
    open spec fn obeys_from_spec() -> bool {
        false
    }

    open spec fn from_spec(value: Empty) -> String {
        arbitrary()
    }
}

impl From<Empty> for String {
    fn from(value: Empty) -> (r: String)
        ensures
            r@ == Seq::<char>::empty(),
    {
        value.to_string()
    }
}

impl vstd::std_specs::convert::TryFromSpecImpl<String> for Empty {
    open spec fn obeys_try_from_spec() -> bool {
        false
    }

    open spec fn try_from_spec(value: String) -> Result<Empty, ParseError> {
        arbitrary()
    }
}

impl TryFrom<String> for Empty {
    type Error = ParseError;

    fn try_from(value: String) -> (r: Result<Empty, ParseError>)
        ensures
            r is Ok <==> value@.len() == 0,
            r matches Err(e) ==> e@ == (ParseErrorView { target: Target::Empty, value: value@ }),
    {
        Empty::from_str(value.as_str())
    }
}


/// What was found, from the hash in a message: 32 bytes, or none where nothing was found.
pub open spec fn decode_hash_observed(m: Seq<u8>) -> Result<HashObservedView, ParseErrorView> {
    if m.len() == 32 {
        Ok(HashObservedView::Hash(m))
    } else if m.len() == 0 {
        Ok(HashObservedView::NotFound)
    } else {
        Err(ParseErrorView { target: Target::HashObserved, value: hexadecimal::hex_text(m) })
    }
}

/// The hash in the message for what was found.
pub open spec fn encode_hash_observed(h: HashObservedView) -> Seq<u8> {
    match h {
        HashObservedView::Hash(hash) => hash,
        HashObservedView::NotFound => Seq::empty(),
    }
}

impl vstd::std_specs::convert::TryFromSpecImpl<proto::HashObserved> for HashObserved {
    open spec fn obeys_try_from_spec() -> bool {
        false
    }

    open spec fn try_from_spec(value: proto::HashObserved) -> Result<HashObserved, ParseError> {
        arbitrary()
    }
}

impl TryFrom<proto::HashObserved> for HashObserved {
    type Error = ParseError;

    fn try_from(value: proto::HashObserved) -> (r: Result<HashObserved, ParseError>)
        ensures
            outcome(r) == decode_hash_observed(value@),
    {
        if value.hash.len() == 32 {
            Ok(HashObserved::Hash(octets::to_array_32(value.hash.as_slice())))
        } else if value.hash.len() == 0 {
            Ok(HashObserved::NotFound)
        } else {
            let digits = hexadecimal::hex_encode(value.hash.as_slice());
            Err(ParseError::new(Target::HashObserved, digits.as_str()))
        }
    }
}

impl vstd::std_specs::convert::FromSpecImpl<HashObserved> for proto::HashObserved {
    open spec fn obeys_from_spec() -> bool {
        false
    }

    open spec fn from_spec(value: HashObserved) -> proto::HashObserved {
        arbitrary()
    }
}

impl From<HashObserved> for proto::HashObserved {
    fn from(value: HashObserved) -> (r: proto::HashObserved)
        ensures
            r@ == encode_hash_observed(value@),
    {
        match value {
            HashObserved::Hash(hash) => proto::HashObserved {
                hash: octets::copy_bytes(hash.as_slice()),
            },
            HashObserved::NotFound => proto::HashObserved { hash: Vec::new() },
        }
    }
}


/// What oracles voted for, from a message.
pub open spec fn decode_vote_value(m: proto::OracleVoteValueView) -> Result<
    OracleVoteValueView,
    ParseErrorView,
> {
    match m.hash_observed {
        None => Err(
            ParseErrorView { target: Target::OracleVoteValue, value: "missing hash_observed"@ },
        ),
        Some(hash) => match decode_hash_observed(hash) {
            Err(e) => Err(e),
            Ok(hash_observed) => match domain::parsed_name(m.zone) {
                Err(e) => Err(
                    ParseErrorView {
                        target: Target::OracleVoteValue,
                        value: "invalid zone: "@ + e.words(),
                    },
                ),
                Ok(zone) => Ok(OracleVoteValueView { hash_observed, zone }),
            },
        },
    }
}

/// The message for what oracles voted for.
pub open spec fn encode_vote_value(v: OracleVoteValueView) -> proto::OracleVoteValueView {
    proto::OracleVoteValueView {
        hash_observed: Some(encode_hash_observed(v.hash_observed)),
        zone: domain::name_text(v.zone),
    }
}

impl vstd::std_specs::convert::TryFromSpecImpl<proto::OracleVoteValue> for OracleVoteValue {
    open spec fn obeys_try_from_spec() -> bool {
        false
    }

    open spec fn try_from_spec(value: proto::OracleVoteValue) -> Result<OracleVoteValue, ParseError> {
        arbitrary()
    }
}

impl TryFrom<proto::OracleVoteValue> for OracleVoteValue {
    type Error = ParseError;

    fn try_from(value: proto::OracleVoteValue) -> (r: Result<OracleVoteValue, ParseError>)
        ensures
            outcome(r) == decode_vote_value(value@),
    {
        let hash_observed = match value.hash_observed {
            Some(hash) => match HashObserved::try_from(hash) {
                Ok(hash) => hash,
                Err(e) => return Err(e),
            },
            None => return Err(ParseError::new(Target::OracleVoteValue, "missing hash_observed")),
        };
        match Fqdn::from_ascii_str(value.zone.as_str()) {
            Ok(name) => Ok(OracleVoteValue { hash_observed, zone: Zone { name } }),
            Err(e) => {
                let mut message = "invalid zone: ".to_string();
                message.append(e.message().as_str());
                Err(ParseError::new(Target::OracleVoteValue, message.as_str()))
            },
        }
    }
}

impl vstd::std_specs::convert::FromSpecImpl<OracleVoteValue> for proto::OracleVoteValue {
    open spec fn obeys_from_spec() -> bool {
        false
    }

    open spec fn from_spec(value: OracleVoteValue) -> proto::OracleVoteValue {
        arbitrary()
    }
}

impl From<OracleVoteValue> for proto::OracleVoteValue {
    fn from(value: OracleVoteValue) -> (r: proto::OracleVoteValue)
        ensures
            r@ == encode_vote_value(value@),
    {
        proto::OracleVoteValue {
            hash_observed: Some(proto::HashObserved::from(value.hash_observed)),
            zone: value.zone.to_string(),
        }
    }
}


/// Whether every number in the voting part fits its message, in whole seconds.
pub open spec fn voting_fits(c: VotingConfig) -> bool {
    &&& c.total.0 <= i64::MAX
    &&& c.quorum.0 <= i64::MAX
    &&& c.timeout.0.secs <= i64::MAX && c.timeout.0.nanos == 0
    &&& c.delay.0.secs <= i64::MAX && c.delay.0.nanos == 0
}

/// Whether every number in the configuration fits its message, in whole seconds, and every oracle
/// names an endpoint.
pub open spec fn config_fits(c: ConfigView) -> bool {
    &&& voting_fits(c.admins.voting)
    &&& voting_fits(c.oracles.voting)
    &&& c.oracles.max_enrolled_subdomains <= i64::MAX
    &&& c.oracles.observation_timeout.secs <= i64::MAX
    &&& c.oracles.observation_timeout.nanos == 0
    &&& forall|i: int|
        0 <= i < c.oracles.authorized.len() ==> (#[trigger] c.oracles.authorized[i]).endpoint.len()
            > 0
    &&& forall|i: int|
        0 <= i < c.validators.len() ==> (#[trigger] c.validators[i]).power <= i64::MAX
}

/// Whether the observation holds parsed names, a hash of 32 bytes or none, and a height that fits
/// its message.
pub open spec fn observation_fits(o: ObservationView) -> bool {
    &&& domain::valid_labels(o.domain)
    &&& domain::valid_labels(o.zone)
    &&& o.hash_observed matches HashObservedView::Hash(hash) ==> hash.len() == 32
    &&& o.blockstamp.block_height <= i64::MAX
}

/// Whether the action holds only what fits its message.
pub open spec fn action_fits(a: ActionView) -> bool {
    match a {
        ActionView::Reconfigure(r) => config_fits(r.config) && r.not_before.valid()
            && r.not_after.valid(),
        ActionView::Observe(o) => observation_fits(o.observation),
    }
}

/// A number as its message keeps it: at most the greatest that the message can hold.
pub open spec fn kept_number(x: u64) -> u64 {
    if x > i64::MAX {
        i64::MAX as u64
    } else {
        x
    }
}

/// A span as its message keeps it: in whole seconds.
pub open spec fn kept_duration(d: Duration) -> Duration {
    Duration::whole(kept_number(d.secs))
}

/// The voting part as its message keeps it.
pub open spec fn kept_voting(c: VotingConfig) -> VotingConfig {
    VotingConfig {
        total: Total(kept_number(c.total.0)),
        quorum: Quorum(kept_number(c.quorum.0)),
        timeout: Timeout(kept_duration(c.timeout.0)),
        delay: Delay(kept_duration(c.delay.0)),
    }
}

/// An oracle as its message keeps it: one that names no endpoint answers at the local host.
pub open spec fn kept_oracle(o: OracleView) -> OracleView {
    OracleView {
        identity: o.identity,
        endpoint: if o.endpoint.len() == 0 {
            "127.0.0.1"@
        } else {
            o.endpoint
        },
    }
}

/// A validator as its message keeps it.
pub open spec fn kept_validator(v: ValidatorView) -> ValidatorView {
    ValidatorView { public_key: v.public_key, power: kept_number(v.power) }
}

/// A configuration as its message keeps it.
pub open spec fn kept_config(c: ConfigView) -> ConfigView {
    ConfigView {
        version: c.version,
        admins: AdminConfigView {
            voting: kept_voting(c.admins.voting),
            authorized: c.admins.authorized,
        },
        oracles: OracleConfigView {
            enabled: c.oracles.enabled,
            voting: kept_voting(c.oracles.voting),
            max_enrolled_subdomains: kept_number(c.oracles.max_enrolled_subdomains),
            observation_timeout: kept_duration(c.oracles.observation_timeout),
            authorized: c.oracles.authorized.map_values(|o: OracleView| kept_oracle(o)),
        },
        onion: c.onion,
        validators: c.validators.map_values(|v: ValidatorView| kept_validator(v)),
    }
}

/// Every configuration can be read back from its message, as the message keeps it.
pub proof fn lemma_config_kept(c: ConfigView)
    ensures
        decode_config(encode_config(c)) == Ok::<ConfigView, ParseErrorView>(kept_config(c)),
{
    let encode_one = |o: OracleView| encode_oracle(o);
    let decode_one = |o: proto::OracleView| decode_oracle(o);
    let keep_one = |o: OracleView| kept_oracle(o);
    assert forall|i: int| 0 <= i < c.oracles.authorized.len() implies decode_one(
        encode_one(#[trigger] c.oracles.authorized[i]),
    ) == Ok::<OracleView, ParseErrorView>(keep_one(c.oracles.authorized[i])) by {}
    sequence::lemma_decode_all_kept(c.oracles.authorized, encode_one, decode_one, keep_one);
    let encode_other = |v: ValidatorView| encode_validator(v);
    let decode_other = |v: proto::ValidatorView| decode_validator(v);
    let keep_other = |v: ValidatorView| kept_validator(v);
    assert forall|i: int| 0 <= i < c.validators.len() implies decode_other(
        encode_other(#[trigger] c.validators[i]),
    ) == Ok::<ValidatorView, ParseErrorView>(keep_other(c.validators[i])) by {}
    sequence::lemma_decode_all_kept(c.validators, encode_other, decode_other, keep_other);
}

/// A configuration read back from its message is the configuration that was written, where every
/// number in it fits, in whole seconds, and every oracle names an endpoint.
pub proof fn lemma_config_round_trip(c: ConfigView)
    requires
        config_fits(c),
    ensures
        kept_config(c) == c,
        decode_config(encode_config(c)) == Ok::<ConfigView, ParseErrorView>(c),
{
    lemma_config_kept(c);
    assert(kept_config(c).oracles.authorized =~= c.oracles.authorized);
    assert(kept_config(c).validators =~= c.validators);
}

/// A configuration message that is read and written again is the same message, where every oracle
/// in it names an endpoint.
pub proof fn lemma_config_message_round_trip(m: proto::ConfigView)
    requires
        decode_config(m) is Ok,
        forall|i: int|
            0 <= i < m.oracle_config->0.oracles.len() ==> (
            #[trigger] m.oracle_config->0.oracles[i]).endpoint.len() > 0,
    ensures
        encode_config(decode_config(m)->Ok_0) == m,
{
    let oracles = m.oracle_config->0.oracles;
    let encode_one = |o: OracleView| encode_oracle(o);
    let decode_one = |o: proto::OracleView| decode_oracle(o);
    assert forall|i: int|
        0 <= i < oracles.len() && decode_one(#[trigger] oracles[i]) is Ok implies encode_one(
        decode_one(oracles[i])->Ok_0,
    ) == oracles[i] by {}
    sequence::lemma_encode_all_decoded(oracles, decode_one, encode_one);
    let encode_other = |v: ValidatorView| encode_validator(v);
    let decode_other = |v: proto::ValidatorView| decode_validator(v);
    assert forall|i: int|
        0 <= i < m.validators.len() && decode_other(
            #[trigger] m.validators[i],
        ) is Ok implies encode_other(decode_other(m.validators[i])->Ok_0) == m.validators[i] by {}
    sequence::lemma_encode_all_decoded(m.validators, decode_other, encode_other);
}

/// An observation read back from its message is the observation that was written.
pub proof fn lemma_observation_round_trip(o: ObservationView)
    requires
        observation_fits(o),
    ensures
        decode_observation(encode_observation(o)) == Ok::<ObservationView, ParseErrorView>(o),
{
    domain::lemma_name_round_trip(o.domain);
    domain::lemma_name_round_trip(o.zone);
}

/// An action read back from its message, signed or not, is the action that was written.
pub proof fn lemma_action_round_trip(a: ActionView)
    requires
        action_fits(a),
    ensures
        decode_action(encode_action(a)) == Ok::<ActionView, ParseErrorView>(a),
{
    match a {
        ActionView::Reconfigure(r) => {
            lemma_config_round_trip(r.config);
        },
        ActionView::Observe(o) => {
            lemma_observation_round_trip(o.observation);
        },
    }
}

/// A transaction read back from its message is the transaction that was written.
pub proof fn lemma_transaction_round_trip(t: TransactionView)
    requires
        forall|i: int| 0 <= i < t.actions.len() ==> action_fits(#[trigger] t.actions[i]),
    ensures
        decode_transaction(encode_transaction(t)) == Ok::<TransactionView, ParseErrorView>(t),
{
    let encode_one = |a: ActionView| encode_action(a);
    let decode_one = |a: proto::ActionView| decode_action(a);
    assert forall|i: int| 0 <= i < t.actions.len() implies decode_one(
        encode_one(#[trigger] t.actions[i]),
    ) == Ok::<ActionView, ParseErrorView>(t.actions[i]) by {
        lemma_action_round_trip(t.actions[i]);
    }
    sequence::lemma_decode_all_encoded(t.actions, encode_one, decode_one);
}

/// A vote value read back from its message is the vote value that was written.
pub proof fn lemma_vote_value_round_trip(v: OracleVoteValueView)
    requires
        domain::valid_labels(v.zone),
        v.hash_observed matches HashObservedView::Hash(hash) ==> hash.len() == 32,
    ensures
        decode_vote_value(encode_vote_value(v)) == Ok::<OracleVoteValueView, ParseErrorView>(v),
{
    domain::lemma_name_round_trip(v.zone);
}

/// What signs a message has no part in what it says: an action is read the same whatever the
/// signature is.
pub proof fn lemma_signature_is_not_read(
    r: proto::ReconfigureView,
    o: proto::ObserveView,
    signature: Seq<u8>,
)
    requires
        r.signature is Some,
        o.signature is Some,
    ensures
        decode_reconfigure(
            proto::ReconfigureView {
                signature: Some(
                    proto::SignatureView { public_key: r.signature->0.public_key, signature },
                ),
                ..r
            },
        ) == decode_reconfigure(r),
        decode_observe(
            proto::ObserveView {
                signature: Some(
                    proto::SignatureView { public_key: o.signature->0.public_key, signature },
                ),
                ..o
            },
        ) == decode_observe(o),
{
}

} // verus!
