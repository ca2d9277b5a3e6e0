//! The beginning of the chain.

use vstd::prelude::*;

use prost::Message;

use crate::clock::Duration;
use crate::clock::Time;
use crate::convert;
use crate::crypto;
use crate::json;
use crate::octets;
use crate::state::config;
use crate::state::validator;
use crate::state::validator::Update;
use crate::state::validator::UpdateView;
use crate::state::State;
use crate::state::StateError;
use crate::state::StateErrorView;
use crate::state::StateView;
use crate::table;
use crate::table::RowView;
use crate::table::Table;
use crate::transaction::AdminConfig;
use crate::transaction::AdminConfigView;
use crate::transaction::ChainId;
use crate::transaction::Config;
use crate::transaction::ConfigView;
use crate::transaction::Delay;
use crate::transaction::OnionConfig;
use crate::transaction::OracleConfig;
use crate::transaction::OracleConfigView;
use crate::transaction::Quorum;
use crate::transaction::Timeout;
use crate::transaction::Total;
use crate::transaction::Validator;
use crate::transaction::ValidatorView;
use crate::transaction::VotingConfig;

verus! {

/// What consensus hands over at the beginning of the chain.
#[derive(Clone, Debug, PartialEq, Eq)]
pub struct InitChain {
    pub time: Time,
    pub chain_id: String,
    /// The consensus parameters, as an encoded protobuf message.
    pub consensus_params: Vec<u8>,
    pub validators: Vec<Update>,
    /// The application state in the genesis file, as JSON.
    pub app_state_bytes: Vec<u8>,
    pub initial_height: u64,
}

pub struct InitChainView {
    pub time: Time,
    pub chain_id: Seq<char>,
    pub consensus_params: Seq<u8>,
    pub validators: Seq<UpdateView>,
    pub app_state_bytes: Seq<u8>,
    pub initial_height: u64,
}

impl View for InitChain {
    type V = InitChainView;

    open spec fn view(&self) -> InitChainView {
        InitChainView {
            time: self.time,
            chain_id: self.chain_id@,
            consensus_params: self.consensus_params@,
            validators: self.validators@.map_values(|u: Update| u@),
            app_state_bytes: self.app_state_bytes@,
            initial_height: self.initial_height,
        }
    }
}

/// What consensus is told at the beginning of the chain.
#[derive(Clone, Debug, PartialEq, Eq)]
pub struct InitChainResponse {
    pub consensus_params: Vec<u8>,
    pub validators: Vec<Update>,
    pub app_hash: Vec<u8>,
}

/// The request as an encoded `RequestInitChain` message of CometBFT 0.38.
pub uninterp spec fn init_chain_message(request: InitChainView) -> Seq<u8>;

/// Trusted: `prost::Message::encode_to_vec` encodes a `RequestInitChain` message of
/// `tendermint_proto::v0_38`. The consensus parameters are read from their own encoding first.
#[verifier::external_body]
fn init_chain_bytes(request: &InitChain) -> (r: Vec<u8>)
    ensures
        r@ == init_chain_message(request@),
{
    let time = tendermint_proto::google::protobuf::Timestamp { seconds: request.time.seconds, nanos: request.time.nanos as i32 };
    let validators = request.validators.iter().map(|v| tendermint_proto::v0_38::abci::ValidatorUpdate {
        pub_key: Some(tendermint_proto::v0_38::crypto::PublicKey {
            sum: Some(tendermint_proto::v0_38::crypto::public_key::Sum::Ed25519(v.pub_key.bytes.to_vec())),
        }),
        power: v.power as i64,
    }).collect();
    tendermint_proto::v0_38::abci::RequestInitChain {
        time: Some(time), chain_id: request.chain_id.clone(), validators,
        consensus_params: Message::decode(request.consensus_params.as_slice()).ok(),
        app_state_bytes: request.app_state_bytes.clone().into(),
        initial_height: request.initial_height as i64,
    }.encode_to_vec()
}

/// The greatest span that a configuration of whole seconds holds.
pub const FOREVER: u64 = 9_223_372_036_854_775_807;

/// The configuration of a chain whose genesis names none: anyone may set the first one, and
/// oracles do nothing until then.
pub open spec fn default_config_view() -> ConfigView {
    ConfigView {
        version: 0,
        admins: AdminConfigView {
            voting: VotingConfig {
                total: Total(0),
                quorum: Quorum(0),
                timeout: Timeout(Duration::whole(0)),
                delay: Delay(Duration::whole(0)),
            },
            authorized: Seq::empty(),
        },
        oracles: OracleConfigView {
            enabled: false,
            voting: VotingConfig {
                total: Total(0),
                quorum: Quorum(0),
                timeout: Timeout(Duration::whole(0)),
                delay: Delay(Duration::whole(FOREVER)),
            },
            max_enrolled_subdomains: 0,
            observation_timeout: Duration::whole(FOREVER),
            authorized: Seq::empty(),
        },
        onion: OnionConfig { enabled: false },
        validators: Seq::empty(),
    }
}

/// The configuration of a chain whose genesis names none.
pub fn default_config() -> (r: Config)
    ensures
        r@ == default_config_view(),
        r.version == 0,
        r.admins.authorized@.len() == 0,
        r.admins.voting.total.0 == 0,
        r.admins.voting.quorum.0 == 0,
        r.admins.voting.timeout.0.secs == 0 && r.admins.voting.timeout.0.nanos == 0,
        r.admins.voting.delay.0.secs == 0 && r.admins.voting.delay.0.nanos == 0,
        !r.oracles.enabled,
        r.oracles.authorized@.len() == 0,
        r.oracles.voting.total.0 == 0,
        r.oracles.voting.quorum.0 == 0,
        r.oracles.voting.timeout.0.secs == 0 && r.oracles.voting.timeout.0.nanos == 0,
        r.oracles.voting.delay.0.secs == 9_223_372_036_854_775_807,
        r.oracles.voting.delay.0.nanos == 0,
        r.oracles.max_enrolled_subdomains == 0,
        r.oracles.observation_timeout.secs == 9_223_372_036_854_775_807,
        r.oracles.observation_timeout.nanos == 0,
        !r.onion.enabled,
        r.validators@.len() == 0,
{
    let config = Config {
        version: 0,
        admins: AdminConfig {
            voting: VotingConfig {
                total: Total(0),
                quorum: Quorum(0),
                timeout: Timeout(Duration::from_secs(0)),
                delay: Delay(Duration::from_secs(0)),
            },
            authorized: Vec::new(),
        },
        oracles: OracleConfig {
            enabled: false,
            voting: VotingConfig {
                total: Total(0),
                quorum: Quorum(0),
                timeout: Timeout(Duration::from_secs(0)),
                delay: Delay(Duration::from_secs(FOREVER)),
            },
            max_enrolled_subdomains: 0,
            observation_timeout: Duration::from_secs(FOREVER),
            authorized: Vec::new(),
        },
        onion: OnionConfig { enabled: false },
        validators: Vec::new(),
    };
    proof {
        let expected = default_config_view();
        assert(config.admins@.authorized =~= expected.admins.authorized);
        assert(config.oracles@.authorized =~= expected.oracles.authorized);
        assert(config@.validators =~= expected.validators);
    }
    config
}

/// How the outcome of reading a configuration is spoken of in contracts.
pub open spec fn parsed_view(parsed: Result<Config, String>) -> Result<ConfigView, Seq<char>> {
    match parsed {
        Ok(config) => Ok(config@),
        Err(e) => Err(e@),
    }
}

/// The configuration that the chain begins with. `member` is what the application state holds
/// under `config`, and `parsed` what came of reading that as a configuration.
pub open spec fn first_config(
    app_state: Seq<u8>,
    member: Result<Option<Seq<char>>, Seq<char>>,
    parsed: Result<ConfigView, Seq<char>>,
) -> Result<ConfigView, StateErrorView> {
    if app_state.len() == 0 {
        Ok(default_config_view())
    } else {
        match member {
            Err(cause) => Err(StateErrorView::AppStateNotJson { cause }),
            Ok(None) => Err(StateErrorView::NoConfigKey),
            Ok(Some(_)) => match parsed {
                Err(cause) => Err(StateErrorView::ConfigNotReadable { cause }),
                Ok(config) => Ok(config),
            },
        }
    }
}

/// A validator of genesis, as a row.
pub open spec fn genesis_row(u: UpdateView) -> RowView {
    RowView { key: u.pub_key, value: u.power }
}

/// A validator of a configuration, as a row.
pub open spec fn config_row(v: ValidatorView) -> RowView {
    RowView { key: v.public_key, value: v.power }
}

/// The powers of the validators of genesis, under their public keys.
pub open spec fn genesis_powers(validators: Seq<UpdateView>) -> Seq<RowView> {
    validator::table_of(validators.map_values(|u: UpdateView| genesis_row(u)))
}

/// The powers of the validators of a configuration, under their public keys.
pub open spec fn config_powers(validators: Seq<ValidatorView>) -> Seq<RowView> {
    validator::table_of(validators.map_values(|v: ValidatorView| config_row(v)))
}

/// The first difference from `start` on between the validators of genesis and those of the
/// configuration.
pub open spec fn difference_from(genesis: Seq<RowView>, config: Seq<RowView>, start: int) -> Option<
    StateErrorView,
>
    decreases genesis.len() - start,
{
    if start >= genesis.len() {
        None
    } else {
        let row = genesis[start];
        match table::lookup(config, row.key) {
            None => Some(StateErrorView::NotInConfig { public_key: row.key }),
            Some(power) => if power != row.value {
                Some(
                    StateErrorView::PowerMismatch {
                        public_key: row.key,
                        genesis: row.value,
                        config: power,
                    },
                )
            } else {
                difference_from(genesis, config, start + 1)
            },
        }
    }
}

/// How the validators of genesis differ from those of the configuration, if they do. A
/// configuration that names none differs from nothing.
pub open spec fn genesis_difference(
    genesis: Seq<UpdateView>,
    config: Seq<ValidatorView>,
) -> Option<StateErrorView> {
    if config.len() == 0 {
        None
    } else if genesis_powers(genesis).len() != config_powers(config).len() {
        Some(
            StateErrorView::ValidatorCounts {
                genesis: genesis_powers(genesis).len() as usize,
                config: config_powers(config).len() as usize,
            },
        )
    } else {
        difference_from(genesis_powers(genesis), config_powers(config), 0)
    }
}

/// The rows once all these validators were declared in turn, up to the first that is refused.
pub open spec fn all_declared(rows: Seq<RowView>, validators: Seq<UpdateView>) -> (
    Seq<RowView>,
    Option<StateErrorView>,
)
    decreases validators.len(),
{
    if validators.len() == 0 {
        (rows, None)
    } else {
        let before = all_declared(rows, validators.drop_last());
        if before.1 is Some {
            before
        } else {
            validator::declared(before.0, validators.last().pub_key, validators.last().power)
        }
    }
}

/// The state once the chain began, and the error, if there was one.
pub open spec fn started(
    state: StateView,
    request: InitChainView,
    config: Result<ConfigView, StateErrorView>,
) -> (StateView, Option<StateErrorView>) {
    if request.initial_height != 1 {
        (state, Some(StateErrorView::InitialHeight))
    } else {
        let named = StateView { chain_id: Some(request.chain_id), ..state };
        match config {
            Err(e) => (named, Some(e)),
            Ok(config) => {
                let configured = StateView { config: Some(convert::kept_config(config)), ..named };
                let difference = genesis_difference(request.validators, config.validators);
                if difference is Some {
                    (configured, difference)
                } else {
                    let rows = all_declared(configured.validators, request.validators);
                    (validator::with_validators(configured, rows.0), rows.1)
                }
            },
        }
    }
}

/// Whether the chain began as `outcome` says, and consensus is told so.
pub open spec fn start_outcome(
    r: Result<InitChainResponse, StateError>,
    error: Option<StateErrorView>,
    request: InitChainView,
    app_hash: Seq<u8>,
) -> bool {
    match r {
        Ok(response) => {
            &&& error is None
            &&& response.consensus_params@ == request.consensus_params
            &&& response.validators@.map_values(|u: Update| u@) == request.validators
            &&& response.app_hash@ == app_hash
        },
        Err(e) => error == Some(e@),
    }
}

/// What the application state holds under `config`, to be read as a configuration.
pub fn genesis_config_value(app_state: &[u8]) -> (r: Result<Option<serde_json::Value>, String>)
    ensures
        json::member_view(r) == json::json_member(app_state@, "config"@),
{
    json::find_member(app_state, "config")
}

/// The configuration that the chain begins with. `member` is what the application state holds
/// under `config`, and `parsed` what came of reading that as a configuration.
pub fn genesis_config(
    app_state: &[u8],
    member: Result<Option<serde_json::Value>, String>,
    parsed: Result<Config, String>,
) -> (r: Result<Config, StateError>)
    ensures
        match r {
            Ok(config) => first_config(
                app_state@,
                json::member_view(member),
                parsed_view(parsed),
            ) == Ok::<ConfigView, StateErrorView>(config@),
            Err(e) => first_config(app_state@, json::member_view(member), parsed_view(parsed))
                == Err::<ConfigView, StateErrorView>(e@),
        },
{
    if app_state.len() == 0 {
        return Ok(default_config());
    }
    match member {
        Err(cause) => Err(StateError::AppStateNotJson { cause }),
        Ok(None) => Err(StateError::NoConfigKey),
        Ok(Some(_)) => match parsed {
            Err(cause) => Err(StateError::ConfigNotReadable { cause }),
            Ok(config) => Ok(config),
        },
    }
}

fn genesis_table(validators: &Vec<Update>) -> (r: Table)
    ensures
        r@ == genesis_powers(validators@.map_values(|u: Update| u@)),
{
    let ghost views = validators@.map_values(|u: Update| u@);
    let ghost rows = views.map_values(|u: UpdateView| genesis_row(u));
    let mut powers = Table::new();
    let mut i: usize = 0;
    assert(rows.take(0) =~= Seq::empty());
    while i < validators.len()
        invariant
            i <= validators.len(),
            views == validators@.map_values(|u: Update| u@),
            rows == views.map_values(|u: UpdateView| genesis_row(u)),
            powers@ == validator::table_of(rows.take(i as int)),
        decreases validators.len() - i,
    {
        proof {
            assert(rows.take(i + 1).drop_last() =~= rows.take(i as int));
            assert(rows.take(i + 1).last() == genesis_row(validators@[i as int]@));
        }
        powers.put(validators[i].pub_key.to_bytes(), validators[i].power);
        i += 1;
    }
    assert(rows.take(rows.len() as int) =~= rows);
    powers
}

fn config_table(validators: &Vec<Validator>) -> (r: Table)
    ensures
        r@ == config_powers(validators@.map_values(|v: Validator| v@)),
{
    let ghost views = validators@.map_values(|v: Validator| v@);
    let ghost rows = views.map_values(|v: ValidatorView| config_row(v));
    let mut powers = Table::new();
    let mut i: usize = 0;
    assert(rows.take(0) =~= Seq::empty());
    while i < validators.len()
        invariant
            i <= validators.len(),
            views == validators@.map_values(|v: Validator| v@),
            rows == views.map_values(|v: ValidatorView| config_row(v)),
            powers@ == validator::table_of(rows.take(i as int)),
        decreases validators.len() - i,
    {
        proof {
            assert(rows.take(i + 1).drop_last() =~= rows.take(i as int));
            assert(rows.take(i + 1).last() == config_row(validators@[i as int]@));
        }
        powers.put(
            octets::copy_bytes(validators[i].public_key.as_slice()),
            validators[i].power,
        );
        i += 1;
    }
    assert(rows.take(rows.len() as int) =~= rows);
    powers
}

/// Checks that the validators of genesis are those of the configuration, where it names any.
pub fn check_genesis_validators(genesis: &Vec<Update>, config: &Vec<Validator>) -> (r: Result<
    (),
    StateError,
>)
    ensures
        config::check_outcome(
            r,
            genesis_difference(
                genesis@.map_values(|u: Update| u@),
                config@.map_values(|v: Validator| v@),
            ),
        ),
{
    if config.len() == 0 {
        return Ok(());
    }
    let genesis_validators = genesis_table(genesis);
    let config_validators = config_table(config);
    if genesis_validators.len() != config_validators.len() {
        return Err(
            StateError::ValidatorCounts {
                genesis: genesis_validators.len(),
                config: config_validators.len(),
            },
        );
    }
    let ghost g = genesis_validators@;
    let ghost c = config_validators@;
    let mut i: usize = 0;
    while i < genesis_validators.len()
        invariant
            i <= g.len(),
            g == genesis_validators@,
            c == config_validators@,
            g.len() == c.len(),
            g == genesis_powers(genesis@.map_values(|u: Update| u@)),
            c == config_powers(config@.map_values(|v: Validator| v@)),
            config@.len() > 0,
            difference_from(g, c, 0) == difference_from(g, c, i as int),
        decreases g.len() - i,
    {
        let key = genesis_validators.key(i);
        let genesis_power: u64 = genesis_validators.value(i);
        match config_validators.get(key.as_slice()) {
            Some(config_power) => {
                if config_power != genesis_power {
                    return Err(
                        StateError::PowerMismatch {
                            public_key: octets::copy_bytes(key.as_slice()),
                            genesis: genesis_power,
                            config: config_power,
                        },
                    );
                }
            },
            None => {
                return Err(
                    StateError::NotInConfig { public_key: octets::copy_bytes(key.as_slice()) },
                );
            },
        }
        i += 1;
    }
    Ok(())
}

proof fn lemma_all_declared_prefix(rows: Seq<RowView>, validators: Seq<UpdateView>, n: int)
    requires
        0 <= n <= validators.len(),
        all_declared(rows, validators.take(n)).1 is Some,
    ensures
        all_declared(rows, validators) == all_declared(rows, validators.take(n)),
    decreases validators.len() - n,
{
    if n < validators.len() {
        assert(validators.take(n + 1).drop_last() =~= validators.take(n));
        lemma_all_declared_prefix(rows, validators, n + 1);
    } else {
        assert(validators.take(n) =~= validators);
    }
}

impl State {
    fn declare_validators(&mut self, validators: &Vec<Update>) -> (r: Result<(), StateError>)
        ensures
            config::check_outcome(
                r,
                all_declared(
                    old(self)@.validators,
                    validators@.map_values(|u: Update| u@),
                ).1,
            ),
            final(self)@ == validator::with_validators(
                old(self)@,
                all_declared(
                    old(self)@.validators,
                    validators@.map_values(|u: Update| u@),
                ).0,
            ),
    {
        let ghost views = validators@.map_values(|u: Update| u@);
        let ghost before = self@;
        let ghost rows = self@.validators;
        let mut i: usize = 0;
        assert(views.take(0) =~= Seq::empty());
        while i < validators.len()
            invariant
                i <= validators.len(),
                views == validators@.map_values(|u: Update| u@),
                before == old(self)@,
                rows == before.validators,
                all_declared(rows, views.take(i as int)).1 is None,
                self@ == validator::with_validators(
                    before,
                    all_declared(rows, views.take(i as int)).0,
                ),
            decreases validators.len() - i,
        {
            proof {
                assert(views.take(i + 1).drop_last() =~= views.take(i as int));
                assert(views.take(i + 1).last() == validators@[i as int]@);
            }
            match self.declare_validator(validators[i]) {
                Ok(_) => {},
                Err(e) => {
                    proof {
                        lemma_all_declared_prefix(rows, views, i + 1);
                    }
                    return Err(e);
                },
            }
            i += 1;
        }
        assert(views.take(views.len() as int) =~= views);
        Ok(())
    }

    /// Begins the chain with the configuration that genesis gave, or the error that it gave, and
    /// with this hash of the state.
    pub fn start(
        &mut self,
        request: InitChain,
        config: Result<Config, StateError>,
        app_hash: Vec<u8>,
    ) -> (r: Result<InitChainResponse, StateError>)
        ensures
            start_outcome(
                r,
                started(old(self)@, request@, config_view(config)).1,
                request@,
                app_hash@,
            ),
            final(self)@ == started(old(self)@, request@, config_view(config)).0,
            r matches Ok(response) ==> {
                &&& request.initial_height == 1
                &&& config is Ok
                &&& response.consensus_params@ == request.consensus_params@
                &&& response.validators@ == request.validators@
                &&& response.app_hash@ == app_hash@
            },
            request.initial_height != 1 ==> r is Err && r->Err_0@ == StateErrorView::InitialHeight
                && final(self)@ == old(self)@,
            request.initial_height == 1 ==> final(self)@.chain_id == Some(request.chain_id@),
            final(self)@.block_height == old(self)@.block_height,
            final(self)@.block_time == old(self)@.block_time,
            final(self)@.voted == old(self)@.voted,
    {
        if request.initial_height != 1 {
            return Err(StateError::InitialHeight);
        }
        self.chain_id = Some(ChainId(request.chain_id));
        let config = match config {
            Ok(config) => config,
            Err(e) => return Err(e),
        };
        let checked = check_genesis_validators(&request.validators, &config.validators);
        self.set_config(config);
        match checked {
            Ok(_) => {},
            Err(e) => return Err(e),
        }
        match self.declare_validators(&request.validators) {
            Ok(_) => {},
            Err(e) => return Err(e),
        }
        Ok(
            InitChainResponse {
                consensus_params: request.consensus_params,
                validators: request.validators,
                app_hash,
            },
        )
    }

    /// Begins the chain. The hash of the state is the hash of the request. `parsed` is what came of
    /// reading, as a configuration, what `genesis_config_value` gives; it is not looked at where the
    /// application state is empty or holds no such value.
    pub fn init_chain(&mut self, request: InitChain, parsed: Result<Config, String>) -> (r: Result<
        InitChainResponse,
        StateError,
    >)
        ensures
            start_outcome(
                r,
                started(
                    old(self)@,
                    request@,
                    first_config(
                        request@.app_state_bytes,
                        json::json_member(request@.app_state_bytes, "config"@),
                        parsed_view(parsed),
                    ),
                ).1,
                request@,
                crypto::sha256(init_chain_message(request@)),
            ),
            final(self)@ == started(
                old(self)@,
                request@,
                first_config(
                    request@.app_state_bytes,
                    json::json_member(request@.app_state_bytes, "config"@),
                    parsed_view(parsed),
                ),
            ).0,
            r matches Ok(response) ==> {
                &&& request.initial_height == 1
                &&& response.consensus_params@ == request.consensus_params@
                &&& response.validators@ == request.validators@
                &&& response.app_hash@ == crypto::sha256(init_chain_message(request@))
            },
            request.initial_height != 1 ==> r is Err && r->Err_0@ == StateErrorView::InitialHeight
                && final(self)@ == old(self)@,
            request.initial_height == 1 ==> final(self)@.chain_id == Some(request.chain_id@),
    {
        let app_hash = crypto::sha256_digest(init_chain_bytes(&request).as_slice());
        let member = genesis_config_value(request.app_state_bytes.as_slice());
        let config = genesis_config(request.app_state_bytes.as_slice(), member, parsed);
        self.start(request, config, app_hash)
    }
}

/// How a configuration that may not be there is spoken of in contracts.
pub open spec fn config_view(config: Result<Config, StateError>) -> Result<
    ConfigView,
    StateErrorView,
> {
    match config {
        Ok(config) => Ok(config@),
        Err(e) => Err(e@),
    }
}

} // verus!
