//! The genesis file.

use vstd::prelude::*;

use crate::json;
use crate::text;

verus! {

/// Why there is no genesis file.
#[derive(Clone, Debug, PartialEq, Eq)]
pub enum GenesisError {
    /// A key file could not be read.
    NotRead,
    /// A key file is no JSON.
    NotJson(String),
}

pub enum GenesisErrorView {
    NotRead,
    NotJson(Seq<char>),
}

impl View for GenesisError {
    type V = GenesisErrorView;

    open spec fn view(&self) -> GenesisErrorView {
        match *self {
            GenesisError::NotRead => GenesisErrorView::NotRead,
            GenesisError::NotJson(cause) => GenesisErrorView::NotJson(cause@),
        }
    }
}

/// The text of a member, or `null` where there is none.
pub open spec fn member_or_null(member: Option<Seq<char>>) -> Seq<char> {
    match member {
        Some(value) => value,
        None => "null"@,
    }
}

/// The text of the entry of the validator with this index. `address` and `pub_key` are what its key
/// file holds under those names.
pub open spec fn entry_text(
    index: nat,
    address: Option<Seq<char>>,
    pub_key: Option<Seq<char>>,
) -> Seq<char> {
    json::object_text(
        seq![
            ("address"@, member_or_null(address)),
            ("name"@, json::json_quoted("validator-"@ + text::decimal(index))),
            ("power"@, json::json_quoted("10"@)),
            ("pub_key"@, member_or_null(pub_key)),
        ],
    )
}

/// The text of the entry of the validator with this index and this key file, or the error.
pub open spec fn entry(index: nat, key_file: Option<Seq<char>>) -> Result<
    Seq<char>,
    GenesisErrorView,
> {
    match key_file {
        None => Err(GenesisErrorView::NotRead),
        Some(key_file) => match json::json_value(vstd::utf8::encode_utf8(key_file)) {
            Err(e) => Err(GenesisErrorView::NotJson(e)),
            Ok(key) => Ok(
                entry_text(
                    index,
                    json::json_get(key, "address"@),
                    json::json_get(key, "pub_key"@),
                ),
            ),
        },
    }
}

/// The texts of the entries of the validators with these key files, or the first error.
pub open spec fn entries(key_files: Seq<Option<Seq<char>>>) -> Result<
    Seq<Seq<char>>,
    GenesisErrorView,
>
    decreases key_files.len(),
{
    if key_files.len() == 0 {
        Ok(Seq::empty())
    } else {
        match entries(key_files.drop_last()) {
            Err(e) => Err(e),
            Ok(before) => match entry((key_files.len() - 1) as nat, key_files.last()) {
                Err(e) => Err(e),
                Ok(last) => Ok(before.push(last)),
            },
        }
    }
}

/// The text of the limits on a block.
pub open spec fn block_params_text() -> Seq<char> {
    json::object_text(
        seq![
            ("max_bytes"@, json::json_quoted("22020096"@)),
            ("max_gas"@, json::json_quoted("-1"@)),
            ("time_iota_ms"@, json::json_quoted("1000"@)),
        ],
    )
}

/// The text of the limits on evidence.
pub open spec fn evidence_params_text() -> Seq<char> {
    json::object_text(
        seq![
            ("max_age_duration"@, json::json_quoted("172800000000000"@)),
            ("max_age_num_blocks"@, json::json_quoted("100000"@)),
            ("max_bytes"@, json::json_quoted("1048576"@)),
        ],
    )
}

/// The text of the limits on validators.
pub open spec fn validator_params_text() -> Seq<char> {
    json::object_text(
        seq![("pub_key_types"@, json::array_text(seq![json::json_quoted("ed25519"@)]))],
    )
}

/// The text of the consensus parameters.
pub open spec fn consensus_params_text() -> Seq<char> {
    json::object_text(
        seq![
            ("block"@, block_params_text()),
            ("evidence"@, evidence_params_text()),
            ("validator"@, validator_params_text()),
            ("version"@, json::object_text(Seq::empty())),
        ],
    )
}

/// The members of the genesis file.
pub open spec fn genesis_members(
    genesis_time: Seq<char>,
    chain_id: Seq<char>,
    entries: Seq<Seq<char>>,
) -> Seq<(Seq<char>, Seq<char>)> {
    seq![
        ("app_hash"@, json::json_quoted(""@)),
        ("chain_id"@, json::json_quoted(chain_id)),
        ("consensus_params"@, consensus_params_text()),
        ("genesis_time"@, json::json_quoted(genesis_time)),
        ("initial_height"@, json::json_quoted("1"@)),
        ("validators"@, json::array_text(entries)),
    ]
}

/// The text of the genesis file.
pub open spec fn genesis_text(
    genesis_time: Seq<char>,
    chain_id: Seq<char>,
    entries: Seq<Seq<char>>,
) -> Seq<char> {
    json::object_text(genesis_members(genesis_time, chain_id, entries))
}

/// Whether this is the genesis file of a chain that begins at this time, with the validators of
/// these key files, or the first error.
pub open spec fn genesis_outcome(
    r: Result<String, GenesisError>,
    genesis_time: Seq<char>,
    chain_id: Seq<char>,
    key_files: Seq<Option<Seq<char>>>,
) -> bool {
    match entries(key_files) {
        Err(e) => r matches Err(found) && found@ == e,
        Ok(entries) => {
            let text = genesis_text(genesis_time, chain_id, entries);
            &&& r matches Ok(file) && json::laid_out(file@, text)
            &&& json::holds_members(text, genesis_members(genesis_time, chain_id, entries))
        },
    }
}

fn or_null(member: Option<serde_json::Value>) -> (r: serde_json::Value)
    ensures
        json::json_text(r) == member_or_null(json::option_view(member)),
{
    match member {
        Some(value) => value,
        None => json::null(),
    }
}

/// The entry of the validator with this index. `address` and `pub_key` are what its key file holds
/// under those names.
pub fn entry_value(
    index: usize,
    address: Option<serde_json::Value>,
    pub_key: Option<serde_json::Value>,
) -> (r: serde_json::Value)
    ensures
        json::json_text(r) == entry_text(
            index as nat,
            json::option_view(address),
            json::option_view(pub_key),
        ),
{
    let ghost address_view = json::option_view(address);
    let ghost pub_key_view = json::option_view(pub_key);
    let mut name = "validator-".to_string();
    name.append(text::decimal_text(index as u64).as_str());
    let members = vec![
        ("address", or_null(address)),
        ("name", json::string(name.as_str())),
        ("power", json::string("10")),
        ("pub_key", or_null(pub_key)),
    ];
    proof {
        let views = json::members_view(members@);
        assert(views =~= seq![
            ("address"@, member_or_null(address_view)),
            ("name"@, json::json_quoted("validator-"@ + text::decimal(index as nat))),
            ("power"@, json::json_quoted("10"@)),
            ("pub_key"@, member_or_null(pub_key_view)),
        ]);
        reveal_strlit("address");
        reveal_strlit("name");
        reveal_strlit("power");
        reveal_strlit("pub_key");
        assert(json::less_at("address"@, "name"@, 0));
        assert(json::less_at("name"@, "power"@, 0));
        assert(json::less_at("power"@, "pub_key"@, 1));
        json::lemma_in_order(views, seq![0, 0, 1]);
    }
    json::object(members)
}

/// The entry of the validator with this index and this key file.
pub fn validator_entry(index: usize, key_file: &Option<String>) -> (r: Result<
    serde_json::Value,
    GenesisError,
>)
    ensures
        match r {
            Ok(value) => entry(index as nat, text::option_view(*key_file)) == Ok::<
                Seq<char>,
                GenesisErrorView,
            >(json::json_text(value)),
            Err(e) => entry(index as nat, text::option_view(*key_file)) == Err::<
                Seq<char>,
                GenesisErrorView,
            >(e@),
        },
{
    let key_file = match key_file {
        Some(key_file) => key_file,
        None => return Err(GenesisError::NotRead),
    };
    let key = match json::read(key_file.as_str().as_bytes()) {
        Ok(key) => key,
        Err(e) => return Err(GenesisError::NotJson(e)),
    };
    Ok(entry_value(index, json::member(&key, "address"), json::member(&key, "pub_key")))
}

pub(crate) proof fn lemma_entries_prefix(key_files: Seq<Option<Seq<char>>>, n: int)
    requires
        0 <= n <= key_files.len(),
        entries(key_files.take(n)) is Err,
    ensures
        entries(key_files) == entries(key_files.take(n)),
    decreases key_files.len() - n,
{
    if n < key_files.len() {
        assert(key_files.take(n + 1).drop_last() =~= key_files.take(n));
        lemma_entries_prefix(key_files, n + 1);
    } else {
        assert(key_files.take(n) =~= key_files);
    }
}

/// The entries of the validators with these key files, or the first error.
pub fn validator_entries(key_files: &Vec<Option<String>>) -> (r: Result<
    Vec<serde_json::Value>,
    GenesisError,
>)
    ensures
        match r {
            Ok(values) => entries(text::option_views(key_files@)) == Ok::<
                Seq<Seq<char>>,
                GenesisErrorView,
            >(json::json_texts(values@)),
            Err(e) => entries(text::option_views(key_files@)) == Err::<
                Seq<Seq<char>>,
                GenesisErrorView,
            >(e@),
        },
{
    let ghost views = text::option_views(key_files@);
    let mut values: Vec<serde_json::Value> = Vec::new();
    let mut i: usize = 0;
    proof {
        assert(views.take(0) =~= Seq::empty());
        assert(json::json_texts(values@) =~= Seq::empty());
    }
    while i < key_files.len()
        invariant
            i <= key_files.len(),
            views == text::option_views(key_files@),
            entries(views.take(i as int)) == Ok::<Seq<Seq<char>>, GenesisErrorView>(
                json::json_texts(values@),
            ),
        decreases key_files.len() - i,
    {
        proof {
            assert(views.take(i + 1).drop_last() =~= views.take(i as int));
            assert(views.take(i + 1).last() == text::option_view(key_files@[i as int]));
        }
        match validator_entry(i, &key_files[i]) {
            Ok(value) => {
                let ghost before = json::json_texts(values@);
                let ghost last = json::json_text(value);
                values.push(value);
                assert(json::json_texts(values@) =~= before.push(last));
            },
            Err(e) => {
                proof {
                    lemma_entries_prefix(views, i + 1);
                }
                return Err(e);
            },
        }
        i += 1;
    }
    assert(views.take(views.len() as int) =~= views);
    Ok(values)
}

fn block_params() -> (r: serde_json::Value)
    ensures
        json::json_text(r) == block_params_text(),
{
    let members = vec![
        ("max_bytes", json::string("22020096")),
        ("max_gas", json::string("-1")),
        ("time_iota_ms", json::string("1000")),
    ];
    proof {
        let views = json::members_view(members@);
        assert(views =~= seq![
            ("max_bytes"@, json::json_quoted("22020096"@)),
            ("max_gas"@, json::json_quoted("-1"@)),
            ("time_iota_ms"@, json::json_quoted("1000"@)),
        ]);
        reveal_strlit("max_bytes");
        reveal_strlit("max_gas");
        reveal_strlit("time_iota_ms");
        assert(json::less_at("max_bytes"@, "max_gas"@, 4));
        assert(json::less_at("max_gas"@, "time_iota_ms"@, 0));
        json::lemma_in_order(views, seq![4, 0]);
    }
    json::object(members)
}

fn evidence_params() -> (r: serde_json::Value)
    ensures
        json::json_text(r) == evidence_params_text(),
{
    let members = vec![
        ("max_age_duration", json::string("172800000000000")),
        ("max_age_num_blocks", json::string("100000")),
        ("max_bytes", json::string("1048576")),
    ];
    proof {
        let views = json::members_view(members@);
        assert(views =~= seq![
            ("max_age_duration"@, json::json_quoted("172800000000000"@)),
            ("max_age_num_blocks"@, json::json_quoted("100000"@)),
            ("max_bytes"@, json::json_quoted("1048576"@)),
        ]);
        reveal_strlit("max_age_duration");
        reveal_strlit("max_age_num_blocks");
        reveal_strlit("max_bytes");
        assert(json::less_at("max_age_duration"@, "max_age_num_blocks"@, 8));
        assert(json::less_at("max_age_num_blocks"@, "max_bytes"@, 4));
        json::lemma_in_order(views, seq![8, 4]);
    }
    json::object(members)
}

fn validator_params() -> (r: serde_json::Value)
    ensures
        json::json_text(r) == validator_params_text(),
{
    let types = vec![json::string("ed25519")];
    assert(json::json_texts(types@) =~= seq![json::json_quoted("ed25519"@)]);
    let members = vec![("pub_key_types", json::array(types))];
    proof {
        let views = json::members_view(members@);
        assert(views =~= seq![
            ("pub_key_types"@, json::array_text(seq![json::json_quoted("ed25519"@)])),
        ]);
        json::lemma_in_order(views, Seq::empty());
    }
    json::object(members)
}

fn empty_object() -> (r: serde_json::Value)
    ensures
        json::json_text(r) == json::object_text(Seq::empty()),
{
    let members: Vec<(&str, serde_json::Value)> = Vec::new();
    proof {
        let views = json::members_view(members@);
        assert(views =~= Seq::empty());
        json::lemma_in_order(views, Seq::empty());
    }
    json::object(members)
}

fn consensus_params() -> (r: serde_json::Value)
    ensures
        json::json_text(r) == consensus_params_text(),
{
    let members = vec![
        ("block", block_params()),
        ("evidence", evidence_params()),
        ("validator", validator_params()),
        ("version", empty_object()),
    ];
    proof {
        let views = json::members_view(members@);
        assert(views =~= seq![
            ("block"@, block_params_text()),
            ("evidence"@, evidence_params_text()),
            ("validator"@, validator_params_text()),
            ("version"@, json::object_text(Seq::empty())),
        ]);
        reveal_strlit("block");
        reveal_strlit("evidence");
        reveal_strlit("validator");
        reveal_strlit("version");
        assert(json::less_at("block"@, "evidence"@, 0));
        assert(json::less_at("evidence"@, "validator"@, 0));
        assert(json::less_at("validator"@, "version"@, 1));
        json::lemma_in_order(views, seq![0, 0, 1]);
    }
    json::object(members)
}

/// The genesis file, with these entries for its validators.
pub fn genesis_value(
    genesis_time: &str,
    chain_id: &str,
    entries: Vec<serde_json::Value>,
) -> (r: serde_json::Value)
    ensures
        json::json_text(r) == genesis_text(genesis_time@, chain_id@, json::json_texts(entries@)),
        json::holds_members(
            json::json_text(r),
            genesis_members(genesis_time@, chain_id@, json::json_texts(entries@)),
        ),
{
    let ghost entry_texts = json::json_texts(entries@);
    let members = vec![
        ("app_hash", json::string("")),
        ("chain_id", json::string(chain_id)),
        ("consensus_params", consensus_params()),
        ("genesis_time", json::string(genesis_time)),
        ("initial_height", json::string("1")),
        ("validators", json::array(entries)),
    ];
    proof {
        let views = json::members_view(members@);
        assert(views =~= genesis_members(genesis_time@, chain_id@, entry_texts));
        reveal_strlit("app_hash");
        reveal_strlit("chain_id");
        reveal_strlit("consensus_params");
        reveal_strlit("genesis_time");
        reveal_strlit("initial_height");
        reveal_strlit("validators");
        assert(json::less_at("app_hash"@, "chain_id"@, 0));
        assert(json::less_at("chain_id"@, "consensus_params"@, 1));
        assert(json::less_at("consensus_params"@, "genesis_time"@, 0));
        assert(json::less_at("genesis_time"@, "initial_height"@, 0));
        assert(json::less_at("initial_height"@, "validators"@, 0));
        json::lemma_in_order(views, seq![0, 1, 0, 0, 0]);
    }
    json::object(members)
}

/// The genesis file of a chain that begins at this time, with the validators of these key files, each
/// of which is there where it could be read.
pub fn genesis_at(genesis_time: &str, chain_id: &str, key_files: &Vec<Option<String>>) -> (r:
    Result<String, GenesisError>)
    ensures
        genesis_outcome(r, genesis_time@, chain_id@, text::option_views(key_files@)),
{
    match validator_entries(key_files) {
        Ok(entries) => match json::pretty(&genesis_value(genesis_time, chain_id, entries)) {
            Ok(file) => Ok(file),
            Err(e) => Err(GenesisError::NotJson(e)),
        },
        Err(e) => Err(e),
    }
}

/// The text of the application state with the configuration that has this text.
pub open spec fn app_state_text(config: Seq<char>) -> Seq<char> {
    json::object_text(seq![("config"@, config)])
}

/// The application state with this configuration, which is found in it.
pub fn app_state_value(config: serde_json::Value) -> (r: serde_json::Value)
    ensures
        json::json_text(r) == app_state_text(json::json_text(config)),
        json::json_get(json::json_text(r), "config"@) == Some(json::json_text(config)),
{
    let ghost config_text = json::json_text(config);
    let members = vec![("config", config)];
    proof {
        let views = json::members_view(members@);
        assert(views =~= seq![("config"@, config_text)]);
        json::lemma_in_order(views, Seq::empty());
        assert(views[0].0 == "config"@);
    }
    json::object(members)
}

/// Why a genesis file was not given an application state.
#[derive(Clone, Debug, PartialEq, Eq)]
pub enum InjectError {
    /// The file could not be read.
    NotRead,
    /// The file is no JSON.
    NotJson(String),
    /// What the file holds is no object.
    NotObject,
}

pub enum InjectErrorView {
    NotRead,
    NotJson(Seq<char>),
    NotObject,
}

impl View for InjectError {
    type V = InjectErrorView;

    open spec fn view(&self) -> InjectErrorView {
        match *self {
            InjectError::NotRead => InjectErrorView::NotRead,
            InjectError::NotJson(cause) => InjectErrorView::NotJson(cause@),
            InjectError::NotObject => InjectErrorView::NotObject,
        }
    }
}

/// The text of the genesis file with this text, once the configuration with this text stands in its
/// application state.
pub open spec fn with_app_state(genesis: Seq<char>, config: Seq<char>) -> Seq<char> {
    json::json_set(genesis, "app_state"@, app_state_text(config))
}

/// Whether a genesis file with this text, and the configuration with this text in its application
/// state, can be read back as they are.
pub open spec fn stays_readable(genesis: Seq<char>, config: Seq<char>) -> bool {
    json::readable(genesis) && json::readable_from(app_state_text(config), 0, false, 1)
}

/// Whether the configuration stands in the application state of the genesis file with text `after`,
/// which is otherwise as the one with text `before`, and the same where it stood there before.
pub open spec fn holds_config(before: Seq<char>, config: Seq<char>, after: Seq<char>) -> bool {
    &&& json::is_object_text(after)
    &&& forall|name: Seq<char>| #[trigger]
        json::json_get(after, name) == (if name == "app_state"@ {
            Some(app_state_text(config))
        } else {
            json::json_get(before, name)
        })
    &&& json::json_get(app_state_text(config), "config"@) == Some(config)
    &&& json::json_get(before, "app_state"@) == Some(app_state_text(config)) ==> after == before
    &&& stays_readable(before, config) ==> json::readable(after)
}

/// The text of a genesis file once it has this configuration in its application state, or the error.
pub open spec fn injected(genesis_file: Option<Seq<char>>, config: Seq<char>) -> Result<
    Seq<char>,
    InjectErrorView,
> {
    match genesis_file {
        None => Err(InjectErrorView::NotRead),
        Some(genesis_file) => match json::json_value(vstd::utf8::encode_utf8(genesis_file)) {
            Err(e) => Err(InjectErrorView::NotJson(e)),
            Ok(genesis) => if json::takes_members(genesis) {
                Ok(with_app_state(genesis, config))
            } else {
                Err(InjectErrorView::NotObject)
            },
        },
    }
}

/// What a genesis file holds.
pub open spec fn genesis_in(genesis_file: Seq<char>) -> Seq<char> {
    json::json_value(vstd::utf8::encode_utf8(genesis_file))->Ok_0
}

/// Whether this is the genesis file once it has this configuration in its application state, or the
/// error.
pub open spec fn inject_outcome(
    r: Result<String, InjectError>,
    genesis_file: Option<Seq<char>>,
    config: Seq<char>,
) -> bool {
    match injected(genesis_file, config) {
        Err(e) => r matches Err(found) && found@ == e,
        Ok(after) => {
            &&& r matches Ok(file) && json::laid_out(file@, after)
            &&& holds_config(genesis_in(genesis_file->0), config, after)
        },
    }
}

/// A genesis file with this configuration in its application state. Where the file has an application
/// state, it is replaced; all else stays.
pub fn inject_app_state(genesis_file: &Option<String>, config: &serde_json::Value) -> (r: Result<
    String,
    InjectError,
>)
    ensures
        inject_outcome(r, text::option_view(*genesis_file), json::json_text(*config)),
{
    let genesis_file = match genesis_file {
        Some(genesis_file) => genesis_file,
        None => return Err(InjectError::NotRead),
    };
    let mut genesis = match json::read(genesis_file.as_str().as_bytes()) {
        Ok(genesis) => genesis,
        Err(e) => return Err(InjectError::NotJson(e)),
    };
    if !json::is_object(&genesis) && !json::is_null(&genesis) {
        return Err(InjectError::NotObject);
    }
    let state = app_state_value(json::copy(config));
    json::set(&mut genesis, "app_state", state);
    match json::pretty(&genesis) {
        Ok(file) => Ok(file),
        Err(e) => Err(InjectError::NotJson(e)),
    }
}

/// A genesis file that was given a configuration holds it in its application state, in place of what
/// stood there, and all else that it held before.
pub proof fn lemma_injected_config_is_found(
    r: Result<String, InjectError>,
    genesis_file: Seq<char>,
    config: Seq<char>,
    name: Seq<char>,
)
    requires
        inject_outcome(r, Some(genesis_file), config),
        r is Ok,
        stays_readable(genesis_in(genesis_file), config),
    ensures
        json::json_member(vstd::utf8::encode_utf8(r->Ok_0@), "app_state"@) == Ok::<
            Option<Seq<char>>,
            Seq<char>,
        >(Some(app_state_text(config))),
        json::json_get(app_state_text(config), "config"@) == Some(config),
        name != "app_state"@ ==> json::json_member(vstd::utf8::encode_utf8(r->Ok_0@), name)
            == json::json_member(vstd::utf8::encode_utf8(genesis_file), name),
{
    let after = injected(Some(genesis_file), config)->Ok_0;
    assert(json::json_get(after, "app_state"@) == Some(app_state_text(config)));
    let before = genesis_in(genesis_file);
    if name != "app_state"@ {
        assert(json::json_get(after, name) == json::json_get(before, name));
    }
}

/// Putting the same configuration into a genesis file a second time changes nothing.
pub proof fn lemma_injecting_twice(
    once: Result<String, InjectError>,
    twice: Result<String, InjectError>,
    genesis_file: Seq<char>,
    config: Seq<char>,
)
    requires
        inject_outcome(once, Some(genesis_file), config),
        once is Ok,
        stays_readable(genesis_in(genesis_file), config),
        inject_outcome(twice, Some(once->Ok_0@), config),
    ensures
        twice is Ok,
        twice->Ok_0@ == once->Ok_0@,
{
    let after = injected(Some(genesis_file), config)->Ok_0;
    assert(json::json_get(after, "app_state"@) == Some(app_state_text(config)));
}

/// Identical genesis files stay identical.
pub proof fn lemma_identical_files_stay_identical(
    one: Result<String, InjectError>,
    other: Result<String, InjectError>,
    genesis_file: Seq<char>,
    config: Seq<char>,
)
    requires
        inject_outcome(one, Some(genesis_file), config),
        inject_outcome(other, Some(genesis_file), config),
    ensures
        one is Ok <==> other is Ok,
        one is Ok ==> one->Ok_0@ == other->Ok_0@,
        one is Err ==> one->Err_0@ == other->Err_0@,
{
}

} // verus!
