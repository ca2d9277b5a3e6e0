//! What holds of every genesis file.

use vstd::prelude::*;

use crate::crypto;
use crate::deployment;
use crate::genesis;
use crate::genesis::GenesisError;
use crate::genesis::GenesisErrorView;
use crate::genesis::InjectError;
use crate::hexadecimal;
use crate::json;
use crate::json_laws;
use crate::keys;
use crate::node::WebcatNodeView;
use crate::text;

verus! {

proof fn lemma_strings_pass(members: Seq<(Seq<char>, Seq<char>)>, strings: Seq<Seq<char>>)
    requires
        members.len() == strings.len(),
        forall|i: int|
            0 <= i < members.len() ==> (#[trigger] members[i]).1 == json::json_quoted(strings[i]),
    ensures
        json_laws::passes(json::object_text(members), 1),
{
    assert forall|i: int| 0 <= i < members.len() implies json_laws::passes(
        (#[trigger] members[i]).1,
        0,
    ) by {
        json_laws::lemma_quoted_passes(strings[i]);
    }
    json_laws::lemma_object_passes(members, 0);
}

proof fn lemma_consensus_params_pass()
    ensures
        json_laws::passes(genesis::consensus_params_text(), 3),
{
    lemma_strings_pass(
        seq![
            ("max_bytes"@, json::json_quoted("22020096"@)),
            ("max_gas"@, json::json_quoted("-1"@)),
            ("time_iota_ms"@, json::json_quoted("1000"@)),
        ],
        seq!["22020096"@, "-1"@, "1000"@],
    );
    lemma_strings_pass(
        seq![
            ("max_age_duration"@, json::json_quoted("172800000000000"@)),
            ("max_age_num_blocks"@, json::json_quoted("100000"@)),
            ("max_bytes"@, json::json_quoted("1048576"@)),
        ],
        seq!["172800000000000"@, "100000"@, "1048576"@],
    );
    let types = seq![json::json_quoted("ed25519"@)];
    json_laws::lemma_quoted_passes("ed25519"@);
    assert forall|i: int| 0 <= i < types.len() implies json_laws::passes(
        #[trigger] types[i],
        0,
    ) by {}
    json_laws::lemma_array_passes(types, 0);
    let named = seq![("pub_key_types"@, json::array_text(types))];
    assert forall|i: int| 0 <= i < named.len() implies json_laws::passes(
        (#[trigger] named[i]).1,
        1,
    ) by {}
    json_laws::lemma_object_passes(named, 1);
    let none = Seq::<(Seq<char>, Seq<char>)>::empty();
    json_laws::lemma_object_passes(none, 0);
    let members = seq![
        ("block"@, genesis::block_params_text()),
        ("evidence"@, genesis::evidence_params_text()),
        ("validator"@, genesis::validator_params_text()),
        ("version"@, json::object_text(none)),
    ];
    json_laws::lemma_more_levels_pass(members[0].1, 1, 2);
    json_laws::lemma_more_levels_pass(members[1].1, 1, 2);
    json_laws::lemma_more_levels_pass(members[3].1, 1, 2);
    assert forall|i: int| 0 <= i < members.len() implies json_laws::passes(
        (#[trigger] members[i]).1,
        2,
    ) by {}
    json_laws::lemma_object_passes(members, 2);
}

/// The entry of a validator passes where what its key file holds does, one level deeper.
pub proof fn lemma_entry_passes(
    index: nat,
    address: Option<Seq<char>>,
    pub_key: Option<Seq<char>>,
    levels: int,
)
    requires
        levels >= 0,
        address matches Some(value) ==> json_laws::passes(value, levels),
        pub_key matches Some(value) ==> json_laws::passes(value, levels),
    ensures
        json_laws::passes(genesis::entry_text(index, address, pub_key), levels + 1),
{
    let name = "validator-"@ + text::decimal(index);
    let members = seq![
        ("address"@, genesis::member_or_null(address)),
        ("name"@, json::json_quoted(name)),
        ("power"@, json::json_quoted("10"@)),
        ("pub_key"@, genesis::member_or_null(pub_key)),
    ];
    json_laws::lemma_null_passes();
    json_laws::lemma_more_levels_pass("null"@, 0, levels);
    json_laws::lemma_quoted_passes(name);
    json_laws::lemma_more_levels_pass(json::json_quoted(name), 0, levels);
    json_laws::lemma_quoted_passes("10"@);
    json_laws::lemma_more_levels_pass(json::json_quoted("10"@), 0, levels);
    assert forall|i: int| 0 <= i < members.len() implies json_laws::passes(
        (#[trigger] members[i]).1,
        levels,
    ) by {}
    json_laws::lemma_object_passes(members, levels);
}

/// A genesis file can be read back as it is where the entries of its validators pass.
pub proof fn lemma_genesis_is_readable(
    genesis_time: Seq<char>,
    chain_id: Seq<char>,
    entries: Seq<Seq<char>>,
)
    requires
        forall|i: int| 0 <= i < entries.len() ==> json_laws::passes(#[trigger] entries[i], 125),
    ensures
        json::readable(genesis::genesis_text(genesis_time, chain_id, entries)),
{
    let members = genesis::genesis_members(genesis_time, chain_id, entries);
    json_laws::lemma_quoted_passes(""@);
    json_laws::lemma_more_levels_pass(members[0].1, 0, 126);
    json_laws::lemma_quoted_passes(chain_id);
    json_laws::lemma_more_levels_pass(members[1].1, 0, 126);
    lemma_consensus_params_pass();
    json_laws::lemma_more_levels_pass(members[2].1, 3, 126);
    json_laws::lemma_quoted_passes(genesis_time);
    json_laws::lemma_more_levels_pass(members[3].1, 0, 126);
    json_laws::lemma_quoted_passes("1"@);
    json_laws::lemma_more_levels_pass(members[4].1, 0, 126);
    json_laws::lemma_array_passes(entries, 125);
    assert forall|i: int| 0 <= i < members.len() implies json_laws::passes(
        (#[trigger] members[i]).1,
        126,
    ) by {}
    json_laws::lemma_object_passes(members, 126);
    json_laws::lemma_passing_is_readable(
        genesis::genesis_text(genesis_time, chain_id, entries),
        127,
    );
}

/// A genesis file is read back as it is where the address and the public key in each key file pass.
pub proof fn lemma_genesis_of_passing_keys_is_readable(
    genesis_time: Seq<char>,
    chain_id: Seq<char>,
    addresses: Seq<Option<Seq<char>>>,
    pub_keys: Seq<Option<Seq<char>>>,
)
    requires
        addresses.len() == pub_keys.len(),
        forall|i: int|
            0 <= i < addresses.len() ==> ((#[trigger] addresses[i]) matches Some(value)
                ==> json_laws::passes(value, 124)),
        forall|i: int|
            0 <= i < pub_keys.len() ==> ((#[trigger] pub_keys[i]) matches Some(value)
                ==> json_laws::passes(value, 124)),
    ensures
        json::readable(
            genesis::genesis_text(
                genesis_time,
                chain_id,
                Seq::new(
                    addresses.len(),
                    |i: int| genesis::entry_text(i as nat, addresses[i], pub_keys[i]),
                ),
            ),
        ),
{
    let entries = Seq::new(
        addresses.len(),
        |i: int| genesis::entry_text(i as nat, addresses[i], pub_keys[i]),
    );
    assert forall|i: int| 0 <= i < entries.len() implies json_laws::passes(
        #[trigger] entries[i],
        125,
    ) by {
        lemma_entry_passes(i as nat, addresses[i], pub_keys[i], 124);
    }
    lemma_genesis_is_readable(genesis_time, chain_id, entries);
}

/// Whether these are the key files of validators with these secret keys.
pub open spec fn are_key_files(
    key_files: Seq<Option<Seq<char>>>,
    secrets: Seq<Seq<u8>>,
) -> bool {
    &&& key_files.len() == secrets.len()
    &&& forall|i: int|
        0 <= i < key_files.len() ==> (#[trigger] key_files[i]) is Some
            && keys::is_validator_key_file(key_files[i]->0, secrets[i])
}

/// The entry in the genesis file of the validator with this secret key.
pub open spec fn new_entry(index: nat, secret: Seq<u8>) -> Seq<char> {
    genesis::entry_text(
        index,
        Some(keys::validator_address_text(secret)),
        Some(keys::validator_public_text(secret)),
    )
}

/// The entries in the genesis file of validators with new keys hold the addresses and the public keys
/// that belong to their secret keys, in their order.
pub proof fn lemma_genesis_names_new_keys(
    key_files: Seq<Option<Seq<char>>>,
    secrets: Seq<Seq<u8>>,
)
    requires
        are_key_files(key_files, secrets),
    ensures
        genesis::entries(key_files) == Ok::<Seq<Seq<char>>, GenesisErrorView>(
            Seq::new(secrets.len(), |i: int| new_entry(i as nat, secrets[i])),
        ),
    decreases key_files.len(),
{
    let expected = Seq::new(secrets.len(), |i: int| new_entry(i as nat, secrets[i]));
    if key_files.len() > 0 {
        let front = key_files.drop_last();
        let rest = secrets.drop_last();
        assert forall|i: int| 0 <= i < front.len() implies (#[trigger] front[i]) is Some
            && keys::is_validator_key_file(front[i]->0, rest[i]) by {
            assert(front[i] == key_files[i]);
        }
        lemma_genesis_names_new_keys(front, rest);
        let n = key_files.len() - 1;
        assert(key_files[n] is Some);
        assert(Seq::new(rest.len(), |i: int| new_entry(i as nat, rest[i])).push(
            new_entry(n as nat, secrets[n]),
        ) =~= expected);
    } else {
        assert(expected =~= Seq::empty());
    }
}

/// A genesis file can be made from the new keys of validators, and is read back as it is.
pub proof fn lemma_genesis_of_new_keys(
    r: Result<String, GenesisError>,
    genesis_time: Seq<char>,
    chain_id: Seq<char>,
    key_files: Seq<Option<Seq<char>>>,
    secrets: Seq<Seq<u8>>,
)
    requires
        genesis::genesis_outcome(r, genesis_time, chain_id, key_files),
        are_key_files(key_files, secrets),
    ensures
        r is Ok,
        ({
            let entries = Seq::new(secrets.len(), |i: int| new_entry(i as nat, secrets[i]));
            let text = genesis::genesis_text(genesis_time, chain_id, entries);
            &&& json::readable(text)
            &&& json::reads_back(r->Ok_0@, text)
            &&& json::holds_members(
                text,
                genesis::genesis_members(genesis_time, chain_id, entries),
            )
        }),
{
    let entries = Seq::new(secrets.len(), |i: int| new_entry(i as nat, secrets[i]));
    lemma_genesis_names_new_keys(key_files, secrets);
    assert forall|i: int| 0 <= i < entries.len() implies json_laws::passes(
        #[trigger] entries[i],
        125,
    ) by {
        let public = crypto::ed25519_public(secrets[i]);
        let address = hexadecimal::hex_upper_text(crypto::address(public));
        json_laws::lemma_quoted_passes(address);
        json_laws::lemma_more_levels_pass(json::json_quoted(address), 0, 1);
        keys::lemma_key_passes("tendermint/PubKeyEd25519"@, public);
        lemma_entry_passes(
            i as nat,
            Some(keys::validator_address_text(secrets[i])),
            Some(keys::validator_public_text(secrets[i])),
            1,
        );
        json_laws::lemma_more_levels_pass(entries[i], 2, 125);
    }
    lemma_genesis_is_readable(genesis_time, chain_id, entries);
}

/// An application state can be read back as it is where its configuration passes.
pub proof fn lemma_app_state_is_readable(config: Seq<char>)
    requires
        json_laws::passes(config, 125),
    ensures
        json::readable_from(genesis::app_state_text(config), 0, false, 1),
{
    let members = seq![("config"@, config)];
    let state = genesis::app_state_text(config);
    assert forall|i: int| 0 <= i < members.len() implies json_laws::passes(
        (#[trigger] members[i]).1,
        125,
    ) by {}
    json_laws::lemma_object_passes(members, 125);
    let empty = Seq::<char>::empty();
    assert(empty + state + empty =~= state);
    assert(json::readable_from(empty + state + empty, empty.len() as int, false, 1)
        == json::readable_from(state, (empty.len() + state.len()) as int, false, 1));
}

/// A network whose validators have new keys can be given its first configuration: the genesis file
/// that is made from them takes it, holds it in its application state, and holds all else as it was
/// made.
pub proof fn lemma_new_network_takes_a_config(
    made: Result<String, GenesisError>,
    given: Result<String, InjectError>,
    genesis_time: Seq<char>,
    chain_id: Seq<char>,
    key_files: Seq<Option<Seq<char>>>,
    secrets: Seq<Seq<u8>>,
    config: Seq<char>,
)
    requires
        genesis::genesis_outcome(made, genesis_time, chain_id, key_files),
        are_key_files(key_files, secrets),
        made is Ok ==> genesis::inject_outcome(given, Some(made->Ok_0@), config),
        json::readable_from(genesis::app_state_text(config), 0, false, 1),
    ensures
        made is Ok,
        given is Ok,
        json::json_member(vstd::utf8::encode_utf8(given->Ok_0@), "app_state"@) == Ok::<
            Option<Seq<char>>,
            Seq<char>,
        >(Some(genesis::app_state_text(config))),
        json::json_get(genesis::app_state_text(config), "config"@) == Some(config),
        ({
            let members = genesis::genesis_members(
                genesis_time,
                chain_id,
                Seq::new(secrets.len(), |i: int| new_entry(i as nat, secrets[i])),
            );
            forall|i: int|
                0 <= i < members.len() ==> json::json_member(
                    vstd::utf8::encode_utf8(given->Ok_0@),
                    (#[trigger] members[i]).0,
                ) == Ok::<Option<Seq<char>>, Seq<char>>(Some(members[i].1))
        }),
{
    reveal_strlit("{");
    lemma_genesis_of_new_keys(made, genesis_time, chain_id, key_files, secrets);
    let entries = Seq::new(secrets.len(), |i: int| new_entry(i as nat, secrets[i]));
    let members = genesis::genesis_members(genesis_time, chain_id, entries);
    let genesis_file = made->Ok_0@;
    assert(json::is_object_text(genesis::genesis_text(genesis_time, chain_id, entries)));
    assert forall|i: int| 0 <= i < members.len() implies json::json_member(
        vstd::utf8::encode_utf8(given->Ok_0@),
        (#[trigger] members[i]).0,
    ) == Ok::<Option<Seq<char>>, Seq<char>>(Some(members[i].1)) by {
        reveal_strlit("app_state");
        reveal_strlit("app_hash");
        reveal_strlit("chain_id");
        reveal_strlit("consensus_params");
        reveal_strlit("genesis_time");
        reveal_strlit("initial_height");
        reveal_strlit("validators");
        assert(members[i].0 != "app_state"@) by {
            assert(members[i].0.len() != 9 || members[i].0[0] != 'a');
        }
        genesis::lemma_injected_config_is_found(given, genesis_file, config, members[i].0);
    }
    genesis::lemma_injected_config_is_found(given, genesis_file, config, "app_state"@);
}

/// Every node of a network whose validators have new keys, and whose genesis files are those that were
/// made from them, is given a configuration.
pub proof fn lemma_new_network_takes_a_config_at_every_node(
    made: Result<String, GenesisError>,
    genesis_time: Seq<char>,
    chain_id: Seq<char>,
    key_files: Seq<Option<Seq<char>>>,
    secrets: Seq<Seq<u8>>,
    nodes: Seq<WebcatNodeView>,
    config: Seq<char>,
)
    requires
        genesis::genesis_outcome(made, genesis_time, chain_id, key_files),
        are_key_files(key_files, secrets),
    ensures
        made is Ok,
        ({
            let genesis_files = Seq::new(nodes.len(), |i: int| Some(made->Ok_0@));
            let given = deployment::injected_files(nodes, genesis_files, config);
            &&& given.1 is None
            &&& given.0.len() == nodes.len()
            &&& forall|i: int|
                0 <= i < nodes.len() ==> (#[trigger] given.0[i]).path == nodes[i].genesis_path()
                    && given.0[i].content == given.0[0].content
        }),
{
    reveal_strlit("{");
    lemma_genesis_of_new_keys(made, genesis_time, chain_id, key_files, secrets);
    let entries = Seq::new(secrets.len(), |i: int| new_entry(i as nat, secrets[i]));
    assert(json::is_object_text(genesis::genesis_text(genesis_time, chain_id, entries)));
    let genesis_files = Seq::new(nodes.len(), |i: int| Some(made->Ok_0@));
    assert forall|i: int| 0 <= i < nodes.len() implies genesis::injected(
        #[trigger] genesis_files[i],
        config,
    ) is Ok by {}
    deployment::lemma_every_node_is_given_the_config(nodes, genesis_files, config);
    let given = deployment::injected_files(nodes, genesis_files, config);
    assert forall|i: int| 0 <= i < nodes.len() implies (#[trigger] given.0[i]).path
        == nodes[i].genesis_path() && given.0[i].content == given.0[0].content by {
        assert(given.0[i].path == nodes[i].genesis_path());
        assert(given.0[0].path == nodes[0].genesis_path());
        assert(genesis_files[i] == genesis_files[0]);
    }
}

} // verus!
