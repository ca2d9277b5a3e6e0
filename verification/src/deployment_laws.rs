//! What a deployed network is given, file by file and line by line.

use vstd::prelude::*;

use crate::cometbft;
use crate::compose;
use crate::crypto;
use crate::deployment;
use crate::deployment::FileView;
use crate::deployment::NodeKeysErrorView;
use crate::deployment::NodeKeysView;
use crate::genesis;
use crate::genesis::GenesisErrorView;
use crate::genesis::InjectErrorView;
use crate::hexadecimal;
use crate::json;
use crate::keys;
use crate::keys::KeyFileError;
use crate::keys::KeyOwner;
use crate::network;
use crate::network::NetworkView;
use crate::node;
use crate::node::NodeRole;
use crate::node::WebcatNodeView;
use crate::text;
use crate::text_laws;

verus! {

/// The lines of a CometBFT process: its name, what runs it at its home, and that it is started again.
pub proof fn lemma_cometbft_process(of: WebcatNodeView)
    ensures
        compose::cometbft_lines(of) == seq![
            "  "@ + (of.name + "-cometbft"@) + ":"@,
            "    command: cometbft start --home "@ + of.cometbft_home(),
            "    availability:"@,
            "      restart: on_failure"@,
            "      max_restarts: 3"@,
        ],
{
    assert(compose::cometbft_lines(of) =~= seq![
        "  "@ + (of.name + "-cometbft"@) + ":"@,
        "    command: cometbft start --home "@ + of.cometbft_home(),
        "    availability:"@,
        "      restart: on_failure"@,
        "      max_restarts: 3"@,
    ]);
}

/// The lines of a felidae process: its name, what runs it at its ports and its home, where to, if
/// anywhere, that it waits for CometBFT, and that it is started again.
pub proof fn lemma_felidae_process(
    of: WebcatNodeView,
    command: Seq<char>,
    working_dir: Option<Seq<char>>,
)
    ensures
        ({
            let run = "    command: "@ + command + " start --abci-bind "@ + (of.bind_address + ":"@
                + text::decimal(of.ports.felidae_abci as nat)) + " --query-bind "@ + (
            of.bind_address + ":"@ + text::decimal(of.ports.felidae_query as nat))
                + " --homedir "@ + of.felidae_home();
            let head = seq!["  "@ + (of.name + "-felidae"@) + ":"@, run];
            let tail = seq![
                "    depends_on:"@,
                "      "@ + (of.name + "-cometbft"@) + ":"@,
                "        condition: process_started"@,
                "    availability:"@,
                "      restart: on_failure"@,
                "      max_restarts: 3"@,
            ];
            &&& working_dir is None ==> compose::felidae_lines(of, command, working_dir) == head
                + tail
            &&& working_dir matches Some(directory) ==> compose::felidae_lines(
                of,
                command,
                working_dir,
            ) == head + seq!["    working_dir: "@ + directory] + tail
        }),
{
    let run = "    command: "@ + command + " start --abci-bind "@ + (of.bind_address + ":"@
        + text::decimal(of.ports.felidae_abci as nat)) + " --query-bind "@ + (of.bind_address
        + ":"@ + text::decimal(of.ports.felidae_query as nat)) + " --homedir "@
        + of.felidae_home();
    let head = seq!["  "@ + (of.name + "-felidae"@) + ":"@, run];
    let tail = seq![
        "    depends_on:"@,
        "      "@ + (of.name + "-cometbft"@) + ":"@,
        "        condition: process_started"@,
        "    availability:"@,
        "      restart: on_failure"@,
        "      max_restarts: 3"@,
    ];
    match working_dir {
        None => {
            assert(compose::felidae_lines(of, command, working_dir) =~= head + tail);
        },
        Some(directory) => {
            assert(compose::felidae_lines(of, command, working_dir) =~= head + seq![
                "    working_dir: "@ + directory,
            ] + tail);
        },
    }
}

/// The lines of an oracle process: its name, what runs it at its port, its node and its home, where
/// to, if anywhere, that it waits for felidae, and that it is started again.
pub proof fn lemma_oracle_process(
    of: WebcatNodeView,
    command: Seq<char>,
    working_dir: Option<Seq<char>>,
)
    ensures
        ({
            let run = "    command: "@ + command + " oracle server --bind "@ + (of.bind_address
                + ":"@ + text::decimal(of.ports.felidae_oracle as nat)) + " --node http://"@
                + of.bind_address + ":"@ + text::decimal(of.ports.cometbft_rpc as nat)
                + " --homedir "@ + of.felidae_home();
            let head = seq!["  "@ + (of.name + "-oracle"@) + ":"@, run];
            let tail = seq![
                "    depends_on:"@,
                "      "@ + (of.name + "-felidae"@) + ":"@,
                "        condition: process_started"@,
                "    availability:"@,
                "      restart: on_failure"@,
                "      max_restarts: 3"@,
            ];
            &&& working_dir is None ==> compose::oracle_lines(of, command, working_dir) == head
                + tail
            &&& working_dir matches Some(directory) ==> compose::oracle_lines(
                of,
                command,
                working_dir,
            ) == head + seq!["    working_dir: "@ + directory] + tail
        }),
{
    let run = "    command: "@ + command + " oracle server --bind "@ + (of.bind_address + ":"@
        + text::decimal(of.ports.felidae_oracle as nat)) + " --node http://"@ + of.bind_address
        + ":"@ + text::decimal(of.ports.cometbft_rpc as nat) + " --homedir "@ + of.felidae_home();
    let head = seq!["  "@ + (of.name + "-oracle"@) + ":"@, run];
    let tail = seq![
        "    depends_on:"@,
        "      "@ + (of.name + "-felidae"@) + ":"@,
        "        condition: process_started"@,
        "    availability:"@,
        "      restart: on_failure"@,
        "      max_restarts: 3"@,
    ];
    match working_dir {
        None => {
            assert(compose::oracle_lines(of, command, working_dir) =~= head + tail);
        },
        Some(directory) => {
            assert(compose::oracle_lines(of, command, working_dir) =~= head + seq![
                "    working_dir: "@ + directory,
            ] + tail);
        },
    }
}

/// The processes are those of the nodes in turn: CometBFT, then felidae, and then the oracle of a
/// validator.
pub proof fn lemma_processes_in_turn(
    a: Seq<WebcatNodeView>,
    b: Seq<WebcatNodeView>,
    one: WebcatNodeView,
    command: Seq<char>,
    working_dir: Option<Seq<char>>,
)
    ensures
        compose::processes(a + b, command, working_dir) == compose::processes(
            a,
            command,
            working_dir,
        ) + compose::processes(b, command, working_dir),
        one.role == NodeRole::Validator ==> compose::processes(seq![one], command, working_dir)
            == seq![
            compose::cometbft_lines(one),
            compose::felidae_lines(one, command, working_dir),
            compose::oracle_lines(one, command, working_dir),
        ],
        one.role != NodeRole::Validator ==> compose::processes(seq![one], command, working_dir)
            == seq![
            compose::cometbft_lines(one),
            compose::felidae_lines(one, command, working_dir),
        ],
    decreases b.len(),
{
    reveal_with_fuel(compose::processes, 2);
    assert(seq![one].drop_last() =~= Seq::<WebcatNodeView>::empty());
    if one.role == NodeRole::Validator {
        assert(compose::processes(seq![one], command, working_dir) =~= seq![
            compose::cometbft_lines(one),
            compose::felidae_lines(one, command, working_dir),
            compose::oracle_lines(one, command, working_dir),
        ]);
    } else {
        assert(compose::processes(seq![one], command, working_dir) =~= seq![
            compose::cometbft_lines(one),
            compose::felidae_lines(one, command, working_dir),
        ]);
    }
    if b.len() == 0 {
        assert(a + b =~= a);
        assert(compose::processes(a, command, working_dir) + compose::processes(
            b,
            command,
            working_dir,
        ) =~= compose::processes(a, command, working_dir));
    } else {
        lemma_processes_in_turn(a, b.drop_last(), one, command, working_dir);
        assert((a + b).drop_last() =~= a + b.drop_last());
        assert((a + b).last() == b.last());
        assert(compose::processes(a + b, command, working_dir) =~= compose::processes(
            a,
            command,
            working_dir,
        ) + compose::processes(b, command, working_dir));
    }
}

/// Processes stand one after the other with an empty line between them, and an empty line stands for
/// none.
pub proof fn lemma_sections_in_turn(before: Seq<Seq<Seq<char>>>, last: Seq<Seq<char>>)
    ensures
        compose::section_lines(Seq::empty()) == seq![Seq::<char>::empty()],
        compose::section_lines(seq![last]) == last,
        before.len() > 0 ==> compose::section_lines(before.push(last)) == compose::section_lines(
            before,
        ).push(Seq::empty()) + last,
{
    reveal_with_fuel(compose::section_lines, 2);
    assert(before.push(last).drop_last() =~= before);
    if before.len() > 0 {
        assert(compose::section_lines(before.push(last)) =~= compose::section_lines(before).push(
            Seq::empty(),
        ) + last);
    }
}

/// The process-compose file begins with its version, what it is and how much it logs, then lists the
/// processes, and ends with a line break.
pub proof fn lemma_compose_file(
    nodes: Seq<WebcatNodeView>,
    command: Seq<char>,
    working_dir: Option<Seq<char>>,
)
    ensures
        compose::process_compose(nodes, command, working_dir) == text::join(
            seq![
                "version: \"0.5\""@,
                ""@,
                "# Process-compose configuration for felidae network"@,
                "# Generated by felidae-deployer"@,
                ""@,
                "log_level: info"@,
                ""@,
                "processes:"@,
            ],
            "\n"@,
        ) + "\n"@ + text::join(
            compose::section_lines(compose::processes(nodes, command, working_dir)),
            "\n"@,
        ) + "\n"@,
{
    reveal_strlit("");
    let header = seq![
        "version: \"0.5\""@,
        ""@,
        "# Process-compose configuration for felidae network"@,
        "# Generated by felidae-deployer"@,
        ""@,
        "log_level: info"@,
        ""@,
        "processes:"@,
    ];
    assert(""@ =~= Seq::<char>::empty());
    assert(compose::header_lines() =~= header);
    let middle = compose::section_lines(compose::processes(nodes, command, working_dir));
    lemma_section_not_empty(nodes, command, working_dir);
    let last = seq![Seq::<char>::empty()];
    text_laws::lemma_join_in_turn(header, middle, "\n"@);
    text_laws::lemma_join_in_turn(header + middle, last, "\n"@);
    assert(text::join(last, "\n"@) =~= Seq::<char>::empty());
    assert(compose::process_compose(nodes, command, working_dir) =~= text::join(header, "\n"@)
        + "\n"@ + text::join(middle, "\n"@) + "\n"@);
}

proof fn lemma_section_not_empty(
    nodes: Seq<WebcatNodeView>,
    command: Seq<char>,
    working_dir: Option<Seq<char>>,
)
    ensures
        compose::section_lines(compose::processes(nodes, command, working_dir)).len() > 0,
{
    reveal_with_fuel(compose::section_lines, 2);
    let all = compose::processes(nodes, command, working_dir);
    if nodes.len() > 0 {
        let one = nodes.last();
        if one.role == NodeRole::Validator {
            assert(all.last() == compose::oracle_lines(one, command, working_dir));
        } else {
            assert(all.last() == compose::felidae_lines(one, command, working_dir));
        }
        assert(all.last().len() > 0);
    }
}

/// The address of a public key is the first 20 bytes of its hash, and a node is known by that of its
/// own key in hexadecimal.
pub proof fn lemma_address(public_key: Seq<u8>, secret: Seq<u8>)
    requires
        crypto::sha256(public_key).len() == 32,
        crypto::sha256(crypto::ed25519_public(secret)).len() == 32,
    ensures
        crypto::address(public_key).len() == 20,
        forall|i: int|
            0 <= i < 20 ==> #[trigger] crypto::address(public_key)[i] == crypto::sha256(
                public_key,
            )[i],
        keys::node_id(secret) == hexadecimal::hex_text(
            crypto::sha256(crypto::ed25519_public(secret)).take(20),
        ),
{
    assert(crypto::address(crypto::ed25519_public(secret)) =~= crypto::sha256(
        crypto::ed25519_public(secret),
    ).take(20));
}

/// A node's key file holds its secret key and behind it the public one, in base64.
pub proof fn lemma_node_key_file(secret: Seq<u8>)
    ensures
        keys::node_key_json(secret) == json::object_text(
            seq![
                (
                    "priv_key"@,
                    json::object_text(
                        seq![
                            ("type"@, json::json_quoted("tendermint/PrivKeyEd25519"@)),
                            (
                                "value"@,
                                json::json_quoted(
                                    crypto::base64_text(secret + crypto::ed25519_public(secret)),
                                ),
                            ),
                        ],
                    ),
                ),
            ],
        ),
{
}

/// A validator's key file holds its address in upper case hexadecimal, its secret key and behind it
/// the public one in base64, and the public key alone in base64.
pub proof fn lemma_validator_key_file(secret: Seq<u8>)
    ensures
        ({
            let public = crypto::ed25519_public(secret);
            keys::priv_validator_key_json(secret) == json::object_text(
                seq![
                    (
                        "address"@,
                        json::json_quoted(hexadecimal::hex_upper_text(crypto::address(public))),
                    ),
                    (
                        "priv_key"@,
                        json::object_text(
                            seq![
                                ("type"@, json::json_quoted("tendermint/PrivKeyEd25519"@)),
                                (
                                    "value"@,
                                    json::json_quoted(crypto::base64_text(secret + public)),
                                ),
                            ],
                        ),
                    ),
                    (
                        "pub_key"@,
                        json::object_text(
                            seq![
                                ("type"@, json::json_quoted("tendermint/PubKeyEd25519"@)),
                                ("value"@, json::json_quoted(crypto::base64_text(public))),
                            ],
                        ),
                    ),
                ],
            )
        }),
{
}

proof fn lemma_trim_blank(a: Seq<char>, inner: Seq<char>, b: Seq<char>)
    requires
        text_laws::is_blank(a),
        text_laws::is_blank(b),
        inner.len() > 0,
        !text::is_whitespace(inner.first()),
        !text::is_whitespace(inner.last()),
    ensures
        text::trimmed(a + inner + b) == inner,
    decreases a.len() + b.len(),
{
    let all = a + inner + b;
    if a.len() > 0 {
        assert(text::is_whitespace(a[0]));
        assert(all.first() == a[0]);
        assert(all.drop_first() =~= a.drop_first() + inner + b);
        assert(text_laws::is_blank(a.drop_first())) by {
            assert forall|i: int| 0 <= i < a.drop_first().len() implies text::is_whitespace(
                #[trigger] a.drop_first()[i],
            ) by {
                assert(text::is_whitespace(a[i + 1]));
            }
        }
        lemma_trim_blank(a.drop_first(), inner, b);
    } else if b.len() > 0 {
        assert(all.first() == inner.first());
        assert(text::is_whitespace(b[b.len() - 1]));
        assert(all.last() == b[b.len() - 1]);
        assert(all.drop_last() =~= a + inner + b.drop_last());
        assert(text_laws::is_blank(b.drop_last())) by {
            assert forall|i: int| 0 <= i < b.drop_last().len() implies text::is_whitespace(
                #[trigger] b.drop_last()[i],
            ) by {
                assert(text::is_whitespace(b[i]));
            }
        }
        lemma_trim_blank(a, inner, b.drop_last());
    } else {
        assert(all =~= inner);
    }
}

/// A key file with whitespace before and behind the key is read as the key, and what holds no key in
/// PKCS#8 as none.
pub proof fn lemma_key_file_with_blanks(a: Seq<char>, pkcs8: Seq<u8>, b: Seq<char>)
    requires
        text_laws::is_blank(a),
        text_laws::is_blank(b),
        pkcs8.len() > 0,
    ensures
        crypto::p256_public(pkcs8) matches Some(public) ==> keys::key_file_public(
            a + hexadecimal::hex_text(pkcs8) + b,
        ) == Ok::<Seq<u8>, KeyFileError>(public),
        crypto::p256_public(pkcs8) is None ==> keys::key_file_public(
            a + hexadecimal::hex_text(pkcs8) + b,
        ) == Err::<Seq<u8>, KeyFileError>(KeyFileError::NotPkcs8),
{
    let digits = hexadecimal::hex_text(pkcs8);
    hexadecimal::lemma_hex_text_digits(pkcs8);
    hexadecimal::lemma_hex_round_trip(pkcs8);
    assert('0' <= digits[0] <= '9' || 'a' <= digits[0] <= 'f');
    let n = digits.len() - 1;
    assert('0' <= digits[n] <= '9' || 'a' <= digits[n] <= 'f');
    lemma_trim_blank(a, digits, b);
}

/// A key file whose text, but for whitespace around it, is not hexadecimal holds no key.
pub proof fn lemma_key_file_not_hex(file: Seq<char>)
    ensures
        hexadecimal::hex_bytes(text::trimmed(file)) matches Err(cause) ==> keys::key_file_public(
            file,
        ) == Err::<Seq<u8>, KeyFileError>(KeyFileError::NotHex(cause)),
{
}

/// The key files of an admin and an oracle hold each its own key, in hexadecimal; where one cannot be
/// had there are none, and the admin's is missed first.
pub proof fn lemma_felidae_key_files(admin: Option<Seq<u8>>, oracle: Option<Seq<u8>>)
    ensures
        keys::felidae_key_files(admin, oracle) is Ok <==> admin is Some && oracle is Some,
        keys::felidae_key_files(admin, oracle) matches Ok(files) ==> files.0
            == hexadecimal::hex_text(admin->0) && files.1 == hexadecimal::hex_text(oracle->0),
        admin is None ==> keys::felidae_key_files(admin, oracle) == Err::<
            (Seq<char>, Seq<char>),
            KeyOwner,
        >(KeyOwner::Admin),
        admin is Some && oracle is None ==> keys::felidae_key_files(admin, oracle) == Err::<
            (Seq<char>, Seq<char>),
            KeyOwner,
        >(KeyOwner::Oracle),
{
}

/// A node has its own key and identifier; a validator has besides the key that it signs with and
/// those of its admin and its oracle, and no other node has.
pub proof fn lemma_keys_of_role(
    role: NodeRole,
    node_id: Seq<char>,
    node_key: Result<Seq<char>, Seq<char>>,
    priv_validator_key: Result<Seq<char>, Seq<char>>,
    felidae: Result<(Seq<char>, Seq<char>), KeyOwner>,
)
    ensures
        ({
            let made = deployment::node_keys(role, node_id, node_key, priv_validator_key, felidae);
            &&& made is Ok <==> node_key is Ok && (role == NodeRole::Validator
                ==> priv_validator_key is Ok && felidae is Ok)
            &&& made is Ok ==> {
                &&& made->Ok_0.node_key == node_key->Ok_0
                &&& made->Ok_0.node_id == node_id
                &&& made->Ok_0.validator is Some <==> role == NodeRole::Validator
            }
            &&& made is Ok && role == NodeRole::Validator ==> {
                &&& made->Ok_0.validator->0.priv_validator_key == priv_validator_key->Ok_0
                &&& made->Ok_0.validator->0.admin == felidae->Ok_0.0
                &&& made->Ok_0.validator->0.oracle == felidae->Ok_0.1
            }
            &&& node_key matches Err(e) ==> made == Err::<NodeKeysView, NodeKeysErrorView>(
                NodeKeysErrorView::Json(e),
            )
            &&& node_key is Ok && role == NodeRole::Validator && priv_validator_key is Err ==> made
                == Err::<NodeKeysView, NodeKeysErrorView>(
                NodeKeysErrorView::Json(priv_validator_key->Err_0),
            )
            &&& node_key is Ok && role == NodeRole::Validator && priv_validator_key is Ok
                && felidae is Err ==> made == Err::<NodeKeysView, NodeKeysErrorView>(
                NodeKeysErrorView::Pkcs8(felidae->Err_0),
            )
        }),
{
}

/// The files and keys of values in memory, part by part, as contracts speak of them.
pub proof fn lemma_file_parts(file: deployment::FileToWrite, made: deployment::NodeKeys)
    ensures
        file@.path == file.path@,
        file@.content == file.content@,
        made@.node_key == made.node_key@,
        made@.node_id == made.node_id@,
        made@.validator is Some <==> made.validator is Some,
        made.validator matches Some(own) ==> {
            &&& made@.validator->0.priv_validator_key == own.priv_validator_key@
            &&& made@.validator->0.admin == own.felidae.admin@
            &&& made@.validator->0.oracle == own.felidae.oracle@
        },
{
}

/// Whether one of these files lies at `path` and holds `content`.
pub open spec fn is_written(files: Seq<FileView>, path: Seq<char>, content: Seq<char>) -> bool {
    exists|i: int|
        0 <= i < files.len() && (#[trigger] files[i]).path == path && files[i].content == content
}

/// A node begins with the file of its own key; a validator besides with the key that it signs with,
/// that it signed nothing, and the keys of its admin and its oracle, each where it belongs.
pub proof fn lemma_files_of_node(of: WebcatNodeView, made: NodeKeysView)
    ensures
        ({
            let files = deployment::node_files(of, made);
            &&& is_written(files, of.node_key_path(), made.node_key)
            &&& made.validator is None ==> files.len() == 1
            &&& made.validator matches Some(validator) ==> {
                &&& files.len() == 5
                &&& is_written(files, of.priv_validator_key_path(), validator.priv_validator_key)
                &&& is_written(
                    files,
                    of.priv_validator_state_path(),
                    "{\n  \"height\": \"0\",\n  \"round\": 0,\n  \"step\": 0\n}"@,
                )
                &&& is_written(files, of.admin_key_path(), validator.admin)
                &&& is_written(files, of.oracle_key_path(), validator.oracle)
            }
        }),
{
    let files = deployment::node_files(of, made);
    assert(files[0].path == of.node_key_path());
    if made.validator is Some {
        let validator = made.validator->0;
        assert(files[1].path == of.priv_validator_key_path());
        assert(files[2].path == of.priv_validator_state_path());
        assert(files[3].path == of.admin_key_path());
        assert(files[4].path == of.oracle_key_path());
    }
}

/// A network has its genesis file in its own directory and a copy of it at each node, and at each
/// node CometBFT's configuration, with the node's own addresses, the other nodes as peers, with commas
/// between them, and the network's time between blocks.
pub proof fn lemma_files_of_network(of: NetworkView, genesis: Seq<char>, i: int)
    requires
        0 <= i < of.nodes.len(),
    ensures
        ({
            let files = deployment::network_files(of, genesis);
            let one = of.nodes[i];
            &&& files.len() == 1 + 2 * of.nodes.len()
            &&& files[0].path == node::joined(of.config.directory, "genesis.json"@)
            &&& files[0].content == genesis
            &&& files[1 + i].path == one.genesis_path()
            &&& files[1 + i].content == genesis
            &&& files[1 + of.nodes.len() + i].path == one.config_toml_path()
            &&& files[1 + of.nodes.len() + i].content == cometbft::config_toml(
                one,
                text::join(network::peers_but(network::peers(of.nodes), one.node_id), ","@),
                of.config.timeout_commit,
            )
        }),
{
}

/// The genesis file of each node is given the configuration in turn, up to the first that cannot be.
pub proof fn lemma_injected_in_turn(
    nodes: Seq<WebcatNodeView>,
    genesis_files: Seq<Option<Seq<char>>>,
    config: Seq<char>,
)
    requires
        nodes.len() > 0,
    ensures
        ({
            let n = nodes.len() - 1;
            let before = deployment::injected_files(nodes.drop_last(), genesis_files, config);
            let after = deployment::injected_files(nodes, genesis_files, config);
            let last = genesis::injected(genesis_files[n], config);
            &&& before.1 is Some ==> after == before
            &&& before.1 is None && last is Err ==> after.0 == before.0 && after.1 == Some(
                last->Err_0,
            )
            &&& before.1 is None && last is Ok ==> {
                &&& after.1 is None
                &&& after.0.len() == before.0.len() + 1
                &&& after.0.drop_last() == before.0
                &&& after.0.last().path == nodes[n].genesis_path()
                &&& after.0.last().content == json::json_pretty(last->Ok_0)
            }
        }),
{
    let before = deployment::injected_files(nodes.drop_last(), genesis_files, config);
    let after = deployment::injected_files(nodes, genesis_files, config);
    let last = genesis::injected(genesis_files[nodes.len() - 1], config);
    if before.1 is None && last is Ok {
        assert(after.0.drop_last() =~= before.0);
    }
}

/// A genesis file is given a configuration under `app_state` and there under `config`; one that
/// cannot be read, holds no JSON, or holds no object is an error of its own kind.
pub proof fn lemma_injected(genesis_file: Option<Seq<char>>, config: Seq<char>)
    ensures
        genesis_file is None ==> genesis::injected(genesis_file, config) == Err::<
            Seq<char>,
            InjectErrorView,
        >(InjectErrorView::NotRead),
        genesis_file matches Some(file) ==> {
            let held = json::json_value(vstd::utf8::encode_utf8(file));
            let after = genesis::injected(genesis_file, config);
            &&& held matches Err(cause) ==> after == Err::<Seq<char>, InjectErrorView>(
                InjectErrorView::NotJson(cause),
            )
            &&& held is Ok && json::takes_members(held->Ok_0) ==> after == Ok::<
                Seq<char>,
                InjectErrorView,
            >(
                json::json_set(
                    held->Ok_0,
                    "app_state"@,
                    json::object_text(seq![("config"@, config)]),
                ),
            )
            &&& held is Ok && !json::takes_members(held->Ok_0) ==> after == Err::<
                Seq<char>,
                InjectErrorView,
            >(InjectErrorView::NotObject)
        },
{
}

/// What stands for a member that may not be there.
pub open spec fn member_text(member: Option<Seq<char>>) -> Seq<char> {
    if member is Some {
        member->0
    } else {
        "null"@
    }
}

/// The genesis file has an entry for each validator, in their order: its number in its name, power 10,
/// and the address and public key that its key file holds. It can be made exactly where every key file
/// can be read and holds JSON.
pub proof fn lemma_genesis_entries(key_files: Seq<Option<Seq<char>>>)
    ensures
        genesis::entries(key_files) is Ok <==> (forall|i: int|
            0 <= i < key_files.len() ==> (#[trigger] key_files[i]) is Some && json::json_value(
                vstd::utf8::encode_utf8(key_files[i]->0),
            ) is Ok),
        genesis::entries(key_files) matches Ok(entries) ==> {
            &&& entries.len() == key_files.len()
            &&& forall|i: int|
                0 <= i < key_files.len() ==> {
                    let key = json::json_value(vstd::utf8::encode_utf8(key_files[i]->0))->Ok_0;
                    #[trigger] entries[i] == json::object_text(
                        seq![
                            ("address"@, member_text(json::json_get(key, "address"@))),
                            (
                                "name"@,
                                json::json_quoted("validator-"@ + text::decimal(i as nat)),
                            ),
                            ("power"@, json::json_quoted("10"@)),
                            ("pub_key"@, member_text(json::json_get(key, "pub_key"@))),
                        ],
                    )
                }
        },
    decreases key_files.len(),
{
    if key_files.len() > 0 {
        let front = key_files.drop_last();
        let n = key_files.len() - 1;
        lemma_genesis_entries(front);
        if genesis::entries(front) is Ok {
            assert forall|i: int| 0 <= i < n implies (#[trigger] key_files[i]) is Some
                && json::json_value(vstd::utf8::encode_utf8(key_files[i]->0)) is Ok by {
                assert(front[i] == key_files[i]);
            }
        } else if forall|i: int|
            0 <= i < key_files.len() ==> (#[trigger] key_files[i]) is Some && json::json_value(
                vstd::utf8::encode_utf8(key_files[i]->0),
            ) is Ok {
            assert forall|i: int| 0 <= i < front.len() implies (#[trigger] front[i]) is Some
                && json::json_value(vstd::utf8::encode_utf8(front[i]->0)) is Ok by {
                assert(front[i] == key_files[i]);
            }
        }
        if genesis::entries(key_files) is Ok {
            let entries = genesis::entries(key_files)->Ok_0;
            let before = genesis::entries(front)->Ok_0;
            assert forall|i: int| 0 <= i < key_files.len() implies {
                let key = json::json_value(vstd::utf8::encode_utf8(key_files[i]->0))->Ok_0;
                #[trigger] entries[i] == json::object_text(
                    seq![
                        ("address"@, member_text(json::json_get(key, "address"@))),
                        ("name"@, json::json_quoted("validator-"@ + text::decimal(i as nat))),
                        ("power"@, json::json_quoted("10"@)),
                        ("pub_key"@, member_text(json::json_get(key, "pub_key"@))),
                    ],
                )
            } by {
                if i < n {
                    assert(entries[i] == before[i]);
                    assert(front[i] == key_files[i]);
                }
            }
        }
    }
}

/// The genesis file cannot be made for the first key file that cannot be read or holds no JSON.
pub proof fn lemma_genesis_refused(key_files: Seq<Option<Seq<char>>>, n: int)
    requires
        0 <= n < key_files.len(),
        forall|i: int|
            0 <= i < n ==> (#[trigger] key_files[i]) is Some && json::json_value(
                vstd::utf8::encode_utf8(key_files[i]->0),
            ) is Ok,
        key_files[n] is None || json::json_value(
            vstd::utf8::encode_utf8(key_files[n]->0),
        ) is Err,
    ensures
        key_files[n] is None ==> genesis::entries(key_files) == Err::<
            Seq<Seq<char>>,
            GenesisErrorView,
        >(GenesisErrorView::NotRead),
        key_files[n] is Some ==> genesis::entries(key_files) == Err::<
            Seq<Seq<char>>,
            GenesisErrorView,
        >(
            GenesisErrorView::NotJson(
                json::json_value(vstd::utf8::encode_utf8(key_files[n]->0))->Err_0,
            ),
        ),
{
    let first = key_files.take(n);
    assert forall|i: int| 0 <= i < first.len() implies (#[trigger] first[i]) is Some
        && json::json_value(vstd::utf8::encode_utf8(first[i]->0)) is Ok by {
        assert(first[i] == key_files[i]);
    }
    lemma_genesis_entries(first);
    assert(key_files.take(n + 1).drop_last() =~= first);
    assert(key_files.take(n + 1).last() == key_files[n]);
    genesis::lemma_entries_prefix(key_files, n + 1);
}

/// What a genesis file says of the chain: its name, when it begins, that it begins at height 1 with
/// no hash of the state, its validators, and the limits on blocks, evidence and validators.
pub proof fn lemma_genesis_file(
    genesis_time: Seq<char>,
    chain_id: Seq<char>,
    entries: Seq<Seq<char>>,
)
    ensures
        ({
            let block = json::object_text(
                seq![
                    ("max_bytes"@, json::json_quoted("22020096"@)),
                    ("max_gas"@, json::json_quoted("-1"@)),
                    ("time_iota_ms"@, json::json_quoted("1000"@)),
                ],
            );
            let evidence = json::object_text(
                seq![
                    ("max_age_duration"@, json::json_quoted("172800000000000"@)),
                    ("max_age_num_blocks"@, json::json_quoted("100000"@)),
                    ("max_bytes"@, json::json_quoted("1048576"@)),
                ],
            );
            let validator = json::object_text(
                seq![("pub_key_types"@, json::array_text(seq![json::json_quoted("ed25519"@)]))],
            );
            genesis::genesis_text(genesis_time, chain_id, entries) == json::object_text(
                seq![
                    ("app_hash"@, json::json_quoted(""@)),
                    ("chain_id"@, json::json_quoted(chain_id)),
                    (
                        "consensus_params"@,
                        json::object_text(
                            seq![
                                ("block"@, block),
                                ("evidence"@, evidence),
                                ("validator"@, validator),
                                ("version"@, json::object_text(Seq::empty())),
                            ],
                        ),
                    ),
                    ("genesis_time"@, json::json_quoted(genesis_time)),
                    ("initial_height"@, json::json_quoted("1"@)),
                    ("validators"@, json::array_text(entries)),
                ],
            )
        }),
{
}

} // verus!
