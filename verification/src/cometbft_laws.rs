//! What CometBFT's configuration file holds, line by line.

use vstd::prelude::*;

use crate::cometbft;
use crate::node::WebcatNodeView;

verus! {

/// Whether `piece` stands somewhere in a text.
pub open spec fn holds(of: Seq<char>, piece: Seq<char>) -> bool {
    exists|p: int|
        0 <= p && p + piece.len() <= of.len() && #[trigger] of.subrange(p, p + piece.len()) == piece
}

/// Whether a text holds a line.
pub open spec fn has_line(of: Seq<char>, line: Seq<char>) -> bool {
    holds(of, "\n"@ + line + "\n"@)
}

proof fn lemma_wider(before: Seq<char>, of: Seq<char>, after: Seq<char>, p: int, piece: Seq<char>)
    requires
        0 <= p,
        p + piece.len() <= of.len(),
        of.subrange(p, p + piece.len()) == piece,
    ensures
        holds(before + of + after, piece),
{
    let all = before + of + after;
    let q = before.len() + p;
    assert(all.subrange(q, q + piece.len()) =~= of.subrange(p, p + piece.len()));
}

proof fn lemma_across(
    a: Seq<char>,
    value: Seq<char>,
    b: Seq<char>,
    head: Seq<char>,
    tail: Seq<char>,
    rest: Seq<char>,
)
    requires
        head.len() <= a.len(),
        a.subrange(a.len() - head.len(), a.len() as int) == head,
        tail.len() <= b.len(),
        b.subrange(0, tail.len() as int) == tail,
    ensures
        holds(a + value + b + rest, head + value + tail),
{
    let all = a + value + b + rest;
    let piece = head + value + tail;
    let p = a.len() - head.len();
    assert forall|i: int| 0 <= i < piece.len() implies #[trigger] all.subrange(
        p,
        p + piece.len(),
    )[i] == piece[i] by {
        if i < head.len() {
            assert(a.subrange(a.len() - head.len(), a.len() as int)[i] == head[i]);
        } else if i >= head.len() + value.len() {
            assert(b.subrange(0, tail.len() as int)[i - head.len() - value.len()] == tail[i
                - head.len() - value.len()]);
        }
    }
    assert(all.subrange(p, p + piece.len()) =~= piece);
}

/// Whether a configuration holds what CometBFT does by itself, and where its files lie.
pub open spec fn says_general(of: Seq<char>) -> bool {
    &&& has_line(of, "fast_sync = true"@)
    &&& has_line(of, r#"db_backend = "goleveldb""#@)
    &&& has_line(of, r#"db_dir = "data""#@)
    &&& has_line(of, r#"log_level = "info""#@)
    &&& has_line(of, r#"log_format = "plain""#@)
    &&& has_line(of, r#"genesis_file = "config/genesis.json""#@)
    &&& has_line(of, r#"priv_validator_key_file = "config/priv_validator_key.json""#@)
    &&& has_line(of, r#"priv_validator_state_file = "data/priv_validator_state.json""#@)
    &&& has_line(of, r#"priv_validator_laddr = """#@)
    &&& has_line(of, r#"node_key_file = "config/node_key.json""#@)
    &&& has_line(of, r#"abci = "socket""#@)
    &&& has_line(of, "filter_peers = false"@)
    &&& has_line(of, "[rpc]"@)
}

/// Whether a configuration holds how requests are answered.
pub open spec fn says_rpc(of: Seq<char>) -> bool {
    &&& has_line(of, "cors_allowed_origins = []"@)
    &&& has_line(of, r#"cors_allowed_methods = ["HEAD", "GET", "POST"]"#@)
    &&& has_line(of, r#"cors_allowed_headers = ["Origin", "Accept", "Content-Type", "X-Requested-With", "X-Server-Time"]"#@)
    &&& has_line(of, r#"grpc_laddr = """#@)
    &&& has_line(of, "grpc_max_open_connections = 900"@)
    &&& has_line(of, "unsafe = false"@)
    &&& has_line(of, "max_open_connections = 900"@)
    &&& has_line(of, "max_subscription_clients = 100"@)
    &&& has_line(of, "max_subscriptions_per_client = 5"@)
    &&& has_line(of, "experimental_subscription_buffer_size = 200"@)
    &&& has_line(of, "experimental_websocket_write_buffer_size = 200"@)
    &&& has_line(of, "experimental_close_on_slow_client = false"@)
    &&& has_line(of, r#"timeout_broadcast_tx_commit = "10s""#@)
    &&& has_line(of, "max_body_bytes = 1000000"@)
    &&& has_line(of, "max_header_bytes = 1048576"@)
    &&& has_line(of, r#"tls_cert_file = """#@)
    &&& has_line(of, r#"tls_key_file = """#@)
    &&& has_line(of, r#"pprof_laddr = """#@)
    &&& has_line(of, "[p2p]"@)
}

/// Whether a configuration holds that no nodes are sought but the peers.
pub open spec fn says_peer(of: Seq<char>) -> bool {
    &&& has_line(of, r#"external_address = """#@)
    &&& has_line(of, r#"seeds = """#@)
}

/// Whether a configuration holds how peers are dealt with, what waits for a block, that the state is
/// not taken from others, and how long the steps of consensus take.
pub open spec fn says_further(of: Seq<char>) -> bool {
    &&& has_line(of, "upnp = false"@)
    &&& has_line(of, r#"addr_book_file = "config/addrbook.json""#@)
    &&& has_line(of, "addr_book_strict = false"@)
    &&& has_line(of, "max_num_inbound_peers = 40"@)
    &&& has_line(of, "max_num_outbound_peers = 10"@)
    &&& has_line(of, r#"unconditional_peer_ids = """#@)
    &&& has_line(of, r#"persistent_peers_max_dial_period = "0s""#@)
    &&& has_line(of, r#"flush_throttle_timeout = "100ms""#@)
    &&& has_line(of, "max_packet_msg_payload_size = 1024"@)
    &&& has_line(of, "send_rate = 5120000"@)
    &&& has_line(of, "recv_rate = 5120000"@)
    &&& has_line(of, "pex = true"@)
    &&& has_line(of, "seed_mode = false"@)
    &&& has_line(of, r#"private_peer_ids = """#@)
    &&& has_line(of, "allow_duplicate_ip = true"@)
    &&& has_line(of, r#"handshake_timeout = "20s""#@)
    &&& has_line(of, r#"dial_timeout = "3s""#@)
    &&& has_line(of, "[mempool]"@)
    &&& has_line(of, r#"version = "v0""#@)
    &&& has_line(of, "recheck = true"@)
    &&& has_line(of, "broadcast = true"@)
    &&& has_line(of, r#"wal_dir = """#@)
    &&& has_line(of, "size = 5000"@)
    &&& has_line(of, "max_txs_bytes = 1073741824"@)
    &&& has_line(of, "cache_size = 10000"@)
    &&& has_line(of, "keep-invalid-txs-in-cache = false"@)
    &&& has_line(of, "max_tx_bytes = 1048576"@)
    &&& has_line(of, "max_batch_bytes = 0"@)
    &&& has_line(of, "[statesync]"@)
    &&& has_line(of, "enable = false"@)
    &&& has_line(of, r#"rpc_servers = """#@)
    &&& has_line(of, "trust_height = 0"@)
    &&& has_line(of, r#"trust_hash = """#@)
    &&& has_line(of, r#"trust_period = "168h0m0s""#@)
    &&& has_line(of, r#"discovery_time = "15s""#@)
    &&& has_line(of, r#"temp_dir = """#@)
    &&& has_line(of, r#"chunk_request_timeout = "10s""#@)
    &&& has_line(of, r#"chunk_fetchers = "4""#@)
    &&& has_line(of, "[consensus]"@)
    &&& has_line(of, r#"wal_file = "data/cs.wal/wal""#@)
    &&& has_line(of, r#"timeout_propose = "3s""#@)
    &&& has_line(of, r#"timeout_propose_delta = "500ms""#@)
    &&& has_line(of, r#"timeout_prevote = "1s""#@)
    &&& has_line(of, r#"timeout_prevote_delta = "500ms""#@)
    &&& has_line(of, r#"timeout_precommit = "1s""#@)
    &&& has_line(of, r#"timeout_precommit_delta = "500ms""#@)
}

/// Whether a configuration holds when blocks are made, what is stored, and that nothing is measured.
pub open spec fn says_last(of: Seq<char>) -> bool {
    &&& has_line(of, "double_sign_check_height = 0"@)
    &&& has_line(of, "skip_timeout_commit = false"@)
    &&& has_line(of, "create_empty_blocks = true"@)
    &&& has_line(of, r#"create_empty_blocks_interval = "0s""#@)
    &&& has_line(of, r#"peer_gossip_sleep_duration = "100ms""#@)
    &&& has_line(of, r#"peer_query_maj23_sleep_duration = "2s""#@)
    &&& has_line(of, "[storage]"@)
    &&& has_line(of, "discard_abci_responses = false"@)
    &&& has_line(of, "[tx_index]"@)
    &&& has_line(of, r#"indexer = "kv""#@)
    &&& has_line(of, r#"psql-conn = """#@)
    &&& has_line(of, "[instrumentation]"@)
    &&& has_line(of, "prometheus = false"@)
    &&& has_line(of, r#"prometheus_listen_addr = ":26660""#@)
    &&& has_line(of, "max_open_connections = 3"@)
    &&& has_line(of, r#"namespace = "cometbft""#@)
}

proof fn lemma_says_general(before: Seq<char>, of: Seq<char>, after: Seq<char>)
    requires
        of == r#""
fast_sync = true
db_backend = "goleveldb"
db_dir = "data"
log_level = "info"
log_format = "plain"
genesis_file = "config/genesis.json"
priv_validator_key_file = "config/priv_validator_key.json"
priv_validator_state_file = "data/priv_validator_state.json"
priv_validator_laddr = ""
node_key_file = "config/node_key.json"
abci = "socket"
filter_peers = false

[rpc]
laddr = ""#@,
    ensures
        says_general(before + of + after),
{
    reveal_strlit(r#""
fast_sync = true
db_backend = "goleveldb"
db_dir = "data"
log_level = "info"
log_format = "plain"
genesis_file = "config/genesis.json"
priv_validator_key_file = "config/priv_validator_key.json"
priv_validator_state_file = "data/priv_validator_state.json"
priv_validator_laddr = ""
node_key_file = "config/node_key.json"
abci = "socket"
filter_peers = false

[rpc]
laddr = ""#);
    reveal_strlit("\n");
    assert(has_line(before + of + after, "fast_sync = true"@)) by {
        reveal_strlit("fast_sync = true");
        let line = "\n"@ + "fast_sync = true"@ + "\n"@;
        assert(of.subrange(1, 19) =~= line);
        lemma_wider(before, of, after, 1, line);
    }
    assert(has_line(before + of + after, r#"db_backend = "goleveldb""#@)) by {
        reveal_strlit(r#"db_backend = "goleveldb""#);
        let line = "\n"@ + r#"db_backend = "goleveldb""#@ + "\n"@;
        assert(of.subrange(18, 44) =~= line);
        lemma_wider(before, of, after, 18, line);
    }
    assert(has_line(before + of + after, r#"db_dir = "data""#@)) by {
        reveal_strlit(r#"db_dir = "data""#);
        let line = "\n"@ + r#"db_dir = "data""#@ + "\n"@;
        assert(of.subrange(43, 60) =~= line);
        lemma_wider(before, of, after, 43, line);
    }
    assert(has_line(before + of + after, r#"log_level = "info""#@)) by {
        reveal_strlit(r#"log_level = "info""#);
        let line = "\n"@ + r#"log_level = "info""#@ + "\n"@;
        assert(of.subrange(59, 79) =~= line);
        lemma_wider(before, of, after, 59, line);
    }
    assert(has_line(before + of + after, r#"log_format = "plain""#@)) by {
        reveal_strlit(r#"log_format = "plain""#);
        let line = "\n"@ + r#"log_format = "plain""#@ + "\n"@;
        assert(of.subrange(78, 100) =~= line);
        lemma_wider(before, of, after, 78, line);
    }
    assert(has_line(before + of + after, r#"genesis_file = "config/genesis.json""#@)) by {
        reveal_strlit(r#"genesis_file = "config/genesis.json""#);
        let line = "\n"@ + r#"genesis_file = "config/genesis.json""#@ + "\n"@;
        assert(of.subrange(99, 137) =~= line);
        lemma_wider(before, of, after, 99, line);
    }
    assert(has_line(before + of + after, r#"priv_validator_key_file = "config/priv_validator_key.json""#@)) by {
        reveal_strlit(r#"priv_validator_key_file = "config/priv_validator_key.json""#);
        let line = "\n"@ + r#"priv_validator_key_file = "config/priv_validator_key.json""#@ + "\n"@;
        assert(of.subrange(136, 196) =~= line);
        lemma_wider(before, of, after, 136, line);
    }
    assert(has_line(before + of + after, r#"priv_validator_state_file = "data/priv_validator_state.json""#@)) by {
        reveal_strlit(r#"priv_validator_state_file = "data/priv_validator_state.json""#);
        let line = "\n"@ + r#"priv_validator_state_file = "data/priv_validator_state.json""#@ + "\n"@;
        assert(of.subrange(195, 257) =~= line);
        lemma_wider(before, of, after, 195, line);
    }
    assert(has_line(before + of + after, r#"priv_validator_laddr = """#@)) by {
        reveal_strlit(r#"priv_validator_laddr = """#);
        let line = "\n"@ + r#"priv_validator_laddr = """#@ + "\n"@;
        assert(of.subrange(256, 283) =~= line);
        lemma_wider(before, of, after, 256, line);
    }
    assert(has_line(before + of + after, r#"node_key_file = "config/node_key.json""#@)) by {
        reveal_strlit(r#"node_key_file = "config/node_key.json""#);
        let line = "\n"@ + r#"node_key_file = "config/node_key.json""#@ + "\n"@;
        assert(of.subrange(282, 322) =~= line);
        lemma_wider(before, of, after, 282, line);
    }
    assert(has_line(before + of + after, r#"abci = "socket""#@)) by {
        reveal_strlit(r#"abci = "socket""#);
        let line = "\n"@ + r#"abci = "socket""#@ + "\n"@;
        assert(of.subrange(321, 338) =~= line);
        lemma_wider(before, of, after, 321, line);
    }
    assert(has_line(before + of + after, "filter_peers = false"@)) by {
        reveal_strlit("filter_peers = false");
        let line = "\n"@ + "filter_peers = false"@ + "\n"@;
        assert(of.subrange(337, 359) =~= line);
        lemma_wider(before, of, after, 337, line);
    }
    assert(has_line(before + of + after, "[rpc]"@)) by {
        reveal_strlit("[rpc]");
        let line = "\n"@ + "[rpc]"@ + "\n"@;
        assert(of.subrange(359, 366) =~= line);
        lemma_wider(before, of, after, 359, line);
    }
}

proof fn lemma_says_rpc(before: Seq<char>, of: Seq<char>, after: Seq<char>)
    requires
        of == r#""
cors_allowed_origins = []
cors_allowed_methods = ["HEAD", "GET", "POST"]
cors_allowed_headers = ["Origin", "Accept", "Content-Type", "X-Requested-With", "X-Server-Time"]
grpc_laddr = ""
grpc_max_open_connections = 900
unsafe = false
max_open_connections = 900
max_subscription_clients = 100
max_subscriptions_per_client = 5
experimental_subscription_buffer_size = 200
experimental_websocket_write_buffer_size = 200
experimental_close_on_slow_client = false
timeout_broadcast_tx_commit = "10s"
max_body_bytes = 1000000
max_header_bytes = 1048576
tls_cert_file = ""
tls_key_file = ""
pprof_laddr = ""

[p2p]
laddr = ""#@,
    ensures
        says_rpc(before + of + after),
{
    reveal_strlit(r#""
cors_allowed_origins = []
cors_allowed_methods = ["HEAD", "GET", "POST"]
cors_allowed_headers = ["Origin", "Accept", "Content-Type", "X-Requested-With", "X-Server-Time"]
grpc_laddr = ""
grpc_max_open_connections = 900
unsafe = false
max_open_connections = 900
max_subscription_clients = 100
max_subscriptions_per_client = 5
experimental_subscription_buffer_size = 200
experimental_websocket_write_buffer_size = 200
experimental_close_on_slow_client = false
timeout_broadcast_tx_commit = "10s"
max_body_bytes = 1000000
max_header_bytes = 1048576
tls_cert_file = ""
tls_key_file = ""
pprof_laddr = ""

[p2p]
laddr = ""#);
    reveal_strlit("\n");
    assert(has_line(before + of + after, "cors_allowed_origins = []"@)) by {
        reveal_strlit("cors_allowed_origins = []");
        let line = "\n"@ + "cors_allowed_origins = []"@ + "\n"@;
        assert(of.subrange(1, 28) =~= line);
        lemma_wider(before, of, after, 1, line);
    }
    assert(has_line(before + of + after, r#"cors_allowed_methods = ["HEAD", "GET", "POST"]"#@)) by {
        reveal_strlit(r#"cors_allowed_methods = ["HEAD", "GET", "POST"]"#);
        let line = "\n"@ + r#"cors_allowed_methods = ["HEAD", "GET", "POST"]"#@ + "\n"@;
        assert(of.subrange(27, 75) =~= line);
        lemma_wider(before, of, after, 27, line);
    }
    assert(has_line(before + of + after, r#"cors_allowed_headers = ["Origin", "Accept", "Content-Type", "X-Requested-With", "X-Server-Time"]"#@)) by {
        reveal_strlit(r#"cors_allowed_headers = ["Origin", "Accept", "Content-Type", "X-Requested-With", "X-Server-Time"]"#);
        let line = "\n"@ + r#"cors_allowed_headers = ["Origin", "Accept", "Content-Type", "X-Requested-With", "X-Server-Time"]"#@ + "\n"@;
        assert(of.subrange(74, 172) =~= line);
        lemma_wider(before, of, after, 74, line);
    }
    assert(has_line(before + of + after, r#"grpc_laddr = """#@)) by {
        reveal_strlit(r#"grpc_laddr = """#);
        let line = "\n"@ + r#"grpc_laddr = """#@ + "\n"@;
        assert(of.subrange(171, 188) =~= line);
        lemma_wider(before, of, after, 171, line);
    }
    assert(has_line(before + of + after, "grpc_max_open_connections = 900"@)) by {
        reveal_strlit("grpc_max_open_connections = 900");
        let line = "\n"@ + "grpc_max_open_connections = 900"@ + "\n"@;
        assert(of.subrange(187, 220) =~= line);
        lemma_wider(before, of, after, 187, line);
    }
    assert(has_line(before + of + after, "unsafe = false"@)) by {
        reveal_strlit("unsafe = false");
        let line = "\n"@ + "unsafe = false"@ + "\n"@;
        assert(of.subrange(219, 235) =~= line);
        lemma_wider(before, of, after, 219, line);
    }
    assert(has_line(before + of + after, "max_open_connections = 900"@)) by {
        reveal_strlit("max_open_connections = 900");
        let line = "\n"@ + "max_open_connections = 900"@ + "\n"@;
        assert(of.subrange(234, 262) =~= line);
        lemma_wider(before, of, after, 234, line);
    }
    assert(has_line(before + of + after, "max_subscription_clients = 100"@)) by {
        reveal_strlit("max_subscription_clients = 100");
        let line = "\n"@ + "max_subscription_clients = 100"@ + "\n"@;
        assert(of.subrange(261, 293) =~= line);
        lemma_wider(before, of, after, 261, line);
    }
    assert(has_line(before + of + after, "max_subscriptions_per_client = 5"@)) by {
        reveal_strlit("max_subscriptions_per_client = 5");
        let line = "\n"@ + "max_subscriptions_per_client = 5"@ + "\n"@;
        assert(of.subrange(292, 326) =~= line);
        lemma_wider(before, of, after, 292, line);
    }
    assert(has_line(before + of + after, "experimental_subscription_buffer_size = 200"@)) by {
        reveal_strlit("experimental_subscription_buffer_size = 200");
        let line = "\n"@ + "experimental_subscription_buffer_size = 200"@ + "\n"@;
        assert(of.subrange(325, 370) =~= line);
        lemma_wider(before, of, after, 325, line);
    }
    assert(has_line(before + of + after, "experimental_websocket_write_buffer_size = 200"@)) by {
        reveal_strlit("experimental_websocket_write_buffer_size = 200");
        let line = "\n"@ + "experimental_websocket_write_buffer_size = 200"@ + "\n"@;
        assert(of.subrange(369, 417) =~= line);
        lemma_wider(before, of, after, 369, line);
    }
    assert(has_line(before + of + after, "experimental_close_on_slow_client = false"@)) by {
        reveal_strlit("experimental_close_on_slow_client = false");
        let line = "\n"@ + "experimental_close_on_slow_client = false"@ + "\n"@;
        assert(of.subrange(416, 459) =~= line);
        lemma_wider(before, of, after, 416, line);
    }
    assert(has_line(before + of + after, r#"timeout_broadcast_tx_commit = "10s""#@)) by {
        reveal_strlit(r#"timeout_broadcast_tx_commit = "10s""#);
        let line = "\n"@ + r#"timeout_broadcast_tx_commit = "10s""#@ + "\n"@;
        assert(of.subrange(458, 495) =~= line);
        lemma_wider(before, of, after, 458, line);
    }
    assert(has_line(before + of + after, "max_body_bytes = 1000000"@)) by {
        reveal_strlit("max_body_bytes = 1000000");
        let line = "\n"@ + "max_body_bytes = 1000000"@ + "\n"@;
        assert(of.subrange(494, 520) =~= line);
        lemma_wider(before, of, after, 494, line);
    }
    assert(has_line(before + of + after, "max_header_bytes = 1048576"@)) by {
        reveal_strlit("max_header_bytes = 1048576");
        let line = "\n"@ + "max_header_bytes = 1048576"@ + "\n"@;
        assert(of.subrange(519, 547) =~= line);
        lemma_wider(before, of, after, 519, line);
    }
    assert(has_line(before + of + after, r#"tls_cert_file = """#@)) by {
        reveal_strlit(r#"tls_cert_file = """#);
        let line = "\n"@ + r#"tls_cert_file = """#@ + "\n"@;
        assert(of.subrange(546, 566) =~= line);
        lemma_wider(before, of, after, 546, line);
    }
    assert(has_line(before + of + after, r#"tls_key_file = """#@)) by {
        reveal_strlit(r#"tls_key_file = """#);
        let line = "\n"@ + r#"tls_key_file = """#@ + "\n"@;
        assert(of.subrange(565, 584) =~= line);
        lemma_wider(before, of, after, 565, line);
    }
    assert(has_line(before + of + after, r#"pprof_laddr = """#@)) by {
        reveal_strlit(r#"pprof_laddr = """#);
        let line = "\n"@ + r#"pprof_laddr = """#@ + "\n"@;
        assert(of.subrange(583, 601) =~= line);
        lemma_wider(before, of, after, 583, line);
    }
    assert(has_line(before + of + after, "[p2p]"@)) by {
        reveal_strlit("[p2p]");
        let line = "\n"@ + "[p2p]"@ + "\n"@;
        assert(of.subrange(601, 608) =~= line);
        lemma_wider(before, of, after, 601, line);
    }
}

proof fn lemma_says_peer(before: Seq<char>, of: Seq<char>, after: Seq<char>)
    requires
        of == r#""
external_address = ""
seeds = ""
persistent_peers = ""#@,
    ensures
        says_peer(before + of + after),
{
    reveal_strlit(r#""
external_address = ""
seeds = ""
persistent_peers = ""#);
    reveal_strlit("\n");
    assert(has_line(before + of + after, r#"external_address = """#@)) by {
        reveal_strlit(r#"external_address = """#);
        let line = "\n"@ + r#"external_address = """#@ + "\n"@;
        assert(of.subrange(1, 24) =~= line);
        lemma_wider(before, of, after, 1, line);
    }
    assert(has_line(before + of + after, r#"seeds = """#@)) by {
        reveal_strlit(r#"seeds = """#);
        let line = "\n"@ + r#"seeds = """#@ + "\n"@;
        assert(of.subrange(23, 35) =~= line);
        lemma_wider(before, of, after, 23, line);
    }
}

proof fn lemma_says_further(before: Seq<char>, of: Seq<char>, after: Seq<char>)
    requires
        of == r#""
upnp = false
addr_book_file = "config/addrbook.json"
addr_book_strict = false
max_num_inbound_peers = 40
max_num_outbound_peers = 10
unconditional_peer_ids = ""
persistent_peers_max_dial_period = "0s"
flush_throttle_timeout = "100ms"
max_packet_msg_payload_size = 1024
send_rate = 5120000
recv_rate = 5120000
pex = true
seed_mode = false
private_peer_ids = ""
allow_duplicate_ip = true
handshake_timeout = "20s"
dial_timeout = "3s"

[mempool]
version = "v0"
recheck = true
broadcast = true
wal_dir = ""
size = 5000
max_txs_bytes = 1073741824
cache_size = 10000
keep-invalid-txs-in-cache = false
max_tx_bytes = 1048576
max_batch_bytes = 0

[statesync]
enable = false
rpc_servers = ""
trust_height = 0
trust_hash = ""
trust_period = "168h0m0s"
discovery_time = "15s"
temp_dir = ""
chunk_request_timeout = "10s"
chunk_fetchers = "4"

[consensus]
wal_file = "data/cs.wal/wal"
timeout_propose = "3s"
timeout_propose_delta = "500ms"
timeout_prevote = "1s"
timeout_prevote_delta = "500ms"
timeout_precommit = "1s"
timeout_precommit_delta = "500ms"
timeout_commit = ""#@,
    ensures
        says_further(before + of + after),
{
    reveal_strlit(r#""
upnp = false
addr_book_file = "config/addrbook.json"
addr_book_strict = false
max_num_inbound_peers = 40
max_num_outbound_peers = 10
unconditional_peer_ids = ""
persistent_peers_max_dial_period = "0s"
flush_throttle_timeout = "100ms"
max_packet_msg_payload_size = 1024
send_rate = 5120000
recv_rate = 5120000
pex = true
seed_mode = false
private_peer_ids = ""
allow_duplicate_ip = true
handshake_timeout = "20s"
dial_timeout = "3s"

[mempool]
version = "v0"
recheck = true
broadcast = true
wal_dir = ""
size = 5000
max_txs_bytes = 1073741824
cache_size = 10000
keep-invalid-txs-in-cache = false
max_tx_bytes = 1048576
max_batch_bytes = 0

[statesync]
enable = false
rpc_servers = ""
trust_height = 0
trust_hash = ""
trust_period = "168h0m0s"
discovery_time = "15s"
temp_dir = ""
chunk_request_timeout = "10s"
chunk_fetchers = "4"

[consensus]
wal_file = "data/cs.wal/wal"
timeout_propose = "3s"
timeout_propose_delta = "500ms"
timeout_prevote = "1s"
timeout_prevote_delta = "500ms"
timeout_precommit = "1s"
timeout_precommit_delta = "500ms"
timeout_commit = ""#);
    reveal_strlit("\n");
    assert(has_line(before + of + after, "upnp = false"@)) by {
        reveal_strlit("upnp = false");
        let line = "\n"@ + "upnp = false"@ + "\n"@;
        assert(of.subrange(1, 15) =~= line);
        lemma_wider(before, of, after, 1, line);
    }
    assert(has_line(before + of + after, r#"addr_book_file = "config/addrbook.json""#@)) by {
        reveal_strlit(r#"addr_book_file = "config/addrbook.json""#);
        let line = "\n"@ + r#"addr_book_file = "config/addrbook.json""#@ + "\n"@;
        assert(of.subrange(14, 55) =~= line);
        lemma_wider(before, of, after, 14, line);
    }
    assert(has_line(before + of + after, "addr_book_strict = false"@)) by {
        reveal_strlit("addr_book_strict = false");
        let line = "\n"@ + "addr_book_strict = false"@ + "\n"@;
        assert(of.subrange(54, 80) =~= line);
        lemma_wider(before, of, after, 54, line);
    }
    assert(has_line(before + of + after, "max_num_inbound_peers = 40"@)) by {
        reveal_strlit("max_num_inbound_peers = 40");
        let line = "\n"@ + "max_num_inbound_peers = 40"@ + "\n"@;
        assert(of.subrange(79, 107) =~= line);
        lemma_wider(before, of, after, 79, line);
    }
    assert(has_line(before + of + after, "max_num_outbound_peers = 10"@)) by {
        reveal_strlit("max_num_outbound_peers = 10");
        let line = "\n"@ + "max_num_outbound_peers = 10"@ + "\n"@;
        assert(of.subrange(106, 135) =~= line);
        lemma_wider(before, of, after, 106, line);
    }
    assert(has_line(before + of + after, r#"unconditional_peer_ids = """#@)) by {
        reveal_strlit(r#"unconditional_peer_ids = """#);
        let line = "\n"@ + r#"unconditional_peer_ids = """#@ + "\n"@;
        assert(of.subrange(134, 163) =~= line);
        lemma_wider(before, of, after, 134, line);
    }
    assert(has_line(before + of + after, r#"persistent_peers_max_dial_period = "0s""#@)) by {
        reveal_strlit(r#"persistent_peers_max_dial_period = "0s""#);
        let line = "\n"@ + r#"persistent_peers_max_dial_period = "0s""#@ + "\n"@;
        assert(of.subrange(162, 203) =~= line);
        lemma_wider(before, of, after, 162, line);
    }
    assert(has_line(before + of + after, r#"flush_throttle_timeout = "100ms""#@)) by {
        reveal_strlit(r#"flush_throttle_timeout = "100ms""#);
        let line = "\n"@ + r#"flush_throttle_timeout = "100ms""#@ + "\n"@;
        assert(of.subrange(202, 236) =~= line);
        lemma_wider(before, of, after, 202, line);
    }
    assert(has_line(before + of + after, "max_packet_msg_payload_size = 1024"@)) by {
        reveal_strlit("max_packet_msg_payload_size = 1024");
        let line = "\n"@ + "max_packet_msg_payload_size = 1024"@ + "\n"@;
        assert(of.subrange(235, 271) =~= line);
        lemma_wider(before, of, after, 235, line);
    }
    assert(has_line(before + of + after, "send_rate = 5120000"@)) by {
        reveal_strlit("send_rate = 5120000");
        let line = "\n"@ + "send_rate = 5120000"@ + "\n"@;
        assert(of.subrange(270, 291) =~= line);
        lemma_wider(before, of, after, 270, line);
    }
    assert(has_line(before + of + after, "recv_rate = 5120000"@)) by {
        reveal_strlit("recv_rate = 5120000");
        let line = "\n"@ + "recv_rate = 5120000"@ + "\n"@;
        assert(of.subrange(290, 311) =~= line);
        lemma_wider(before, of, after, 290, line);
    }
    assert(has_line(before + of + after, "pex = true"@)) by {
        reveal_strlit("pex = true");
        let line = "\n"@ + "pex = true"@ + "\n"@;
        assert(of.subrange(310, 322) =~= line);
        lemma_wider(before, of, after, 310, line);
    }
    assert(has_line(before + of + after, "seed_mode = false"@)) by {
        reveal_strlit("seed_mode = false");
        let line = "\n"@ + "seed_mode = false"@ + "\n"@;
        assert(of.subrange(321, 340) =~= line);
        lemma_wider(before, of, after, 321, line);
    }
    assert(has_line(before + of + after, r#"private_peer_ids = """#@)) by {
        reveal_strlit(r#"private_peer_ids = """#);
        let line = "\n"@ + r#"private_peer_ids = """#@ + "\n"@;
        assert(of.subrange(339, 362) =~= line);
        lemma_wider(before, of, after, 339, line);
    }
    assert(has_line(before + of + after, "allow_duplicate_ip = true"@)) by {
        reveal_strlit("allow_duplicate_ip = true");
        let line = "\n"@ + "allow_duplicate_ip = true"@ + "\n"@;
        assert(of.subrange(361, 388) =~= line);
        lemma_wider(before, of, after, 361, line);
    }
    assert(has_line(before + of + after, r#"handshake_timeout = "20s""#@)) by {
        reveal_strlit(r#"handshake_timeout = "20s""#);
        let line = "\n"@ + r#"handshake_timeout = "20s""#@ + "\n"@;
        assert(of.subrange(387, 414) =~= line);
        lemma_wider(before, of, after, 387, line);
    }
    assert(has_line(before + of + after, r#"dial_timeout = "3s""#@)) by {
        reveal_strlit(r#"dial_timeout = "3s""#);
        let line = "\n"@ + r#"dial_timeout = "3s""#@ + "\n"@;
        assert(of.subrange(413, 434) =~= line);
        lemma_wider(before, of, after, 413, line);
    }
    assert(has_line(before + of + after, "[mempool]"@)) by {
        reveal_strlit("[mempool]");
        let line = "\n"@ + "[mempool]"@ + "\n"@;
        assert(of.subrange(434, 445) =~= line);
        lemma_wider(before, of, after, 434, line);
    }
    assert(has_line(before + of + after, r#"version = "v0""#@)) by {
        reveal_strlit(r#"version = "v0""#);
        let line = "\n"@ + r#"version = "v0""#@ + "\n"@;
        assert(of.subrange(444, 460) =~= line);
        lemma_wider(before, of, after, 444, line);
    }
    assert(has_line(before + of + after, "recheck = true"@)) by {
        reveal_strlit("recheck = true");
        let line = "\n"@ + "recheck = true"@ + "\n"@;
        assert(of.subrange(459, 475) =~= line);
        lemma_wider(before, of, after, 459, line);
    }
    assert(has_line(before + of + after, "broadcast = true"@)) by {
        reveal_strlit("broadcast = true");
        let line = "\n"@ + "broadcast = true"@ + "\n"@;
        assert(of.subrange(474, 492) =~= line);
        lemma_wider(before, of, after, 474, line);
    }
    assert(has_line(before + of + after, r#"wal_dir = """#@)) by {
        reveal_strlit(r#"wal_dir = """#);
        let line = "\n"@ + r#"wal_dir = """#@ + "\n"@;
        assert(of.subrange(491, 505) =~= line);
        lemma_wider(before, of, after, 491, line);
    }
    assert(has_line(before + of + after, "size = 5000"@)) by {
        reveal_strlit("size = 5000");
        let line = "\n"@ + "size = 5000"@ + "\n"@;
        assert(of.subrange(504, 517) =~= line);
        lemma_wider(before, of, after, 504, line);
    }
    assert(has_line(before + of + after, "max_txs_bytes = 1073741824"@)) by {
        reveal_strlit("max_txs_bytes = 1073741824");
        let line = "\n"@ + "max_txs_bytes = 1073741824"@ + "\n"@;
        assert(of.subrange(516, 544) =~= line);
        lemma_wider(before, of, after, 516, line);
    }
    assert(has_line(before + of + after, "cache_size = 10000"@)) by {
        reveal_strlit("cache_size = 10000");
        let line = "\n"@ + "cache_size = 10000"@ + "\n"@;
        assert(of.subrange(543, 563) =~= line);
        lemma_wider(before, of, after, 543, line);
    }
    assert(has_line(before + of + after, "keep-invalid-txs-in-cache = false"@)) by {
        reveal_strlit("keep-invalid-txs-in-cache = false");
        let line = "\n"@ + "keep-invalid-txs-in-cache = false"@ + "\n"@;
        assert(of.subrange(562, 597) =~= line);
        lemma_wider(before, of, after, 562, line);
    }
    assert(has_line(before + of + after, "max_tx_bytes = 1048576"@)) by {
        reveal_strlit("max_tx_bytes = 1048576");
        let line = "\n"@ + "max_tx_bytes = 1048576"@ + "\n"@;
        assert(of.subrange(596, 620) =~= line);
        lemma_wider(before, of, after, 596, line);
    }
    assert(has_line(before + of + after, "max_batch_bytes = 0"@)) by {
        reveal_strlit("max_batch_bytes = 0");
        let line = "\n"@ + "max_batch_bytes = 0"@ + "\n"@;
        assert(of.subrange(619, 640) =~= line);
        lemma_wider(before, of, after, 619, line);
    }
    assert(has_line(before + of + after, "[statesync]"@)) by {
        reveal_strlit("[statesync]");
        let line = "\n"@ + "[statesync]"@ + "\n"@;
        assert(of.subrange(640, 653) =~= line);
        lemma_wider(before, of, after, 640, line);
    }
    assert(has_line(before + of + after, "enable = false"@)) by {
        reveal_strlit("enable = false");
        let line = "\n"@ + "enable = false"@ + "\n"@;
        assert(of.subrange(652, 668) =~= line);
        lemma_wider(before, of, after, 652, line);
    }
    assert(has_line(before + of + after, r#"rpc_servers = """#@)) by {
        reveal_strlit(r#"rpc_servers = """#);
        let line = "\n"@ + r#"rpc_servers = """#@ + "\n"@;
        assert(of.subrange(667, 685) =~= line);
        lemma_wider(before, of, after, 667, line);
    }
    assert(has_line(before + of + after, "trust_height = 0"@)) by {
        reveal_strlit("trust_height = 0");
        let line = "\n"@ + "trust_height = 0"@ + "\n"@;
        assert(of.subrange(684, 702) =~= line);
        lemma_wider(before, of, after, 684, line);
    }
    assert(has_line(before + of + after, r#"trust_hash = """#@)) by {
        reveal_strlit(r#"trust_hash = """#);
        let line = "\n"@ + r#"trust_hash = """#@ + "\n"@;
        assert(of.subrange(701, 718) =~= line);
        lemma_wider(before, of, after, 701, line);
    }
    assert(has_line(before + of + after, r#"trust_period = "168h0m0s""#@)) by {
        reveal_strlit(r#"trust_period = "168h0m0s""#);
        let line = "\n"@ + r#"trust_period = "168h0m0s""#@ + "\n"@;
        assert(of.subrange(717, 744) =~= line);
        lemma_wider(before, of, after, 717, line);
    }
    assert(has_line(before + of + after, r#"discovery_time = "15s""#@)) by {
        reveal_strlit(r#"discovery_time = "15s""#);
        let line = "\n"@ + r#"discovery_time = "15s""#@ + "\n"@;
        assert(of.subrange(743, 767) =~= line);
        lemma_wider(before, of, after, 743, line);
    }
    assert(has_line(before + of + after, r#"temp_dir = """#@)) by {
        reveal_strlit(r#"temp_dir = """#);
        let line = "\n"@ + r#"temp_dir = """#@ + "\n"@;
        assert(of.subrange(766, 781) =~= line);
        lemma_wider(before, of, after, 766, line);
    }
    assert(has_line(before + of + after, r#"chunk_request_timeout = "10s""#@)) by {
        reveal_strlit(r#"chunk_request_timeout = "10s""#);
        let line = "\n"@ + r#"chunk_request_timeout = "10s""#@ + "\n"@;
        assert(of.subrange(780, 811) =~= line);
        lemma_wider(before, of, after, 780, line);
    }
    assert(has_line(before + of + after, r#"chunk_fetchers = "4""#@)) by {
        reveal_strlit(r#"chunk_fetchers = "4""#);
        let line = "\n"@ + r#"chunk_fetchers = "4""#@ + "\n"@;
        assert(of.subrange(810, 832) =~= line);
        lemma_wider(before, of, after, 810, line);
    }
    assert(has_line(before + of + after, "[consensus]"@)) by {
        reveal_strlit("[consensus]");
        let line = "\n"@ + "[consensus]"@ + "\n"@;
        assert(of.subrange(832, 845) =~= line);
        lemma_wider(before, of, after, 832, line);
    }
    assert(has_line(before + of + after, r#"wal_file = "data/cs.wal/wal""#@)) by {
        reveal_strlit(r#"wal_file = "data/cs.wal/wal""#);
        let line = "\n"@ + r#"wal_file = "data/cs.wal/wal""#@ + "\n"@;
        assert(of.subrange(844, 874) =~= line);
        lemma_wider(before, of, after, 844, line);
    }
    assert(has_line(before + of + after, r#"timeout_propose = "3s""#@)) by {
        reveal_strlit(r#"timeout_propose = "3s""#);
        let line = "\n"@ + r#"timeout_propose = "3s""#@ + "\n"@;
        assert(of.subrange(873, 897) =~= line);
        lemma_wider(before, of, after, 873, line);
    }
    assert(has_line(before + of + after, r#"timeout_propose_delta = "500ms""#@)) by {
        reveal_strlit(r#"timeout_propose_delta = "500ms""#);
        let line = "\n"@ + r#"timeout_propose_delta = "500ms""#@ + "\n"@;
        assert(of.subrange(896, 929) =~= line);
        lemma_wider(before, of, after, 896, line);
    }
    assert(has_line(before + of + after, r#"timeout_prevote = "1s""#@)) by {
        reveal_strlit(r#"timeout_prevote = "1s""#);
        let line = "\n"@ + r#"timeout_prevote = "1s""#@ + "\n"@;
        assert(of.subrange(928, 952) =~= line);
        lemma_wider(before, of, after, 928, line);
    }
    assert(has_line(before + of + after, r#"timeout_prevote_delta = "500ms""#@)) by {
        reveal_strlit(r#"timeout_prevote_delta = "500ms""#);
        let line = "\n"@ + r#"timeout_prevote_delta = "500ms""#@ + "\n"@;
        assert(of.subrange(951, 984) =~= line);
        lemma_wider(before, of, after, 951, line);
    }
    assert(has_line(before + of + after, r#"timeout_precommit = "1s""#@)) by {
        reveal_strlit(r#"timeout_precommit = "1s""#);
        let line = "\n"@ + r#"timeout_precommit = "1s""#@ + "\n"@;
        assert(of.subrange(983, 1009) =~= line);
        lemma_wider(before, of, after, 983, line);
    }
    assert(has_line(before + of + after, r#"timeout_precommit_delta = "500ms""#@)) by {
        reveal_strlit(r#"timeout_precommit_delta = "500ms""#);
        let line = "\n"@ + r#"timeout_precommit_delta = "500ms""#@ + "\n"@;
        assert(of.subrange(1008, 1043) =~= line);
        lemma_wider(before, of, after, 1008, line);
    }
}

proof fn lemma_says_last(before: Seq<char>, of: Seq<char>, after: Seq<char>)
    requires
        of == r#""
double_sign_check_height = 0
skip_timeout_commit = false
create_empty_blocks = true
create_empty_blocks_interval = "0s"
peer_gossip_sleep_duration = "100ms"
peer_query_maj23_sleep_duration = "2s"

[storage]
discard_abci_responses = false

[tx_index]
indexer = "kv"
psql-conn = ""

[instrumentation]
prometheus = false
prometheus_listen_addr = ":26660"
max_open_connections = 3
namespace = "cometbft"
"#@,
    ensures
        says_last(before + of + after),
{
    reveal_strlit(r#""
double_sign_check_height = 0
skip_timeout_commit = false
create_empty_blocks = true
create_empty_blocks_interval = "0s"
peer_gossip_sleep_duration = "100ms"
peer_query_maj23_sleep_duration = "2s"

[storage]
discard_abci_responses = false

[tx_index]
indexer = "kv"
psql-conn = ""

[instrumentation]
prometheus = false
prometheus_listen_addr = ":26660"
max_open_connections = 3
namespace = "cometbft"
"#);
    reveal_strlit("\n");
    assert(has_line(before + of + after, "double_sign_check_height = 0"@)) by {
        reveal_strlit("double_sign_check_height = 0");
        let line = "\n"@ + "double_sign_check_height = 0"@ + "\n"@;
        assert(of.subrange(1, 31) =~= line);
        lemma_wider(before, of, after, 1, line);
    }
    assert(has_line(before + of + after, "skip_timeout_commit = false"@)) by {
        reveal_strlit("skip_timeout_commit = false");
        let line = "\n"@ + "skip_timeout_commit = false"@ + "\n"@;
        assert(of.subrange(30, 59) =~= line);
        lemma_wider(before, of, after, 30, line);
    }
    assert(has_line(before + of + after, "create_empty_blocks = true"@)) by {
        reveal_strlit("create_empty_blocks = true");
        let line = "\n"@ + "create_empty_blocks = true"@ + "\n"@;
        assert(of.subrange(58, 86) =~= line);
        lemma_wider(before, of, after, 58, line);
    }
    assert(has_line(before + of + after, r#"create_empty_blocks_interval = "0s""#@)) by {
        reveal_strlit(r#"create_empty_blocks_interval = "0s""#);
        let line = "\n"@ + r#"create_empty_blocks_interval = "0s""#@ + "\n"@;
        assert(of.subrange(85, 122) =~= line);
        lemma_wider(before, of, after, 85, line);
    }
    assert(has_line(before + of + after, r#"peer_gossip_sleep_duration = "100ms""#@)) by {
        reveal_strlit(r#"peer_gossip_sleep_duration = "100ms""#);
        let line = "\n"@ + r#"peer_gossip_sleep_duration = "100ms""#@ + "\n"@;
        assert(of.subrange(121, 159) =~= line);
        lemma_wider(before, of, after, 121, line);
    }
    assert(has_line(before + of + after, r#"peer_query_maj23_sleep_duration = "2s""#@)) by {
        reveal_strlit(r#"peer_query_maj23_sleep_duration = "2s""#);
        let line = "\n"@ + r#"peer_query_maj23_sleep_duration = "2s""#@ + "\n"@;
        assert(of.subrange(158, 198) =~= line);
        lemma_wider(before, of, after, 158, line);
    }
    assert(has_line(before + of + after, "[storage]"@)) by {
        reveal_strlit("[storage]");
        let line = "\n"@ + "[storage]"@ + "\n"@;
        assert(of.subrange(198, 209) =~= line);
        lemma_wider(before, of, after, 198, line);
    }
    assert(has_line(before + of + after, "discard_abci_responses = false"@)) by {
        reveal_strlit("discard_abci_responses = false");
        let line = "\n"@ + "discard_abci_responses = false"@ + "\n"@;
        assert(of.subrange(208, 240) =~= line);
        lemma_wider(before, of, after, 208, line);
    }
    assert(has_line(before + of + after, "[tx_index]"@)) by {
        reveal_strlit("[tx_index]");
        let line = "\n"@ + "[tx_index]"@ + "\n"@;
        assert(of.subrange(240, 252) =~= line);
        lemma_wider(before, of, after, 240, line);
    }
    assert(has_line(before + of + after, r#"indexer = "kv""#@)) by {
        reveal_strlit(r#"indexer = "kv""#);
        let line = "\n"@ + r#"indexer = "kv""#@ + "\n"@;
        assert(of.subrange(251, 267) =~= line);
        lemma_wider(before, of, after, 251, line);
    }
    assert(has_line(before + of + after, r#"psql-conn = """#@)) by {
        reveal_strlit(r#"psql-conn = """#);
        let line = "\n"@ + r#"psql-conn = """#@ + "\n"@;
        assert(of.subrange(266, 282) =~= line);
        lemma_wider(before, of, after, 266, line);
    }
    assert(has_line(before + of + after, "[instrumentation]"@)) by {
        reveal_strlit("[instrumentation]");
        let line = "\n"@ + "[instrumentation]"@ + "\n"@;
        assert(of.subrange(282, 301) =~= line);
        lemma_wider(before, of, after, 282, line);
    }
    assert(has_line(before + of + after, "prometheus = false"@)) by {
        reveal_strlit("prometheus = false");
        let line = "\n"@ + "prometheus = false"@ + "\n"@;
        assert(of.subrange(300, 320) =~= line);
        lemma_wider(before, of, after, 300, line);
    }
    assert(has_line(before + of + after, r#"prometheus_listen_addr = ":26660""#@)) by {
        reveal_strlit(r#"prometheus_listen_addr = ":26660""#);
        let line = "\n"@ + r#"prometheus_listen_addr = ":26660""#@ + "\n"@;
        assert(of.subrange(319, 354) =~= line);
        lemma_wider(before, of, after, 319, line);
    }
    assert(has_line(before + of + after, "max_open_connections = 3"@)) by {
        reveal_strlit("max_open_connections = 3");
        let line = "\n"@ + "max_open_connections = 3"@ + "\n"@;
        assert(of.subrange(353, 379) =~= line);
        lemma_wider(before, of, after, 353, line);
    }
    assert(has_line(before + of + after, r#"namespace = "cometbft""#@)) by {
        reveal_strlit(r#"namespace = "cometbft""#);
        let line = "\n"@ + r#"namespace = "cometbft""#@ + "\n"@;
        assert(of.subrange(378, 402) =~= line);
        lemma_wider(before, of, after, 378, line);
    }
}

/// The configuration of a node names where felidae waits, the node, where it listens for requests and
/// for peers, its peers, and the time between blocks, each in its place.
pub proof fn lemma_config_names(
    of: WebcatNodeView,
    persistent_peers: Seq<char>,
    timeout_commit: Seq<char>,
)
    ensures
        ({
            let config = cometbft::config_toml(of, persistent_peers, timeout_commit);
            &&& holds(config, "\nproxy_app = \"tcp://"@ + of.abci_address() + "\"\n"@)
            &&& holds(config, "\nmoniker = \""@ + of.name + "\"\n"@)
            &&& holds(config, "\n[rpc]\nladdr = \""@ + of.rpc_listen_address() + "\"\n"@)
            &&& holds(config, "\n[p2p]\nladdr = \""@ + of.p2p_listen_address() + "\"\n"@)
            &&& holds(config, "\npersistent_peers = \""@ + persistent_peers + "\"\n"@)
            &&& holds(config, "\ntimeout_commit = \""@ + timeout_commit + "\"\n"@)
            &&& config.len() == 2635 + of.abci_address().len() + of.name.len()
                + of.rpc_listen_address().len() + of.p2p_listen_address().len()
                + persistent_peers.len() + timeout_commit.len()
        }),
{
    let config = cometbft::config_toml(of, persistent_peers, timeout_commit);
    let part0 = r#"# This is a TOML config file.
# For more information, see https://github.com/toml-lang/toml

proxy_app = "tcp://"#@;
    let part1 = r#""
moniker = ""#@;
    let part2 = r#""
fast_sync = true
db_backend = "goleveldb"
db_dir = "data"
log_level = "info"
log_format = "plain"
genesis_file = "config/genesis.json"
priv_validator_key_file = "config/priv_validator_key.json"
priv_validator_state_file = "data/priv_validator_state.json"
priv_validator_laddr = ""
node_key_file = "config/node_key.json"
abci = "socket"
filter_peers = false

[rpc]
laddr = ""#@;
    let part3 = r#""
cors_allowed_origins = []
cors_allowed_methods = ["HEAD", "GET", "POST"]
cors_allowed_headers = ["Origin", "Accept", "Content-Type", "X-Requested-With", "X-Server-Time"]
grpc_laddr = ""
grpc_max_open_connections = 900
unsafe = false
max_open_connections = 900
max_subscription_clients = 100
max_subscriptions_per_client = 5
experimental_subscription_buffer_size = 200
experimental_websocket_write_buffer_size = 200
experimental_close_on_slow_client = false
timeout_broadcast_tx_commit = "10s"
max_body_bytes = 1000000
max_header_bytes = 1048576
tls_cert_file = ""
tls_key_file = ""
pprof_laddr = ""

[p2p]
laddr = ""#@;
    let part4 = r#""
external_address = ""
seeds = ""
persistent_peers = ""#@;
    let part5 = r#""
upnp = false
addr_book_file = "config/addrbook.json"
addr_book_strict = false
max_num_inbound_peers = 40
max_num_outbound_peers = 10
unconditional_peer_ids = ""
persistent_peers_max_dial_period = "0s"
flush_throttle_timeout = "100ms"
max_packet_msg_payload_size = 1024
send_rate = 5120000
recv_rate = 5120000
pex = true
seed_mode = false
private_peer_ids = ""
allow_duplicate_ip = true
handshake_timeout = "20s"
dial_timeout = "3s"

[mempool]
version = "v0"
recheck = true
broadcast = true
wal_dir = ""
size = 5000
max_txs_bytes = 1073741824
cache_size = 10000
keep-invalid-txs-in-cache = false
max_tx_bytes = 1048576
max_batch_bytes = 0

[statesync]
enable = false
rpc_servers = ""
trust_height = 0
trust_hash = ""
trust_period = "168h0m0s"
discovery_time = "15s"
temp_dir = ""
chunk_request_timeout = "10s"
chunk_fetchers = "4"

[consensus]
wal_file = "data/cs.wal/wal"
timeout_propose = "3s"
timeout_propose_delta = "500ms"
timeout_prevote = "1s"
timeout_prevote_delta = "500ms"
timeout_precommit = "1s"
timeout_precommit_delta = "500ms"
timeout_commit = ""#@;
    let part6 = r#""
double_sign_check_height = 0
skip_timeout_commit = false
create_empty_blocks = true
create_empty_blocks_interval = "0s"
peer_gossip_sleep_duration = "100ms"
peer_query_maj23_sleep_duration = "2s"

[storage]
discard_abci_responses = false

[tx_index]
indexer = "kv"
psql-conn = ""

[instrumentation]
prometheus = false
prometheus_listen_addr = ":26660"
max_open_connections = 3
namespace = "cometbft"
"#@;
    reveal_strlit(r#"# This is a TOML config file.
# For more information, see https://github.com/toml-lang/toml

proxy_app = "tcp://"#);
    reveal_strlit(r#""
moniker = ""#);
    reveal_strlit(r#""
fast_sync = true
db_backend = "goleveldb"
db_dir = "data"
log_level = "info"
log_format = "plain"
genesis_file = "config/genesis.json"
priv_validator_key_file = "config/priv_validator_key.json"
priv_validator_state_file = "data/priv_validator_state.json"
priv_validator_laddr = ""
node_key_file = "config/node_key.json"
abci = "socket"
filter_peers = false

[rpc]
laddr = ""#);
    reveal_strlit(r#""
cors_allowed_origins = []
cors_allowed_methods = ["HEAD", "GET", "POST"]
cors_allowed_headers = ["Origin", "Accept", "Content-Type", "X-Requested-With", "X-Server-Time"]
grpc_laddr = ""
grpc_max_open_connections = 900
unsafe = false
max_open_connections = 900
max_subscription_clients = 100
max_subscriptions_per_client = 5
experimental_subscription_buffer_size = 200
experimental_websocket_write_buffer_size = 200
experimental_close_on_slow_client = false
timeout_broadcast_tx_commit = "10s"
max_body_bytes = 1000000
max_header_bytes = 1048576
tls_cert_file = ""
tls_key_file = ""
pprof_laddr = ""

[p2p]
laddr = ""#);
    reveal_strlit(r#""
external_address = ""
seeds = ""
persistent_peers = ""#);
    reveal_strlit(r#""
upnp = false
addr_book_file = "config/addrbook.json"
addr_book_strict = false
max_num_inbound_peers = 40
max_num_outbound_peers = 10
unconditional_peer_ids = ""
persistent_peers_max_dial_period = "0s"
flush_throttle_timeout = "100ms"
max_packet_msg_payload_size = 1024
send_rate = 5120000
recv_rate = 5120000
pex = true
seed_mode = false
private_peer_ids = ""
allow_duplicate_ip = true
handshake_timeout = "20s"
dial_timeout = "3s"

[mempool]
version = "v0"
recheck = true
broadcast = true
wal_dir = ""
size = 5000
max_txs_bytes = 1073741824
cache_size = 10000
keep-invalid-txs-in-cache = false
max_tx_bytes = 1048576
max_batch_bytes = 0

[statesync]
enable = false
rpc_servers = ""
trust_height = 0
trust_hash = ""
trust_period = "168h0m0s"
discovery_time = "15s"
temp_dir = ""
chunk_request_timeout = "10s"
chunk_fetchers = "4"

[consensus]
wal_file = "data/cs.wal/wal"
timeout_propose = "3s"
timeout_propose_delta = "500ms"
timeout_prevote = "1s"
timeout_prevote_delta = "500ms"
timeout_precommit = "1s"
timeout_precommit_delta = "500ms"
timeout_commit = ""#);
    reveal_strlit(r#""
double_sign_check_height = 0
skip_timeout_commit = false
create_empty_blocks = true
create_empty_blocks_interval = "0s"
peer_gossip_sleep_duration = "100ms"
peer_query_maj23_sleep_duration = "2s"

[storage]
discard_abci_responses = false

[tx_index]
indexer = "kv"
psql-conn = ""

[instrumentation]
prometheus = false
prometheus_listen_addr = ":26660"
max_open_connections = 3
namespace = "cometbft"
"#);
    assert(holds(config, "\nproxy_app = \"tcp://"@ + of.abci_address() + "\"\n"@)) by {
        let a = part0;
        let rest = of.name + part2 + of.rpc_listen_address() + part3 + of.p2p_listen_address() + part4 + persistent_peers + part5 + timeout_commit + part6;
        reveal_strlit("\nproxy_app = \"tcp://");
        reveal_strlit("\"\n");
        assert(part0.subrange(92, 112) =~= "\nproxy_app = \"tcp://"@);
        assert(part1.subrange(0, 2) =~= "\"\n"@);
        assert(a.subrange(a.len() - 20, a.len() as int) =~= part0.subrange(92, 112));
        lemma_across(a, of.abci_address(), part1, "\nproxy_app = \"tcp://"@, "\"\n"@, rest);
        assert(a + of.abci_address() + part1 + rest =~= config);
    }
    assert(holds(config, "\nmoniker = \""@ + of.name + "\"\n"@)) by {
        let a = part0 + of.abci_address() + part1;
        let rest = of.rpc_listen_address() + part3 + of.p2p_listen_address() + part4 + persistent_peers + part5 + timeout_commit + part6;
        reveal_strlit("\nmoniker = \"");
        reveal_strlit("\"\n");
        assert(part1.subrange(1, 13) =~= "\nmoniker = \""@);
        assert(part2.subrange(0, 2) =~= "\"\n"@);
        assert(a.subrange(a.len() - 12, a.len() as int) =~= part1.subrange(1, 13));
        lemma_across(a, of.name, part2, "\nmoniker = \""@, "\"\n"@, rest);
        assert(a + of.name + part2 + rest =~= config);
    }
    assert(holds(config, "\n[rpc]\nladdr = \""@ + of.rpc_listen_address() + "\"\n"@)) by {
        let a = part0 + of.abci_address() + part1 + of.name + part2;
        let rest = of.p2p_listen_address() + part4 + persistent_peers + part5 + timeout_commit + part6;
        reveal_strlit("\n[rpc]\nladdr = \"");
        reveal_strlit("\"\n");
        assert(part2.subrange(359, 375) =~= "\n[rpc]\nladdr = \""@);
        assert(part3.subrange(0, 2) =~= "\"\n"@);
        assert(a.subrange(a.len() - 16, a.len() as int) =~= part2.subrange(359, 375));
        lemma_across(a, of.rpc_listen_address(), part3, "\n[rpc]\nladdr = \""@, "\"\n"@, rest);
        assert(a + of.rpc_listen_address() + part3 + rest =~= config);
    }
    assert(holds(config, "\n[p2p]\nladdr = \""@ + of.p2p_listen_address() + "\"\n"@)) by {
        let a = part0 + of.abci_address() + part1 + of.name + part2 + of.rpc_listen_address() + part3;
        let rest = persistent_peers + part5 + timeout_commit + part6;
        reveal_strlit("\n[p2p]\nladdr = \"");
        reveal_strlit("\"\n");
        assert(part3.subrange(601, 617) =~= "\n[p2p]\nladdr = \""@);
        assert(part4.subrange(0, 2) =~= "\"\n"@);
        assert(a.subrange(a.len() - 16, a.len() as int) =~= part3.subrange(601, 617));
        lemma_across(a, of.p2p_listen_address(), part4, "\n[p2p]\nladdr = \""@, "\"\n"@, rest);
        assert(a + of.p2p_listen_address() + part4 + rest =~= config);
    }
    assert(holds(config, "\npersistent_peers = \""@ + persistent_peers + "\"\n"@)) by {
        let a = part0 + of.abci_address() + part1 + of.name + part2 + of.rpc_listen_address() + part3 + of.p2p_listen_address() + part4;
        let rest = timeout_commit + part6;
        reveal_strlit("\npersistent_peers = \"");
        reveal_strlit("\"\n");
        assert(part4.subrange(34, 55) =~= "\npersistent_peers = \""@);
        assert(part5.subrange(0, 2) =~= "\"\n"@);
        assert(a.subrange(a.len() - 21, a.len() as int) =~= part4.subrange(34, 55));
        lemma_across(a, persistent_peers, part5, "\npersistent_peers = \""@, "\"\n"@, rest);
        assert(a + persistent_peers + part5 + rest =~= config);
    }
    assert(holds(config, "\ntimeout_commit = \""@ + timeout_commit + "\"\n"@)) by {
        let a = part0 + of.abci_address() + part1 + of.name + part2 + of.rpc_listen_address() + part3 + of.p2p_listen_address() + part4 + persistent_peers + part5;
        let rest = Seq::<char>::empty();
        reveal_strlit("\ntimeout_commit = \"");
        reveal_strlit("\"\n");
        assert(part5.subrange(1042, 1061) =~= "\ntimeout_commit = \""@);
        assert(part6.subrange(0, 2) =~= "\"\n"@);
        assert(a.subrange(a.len() - 19, a.len() as int) =~= part5.subrange(1042, 1061));
        lemma_across(a, timeout_commit, part6, "\ntimeout_commit = \""@, "\"\n"@, rest);
        assert(a + timeout_commit + part6 + rest =~= config);
    }
}

/// All else that the configuration of a node says is the same for every node.
pub proof fn lemma_config_settings(
    of: WebcatNodeView,
    persistent_peers: Seq<char>,
    timeout_commit: Seq<char>,
)
    ensures
        ({
            let config = cometbft::config_toml(of, persistent_peers, timeout_commit);
            &&& says_general(config)
            &&& says_rpc(config)
            &&& says_peer(config)
            &&& says_further(config)
            &&& says_last(config)
        }),
{
    let config = cometbft::config_toml(of, persistent_peers, timeout_commit);
    let part0 = r#"# This is a TOML config file.
# For more information, see https://github.com/toml-lang/toml

proxy_app = "tcp://"#@;
    let part1 = r#""
moniker = ""#@;
    let part2 = r#""
fast_sync = true
db_backend = "goleveldb"
db_dir = "data"
log_level = "info"
log_format = "plain"
genesis_file = "config/genesis.json"
priv_validator_key_file = "config/priv_validator_key.json"
priv_validator_state_file = "data/priv_validator_state.json"
priv_validator_laddr = ""
node_key_file = "config/node_key.json"
abci = "socket"
filter_peers = false

[rpc]
laddr = ""#@;
    let part3 = r#""
cors_allowed_origins = []
cors_allowed_methods = ["HEAD", "GET", "POST"]
cors_allowed_headers = ["Origin", "Accept", "Content-Type", "X-Requested-With", "X-Server-Time"]
grpc_laddr = ""
grpc_max_open_connections = 900
unsafe = false
max_open_connections = 900
max_subscription_clients = 100
max_subscriptions_per_client = 5
experimental_subscription_buffer_size = 200
experimental_websocket_write_buffer_size = 200
experimental_close_on_slow_client = false
timeout_broadcast_tx_commit = "10s"
max_body_bytes = 1000000
max_header_bytes = 1048576
tls_cert_file = ""
tls_key_file = ""
pprof_laddr = ""

[p2p]
laddr = ""#@;
    let part4 = r#""
external_address = ""
seeds = ""
persistent_peers = ""#@;
    let part5 = r#""
upnp = false
addr_book_file = "config/addrbook.json"
addr_book_strict = false
max_num_inbound_peers = 40
max_num_outbound_peers = 10
unconditional_peer_ids = ""
persistent_peers_max_dial_period = "0s"
flush_throttle_timeout = "100ms"
max_packet_msg_payload_size = 1024
send_rate = 5120000
recv_rate = 5120000
pex = true
seed_mode = false
private_peer_ids = ""
allow_duplicate_ip = true
handshake_timeout = "20s"
dial_timeout = "3s"

[mempool]
version = "v0"
recheck = true
broadcast = true
wal_dir = ""
size = 5000
max_txs_bytes = 1073741824
cache_size = 10000
keep-invalid-txs-in-cache = false
max_tx_bytes = 1048576
max_batch_bytes = 0

[statesync]
enable = false
rpc_servers = ""
trust_height = 0
trust_hash = ""
trust_period = "168h0m0s"
discovery_time = "15s"
temp_dir = ""
chunk_request_timeout = "10s"
chunk_fetchers = "4"

[consensus]
wal_file = "data/cs.wal/wal"
timeout_propose = "3s"
timeout_propose_delta = "500ms"
timeout_prevote = "1s"
timeout_prevote_delta = "500ms"
timeout_precommit = "1s"
timeout_precommit_delta = "500ms"
timeout_commit = ""#@;
    let part6 = r#""
double_sign_check_height = 0
skip_timeout_commit = false
create_empty_blocks = true
create_empty_blocks_interval = "0s"
peer_gossip_sleep_duration = "100ms"
peer_query_maj23_sleep_duration = "2s"

[storage]
discard_abci_responses = false

[tx_index]
indexer = "kv"
psql-conn = ""

[instrumentation]
prometheus = false
prometheus_listen_addr = ":26660"
max_open_connections = 3
namespace = "cometbft"
"#@;
    assert(says_general(config)) by {
        let before = part0 + of.abci_address() + part1 + of.name;
        let after = of.rpc_listen_address() + part3 + of.p2p_listen_address() + part4 + persistent_peers + part5 + timeout_commit + part6;
        lemma_says_general(before, part2, after);
        assert(before + part2 + after =~= config);
    }
    assert(says_rpc(config)) by {
        let before = part0 + of.abci_address() + part1 + of.name + part2 + of.rpc_listen_address();
        let after = of.p2p_listen_address() + part4 + persistent_peers + part5 + timeout_commit + part6;
        lemma_says_rpc(before, part3, after);
        assert(before + part3 + after =~= config);
    }
    assert(says_peer(config)) by {
        let before = part0 + of.abci_address() + part1 + of.name + part2 + of.rpc_listen_address() + part3 + of.p2p_listen_address();
        let after = persistent_peers + part5 + timeout_commit + part6;
        lemma_says_peer(before, part4, after);
        assert(before + part4 + after =~= config);
    }
    assert(says_further(config)) by {
        let before = part0 + of.abci_address() + part1 + of.name + part2 + of.rpc_listen_address() + part3 + of.p2p_listen_address() + part4 + persistent_peers;
        let after = timeout_commit + part6;
        lemma_says_further(before, part5, after);
        assert(before + part5 + after =~= config);
    }
    assert(says_last(config)) by {
        let before = part0 + of.abci_address() + part1 + of.name + part2 + of.rpc_listen_address() + part3 + of.p2p_listen_address() + part4 + persistent_peers + part5 + timeout_commit;
        let after = Seq::<char>::empty();
        lemma_says_last(before, part6, after);
        assert(before + part6 + after =~= config);
    }
}

} // verus!
