# felidae

The core of a chain on which oracles vote on what the domains of the web hold, and the tool that
deploys a network for it. The library is written in Rust and proved with Verus. The functions state in
their contracts what they return; where chance or the clock has a part in it, they state what holds
of every outcome.

## Layout

`src/` is the verified library.

- `transaction`, `domain`, `clock`, `error`: transactions, the chain's configuration, domain names,
  and times. `proto` holds the messages that they travel as, and `convert` goes from one to the
  other and back.
- `state`: the chain's state. `state::config` says which configurations may follow the current one,
  `state::validator` keeps the validators, `state::init_chain` begins the chain, and
  `state::finalize_block` takes it from block to block. `state::validator_laws` and
  `state::block_laws` prove what holds throughout.
- `network`, `node`, `deployment`, `keys`, `genesis`, `cometbft`, `compose`: the nodes of a network,
  their keys, and the files that they are deployed with. `network_laws` proves what holds of every
  network, `genesis_laws` what holds of its genesis file, and `compose_laws` what a working directory
  changes in the file of its processes.
- `text`, `octets`, `hexadecimal`, `table`, `sequence`, `crypto`, `json`: what the rest is built
  from. `json_laws` proves which JSON texts are read back as they are. Calls into other crates stand
  behind small functions here and in a few other modules, each marked as trusted.

`tests/` runs the library. `app/` is what touches the world: files, sockets, the JSON forms of the
types, and the messages of consensus.

## What is proved

What fits a message is read back from it as it was written. A configuration takes over only if its
version is greater, and the version never falls. A validator that was tombstoned never gets its power
back. What consensus is told at the end of a block brings its validators to those of the state. A
quorum is more than two thirds of the voters. A configuration that is put into a genesis file leaves
all else in it as it was, and putting it there again changes nothing, where the file is read back as
it is; that made from a network's own keys is.
