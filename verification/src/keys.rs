//! The keys of a node, and the files that hold them.

use vstd::prelude::*;

use crate::crypto;
use crate::crypto::KeyPair;
use crate::hexadecimal;
use crate::hexadecimal::HexError;
use crate::json;
use crate::json_laws;
use crate::octets;
use crate::text;

verus! {

/// What the node with this secret key is known by to its peers: the address of its public key.
pub open spec fn node_id(secret: Seq<u8>) -> Seq<char> {
    hexadecimal::hex_text(crypto::address(crypto::ed25519_public(secret)))
}

/// The text of a key: what it is, and its bytes.
pub open spec fn key_text(of: Seq<char>, bytes: Seq<u8>) -> Seq<char> {
    json::object_text(
        seq![
            ("type"@, json::json_quoted(of)),
            ("value"@, json::json_quoted(crypto::base64_text(bytes))),
        ],
    )
}

/// The text of a node key file.
pub open spec fn node_key_text(secret: Seq<u8>, public: Seq<u8>) -> Seq<char> {
    json::object_text(
        seq![("priv_key"@, key_text("tendermint/PrivKeyEd25519"@, secret + public))],
    )
}

/// The text of a validator key file.
pub open spec fn priv_validator_key_text(
    secret: Seq<u8>,
    public: Seq<u8>,
    address: Seq<u8>,
) -> Seq<char> {
    json::object_text(
        seq![
            ("address"@, json::json_quoted(hexadecimal::hex_upper_text(address))),
            ("priv_key"@, key_text("tendermint/PrivKeyEd25519"@, secret + public)),
            ("pub_key"@, key_text("tendermint/PubKeyEd25519"@, public)),
        ],
    )
}

/// The text of the `node_key.json` of the node with this secret key.
pub open spec fn node_key_json(secret: Seq<u8>) -> Seq<char> {
    node_key_text(secret, crypto::ed25519_public(secret))
}

/// The text of the `priv_validator_key.json` of the validator with this secret key.
pub open spec fn priv_validator_key_json(secret: Seq<u8>) -> Seq<char> {
    priv_validator_key_text(
        secret,
        crypto::ed25519_public(secret),
        crypto::address(crypto::ed25519_public(secret)),
    )
}

/// Whether these are the file for this secret key, from which it is read back, and the identifier. The
/// identifier has 40 lower
/// case hexadecimal digits.
pub open spec fn node_key_outcome(r: Result<(String, String), String>, secret: Seq<u8>) -> bool {
    r matches Ok(made) && {
        &&& made.0@ == json::json_pretty(node_key_json(secret))
        &&& json::reads_back(made.0@, node_key_json(secret))
        &&& made.1@ == node_id(secret)
        &&& node_id(secret).len() == 40
        &&& hexadecimal::is_lower_hex(node_id(secret))
    }
}

/// The text of a key passes.
pub proof fn lemma_key_passes(of: Seq<char>, bytes: Seq<u8>)
    ensures
        json_laws::passes(key_text(of, bytes), 1),
{
    let members = seq![
        ("type"@, json::json_quoted(of)),
        ("value"@, json::json_quoted(crypto::base64_text(bytes))),
    ];
    json_laws::lemma_quoted_passes(of);
    json_laws::lemma_quoted_passes(crypto::base64_text(bytes));
    assert forall|i: int| 0 <= i < members.len() implies json_laws::passes(
        (#[trigger] members[i]).1,
        0,
    ) by {}
    json_laws::lemma_object_passes(members, 0);
}

/// A node key file can be read back as it is.
pub proof fn lemma_node_key_is_readable(secret: Seq<u8>, public: Seq<u8>)
    ensures
        json::readable(node_key_text(secret, public)),
{
    let key = key_text("tendermint/PrivKeyEd25519"@, secret + public);
    let members = seq![("priv_key"@, key)];
    lemma_key_passes("tendermint/PrivKeyEd25519"@, secret + public);
    assert forall|i: int| 0 <= i < members.len() implies json_laws::passes(
        (#[trigger] members[i]).1,
        1,
    ) by {}
    json_laws::lemma_object_passes(members, 1);
    json_laws::lemma_passing_is_readable(node_key_text(secret, public), 2);
}

/// A validator key file can be read back as it is.
pub proof fn lemma_validator_key_is_readable(secret: Seq<u8>, public: Seq<u8>, address: Seq<u8>)
    ensures
        json::readable(priv_validator_key_text(secret, public, address)),
{
    let address_text = json::json_quoted(hexadecimal::hex_upper_text(address));
    let members = seq![
        ("address"@, address_text),
        ("priv_key"@, key_text("tendermint/PrivKeyEd25519"@, secret + public)),
        ("pub_key"@, key_text("tendermint/PubKeyEd25519"@, public)),
    ];
    json_laws::lemma_quoted_passes(hexadecimal::hex_upper_text(address));
    json_laws::lemma_more_levels_pass(address_text, 0, 1);
    lemma_key_passes("tendermint/PrivKeyEd25519"@, secret + public);
    lemma_key_passes("tendermint/PubKeyEd25519"@, public);
    assert forall|i: int| 0 <= i < members.len() implies json_laws::passes(
        (#[trigger] members[i]).1,
        1,
    ) by {}
    json_laws::lemma_object_passes(members, 1);
    json_laws::lemma_passing_is_readable(priv_validator_key_text(secret, public, address), 2);
}

fn full_key(secret: &[u8; 32], public: &[u8; 32]) -> (r: Vec<u8>)
    ensures
        r@ == secret@ + public@,
{
    let mut full = octets::copy_bytes(secret.as_slice());
    let mut rest = octets::copy_bytes(public.as_slice());
    full.append(&mut rest);
    full
}

fn key_value(of: &str, bytes: &[u8]) -> (r: serde_json::Value)
    ensures
        json::json_text(r) == key_text(of@, bytes@),
{
    let encoded = crypto::base64_encode(bytes);
    let members = vec![("type", json::string(of)), ("value", json::string(encoded.as_str()))];
    proof {
        let views = json::members_view(members@);
        assert(views =~= seq![
            ("type"@, json::json_quoted(of@)),
            ("value"@, json::json_quoted(crypto::base64_text(bytes@))),
        ]);
        reveal_strlit("type");
        reveal_strlit("value");
        assert(json::less_at("type"@, "value"@, 0));
        json::lemma_in_order(views, seq![0]);
    }
    json::object(members)
}

/// A node key file.
pub fn node_key_value(secret: &[u8; 32], public: &[u8; 32]) -> (r: serde_json::Value)
    ensures
        json::json_text(r) == node_key_text(secret@, public@),
{
    let key = key_value("tendermint/PrivKeyEd25519", full_key(secret, public).as_slice());
    let members = vec![("priv_key", key)];
    proof {
        let views = json::members_view(members@);
        assert(views =~= seq![
            ("priv_key"@, key_text("tendermint/PrivKeyEd25519"@, secret@ + public@)),
        ]);
        json::lemma_in_order(views, Seq::empty());
    }
    json::object(members)
}

/// The `node_key.json` for a secret key, and what the node is known by.
pub fn node_key(secret: &[u8; 32]) -> (r: Result<(String, String), String>)
    ensures
        node_key_outcome(r, secret@),
{
    let public = crypto::ed25519_public_key(secret);
    let id = hexadecimal::hex_encode(crypto::key_address(public.as_slice()).as_slice());
    proof {
        hexadecimal::lemma_hex_text_digits(crypto::address(public@));
        lemma_node_key_is_readable(secret@, public@);
    }
    match json::pretty(&node_key_value(secret, &public)) {
        Ok(file) => Ok((file, id)),
        Err(e) => Err(e),
    }
}

/// A new `node_key.json`, and what the node is known by.
pub fn generate_node_key() -> (r: Result<(String, String), String>)
    ensures
        exists|secret: Seq<u8>| secret.len() == 32 && #[trigger] node_key_outcome(r, secret),
{
    let secret = crypto::random_secret();
    let r = node_key(&secret);
    assert(secret@.len() == 32);
    r
}

/// A validator key file.
pub fn priv_validator_key_value(secret: &[u8; 32], public: &[u8; 32], address: &[u8]) -> (r:
    serde_json::Value)
    ensures
        json::json_text(r) == priv_validator_key_text(secret@, public@, address@),
        json::json_get(json::json_text(r), "address"@) == Some(
            json::json_quoted(hexadecimal::hex_upper_text(address@)),
        ),
        json::json_get(json::json_text(r), "pub_key"@) == Some(
            key_text("tendermint/PubKeyEd25519"@, public@),
        ),
{
    let address_text = hexadecimal::hex_encode_upper(address);
    let members = vec![
        ("address", json::string(address_text.as_str())),
        (
            "priv_key",
            key_value("tendermint/PrivKeyEd25519", full_key(secret, public).as_slice()),
        ),
        ("pub_key", key_value("tendermint/PubKeyEd25519", public.as_slice())),
    ];
    proof {
        let views = json::members_view(members@);
        assert(views =~= seq![
            ("address"@, json::json_quoted(hexadecimal::hex_upper_text(address@))),
            ("priv_key"@, key_text("tendermint/PrivKeyEd25519"@, secret@ + public@)),
            ("pub_key"@, key_text("tendermint/PubKeyEd25519"@, public@)),
        ]);
        reveal_strlit("address");
        reveal_strlit("priv_key");
        reveal_strlit("pub_key");
        assert(json::less_at("address"@, "priv_key"@, 0));
        assert(json::less_at("priv_key"@, "pub_key"@, 1));
        json::lemma_in_order(views, seq![0, 1]);
        assert(views[0].0 == "address"@);
        assert(views[2].0 == "pub_key"@);
    }
    json::object(members)
}

/// The text of the address of the validator with this secret key.
pub open spec fn validator_address_text(secret: Seq<u8>) -> Seq<char> {
    json::json_quoted(
        hexadecimal::hex_upper_text(crypto::address(crypto::ed25519_public(secret))),
    )
}

/// The text of the public key of the validator with this secret key.
pub open spec fn validator_public_text(secret: Seq<u8>) -> Seq<char> {
    key_text("tendermint/PubKeyEd25519"@, crypto::ed25519_public(secret))
}

/// Whether `file` is the validator key file for this secret key, from which it is read back, with the
/// address and the public key under their names.
pub open spec fn is_validator_key_file(file: Seq<char>, secret: Seq<u8>) -> bool {
    let text = priv_validator_key_json(secret);
    &&& file == json::json_pretty(text)
    &&& json::reads_back(file, text)
    &&& json::json_get(text, "address"@) == Some(validator_address_text(secret))
    &&& json::json_get(text, "pub_key"@) == Some(validator_public_text(secret))
}

/// Whether this is the file for this secret key.
pub open spec fn priv_validator_key_outcome(r: Result<String, String>, secret: Seq<u8>) -> bool {
    r matches Ok(file) && is_validator_key_file(file@, secret)
}

/// The `priv_validator_key.json` for a secret key.
pub fn priv_validator_key(secret: &[u8; 32]) -> (r: Result<String, String>)
    ensures
        priv_validator_key_outcome(r, secret@),
{
    let public = crypto::ed25519_public_key(secret);
    let address = crypto::key_address(public.as_slice());
    proof {
        lemma_validator_key_is_readable(secret@, public@, address@);
    }
    json::pretty(&priv_validator_key_value(secret, &public, address.as_slice()))
}

/// A new `priv_validator_key.json`.
pub fn generate_priv_validator_key() -> (r: Result<String, String>)
    ensures
        exists|secret: Seq<u8>|
            secret.len() == 32 && #[trigger] priv_validator_key_outcome(r, secret),
{
    let secret = crypto::random_secret();
    let r = priv_validator_key(&secret);
    assert(secret@.len() == 32);
    assert(priv_validator_key_outcome(r, secret@));
    r
}

/// The `priv_validator_state.json` of a validator that signed nothing yet.
pub fn initial_validator_state() -> (r: String)
    ensures
        r@ == "{\n  \"height\": \"0\",\n  \"round\": 0,\n  \"step\": 0\n}"@,
{
    "{\n  \"height\": \"0\",\n  \"round\": 0,\n  \"step\": 0\n}".to_string()
}

/// Why no public key is found in a key file.
#[derive(Clone, Copy, Debug, PartialEq, Eq)]
pub enum KeyFileError {
    /// The file is no hexadecimal text.
    NotHex(HexError),
    /// What the file holds is no P-256 key in PKCS#8.
    NotPkcs8,
    /// The file could not be read.
    NotRead,
}

/// The public key of the key in a key file: P-256, PKCS#8, in hexadecimal, with whitespace around
/// it.
pub open spec fn key_file_public(file: Seq<char>) -> Result<Seq<u8>, KeyFileError> {
    match hexadecimal::hex_bytes(text::trimmed(file)) {
        Err(e) => Err(KeyFileError::NotHex(e)),
        Ok(pkcs8) => match crypto::p256_public(pkcs8) {
            None => Err(KeyFileError::NotPkcs8),
            Some(public_key) => Ok(public_key),
        },
    }
}

/// The public key of the key in a key file.
pub fn read_key_file(file: &str) -> (r: Result<Vec<u8>, KeyFileError>)
    ensures
        match r {
            Ok(public_key) => key_file_public(file@) == Ok::<Seq<u8>, KeyFileError>(public_key@),
            Err(e) => key_file_public(file@) == Err::<Seq<u8>, KeyFileError>(e),
        },
{
    let pkcs8 = match hexadecimal::hex_decode(text::trim_text(file).as_bytes()) {
        Ok(pkcs8) => pkcs8,
        Err(e) => return Err(KeyFileError::NotHex(e)),
    };
    match KeyPair::decode(pkcs8.as_slice()) {
        Some(pair) => Ok(pair.public_key()),
        None => Err(KeyFileError::NotPkcs8),
    }
}

/// The keys that a validator votes with.
#[derive(Clone, Debug, PartialEq, Eq)]
pub struct FelidaeKeys {
    pub admin: String,
    pub oracle: String,
}

/// Whose key could not be written.
#[derive(Clone, Copy, Debug, PartialEq, Eq)]
pub enum KeyOwner {
    Admin,
    Oracle,
}

/// The key file of a key in PKCS#8 is read back as that key.
pub proof fn lemma_key_file_round_trip(pkcs8: Seq<u8>)
    requires
        crypto::p256_public(pkcs8) is Some,
    ensures
        key_file_public(hexadecimal::hex_text(pkcs8)) == Ok::<Seq<u8>, KeyFileError>(
            crypto::p256_public(pkcs8)->0,
        ),
{
    let file = hexadecimal::hex_text(pkcs8);
    if file.len() > 0 {
        assert(0 <= hexadecimal::half_byte(pkcs8, 0) < 16);
        assert(0 <= hexadecimal::half_byte(pkcs8, file.len() - 1) < 16);
    }
    text::lemma_nothing_to_trim(file);
    hexadecimal::lemma_hex_round_trip(pkcs8);
}

/// The key files of an admin and an oracle, from their keys in PKCS#8, or whose key is missing, the
/// admin's first.
pub open spec fn felidae_key_files(admin: Option<Seq<u8>>, oracle: Option<Seq<u8>>) -> Result<
    (Seq<char>, Seq<char>),
    KeyOwner,
> {
    match admin {
        None => Err(KeyOwner::Admin),
        Some(admin) => match oracle {
            None => Err(KeyOwner::Oracle),
            Some(oracle) => Ok((hexadecimal::hex_text(admin), hexadecimal::hex_text(oracle))),
        },
    }
}

/// Bytes that may not be there, as contracts speak of them.
pub open spec fn bytes_view(bytes: Option<Vec<u8>>) -> Option<Seq<u8>> {
    match bytes {
        Some(bytes) => Some(bytes@),
        None => None,
    }
}

/// Keys or whose could not be made, as contracts speak of them.
pub open spec fn felidae_keys_view(r: Result<FelidaeKeys, KeyOwner>) -> Result<
    (Seq<char>, Seq<char>),
    KeyOwner,
> {
    match r {
        Ok(made) => Ok((made.admin@, made.oracle@)),
        Err(owner) => Err(owner),
    }
}

/// The key files of an admin and an oracle, from their keys in PKCS#8, or whose key is missing, the
/// admin's first.
pub fn felidae_keys(admin: Option<Vec<u8>>, oracle: Option<Vec<u8>>) -> (r: Result<
    FelidaeKeys,
    KeyOwner,
>)
    ensures
        felidae_keys_view(r) == felidae_key_files(bytes_view(admin), bytes_view(oracle)),
{
    let admin = match admin {
        Some(admin) => admin,
        None => return Err(KeyOwner::Admin),
    };
    let oracle = match oracle {
        Some(oracle) => oracle,
        None => return Err(KeyOwner::Oracle),
    };
    Ok(
        FelidaeKeys {
            admin: hexadecimal::hex_encode(admin.as_slice()),
            oracle: hexadecimal::hex_encode(oracle.as_slice()),
        },
    )
}

/// Whether these are key files of P-256 keys, or the error for one that could not be written.
pub open spec fn new_keys_outcome(
    r: Result<FelidaeKeys, KeyOwner>,
    admin: Option<Seq<u8>>,
    oracle: Option<Seq<u8>>,
) -> bool {
    &&& felidae_keys_view(r) == felidae_key_files(admin, oracle)
    &&& admin is Some ==> crypto::p256_public(admin->0) is Some
    &&& oracle is Some ==> crypto::p256_public(oracle->0) is Some
}

/// New keys for a validator's admin and oracle. Each file that is made is read back as a key. Which
/// keys they are depends on chance, and so does whether they can be written.
pub fn generate_felidae_keys() -> (r: Result<FelidaeKeys, KeyOwner>)
    ensures
        exists|admin: Option<Seq<u8>>, oracle: Option<Seq<u8>>| #[trigger]
            new_keys_outcome(r, admin, oracle),
        r matches Ok(made) ==> key_file_public(made.admin@) is Ok && key_file_public(
            made.oracle@,
        ) is Ok,
{
    let admin = crypto::random_p256_pkcs8();
    let oracle = crypto::random_p256_pkcs8();
    let ghost a = bytes_view(admin);
    let ghost o = bytes_view(oracle);
    let r = felidae_keys(admin, oracle);
    proof {
        assert(new_keys_outcome(r, a, o));
        if a is Some && o is Some {
            lemma_key_file_round_trip(a->0);
            lemma_key_file_round_trip(o->0);
        }
    }
    r
}

} // verus!
