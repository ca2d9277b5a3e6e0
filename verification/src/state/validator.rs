//! The validators in the state.

use vstd::prelude::*;

use crate::crypto;
use crate::crypto::PublicKey;
use crate::hexadecimal;
use crate::octets;
use crate::sequence;
use crate::state::config;
use crate::state::State;
use crate::state::StateError;
use crate::state::StateErrorView;
use crate::state::StateView;
use crate::table;
use crate::table::RowView;
use crate::table::Table;
use crate::transaction::Validator;
use crate::transaction::ValidatorView;

verus! {

/// A validator and the power that it has from now on.
#[derive(Clone, Copy, Debug, PartialEq, Eq)]
pub struct Update {
    pub pub_key: PublicKey,
    pub power: u64,
}

pub struct UpdateView {
    pub pub_key: Seq<u8>,
    pub power: u64,
}

impl View for Update {
    type V = UpdateView;

    open spec fn view(&self) -> UpdateView {
        UpdateView { pub_key: self.pub_key@, power: self.power }
    }
}

/// What every key of a validator in the state begins with.
pub open spec fn key_prefix() -> Seq<u8> {
    vstd::utf8::encode_utf8("current/validators/"@)
}

/// The key in the state of the validator with this public key.
pub open spec fn validator_key(public_key: Seq<u8>) -> Seq<u8> {
    vstd::utf8::encode_utf8("current/validators/"@ + hexadecimal::hex_text(public_key))
}

/// The public key that a key in the state names.
pub open spec fn key_octets(key: Seq<u8>) -> Result<Seq<u8>, StateErrorView> {
    match hexadecimal::hex_octets(octets::trim_start(key, key_prefix())) {
        Ok(bytes) => Ok(bytes),
        Err(cause) => Err(StateErrorView::KeyNotHex { cause }),
    }
}

/// The validators with some power, in the order of their keys. Only those need a key of the right
/// length; every key must be readable.
pub open spec fn active(rows: Seq<RowView>) -> Result<Seq<UpdateView>, StateErrorView>
    decreases rows.len(),
{
    if rows.len() == 0 {
        Ok(Seq::empty())
    } else {
        match active(rows.drop_last()) {
            Err(e) => Err(e),
            Ok(found) => match key_octets(rows.last().key) {
                Err(e) => Err(e),
                Ok(pub_key) => if rows.last().value == 0 {
                    Ok(found)
                } else if pub_key.len() != 32 {
                    Err(StateErrorView::InvalidPublicKey)
                } else {
                    Ok(found.push(UpdateView { pub_key, power: rows.last().value }))
                },
            },
        }
    }
}

/// The rows once a validator was declared, and why it was refused, if it was: one that is in the
/// state, with whatever power, is.
pub open spec fn declared(rows: Seq<RowView>, public_key: Seq<u8>, power: u64) -> (
    Seq<RowView>,
    Option<StateErrorView>,
) {
    match table::lookup(rows, validator_key(public_key)) {
        Some(power) => (rows, Some(StateErrorView::ValidatorExists { public_key, power })),
        None => (table::put(rows, validator_key(public_key), power), None),
    }
}

/// The keys of those validators whose address, which stands at their place in `addresses`, is among
/// `wanted`.
pub open spec fn with_address(
    validators: Seq<UpdateView>,
    addresses: Seq<Seq<u8>>,
    wanted: Seq<Seq<u8>>,
) -> Seq<Seq<u8>>
    decreases validators.len(),
{
    if validators.len() == 0 {
        Seq::empty()
    } else {
        let before = with_address(validators.drop_last(), addresses, wanted);
        if wanted.contains(addresses[validators.len() - 1]) {
            before.push(validators.last().pub_key)
        } else {
            before
        }
    }
}

/// The addresses of the validators, in their order.
pub open spec fn addresses_of(validators: Seq<UpdateView>) -> Seq<Seq<u8>> {
    validators.map_values(|u: UpdateView| crypto::address(u.pub_key))
}

/// The keys of those validators whose address is among `addresses`.
pub open spec fn voters(validators: Seq<UpdateView>, addresses: Seq<Seq<u8>>) -> Seq<Seq<u8>> {
    with_address(validators, addresses_of(validators), addresses)
}

/// The rows once the first of these validators lost its power.
pub open spec fn without_first(rows: Seq<RowView>, public_keys: Seq<Seq<u8>>) -> Seq<RowView> {
    if public_keys.len() == 0 {
        rows
    } else {
        table::put(rows, validator_key(public_keys[0]), 0)
    }
}

/// The rows once the active validator with this address was tombstoned: it stays in the state,
/// without power. Nothing changes where no active validator has the address.
pub open spec fn tombstoned(rows: Seq<RowView>, address: Seq<u8>) -> (
    Seq<RowView>,
    Option<StateErrorView>,
) {
    match active(rows) {
        Err(e) => (rows, Some(e)),
        Ok(validators) => (without_first(rows, voters(validators, seq![address])), None),
    }
}

/// The table in which each row is put in turn, so that the last of several with one key stays.
pub open spec fn table_of(rows: Seq<RowView>) -> Seq<RowView>
    decreases rows.len(),
{
    if rows.len() == 0 {
        Seq::empty()
    } else {
        table::put(table_of(rows.drop_last()), rows.last().key, rows.last().value)
    }
}

/// A row of the state under the public key that it is of.
pub open spec fn known_row(row: RowView) -> Result<RowView, StateErrorView> {
    match key_octets(row.key) {
        Err(e) => Err(e),
        Ok(key) => if key.len() != 32 {
            Err(StateErrorView::InvalidPublicKey)
        } else {
            Ok(RowView { key, value: row.value })
        },
    }
}

/// A validator of a configuration, with its power in 32 bits.
pub open spec fn wanted_row(v: ValidatorView) -> Result<RowView, StateErrorView> {
    if v.public_key.len() != 32 {
        Err(StateErrorView::InvalidPublicKeyInConfig)
    } else {
        Ok(RowView { key: v.public_key, value: (v.power as u32) as u64 })
    }
}

/// The validators in the state, those without power among them, under their public keys.
pub open spec fn known(rows: Seq<RowView>) -> Result<Seq<RowView>, StateErrorView> {
    match sequence::decode_all(rows, |r: RowView| known_row(r)) {
        Err(e) => Err(e),
        Ok(decoded) => Ok(table_of(decoded)),
    }
}

/// The validators that a configuration asks for, under their public keys.
pub open spec fn wanted(validators: Seq<ValidatorView>) -> Result<Seq<RowView>, StateErrorView> {
    match sequence::decode_all(validators, |v: ValidatorView| wanted_row(v)) {
        Err(e) => Err(e),
        Ok(decoded) => Ok(table_of(decoded)),
    }
}

/// The rows once every wanted validator that is not known was declared.
pub open spec fn with_missing(
    rows: Seq<RowView>,
    known: Seq<RowView>,
    wanted: Seq<RowView>,
) -> (Seq<RowView>, Option<StateErrorView>)
    decreases wanted.len(),
{
    if wanted.len() == 0 {
        (rows, None)
    } else {
        let before = with_missing(rows, known, wanted.drop_last());
        if before.1 is Some || table::lookup(known, wanted.last().key) is Some {
            before
        } else {
            declared(before.0, wanted.last().key, wanted.last().value)
        }
    }
}

/// The rows once every known validator that is not wanted and has some power lost it.
pub open spec fn without_absent(
    rows: Seq<RowView>,
    known: Seq<RowView>,
    wanted: Seq<RowView>,
) -> Seq<RowView>
    decreases known.len(),
{
    if known.len() == 0 {
        rows
    } else {
        let before = without_absent(rows, known.drop_last(), wanted);
        if table::lookup(wanted, known.last().key) is None && known.last().value > 0 {
            table::put(before, validator_key(known.last().key), 0)
        } else {
            before
        }
    }
}

/// The rows once the validators of a configuration were taken over, and the error, if there was
/// one. A configuration that names no validators does not manage them, and changes nothing.
pub open spec fn synced(rows: Seq<RowView>, validators: Seq<ValidatorView>) -> (
    Seq<RowView>,
    Option<StateErrorView>,
) {
    if validators.len() == 0 {
        (rows, None)
    } else {
        match known(rows) {
            Err(e) => (rows, Some(e)),
            Ok(known) => match wanted(validators) {
                Err(e) => (rows, Some(e)),
                Ok(wanted) => {
                    let added = with_missing(rows, known, wanted);
                    if added.1 is Some {
                        added
                    } else {
                        (without_absent(added.0, known, wanted), None)
                    }
                },
            },
        }
    }
}

/// The state with other rows of validators.
pub open spec fn with_validators(state: StateView, validators: Seq<RowView>) -> StateView {
    StateView { validators, ..state }
}

fn key_of(public_key: &[u8]) -> (r: Vec<u8>)
    ensures
        r@ == validator_key(public_key@),
{
    let mut key = "current/validators/".to_string();
    key.append(hexadecimal::hex_encode(public_key).as_str());
    octets::copy_bytes(key.as_str().as_bytes())
}

fn public_key_in(key: &[u8]) -> (r: Result<Vec<u8>, StateError>)
    ensures
        match r {
            Ok(bytes) => key_octets(key@) == Ok::<Seq<u8>, StateErrorView>(bytes@),
            Err(e) => key_octets(key@) == Err::<Seq<u8>, StateErrorView>(e@),
        },
{
    let digits = octets::trimmed_start(key, "current/validators/".as_bytes());
    match hexadecimal::hex_decode(digits) {
        Ok(bytes) => Ok(bytes),
        Err(cause) => Err(StateError::KeyNotHex { cause }),
    }
}

proof fn lemma_active_prefix(rows: Seq<RowView>, n: int)
    requires
        0 <= n <= rows.len(),
        active(rows.take(n)) is Err,
    ensures
        active(rows) == active(rows.take(n)),
    decreases rows.len() - n,
{
    if n < rows.len() {
        assert(rows.take(n + 1).drop_last() =~= rows.take(n));
        lemma_active_prefix(rows, n + 1);
    } else {
        assert(rows.take(n) =~= rows);
    }
}

fn known_table(rows: &Table) -> (r: Result<Table, StateError>)
    ensures
        match r {
            Ok(t) => known(rows@) == Ok::<Seq<RowView>, StateErrorView>(t@),
            Err(e) => known(rows@) == Err::<Seq<RowView>, StateErrorView>(e@),
        },
{
    let ghost all = rows@;
    let ghost decode = |r: RowView| known_row(r);
    let mut found = Table::new();
    let mut i: usize = 0;
    assert(all.take(0) =~= Seq::empty());
    while i < rows.len()
        invariant
            i <= all.len(),
            all == rows@,
            decode == (|r: RowView| known_row(r)),
            sequence::decode_all(all.take(i as int), decode) is Ok,
            found@ == table_of(sequence::decode_all(all.take(i as int), decode)->Ok_0),
        decreases all.len() - i,
    {
        let ghost decoded = sequence::decode_all(all.take(i as int), decode)->Ok_0;
        proof {
            assert(all.take(i + 1).drop_last() =~= all.take(i as int));
            assert(all.take(i + 1).last() == all[i as int]);
        }
        let bytes = match public_key_in(rows.key(i).as_slice()) {
            Ok(bytes) => bytes,
            Err(e) => {
                proof {
                    sequence::lemma_decode_all_prefix(all, decode, i + 1);
                }
                return Err(e);
            },
        };
        match PublicKey::from_raw_ed25519(bytes.as_slice()) {
            Some(_) => {},
            None => {
                proof {
                    sequence::lemma_decode_all_prefix(all, decode, i + 1);
                }
                return Err(StateError::InvalidPublicKey);
            },
        }
        proof {
            let row = RowView { key: bytes@, value: all[i as int].value };
            assert(decoded.push(row).drop_last() =~= decoded);
        }
        found.put(bytes, rows.value(i));
        i += 1;
    }
    assert(all.take(all.len() as int) =~= all);
    Ok(found)
}

fn wanted_table(validators: &Vec<Validator>) -> (r: Result<Table, StateError>)
    ensures
        match r {
            Ok(t) => wanted(validators@.map_values(|v: Validator| v@)) == Ok::<
                Seq<RowView>,
                StateErrorView,
            >(t@),
            Err(e) => wanted(validators@.map_values(|v: Validator| v@)) == Err::<
                Seq<RowView>,
                StateErrorView,
            >(e@),
        },
{
    let ghost all = validators@.map_values(|v: Validator| v@);
    let ghost decode = |v: ValidatorView| wanted_row(v);
    let mut found = Table::new();
    let mut i: usize = 0;
    assert(all.take(0) =~= Seq::empty());
    while i < validators.len()
        invariant
            i <= all.len(),
            all == validators@.map_values(|v: Validator| v@),
            decode == (|v: ValidatorView| wanted_row(v)),
            sequence::decode_all(all.take(i as int), decode) is Ok,
            found@ == table_of(sequence::decode_all(all.take(i as int), decode)->Ok_0),
        decreases all.len() - i,
    {
        let ghost decoded = sequence::decode_all(all.take(i as int), decode)->Ok_0;
        proof {
            assert(all.take(i + 1).drop_last() =~= all.take(i as int));
            assert(all.take(i + 1).last() == all[i as int]);
        }
        let bytes = octets::copy_bytes(validators[i].public_key.as_slice());
        match PublicKey::from_raw_ed25519(bytes.as_slice()) {
            Some(_) => {},
            None => {
                proof {
                    sequence::lemma_decode_all_prefix(all, decode, i + 1);
                }
                return Err(StateError::InvalidPublicKeyInConfig);
            },
        }
        let power: u64 = (validators[i].power as u32) as u64;
        proof {
            let row = RowView { key: bytes@, value: power };
            assert(decoded.push(row).drop_last() =~= decoded);
        }
        found.put(bytes, power);
        i += 1;
    }
    assert(all.take(all.len() as int) =~= all);
    Ok(found)
}

proof fn lemma_with_missing_prefix(
    rows: Seq<RowView>,
    known: Seq<RowView>,
    wanted: Seq<RowView>,
    n: int,
)
    requires
        0 <= n <= wanted.len(),
        with_missing(rows, known, wanted.take(n)).1 is Some,
    ensures
        with_missing(rows, known, wanted) == with_missing(rows, known, wanted.take(n)),
    decreases wanted.len() - n,
{
    if n < wanted.len() {
        assert(wanted.take(n + 1).drop_last() =~= wanted.take(n));
        lemma_with_missing_prefix(rows, known, wanted, n + 1);
    } else {
        assert(wanted.take(n) =~= wanted);
    }
}

impl State {
    /// Declares a new validator. One that is in the state already is refused, so that one that was
    /// tombstoned does not get its power back.
    pub fn declare_validator(&mut self, validator: Update) -> (r: Result<(), StateError>)
        ensures
            config::check_outcome(
                r,
                declared(old(self)@.validators, validator@.pub_key, validator@.power).1,
            ),
            final(self)@ == with_validators(
                old(self)@,
                declared(old(self)@.validators, validator@.pub_key, validator@.power).0,
            ),
    {
        let key = key_of(validator.pub_key.bytes.as_slice());
        match self.validators.get(key.as_slice()) {
            Some(power) => Err(
                StateError::ValidatorExists { public_key: validator.pub_key, power },
            ),
            None => {
                self.validators.put(key, validator.power);
                Ok(())
            },
        }
    }

    /// Tombstones the active validator with this address: it loses its power for good.
    pub fn tombstone_validator(&mut self, address: &[u8; 20]) -> (r: Result<(), StateError>)
        ensures
            config::check_outcome(r, tombstoned(old(self)@.validators, address@).1),
            final(self)@ == with_validators(
                old(self)@,
                tombstoned(old(self)@.validators, address@).0,
            ),
    {
        let wanted: Vec<[u8; 20]> = vec![*address];
        assert(wanted@.map_values(|a: [u8; 20]| a@) =~= seq![address@]);
        match self.validators_at(&wanted) {
            Ok(found) => {
                self.tombstone_first(&found);
                Ok(())
            },
            Err(e) => Err(e),
        }
    }

    /// Takes the power of the first of these validators, if there is one.
    pub fn tombstone_first(&mut self, public_keys: &Vec<PublicKey>)
        ensures
            final(self)@ == with_validators(
                old(self)@,
                without_first(
                    old(self)@.validators,
                    public_keys@.map_values(|k: PublicKey| k@),
                ),
            ),
    {
        if public_keys.len() > 0 {
            let public_key = public_keys[0];
            self.validators.put(key_of(public_key.bytes.as_slice()), 0);
        }
    }

    /// The validators with some power, in the order of their keys.
    pub fn active_validators(&self) -> (r: Result<Vec<Update>, StateError>)
        ensures
            match r {
                Ok(updates) => active(self@.validators) == Ok::<Seq<UpdateView>, StateErrorView>(
                    updates@.map_values(|u: Update| u@),
                ),
                Err(e) => active(self@.validators) == Err::<Seq<UpdateView>, StateErrorView>(e@),
            },
    {
        let ghost all = self@.validators;
        let mut updates: Vec<Update> = Vec::new();
        let mut i: usize = 0;
        proof {
            assert(all.take(0) =~= Seq::empty());
            assert(updates@.map_values(|u: Update| u@) =~= Seq::empty());
        }
        while i < self.validators.len()
            invariant
                i <= all.len(),
                all == self@.validators,
                active(all.take(i as int)) == Ok::<Seq<UpdateView>, StateErrorView>(
                    updates@.map_values(|u: Update| u@),
                ),
            decreases all.len() - i,
        {
            proof {
                assert(all.take(i + 1).drop_last() =~= all.take(i as int));
                assert(all.take(i + 1).last() == all[i as int]);
            }
            let bytes = match public_key_in(self.validators.key(i).as_slice()) {
                Ok(bytes) => bytes,
                Err(e) => {
                    proof {
                        lemma_active_prefix(all, i + 1);
                    }
                    return Err(e);
                },
            };
            let power: u64 = self.validators.value(i);
            if power > 0 {
                match PublicKey::from_raw_ed25519(bytes.as_slice()) {
                    Some(pub_key) => {
                        let ghost found = updates@.map_values(|u: Update| u@);
                        let update = Update { pub_key, power };
                        updates.push(update);
                        assert(updates@.map_values(|u: Update| u@) =~= found.push(update@));
                    },
                    None => {
                        proof {
                            lemma_active_prefix(all, i + 1);
                        }
                        return Err(StateError::InvalidPublicKey);
                    },
                }
            }
            i += 1;
        }
        assert(all.take(all.len() as int) =~= all);
        Ok(updates)
    }

    /// Takes over the validators of a configuration:
    /// - one that is not in the state is declared with its power;
    /// - one that is in the state stays as it is, without power if it has none;
    /// - one that is in the state and not in the configuration loses its power.
    ///
    /// A configuration that names no validators leaves them as they are.
    pub fn sync_validators_from_config(&mut self, config_validators: &Vec<Validator>) -> (r: Result<
        (),
        StateError,
    >)
        ensures
            config::check_outcome(
                r,
                synced(
                    old(self)@.validators,
                    config_validators@.map_values(|v: Validator| v@),
                ).1,
            ),
            final(self)@ == with_validators(
                old(self)@,
                synced(
                    old(self)@.validators,
                    config_validators@.map_values(|v: Validator| v@),
                ).0,
            ),
    {
        if config_validators.len() == 0 {
            return Ok(());
        }
        let ghost before = self@;
        let ghost rows = self@.validators;
        let known_validators = match known_table(&self.validators) {
            Ok(t) => t,
            Err(e) => return Err(e),
        };
        let wanted_validators = match wanted_table(config_validators) {
            Ok(t) => t,
            Err(e) => return Err(e),
        };
        let ghost k = known_validators@;
        let ghost w = wanted_validators@;
        assert(w.take(0) =~= Seq::empty());
        let mut i: usize = 0;
        while i < wanted_validators.len()
            invariant
                i <= w.len(),
                k == known_validators@,
                w == wanted_validators@,
                before == old(self)@,
                rows == before.validators,
                config_validators@.len() > 0,
                known(rows) == Ok::<Seq<RowView>, StateErrorView>(k),
                wanted(config_validators@.map_values(|v: Validator| v@)) == Ok::<
                    Seq<RowView>,
                    StateErrorView,
                >(w),
                with_missing(rows, k, w.take(i as int)).1 is None,
                self@ == with_validators(before, with_missing(rows, k, w.take(i as int)).0),
            decreases w.len() - i,
        {
            proof {
                assert(w.take(i + 1).drop_last() =~= w.take(i as int));
                assert(w.take(i + 1).last() == w[i as int]);
            }
            let key = wanted_validators.key(i);
            if known_validators.get(key.as_slice()).is_none() {
                match PublicKey::from_raw_ed25519(key.as_slice()) {
                    Some(pub_key) => {
                        let update = Update { pub_key, power: wanted_validators.value(i) };
                        match self.declare_validator(update) {
                            Ok(_) => {},
                            Err(e) => {
                                proof {
                                    lemma_with_missing_prefix(rows, k, w, i + 1);
                                }
                                return Err(e);
                            },
                        }
                    },
                    None => {
                        proof {
                            lemma_wanted_keys(
                                config_validators@.map_values(|v: Validator| v@),
                                i as int,
                            );
                        }
                    },
                }
            }
            i += 1;
        }
        assert(w.take(w.len() as int) =~= w);
        let ghost added = with_missing(rows, k, w).0;
        assert(k.take(0) =~= Seq::empty());
        let mut i: usize = 0;
        while i < known_validators.len()
            invariant
                i <= k.len(),
                k == known_validators@,
                w == wanted_validators@,
                before == old(self)@,
                self@ == with_validators(before, without_absent(added, k.take(i as int), w)),
            decreases k.len() - i,
        {
            proof {
                assert(k.take(i + 1).drop_last() =~= k.take(i as int));
                assert(k.take(i + 1).last() == k[i as int]);
            }
            let key = known_validators.key(i);
            if wanted_validators.get(key.as_slice()).is_none() && known_validators.value(i) > 0 {
                self.validators.put(key_of(key.as_slice()), 0);
            }
            i += 1;
        }
        assert(k.take(k.len() as int) =~= k);
        Ok(())
    }

    /// Records which validators voted on the last block: the active ones whose address is among
    /// `addresses`.
    pub fn mark_validators_voted(&mut self, addresses: &Vec<[u8; 20]>) -> (r: Result<
        (),
        StateError,
    >)
        ensures
            match r {
                Ok(_) => {
                    &&& active(old(self)@.validators) is Ok
                    &&& final(self)@ == (StateView {
                        voted: voters(
                            active(old(self)@.validators)->Ok_0,
                            addresses@.map_values(|a: [u8; 20]| a@),
                        ),
                        ..old(self)@
                    })
                },
                Err(e) => {
                    &&& active(old(self)@.validators) == Err::<Seq<UpdateView>, StateErrorView>(e@)
                    &&& final(self)@ == old(self)@
                },
            },
    {
        match self.validators_at(addresses) {
            Ok(voting_validators) => {
                self.voted = voting_validators;
                Ok(())
            },
            Err(e) => Err(e),
        }
    }

    /// The keys of the active validators whose address is among `addresses`.
    pub fn validators_at(&self, addresses: &Vec<[u8; 20]>) -> (r: Result<
        Vec<PublicKey>,
        StateError,
    >)
        ensures
            match r {
                Ok(keys) => {
                    &&& active(self@.validators) is Ok
                    &&& keys@.map_values(|k: PublicKey| k@) == voters(
                        active(self@.validators)->Ok_0,
                        addresses@.map_values(|a: [u8; 20]| a@),
                    )
                },
                Err(e) => active(self@.validators) == Err::<Seq<UpdateView>, StateErrorView>(e@),
            },
    {
        let validators = match self.active_validators() {
            Ok(validators) => validators,
            Err(e) => return Err(e),
        };
        let addresses_there = validator_addresses(&validators);
        Ok(select_by_address(&validators, &addresses_there, addresses))
    }
}

fn validator_addresses(validators: &Vec<Update>) -> (r: Vec<Vec<u8>>)
    ensures
        r@.len() == validators@.len(),
        r@.map_values(|a: Vec<u8>| a@) == addresses_of(validators@.map_values(|u: Update| u@)),
{
    let mut addresses: Vec<Vec<u8>> = Vec::new();
    let mut i: usize = 0;
    while i < validators.len()
        invariant
            i <= validators.len(),
            addresses@.len() == i,
            forall|j: int|
                0 <= j < i ==> (#[trigger] addresses@[j])@ == crypto::address(
                    validators@[j]@.pub_key,
                ),
        decreases validators.len() - i,
    {
        addresses.push(crypto::key_address(validators[i].pub_key.bytes.as_slice()));
        i += 1;
    }
    assert(addresses@.map_values(|a: Vec<u8>| a@) =~= addresses_of(
        validators@.map_values(|u: Update| u@),
    ));
    addresses
}

/// The keys of those validators whose address, which stands at their place in `addresses`, is among
/// `wanted`.
pub fn select_by_address(
    validators: &Vec<Update>,
    addresses: &Vec<Vec<u8>>,
    wanted: &Vec<[u8; 20]>,
) -> (r: Vec<PublicKey>)
    requires
        validators@.len() == addresses@.len(),
    ensures
        r@.map_values(|k: PublicKey| k@) == with_address(
            validators@.map_values(|u: Update| u@),
            addresses@.map_values(|a: Vec<u8>| a@),
            wanted@.map_values(|a: [u8; 20]| a@),
        ),
{
    let ghost views = validators@.map_values(|u: Update| u@);
    let ghost there = addresses@.map_values(|a: Vec<u8>| a@);
    let ghost asked = wanted@.map_values(|a: [u8; 20]| a@);
    let mut keys: Vec<PublicKey> = Vec::new();
    let mut i: usize = 0;
    proof {
        assert(views.take(0) =~= Seq::empty());
        assert(keys@.map_values(|k: PublicKey| k@) =~= Seq::empty());
    }
    while i < validators.len()
        invariant
            i <= validators.len(),
            validators@.len() == addresses@.len(),
            views == validators@.map_values(|u: Update| u@),
            there == addresses@.map_values(|a: Vec<u8>| a@),
            asked == wanted@.map_values(|a: [u8; 20]| a@),
            keys@.map_values(|k: PublicKey| k@) == with_address(
                views.take(i as int),
                there,
                asked,
            ),
        decreases validators.len() - i,
    {
        proof {
            assert(views.take(i + 1).drop_last() =~= views.take(i as int));
            assert(views.take(i + 1).last() == validators@[i as int]@);
            assert(there[i as int] == addresses@[i as int]@);
        }
        if holds_address(wanted, addresses[i].as_slice()) {
            let pub_key = validators[i].pub_key;
            let ghost found = keys@.map_values(|k: PublicKey| k@);
            keys.push(pub_key);
            assert(keys@.map_values(|k: PublicKey| k@) =~= found.push(pub_key@));
        }
        i += 1;
    }
    assert(views.take(views.len() as int) =~= views);
    keys
}

fn holds_address(addresses: &Vec<[u8; 20]>, address: &[u8]) -> (r: bool)
    ensures
        r == addresses@.map_values(|a: [u8; 20]| a@).contains(address@),
{
    let ghost views = addresses@.map_values(|a: [u8; 20]| a@);
    let mut i: usize = 0;
    while i < addresses.len()
        invariant
            i <= addresses.len(),
            views == addresses@.map_values(|a: [u8; 20]| a@),
            forall|j: int| 0 <= j < i ==> #[trigger] views[j] != address@,
        decreases addresses.len() - i,
    {
        assert(views[i as int] == addresses@[i as int]@);
        if octets::same_bytes(addresses[i].as_slice(), address) {
            return true;
        }
        i += 1;
    }
    assert(!views.contains(address@));
    false
}

/// A table made of rows is in order, and holds only keys of those rows.
pub proof fn lemma_table_of_rows(rows: Seq<RowView>)
    ensures
        table::ascending(table_of(rows)),
        forall|i: int|
            0 <= i < table_of(rows).len() ==> exists|j: int|
                0 <= j < rows.len() && #[trigger] rows[j].key == (
                #[trigger] table_of(rows)[i]).key,
    decreases rows.len(),
{
    if rows.len() > 0 {
        let rest = rows.drop_last();
        lemma_table_of_rows(rest);
        let before = table_of(rest);
        table::lemma_put_ascending(before, rows.last().key, rows.last().value);
        table::lemma_position(before, rows.last().key);
        let after = table_of(rows);
        assert forall|i: int| 0 <= i < after.len() implies exists|j: int|
            0 <= j < rows.len() && #[trigger] rows[j].key == (#[trigger] after[i]).key by {
            if after[i].key == rows.last().key {
                assert(rows[rows.len() - 1].key == after[i].key);
            } else {
                table::lemma_lookup_row(after, i);
                table::lemma_lookup_put(
                    before,
                    rows.last().key,
                    rows.last().value,
                    after[i].key,
                );
                let k = table::lemma_lookup_found(before, after[i].key);
                let j = choose|j: int|
                    0 <= j < rest.len() && #[trigger] rest[j].key == before[k].key;
                assert(rows[j] == rest[j]);
            }
        }
    }
}

proof fn lemma_wanted_keys(validators: Seq<ValidatorView>, i: int)
    requires
        wanted(validators) is Ok,
        0 <= i < wanted(validators)->Ok_0.len(),
    ensures
        wanted(validators)->Ok_0[i].key.len() == 32,
{
    let decode = |v: ValidatorView| wanted_row(v);
    sequence::lemma_decode_all_items(validators, decode);
    let decoded = sequence::decode_all(validators, decode)->Ok_0;
    lemma_table_of_rows(decoded);
    let j = choose|j: int|
        0 <= j < decoded.len() && #[trigger] decoded[j].key == table_of(decoded)[i].key;
    assert(decode(validators[j]) == Ok::<RowView, StateErrorView>(decoded[j]));
}

} // verus!
