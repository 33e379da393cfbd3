use vstd::prelude::*;

use crate::objects::{NftData, RosterNFT, XBTCData};

verus! {

/// The kind of a deployed application instance: a fungible bridged-value
/// token, or the non-fungible governance roster object.
#[derive(Debug, Clone, Copy, PartialEq, Eq, Structural)]
pub enum AppKind {
    Token,
    Nft,
}

/// Identity of one deployed application instance. Two identities name the
/// same instance exactly when all three fields agree.
#[derive(Debug, Clone)]
pub struct App {
    pub tag: AppKind,
    /// 32-byte content-identity hash.
    pub identity: Vec<u8>,
    /// 32-byte verification-key hash.
    pub vk: Vec<u8>,
}

/// Key of a transaction input: the identifier of the producing transaction
/// and the index of the output being spent.
#[derive(Debug, Clone)]
pub struct Outpoint {
    pub txid: Vec<u8>,
    pub index: u32,
}

/// A record attached to a transaction slot, seen through its typed-decode
/// accessors. Each variant is the one shape the record decodes to; a record
/// that none of the typed accessors accepts is `Opaque`. Decode failure is
/// an ordinary, non-fatal condition: the accessors return `None`.
#[derive(Debug, Clone, PartialEq, Eq)]
pub enum Data {
    /// A raw byte-string payload, such as a fixed-width outpoint encoding.
    Bytes(Vec<u8>),
    /// A text payload.
    Text(String),
    /// An unsigned numeric payload, such as a bare token amount.
    Nat(u64),
    /// A mapping from text keys to text values.
    StringMap(Vec<(String, String)>),
    /// A payload decoding as a fungible-token record.
    Token(XBTCData),
    /// A payload decoding as a governance roster record.
    Roster(NftData),
    /// A payload decoding as a roster-set object.
    RosterSet(RosterNFT),
    /// A payload that no typed accessor accepts.
    Opaque,
}

/// Read-only snapshot of a candidate transaction: per input, the outpoint it
/// spends and the mapping from application identity to the record carried;
/// per output slot (ordered), the same mapping. A slot may carry no record
/// for a given app.
#[derive(Debug, Clone)]
pub struct Transaction {
    pub ins: Vec<(Outpoint, Vec<(App, Data)>)>,
    pub outs: Vec<Vec<(App, Data)>>,
}

/// A fatal structural violation: required state is absent where the
/// protocol's shape guarantees it must exist. Distinct from an ordinary
/// rule failure, which the predicates report as `false`.
#[derive(Debug, Clone, Copy, PartialEq, Eq)]
pub enum Violation {
    /// The action string is not recognized for the acting app's kind.
    UnrecognizedAction,
    /// The public inputs are not a text mapping with an `action` key.
    MissingAction,
    /// The private witness does not have the shape the action demands.
    MalformedWitness,
    /// No transaction input spends the outpoint named by the witness.
    MissingInput,
    /// The located input carries no prior record of the expected shape
    /// for the acting app.
    MissingInputState,
    /// No transaction input carries a previously deployed instance of the
    /// acting app.
    MissingLineage,
}

/// Structural equality of application identities: same kind, same
/// content-identity hash, same verification-key hash.
pub open spec fn app_matches(a: App, b: App) -> bool {
    a.tag == b.tag && a.identity@ == b.identity@ && a.vk@ == b.vk@
}

/// Equality of input keys: same producing transaction, same output index.
pub open spec fn outpoint_matches(a: Outpoint, b: Outpoint) -> bool {
    a.txid@ == b.txid@ && a.index == b.index
}

/// The record `d` decodes to as a fungible-token record, if any.
pub open spec fn token_of(d: Data) -> Option<XBTCData> {
    match d {
        Data::Token(t) => Some(t),
        _ => None,
    }
}

/// The record `d` decodes to as a governance roster record, if any.
pub open spec fn roster_of(d: Data) -> Option<NftData> {
    match d {
        Data::Roster(n) => Some(n),
        _ => None,
    }
}

/// The record `d` decodes to as a roster-set object, if any.
pub open spec fn roster_set_of(d: Data) -> Option<RosterNFT> {
    match d {
        Data::RosterSet(r) => Some(r),
        _ => None,
    }
}

/// The text payload of `d`, if any.
pub open spec fn text_of(d: Data) -> Option<String> {
    match d {
        Data::Text(s) => Some(s),
        _ => None,
    }
}

/// The byte-string payload of `d`, if any.
pub open spec fn bytes_of(d: Data) -> Option<Vec<u8>> {
    match d {
        Data::Bytes(b) => Some(b),
        _ => None,
    }
}

/// The text mapping carried by `d`, if any.
pub open spec fn string_map_of(d: Data) -> Option<Vec<(String, String)>> {
    match d {
        Data::StringMap(m) => Some(m),
        _ => None,
    }
}

/// The numeric amount carried by `d`; a record that does not decode as an
/// amount contributes zero.
pub open spec fn amount_of(d: Data) -> nat {
    match d {
        Data::Nat(n) => n as nat,
        _ => 0,
    }
}

/// The record a mapping of charms carries for `app`: the first entry under
/// an identity structurally equal to `app`.
pub open spec fn charms_get(app: App, charms: Seq<(App, Data)>) -> Option<Data>
    decreases charms.len(),
{
    if charms.len() == 0 {
        None
    } else if app_matches(charms[0].0, app) {
        Some(charms[0].1)
    } else {
        charms_get(app, charms.drop_first())
    }
}

/// The charms mapping carried by the input spending the outpoint with the
/// given transaction identifier and output index, if any input does.
pub open spec fn input_charms_at(
    txid: Seq<u8>,
    index: int,
    ins: Seq<(Outpoint, Vec<(App, Data)>)>,
) -> Option<Vec<(App, Data)>>
    decreases ins.len(),
{
    if ins.len() == 0 {
        None
    } else if ins[0].0.txid@ == txid && ins[0].0.index as int == index {
        Some(ins[0].1)
    } else {
        input_charms_at(txid, index, ins.drop_first())
    }
}

/// The value a text mapping holds under `key`: the first entry whose key
/// equals `key`.
pub open spec fn map_get(entries: Seq<(String, String)>, key: Seq<char>) -> Option<String>
    decreases entries.len(),
{
    if entries.len() == 0 {
        None
    } else if entries[0].0@ == key {
        Some(entries[0].1)
    } else {
        map_get(entries.drop_first(), key)
    }
}

/// The output index encoded in a 36-byte outpoint witness: the last four
/// bytes, read little-endian.
pub open spec fn le_index(b: Seq<u8>) -> int {
    b[32] + b[33] * 256 + b[34] * 65536 + b[35] * 16777216
}

impl Data {
    /// Typed-decode accessor for a fungible-token record.
    pub fn as_token(&self) -> (r: Option<&XBTCData>)
        ensures
            match r {
                Some(t) => token_of(*self) == Some(*t),
                None => token_of(*self) is None,
            },
    {
        match self {
            Data::Token(t) => Some(t),
            _ => None,
        }
    }

    /// Typed-decode accessor for a governance roster record.
    pub fn as_roster(&self) -> (r: Option<&NftData>)
        ensures
            match r {
                Some(n) => roster_of(*self) == Some(*n),
                None => roster_of(*self) is None,
            },
    {
        match self {
            Data::Roster(n) => Some(n),
            _ => None,
        }
    }

    /// Typed-decode accessor for a roster-set object.
    pub fn as_roster_set(&self) -> (r: Option<&RosterNFT>)
        ensures
            match r {
                Some(n) => roster_set_of(*self) == Some(*n),
                None => roster_set_of(*self) is None,
            },
    {
        match self {
            Data::RosterSet(n) => Some(n),
            _ => None,
        }
    }

    /// Typed-decode accessor for a text payload.
    pub fn as_text(&self) -> (r: Option<&String>)
        ensures
            match r {
                Some(s) => text_of(*self) == Some(*s),
                None => text_of(*self) is None,
            },
    {
        match self {
            Data::Text(s) => Some(s),
            _ => None,
        }
    }

    /// Typed-decode accessor for a byte-string payload.
    pub fn as_bytes(&self) -> (r: Option<&Vec<u8>>)
        ensures
            match r {
                Some(b) => bytes_of(*self) == Some(*b),
                None => bytes_of(*self) is None,
            },
    {
        match self {
            Data::Bytes(b) => Some(b),
            _ => None,
        }
    }

    /// Typed-decode accessor for a text mapping.
    pub fn as_string_map(&self) -> (r: Option<&Vec<(String, String)>>)
        ensures
            match r {
                Some(m) => string_map_of(*self) == Some(*m),
                None => string_map_of(*self) is None,
            },
    {
        match self {
            Data::StringMap(m) => Some(m),
            _ => None,
        }
    }

    /// The numeric amount this record contributes to a transfer total.
    pub fn amount(&self) -> (r: u64)
        ensures
            r as nat == amount_of(*self),
    {
        match self {
            Data::Nat(n) => *n,
            _ => 0,
        }
    }
}

/// Compares two byte vectors for element-wise equality.
pub fn bytes_eq(a: &Vec<u8>, b: &Vec<u8>) -> (r: bool)
    ensures
        r == (a@ == b@),
{
    if a.len() != b.len() {
        assert(a@ != b@);
        return false;
    }
    let mut i: usize = 0;
    while i < a.len()
        invariant
            i <= a.len(),
            a.len() == b.len(),
            forall|k: int| 0 <= k < i ==> a@[k] == b@[k],
        decreases a.len() - i,
    {
        if a[i] != b[i] {
            assert(a@ != b@);
            return false;
        }
        i += 1;
    }
    proof {
        assert(a@ =~= b@);
    }
    true
}

/// Decides structural equality of two application identities.
pub fn app_eq(a: &App, b: &App) -> (r: bool)
    ensures
        r == app_matches(*a, *b),
{
    a.tag == b.tag && bytes_eq(&a.identity, &b.identity) && bytes_eq(&a.vk, &b.vk)
}

/// Decides equality of two input keys.
pub fn outpoint_eq(a: &Outpoint, b: &Outpoint) -> (r: bool)
    ensures
        r == outpoint_matches(*a, *b),
{
    a.index == b.index && bytes_eq(&a.txid, &b.txid)
}

/// Looks up the record a charms mapping carries for `app`.
pub fn get_charm<'a>(app: &App, charms: &'a Vec<(App, Data)>) -> (r: Option<&'a Data>)
    ensures
        match r {
            Some(d) => charms_get(*app, charms@) == Some(*d),
            None => charms_get(*app, charms@) is None,
        },
{
    proof {
        assert(charms@.skip(0) =~= charms@);
    }
    let mut i: usize = 0;
    while i < charms.len()
        invariant
            i <= charms.len(),
            charms_get(*app, charms@) == charms_get(*app, charms@.skip(i as int)),
        decreases charms.len() - i,
    {
        let entry = &charms[i];
        proof {
            assert(charms@.skip(i as int)[0] == charms@[i as int]);
        }
        if app_eq(&entry.0, app) {
            return Some(&entry.1);
        }
        proof {
            assert(charms@.skip(i as int).drop_first() =~= charms@.skip(i as int + 1));
        }
        i += 1;
    }
    None
}

/// Finds the charms mapping of the input spending `op`.
pub fn get_input_charms<'a>(op: &Outpoint, tx: &'a Transaction) -> (r: Option<
    &'a Vec<(App, Data)>,
>)
    ensures
        match r {
            Some(c) => input_charms_at(op.txid@, op.index as int, tx.ins@) == Some(*c),
            None => input_charms_at(op.txid@, op.index as int, tx.ins@) is None,
        },
{
    proof {
        assert(tx.ins@.skip(0) =~= tx.ins@);
    }
    let mut i: usize = 0;
    while i < tx.ins.len()
        invariant
            i <= tx.ins.len(),
            input_charms_at(op.txid@, op.index as int, tx.ins@) == input_charms_at(
                op.txid@,
                op.index as int,
                tx.ins@.skip(i as int),
            ),
        decreases tx.ins.len() - i,
    {
        let entry = &tx.ins[i];
        proof {
            assert(tx.ins@.skip(i as int)[0] == tx.ins@[i as int]);
        }
        if outpoint_eq(&entry.0, op) {
            return Some(&entry.1);
        }
        proof {
            assert(tx.ins@.skip(i as int).drop_first() =~= tx.ins@.skip(i as int + 1));
        }
        i += 1;
    }
    None
}

/// Looks up the value a text mapping holds under `key`.
pub fn lookup<'a>(entries: &'a Vec<(String, String)>, key: &String) -> (r: Option<&'a String>)
    ensures
        match r {
            Some(v) => map_get(entries@, key@) == Some(*v),
            None => map_get(entries@, key@) is None,
        },
{
    proof {
        assert(entries@.skip(0) =~= entries@);
    }
    let mut i: usize = 0;
    while i < entries.len()
        invariant
            i <= entries.len(),
            map_get(entries@, key@) == map_get(entries@.skip(i as int), key@),
        decreases entries.len() - i,
    {
        let entry = &entries[i];
        proof {
            assert(entries@.skip(i as int)[0] == entries@[i as int]);
        }
        if entry.0 == *key {
            return Some(&entry.1);
        }
        proof {
            assert(entries@.skip(i as int).drop_first() =~= entries@.skip(i as int + 1));
        }
        i += 1;
    }
    None
}

/// Parses the fixed-width witness encoding of an input key: exactly 36
/// bytes, a 32-byte transaction identifier followed by a 4-byte output
/// index read little-endian. Any other length is malformed.
pub fn outpoint_from_bytes(bytes: &Vec<u8>) -> (r: Option<Outpoint>)
    ensures
        match r {
            Some(op) => bytes@.len() == 36 && op.txid@ == bytes@.subrange(0, 32)
                && op.index as int == le_index(bytes@),
            None => bytes@.len() != 36,
        },
{
    if bytes.len() != 36 {
        return None;
    }
    let mut txid: Vec<u8> = Vec::new();
    let mut i: usize = 0;
    while i < 32
        invariant
            i <= 32,
            bytes@.len() == 36,
            txid@ == bytes@.subrange(0, i as int),
        decreases 32 - i,
    {
        txid.push(bytes[i]);
        proof {
            assert(bytes@.subrange(0, i as int + 1) =~= bytes@.subrange(0, i as int).push(
                bytes@[i as int],
            ));
        }
        i += 1;
    }
    let index: u32 = bytes[32] as u32 + (bytes[33] as u32) * 256 + (bytes[34] as u32) * 65536 + (
    bytes[35] as u32) * 16777216;
    Some(Outpoint { txid, index })
}

} // verus!
