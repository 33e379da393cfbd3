use vstd::prelude::*;
use vstd::string::StrSliceExecFns;

use sha2::{Digest, Sha256};

use crate::common::{check_previous_nft, lineage_holds};
use crate::data::{
    bytes_eq, bytes_of, charms_get, get_charm, get_input_charms, input_charms_at, le_index,
    outpoint_from_bytes, roster_of, roster_set_of, text_of, App, Data, Outpoint, Transaction,
    Violation,
};
use crate::objects::{NftData, RosterNFT};

verus! {

/// The 32-byte digest the protocol's identity binding uses, as a function of
/// the hashed text alone.
pub uninterp spec fn sha256_of(s: Seq<char>) -> Seq<u8>;

/// Relies on sha2::Sha256::digest over the string's UTF-8 bytes: the digest
/// is a pure function of the characters and is 32 bytes long.
#[verifier::external_body]
fn hash(data: &str) -> (r: Vec<u8>)
    ensures
        r@ == sha256_of(data@),
        r@.len() == 32,
{
    Sha256::digest(data).to_vec()
}

/// The number of delimiters in a cosigner list.
pub open spec fn comma_count(s: Seq<char>) -> nat
    decreases s.len(),
{
    if s.len() == 0 {
        0
    } else {
        comma_count(s.drop_last()) + if s.last() == ',' {
            1nat
        } else {
            0nat
        }
    }
}

/// The number of cosigners a comma-delimited list names: splitting on the
/// delimiter yields one entry per delimiter plus one, empty entries and
/// trailing delimiters counted like any other.
pub open spec fn cosigner_count(s: Seq<char>) -> nat {
    comma_count(s) + 1
}

/// A roster is well-formed exactly when its threshold is positive and its
/// cosigner list names at least threshold-many cosigners.
pub open spec fn roster_ok(roster: NftData) -> bool {
    &&& roster.current_threshold > 0
    &&& cosigner_count(roster.current_cosigners@) >= roster.current_threshold
}

/// The record the transaction's outputs carry for `app`: the first output
/// slot, in order, that carries one, whatever it decodes to.
pub open spec fn first_app_data(app: App, outs: Seq<Vec<(App, Data)>>) -> Option<Data>
    decreases outs.len(),
{
    if outs.len() == 0 {
        None
    } else {
        match charms_get(app, outs[0]@) {
            Some(d) => Some(d),
            None => first_app_data(app, outs.drop_first()),
        }
    }
}

/// The roster-set object the transaction produces: the first output slot, in
/// order, whose record for `app` decodes as a roster-set object.
pub open spec fn find_roster_set_out(app: App, outs: Seq<Vec<(App, Data)>>) -> Option<RosterNFT>
    decreases outs.len(),
{
    if outs.len() == 0 {
        None
    } else {
        match charms_get(app, outs[0]@) {
            Some(d) => match roster_set_of(d) {
                Some(r) => Some(r),
                None => find_roster_set_out(app, outs.drop_first()),
            },
            None => find_roster_set_out(app, outs.drop_first()),
        }
    }
}

/// A deploy is satisfied exactly when the transaction is a pure genesis —
/// zero inputs, one output — the witness is a text whose digest equals the
/// acting app's content-identity hash, and the produced record decodes as a
/// well-formed roster.
pub open spec fn deploy_ok(app: App, tx: Transaction, w: Data) -> bool {
    &&& tx.ins@.len() == 0
    &&& tx.outs@.len() == 1
    &&& match text_of(w) {
        Some(s) => {
            &&& sha256_of(s@) == app.identity@
            &&& match first_app_data(app, tx.outs@) {
                Some(d) => match roster_of(d) {
                    Some(n) => roster_ok(n),
                    None => false,
                },
                None => false,
            }
        },
        None => false,
    }
}

/// Outcome of an update: at least one input and one output, a consumed
/// prior instance of the acting app — its absence is a fatal violation —
/// and a produced record decoding as a well-formed roster.
pub open spec fn update_outcome(app: App, tx: Transaction) -> Result<bool, Violation> {
    if tx.ins@.len() < 1 || tx.outs@.len() < 1 {
        Ok(false)
    } else if !lineage_holds(app, tx) {
        Err(Violation::MissingLineage)
    } else {
        Ok(
            match first_app_data(app, tx.outs@) {
                Some(d) => match roster_of(d) {
                    Some(n) => roster_ok(n),
                    None => false,
                },
                None => false,
            },
        )
    }
}

/// Outcome of the roster-continuity variant: the witness must encode the
/// outpoint of an input carrying a roster-set object for the app, and the
/// rule is satisfied exactly when some output carries one as well.
pub open spec fn continuity_outcome(app: App, tx: Transaction, w: Data) -> Result<
    bool,
    Violation,
> {
    match bytes_of(w) {
        Some(b) => if b@.len() != 36 {
            Err(Violation::MalformedWitness)
        } else {
            match input_charms_at(b@.subrange(0, 32), le_index(b@), tx.ins@) {
                Some(charms) => match charms_get(app, charms@) {
                    Some(d) => match roster_set_of(d) {
                        Some(_) => Ok(find_roster_set_out(app, tx.outs@) is Some),
                        None => Err(Violation::MissingInputState),
                    },
                    None => Err(Violation::MissingInputState),
                },
                None => Err(Violation::MissingInput),
            }
        },
        None => Err(Violation::MalformedWitness),
    }
}

/// Counts the delimiters of a cosigner list.
fn count_commas(s: &str) -> (n: usize)
    ensures
        n as nat == comma_count(s@),
{
    let len = s.unicode_len();
    let mut n: usize = 0;
    let mut i: usize = 0;
    while i < len
        invariant
            i <= len,
            len as nat == s@.len(),
            n <= i,
            n as nat == comma_count(s@.take(i as int)),
        decreases len - i,
    {
        let c = s.get_char(i);
        proof {
            assert(s@.take(i as int + 1).drop_last() =~= s@.take(i as int));
            assert(s@.take(i as int + 1).last() == s@[i as int]);
        }
        if c == ',' {
            n += 1;
        }
        i += 1;
    }
    proof {
        assert(s@.take(len as int) =~= s@);
    }
    n
}

/// Decides whether a roster is well-formed: positive threshold, and at
/// least threshold-many cosigners in the delimited list.
fn roster_satisfied(roster: &NftData) -> (r: bool)
    ensures
        r == roster_ok(*roster),
{
    if roster.current_threshold == 0 {
        return false;
    }
    let commas = count_commas(roster.current_cosigners.as_str());
    // count >= threshold holds exactly when commas >= threshold - 1
    (commas as u64) >= ((roster.current_threshold - 1) as u64)
}

/// Locates the first output record carried for `app`.
fn first_output_charm<'a>(app: &App, tx: &'a Transaction) -> (r: Option<&'a Data>)
    ensures
        match r {
            Some(d) => first_app_data(*app, tx.outs@) == Some(*d),
            None => first_app_data(*app, tx.outs@) is None,
        },
{
    proof {
        assert(tx.outs@.skip(0) =~= tx.outs@);
    }
    let mut i: usize = 0;
    while i < tx.outs.len()
        invariant
            i <= tx.outs.len(),
            first_app_data(*app, tx.outs@) == first_app_data(*app, tx.outs@.skip(i as int)),
        decreases tx.outs.len() - i,
    {
        proof {
            assert(tx.outs@.skip(i as int)[0] == tx.outs@[i as int]);
        }
        let charms = &tx.outs[i];
        if let Some(d) = get_charm(app, charms) {
            return Some(d);
        }
        proof {
            assert(tx.outs@.skip(i as int).drop_first() =~= tx.outs@.skip(i as int + 1));
        }
        i += 1;
    }
    None
}

/// Locates the first roster-set object the outputs carry for `app`.
fn find_roster_set_output<'a>(app: &App, tx: &'a Transaction) -> (r: Option<&'a RosterNFT>)
    ensures
        match r {
            Some(n) => find_roster_set_out(*app, tx.outs@) == Some(*n),
            None => find_roster_set_out(*app, tx.outs@) is None,
        },
{
    proof {
        assert(tx.outs@.skip(0) =~= tx.outs@);
    }
    let mut i: usize = 0;
    while i < tx.outs.len()
        invariant
            i <= tx.outs.len(),
            find_roster_set_out(*app, tx.outs@) == find_roster_set_out(
                *app,
                tx.outs@.skip(i as int),
            ),
        decreases tx.outs.len() - i,
    {
        proof {
            assert(tx.outs@.skip(i as int)[0] == tx.outs@[i as int]);
        }
        let charms = &tx.outs[i];
        if let Some(d) = get_charm(app, charms) {
            if let Some(n) = d.as_roster_set() {
                return Some(n);
            }
        }
        proof {
            assert(tx.outs@.skip(i as int).drop_first() =~= tx.outs@.skip(i as int + 1));
        }
        i += 1;
    }
    None
}

/// Decides the deploy rule: a pure genesis whose witness text hashes to the
/// acting app's content-identity hash — identity can only be claimed by
/// disclosing the preimage — and whose single output carries a well-formed
/// roster. Every failure here is an ordinary rule failure.
pub fn nft_deploy_satisfied(app: &App, tx: &Transaction, w: &Data) -> (r: bool)
    ensures
        r == deploy_ok(*app, *tx, *w),
{
    if tx.ins.len() != 0 {
        return false;
    }
    if tx.outs.len() != 1 {
        return false;
    }
    let s = match w.as_text() {
        Some(s) => s,
        None => {
            return false;
        },
    };
    let digest = hash(s.as_str());
    if !bytes_eq(&digest, &app.identity) {
        return false;
    }
    let d = match first_output_charm(app, tx) {
        Some(d) => d,
        None => {
            return false;
        },
    };
    let roster = match d.as_roster() {
        Some(n) => n,
        None => {
            return false;
        },
    };
    roster_satisfied(roster)
}

/// Decides the update rule: the transaction must consume a previously
/// deployed instance of the acting app — a fatal violation when it does
/// not — and the produced roster must be well-formed.
pub fn nft_update_satisfied(app: &App, tx: &Transaction) -> (r: Result<bool, Violation>)
    ensures
        r == update_outcome(*app, *tx),
{
    if tx.ins.len() < 1 || tx.outs.len() < 1 {
        return Ok(false);
    }
    if !check_previous_nft(app, tx) {
        return Err(Violation::MissingLineage);
    }
    let d = match first_output_charm(app, tx) {
        Some(d) => d,
        None => {
            return Ok(false);
        },
    };
    match d.as_roster() {
        Some(n) => Ok(roster_satisfied(n)),
        None => Ok(false),
    }
}

/// Decides the roster-continuity variant of the governance rules: the input
/// spending the witnessed outpoint must carry a roster-set object for the
/// app — missing or undecodable prior state is fatal — and the rule is
/// satisfied exactly when some output carries a roster-set object as well.
pub fn nft_contract_satisfied(nft_app: &App, tx: &Transaction, w: &Data) -> (r: Result<
    bool,
    Violation,
>)
    ensures
        r == continuity_outcome(*nft_app, *tx, *w),
{
    let b = match w.as_bytes() {
        Some(b) => b,
        None => {
            return Err(Violation::MalformedWitness);
        },
    };
    let outpoint = match outpoint_from_bytes(b) {
        Some(o) => o,
        None => {
            return Err(Violation::MalformedWitness);
        },
    };
    let charms = match get_input_charms(&outpoint, tx) {
        Some(c) => c,
        None => {
            return Err(Violation::MissingInput);
        },
    };
    let d = match get_charm(nft_app, charms) {
        Some(d) => d,
        None => {
            return Err(Violation::MissingInputState);
        },
    };
    if d.as_roster_set().is_none() {
        return Err(Violation::MissingInputState);
    }
    match find_roster_set_output(nft_app, tx) {
        Some(_) => Ok(true),
        None => Ok(false),
    }
}

/// Quorum law: a zero threshold is never well-formed, however many
/// cosigners the list names, and a cosigner count below the threshold is
/// never well-formed.
pub proof fn lemma_threshold(roster: NftData)
    ensures
        roster.current_threshold == 0 ==> !roster_ok(roster),
        cosigner_count(roster.current_cosigners@) < roster.current_threshold ==> !roster_ok(
            roster,
        ),
{
}

/// Quorum law at the deploy and update rules: whatever they accept carries
/// a produced roster with a positive threshold met by its cosigner count.
pub proof fn lemma_accepted_roster_quorum(app: App, tx: Transaction, w: Data)
    ensures
        deploy_ok(app, tx, w) ==> {
            let d = first_app_data(app, tx.outs@)->Some_0;
            &&& first_app_data(app, tx.outs@) is Some
            &&& roster_of(d) is Some
            &&& roster_ok(roster_of(d)->Some_0)
        },
        update_outcome(app, tx) == Ok::<bool, Violation>(true) ==> {
            let d = first_app_data(app, tx.outs@)->Some_0;
            &&& first_app_data(app, tx.outs@) is Some
            &&& roster_of(d) is Some
            &&& roster_ok(roster_of(d)->Some_0)
        },
{
}

/// Identity-binding law: a deploy is accepted only when the witness is a
/// text whose digest equals the acting app's content-identity hash; any
/// witness whose digest differs, and any witness that is not a text, is
/// rejected.
pub proof fn lemma_deploy_identity_binding(app: App, tx: Transaction, w: Data)
    ensures
        deploy_ok(app, tx, w) ==> text_of(w) is Some && sha256_of(text_of(w)->Some_0@)
            == app.identity@,
        text_of(w) matches Some(s) && sha256_of(s@) != app.identity@ ==> !deploy_ok(app, tx, w),
        text_of(w) is None ==> !deploy_ok(app, tx, w),
{
}

/// Lineage law: an update is never accepted when no input carries a
/// previously deployed instance of the acting app, however well-formed the
/// produced roster is.
pub proof fn lemma_update_lineage(app: App, tx: Transaction)
    ensures
        !lineage_holds(app, tx) ==> update_outcome(app, tx) != Ok::<bool, Violation>(true),
{
}

} // verus!
