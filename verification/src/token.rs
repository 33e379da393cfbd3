use vstd::prelude::*;

use crate::common::{check_previous_nft, lineage_holds};
use crate::data::{
    amount_of, app_eq, app_matches, bytes_of, charms_get, get_charm, get_input_charms,
    input_charms_at, le_index, outpoint_from_bytes, text_of, token_of, App, Data, Outpoint,
    Transaction, Violation,
};
use crate::objects::{TransactionType, XBTCData};

verus! {

/// The prior token record a transaction consumes: the first input, in order,
/// whose record for `app` decodes as a fungible-token record.
pub open spec fn find_token_in(app: App, ins: Seq<(Outpoint, Vec<(App, Data)>)>) -> Option<
    XBTCData,
>
    decreases ins.len(),
{
    if ins.len() == 0 {
        None
    } else {
        match charms_get(app, ins[0].1@) {
            Some(d) => match token_of(d) {
                Some(t) => Some(t),
                None => find_token_in(app, ins.drop_first()),
            },
            None => find_token_in(app, ins.drop_first()),
        }
    }
}

/// The token record a transaction produces: the first output slot, in order,
/// whose record for `app` decodes as a fungible-token record.
pub open spec fn find_token_out(app: App, outs: Seq<Vec<(App, Data)>>) -> Option<XBTCData>
    decreases outs.len(),
{
    if outs.len() == 0 {
        None
    } else {
        match charms_get(app, outs[0]@) {
            Some(d) => match token_of(d) {
                Some(t) => Some(t),
                None => find_token_out(app, outs.drop_first()),
            },
            None => find_token_out(app, outs.drop_first()),
        }
    }
}

/// The amount one input's charms contribute to a transfer: the sum of the
/// amounts of every record carried under an identity equal to `app`.
pub open spec fn slot_sum(app: App, charms: Seq<(App, Data)>) -> nat
    decreases charms.len(),
{
    if charms.len() == 0 {
        0
    } else {
        slot_sum(app, charms.drop_last()) + if app_matches(charms.last().0, app) {
            amount_of(charms.last().1)
        } else {
            0
        }
    }
}

/// The total transferred in: the sum, over all inputs, of the amounts carried
/// under identities equal to `app`.
pub open spec fn total_in(app: App, ins: Seq<(Outpoint, Vec<(App, Data)>)>) -> nat
    decreases ins.len(),
{
    if ins.len() == 0 {
        0
    } else {
        total_in(app, ins.drop_last()) + slot_sum(app, ins.last().1@)
    }
}

/// The amount one output slot contributes: the amount of the record it
/// carries for `app`, or zero when it carries none.
pub open spec fn out_amount(app: App, charms: Seq<(App, Data)>) -> nat {
    match charms_get(app, charms) {
        Some(d) => amount_of(d),
        None => 0,
    }
}

/// The total transferred out: the sum over all output slots of the amount
/// each carries for `app`.
pub open spec fn total_out(app: App, outs: Seq<Vec<(App, Data)>>) -> nat
    decreases outs.len(),
{
    if outs.len() == 0 {
        0
    } else {
        total_out(app, outs.drop_last()) + out_amount(app, outs.last()@)
    }
}

/// A transfer is satisfied exactly when the transaction has at least one
/// input and exactly two outputs, the totals balance, and the total is
/// positive: a zero-value transfer is rejected even though its totals are
/// equal. Totals beyond the machine's largest integer are rejected as well;
/// no real transaction reaches them.
pub open spec fn transfer_ok(app: App, tx: Transaction) -> bool {
    &&& tx.ins@.len() > 0
    &&& tx.outs@.len() == 2
    &&& total_in(app, tx.ins@) == total_out(app, tx.outs@)
    &&& total_in(app, tx.ins@) > 0
    &&& total_in(app, tx.ins@) <= u128::MAX
}

/// A mint is satisfied exactly when a produced token record exists and: the
/// consumed record's funding reference equals the witnessed funding
/// identifier and the produced record's funding reference, and the consumed
/// lock amount minus the produced lock amount plus the consumed fee is
/// exactly zero, over the integers. The produced lock amount therefore grows
/// by the fee; the formula is preserved exactly as the protocol states it.
pub open spec fn mint_ok(app: App, tx: Transaction, funding: Seq<char>, data_in: XBTCData) -> bool {
    match find_token_out(app, tx.outs@) {
        Some(out) => {
            &&& data_in.funding_utxo@ == funding
            &&& data_in.funding_utxo@ == out.funding_utxo@
            &&& data_in.lock_amount - out.lock_amount + data_in.fee == 0
        },
        None => false,
    }
}

/// A burn is satisfied exactly when a produced token record exists and: the
/// change address and funding reference are carried over unchanged, and the
/// produced lock amount plus the produced change amount equals the consumed
/// lock amount. Fee treatment is an open protocol question and no fee is
/// subtracted here.
pub open spec fn burn_ok(app: App, tx: Transaction, data_in: XBTCData) -> bool {
    match find_token_out(app, tx.outs@) {
        Some(out) => {
            &&& out.change_address@ == data_in.change_address@
            &&& data_in.funding_utxo@ == out.funding_utxo@
            &&& out.lock_amount + out.change_amount == data_in.lock_amount
        },
        None => false,
    }
}

/// Outcome of a mint: the witness must carry the funding identifier as text,
/// and some input must carry a prior token record for the app — the record
/// must declare the mint operation, else the rule is not satisfied.
pub open spec fn mint_outcome(app: App, tx: Transaction, w: Data) -> Result<bool, Violation> {
    match text_of(w) {
        Some(funding) => match find_token_in(app, tx.ins@) {
            Some(data_in) => if data_in.action is Mint {
                Ok(mint_ok(app, tx, funding@, data_in))
            } else {
                Ok(false)
            },
            None => Err(Violation::MissingInputState),
        },
        None => Err(Violation::MalformedWitness),
    }
}

/// Outcome of a burn: the witness must carry a 36-byte outpoint encoding
/// naming a transaction input, and that input must carry a token record for
/// the app. The burn rule itself has no action-tag precondition.
pub open spec fn burn_outcome(app: App, tx: Transaction, w: Data) -> Result<bool, Violation> {
    match bytes_of(w) {
        Some(b) => if b@.len() != 36 {
            Err(Violation::MalformedWitness)
        } else {
            match input_charms_at(b@.subrange(0, 32), le_index(b@), tx.ins@) {
                Some(charms) => match charms_get(app, charms@) {
                    Some(d) => match token_of(d) {
                        Some(t) => Ok(burn_ok(app, tx, t)),
                        None => Err(Violation::MissingInputState),
                    },
                    None => Err(Violation::MissingInputState),
                },
                None => Err(Violation::MissingInput),
            }
        },
        None => Err(Violation::MalformedWitness),
    }
}

/// Outcome of a token operation, selected by the declared operation.
pub open spec fn token_outcome(app: App, tx: Transaction, op: TransactionType, w: Data) -> Result<
    bool,
    Violation,
> {
    match op {
        TransactionType::Mint => mint_outcome(app, tx, w),
        TransactionType::Burn => burn_outcome(app, tx, w),
    }
}

/// Locates the prior token record the transaction consumes for `app`.
fn find_token_input<'a>(app: &App, tx: &'a Transaction) -> (r: Option<&'a XBTCData>)
    ensures
        match r {
            Some(t) => find_token_in(*app, tx.ins@) == Some(*t),
            None => find_token_in(*app, tx.ins@) is None,
        },
{
    proof {
        assert(tx.ins@.skip(0) =~= tx.ins@);
    }
    let mut i: usize = 0;
    while i < tx.ins.len()
        invariant
            i <= tx.ins.len(),
            find_token_in(*app, tx.ins@) == find_token_in(*app, tx.ins@.skip(i as int)),
        decreases tx.ins.len() - i,
    {
        proof {
            assert(tx.ins@.skip(i as int)[0] == tx.ins@[i as int]);
        }
        let charms = &tx.ins[i].1;
        if let Some(d) = get_charm(app, charms) {
            if let Some(t) = d.as_token() {
                return Some(t);
            }
        }
        proof {
            assert(tx.ins@.skip(i as int).drop_first() =~= tx.ins@.skip(i as int + 1));
        }
        i += 1;
    }
    None
}

/// Locates the token record the transaction produces for `app`.
fn find_token_output<'a>(app: &App, tx: &'a Transaction) -> (r: Option<&'a XBTCData>)
    ensures
        match r {
            Some(t) => find_token_out(*app, tx.outs@) == Some(*t),
            None => find_token_out(*app, tx.outs@) is None,
        },
{
    proof {
        assert(tx.outs@.skip(0) =~= tx.outs@);
    }
    let mut i: usize = 0;
    while i < tx.outs.len()
        invariant
            i <= tx.outs.len(),
            find_token_out(*app, tx.outs@) == find_token_out(*app, tx.outs@.skip(i as int)),
        decreases tx.outs.len() - i,
    {
        proof {
            assert(tx.outs@.skip(i as int)[0] == tx.outs@[i as int]);
        }
        let charms = &tx.outs[i];
        if let Some(d) = get_charm(app, charms) {
            if let Some(t) = d.as_token() {
                return Some(t);
            }
        }
        proof {
            assert(tx.outs@.skip(i as int).drop_first() =~= tx.outs@.skip(i as int + 1));
        }
        i += 1;
    }
    None
}

/// The sum over a prefix of one input's charms never exceeds the sum over
/// all of them.
proof fn lemma_slot_sum_take(app: App, charms: Seq<(App, Data)>, j: int)
    requires
        0 <= j <= charms.len(),
    ensures
        slot_sum(app, charms.take(j)) <= slot_sum(app, charms),
    decreases charms.len() - j,
{
    if j == charms.len() {
        assert(charms.take(j) =~= charms);
    } else {
        assert(charms.take(j + 1).drop_last() =~= charms.take(j));
        lemma_slot_sum_take(app, charms, j + 1);
    }
}

/// The total over a prefix of the inputs never exceeds the total over all.
proof fn lemma_total_in_take(app: App, ins: Seq<(Outpoint, Vec<(App, Data)>)>, i: int)
    requires
        0 <= i <= ins.len(),
    ensures
        total_in(app, ins.take(i)) <= total_in(app, ins),
    decreases ins.len() - i,
{
    if i == ins.len() {
        assert(ins.take(i) =~= ins);
    } else {
        assert(ins.take(i + 1).drop_last() =~= ins.take(i));
        lemma_total_in_take(app, ins, i + 1);
    }
}

/// The total over a prefix of the outputs never exceeds the total over all.
proof fn lemma_total_out_take(app: App, outs: Seq<Vec<(App, Data)>>, i: int)
    requires
        0 <= i <= outs.len(),
    ensures
        total_out(app, outs.take(i)) <= total_out(app, outs),
    decreases outs.len() - i,
{
    if i == outs.len() {
        assert(outs.take(i) =~= outs);
    } else {
        assert(outs.take(i + 1).drop_last() =~= outs.take(i));
        lemma_total_out_take(app, outs, i + 1);
    }
}

/// Sums the amounts every input carries for `app`; `None` reports a total
/// beyond the machine's largest integer.
fn sum_input_amounts(app: &App, tx: &Transaction) -> (r: Option<u128>)
    ensures
        match r {
            Some(t) => t as nat == total_in(*app, tx.ins@),
            None => total_in(*app, tx.ins@) > u128::MAX,
        },
{
    let mut acc: u128 = 0;
    let mut i: usize = 0;
    while i < tx.ins.len()
        invariant
            i <= tx.ins.len(),
            acc as nat == total_in(*app, tx.ins@.take(i as int)),
        decreases tx.ins.len() - i,
    {
        let charms = &tx.ins[i].1;
        let mut j: usize = 0;
        while j < charms.len()
            invariant
                i < tx.ins.len(),
                j <= charms.len(),
                charms@ == tx.ins@[i as int].1@,
                acc as nat == total_in(*app, tx.ins@.take(i as int)) + slot_sum(
                    *app,
                    charms@.take(j as int),
                ),
            decreases charms.len() - j,
        {
            let entry = &charms[j];
            proof {
                assert(charms@.take(j as int + 1).drop_last() =~= charms@.take(j as int));
                assert(charms@.take(j as int + 1).last() == charms@[j as int]);
            }
            if app_eq(&entry.0, app) {
                let a = entry.1.amount();
                match acc.checked_add(a as u128) {
                    Some(next) => {
                        acc = next;
                    },
                    None => {
                        proof {
                            lemma_slot_sum_take(*app, charms@, j as int + 1);
                            assert(tx.ins@.take(i as int + 1).drop_last() =~= tx.ins@.take(
                                i as int,
                            ));
                            assert(tx.ins@.take(i as int + 1).last() == tx.ins@[i as int]);
                            lemma_total_in_take(*app, tx.ins@, i as int + 1);
                        }
                        return None;
                    },
                }
            }
            j += 1;
        }
        proof {
            assert(charms@.take(charms@.len() as int) =~= charms@);
            assert(tx.ins@.take(i as int + 1).drop_last() =~= tx.ins@.take(i as int));
            assert(tx.ins@.take(i as int + 1).last() == tx.ins@[i as int]);
        }
        i += 1;
    }
    proof {
        assert(tx.ins@.take(tx.ins@.len() as int) =~= tx.ins@);
    }
    Some(acc)
}

/// Sums the amounts the two output slots carry for `app`; `None` reports a
/// total beyond the machine's largest integer.
fn sum_output_amounts(app: &App, tx: &Transaction) -> (r: Option<u128>)
    ensures
        match r {
            Some(t) => t as nat == total_out(*app, tx.outs@),
            None => total_out(*app, tx.outs@) > u128::MAX,
        },
{
    let mut acc: u128 = 0;
    let mut i: usize = 0;
    while i < tx.outs.len()
        invariant
            i <= tx.outs.len(),
            acc as nat == total_out(*app, tx.outs@.take(i as int)),
        decreases tx.outs.len() - i,
    {
        let charms = &tx.outs[i];
        let a: u64 = match get_charm(app, charms) {
            Some(d) => d.amount(),
            None => 0,
        };
        proof {
            assert(tx.outs@.take(i as int + 1).drop_last() =~= tx.outs@.take(i as int));
            assert(tx.outs@.take(i as int + 1).last() == tx.outs@[i as int]);
        }
        match acc.checked_add(a as u128) {
            Some(next) => {
                acc = next;
            },
            None => {
                proof {
                    lemma_total_out_take(*app, tx.outs@, i as int + 1);
                }
                return None;
            },
        }
        i += 1;
    }
    proof {
        assert(tx.outs@.take(tx.outs@.len() as int) =~= tx.outs@);
    }
    Some(acc)
}

/// Decides the transfer rule: at least one input, exactly two outputs, and
/// the amounts carried for the acting app balance to a positive total.
pub fn token_transfer_satisfied(token_app: &App, tx: &Transaction) -> (r: bool)
    ensures
        r == transfer_ok(*token_app, *tx),
{
    if tx.ins.len() == 0 {
        return false;
    }
    if tx.outs.len() != 2 {
        return false;
    }
    let tin = sum_input_amounts(token_app, tx);
    let tout = sum_output_amounts(token_app, tx);
    match (tin, tout) {
        (Some(a), Some(b)) => a == b && a > 0,
        _ => false,
    }
}

/// Decides the mint rule against the consumed record and the witnessed
/// funding identifier.
pub fn mint_contract_satisfied(
    token_app: &App,
    tx: &Transaction,
    locked_funds_tx: &String,
    xbtc_data_in: &XBTCData,
) -> (r: bool)
    ensures
        r == mint_ok(*token_app, *tx, locked_funds_tx@, *xbtc_data_in),
{
    let out = match find_token_output(token_app, tx) {
        Some(o) => o,
        None => {
            return false;
        },
    };
    if !(xbtc_data_in.funding_utxo == *locked_funds_tx) {
        return false;
    }
    if !(xbtc_data_in.funding_utxo == out.funding_utxo) {
        return false;
    }
    (xbtc_data_in.lock_amount as u128) + (xbtc_data_in.fee as u128) == (out.lock_amount as u128)
}

/// Decides the burn rule against the consumed record.
pub fn burn_contract_satisfied(token_app: &App, tx: &Transaction, xbtc_data_in: &XBTCData) -> (r:
    bool)
    ensures
        r == burn_ok(*token_app, *tx, *xbtc_data_in),
{
    let out = match find_token_output(token_app, tx) {
        Some(o) => o,
        None => {
            return false;
        },
    };
    if !(out.change_address == xbtc_data_in.change_address) {
        return false;
    }
    if !(xbtc_data_in.funding_utxo == out.funding_utxo) {
        return false;
    }
    (out.lock_amount as u128) + (out.change_amount as u128) == (xbtc_data_in.lock_amount as u128)
}

/// Runs the token operation `op`: locates the prior token record the
/// transaction consumes — for a mint, the first input carrying one, with
/// the witness naming the backing lock transaction; for a burn, the input
/// spending the outpoint the witness encodes — and evaluates the rule.
/// Missing prior state is a fatal violation, not an ordinary failure.
pub fn token_contract_satisfied(token_app: &App, tx: &Transaction, op: TransactionType, w: &Data)
    -> (r: Result<bool, Violation>)
    ensures
        r == token_outcome(*token_app, *tx, op, *w),
{
    match op {
        TransactionType::Mint => {
            let funding = match w.as_text() {
                Some(s) => s,
                None => {
                    return Err(Violation::MalformedWitness);
                },
            };
            let data_in = match find_token_input(token_app, tx) {
                Some(t) => t,
                None => {
                    return Err(Violation::MissingInputState);
                },
            };
            match data_in.action {
                TransactionType::Mint => Ok(
                    mint_contract_satisfied(token_app, tx, funding, data_in),
                ),
                TransactionType::Burn => Ok(false),
            }
        },
        TransactionType::Burn => {
            let b = match w.as_bytes() {
                Some(b) => b,
                None => {
                    return Err(Violation::MalformedWitness);
                },
            };
            let outpoint = match outpoint_from_bytes(b) {
                Some(o) => o,
                None => {
                    return Err(Violation::MalformedWitness);
                },
            };
            let charms = match get_input_charms(&outpoint, tx) {
                Some(c) => c,
                None => {
                    return Err(Violation::MissingInput);
                },
            };
            let d = match get_charm(token_app, charms) {
                Some(d) => d,
                None => {
                    return Err(Violation::MissingInputState);
                },
            };
            let data_in = match d.as_token() {
                Some(t) => t,
                None => {
                    return Err(Violation::MissingInputState);
                },
            };
            Ok(burn_contract_satisfied(token_app, tx, data_in))
        },
    }
}

/// The merged mint/burn variant of the token rules: a single lineage-only
/// check that the transaction consumes a previously deployed instance of
/// the acting app.
pub fn token_nft_satisfied(token_app: &App, tx: &Transaction) -> (r: bool)
    ensures
        r == lineage_holds(*token_app, *tx),
{
    check_previous_nft(token_app, tx)
}

/// Conservation law of the mint: whenever a mint is satisfied, the consumed
/// lock amount minus the produced lock amount plus the consumed fee is
/// exactly zero, and the funding reference equals both the witnessed
/// identifier and the produced record's reference.
pub proof fn lemma_mint_conservation(
    app: App,
    tx: Transaction,
    funding: Seq<char>,
    data_in: XBTCData,
)
    requires
        mint_ok(app, tx, funding, data_in),
    ensures
        find_token_out(app, tx.outs@) is Some,
        ({
            let out = find_token_out(app, tx.outs@)->Some_0;
            &&& data_in.lock_amount - out.lock_amount + data_in.fee == 0
            &&& data_in.funding_utxo@ == funding
            &&& data_in.funding_utxo@ == out.funding_utxo@
        }),
{
}

/// The mint equation is exact: any consumed record whose lock amount plus
/// fee differs — a one-unit perturbation of either term included — is not
/// accepted against the same transaction and witness.
pub proof fn lemma_mint_perturbation(
    app: App,
    tx: Transaction,
    funding: Seq<char>,
    data_in: XBTCData,
    other: XBTCData,
)
    requires
        mint_ok(app, tx, funding, data_in),
        other.lock_amount + other.fee != data_in.lock_amount + data_in.fee,
    ensures
        !mint_ok(app, tx, funding, other),
{
}

/// Conservation law of the burn: whenever a burn is satisfied, the produced
/// lock amount plus the produced change amount equals the consumed lock
/// amount, and the change address and funding reference are carried over
/// unchanged.
pub proof fn lemma_burn_conservation(app: App, tx: Transaction, data_in: XBTCData)
    requires
        burn_ok(app, tx, data_in),
    ensures
        find_token_out(app, tx.outs@) is Some,
        ({
            let out = find_token_out(app, tx.outs@)->Some_0;
            &&& out.lock_amount + out.change_amount == data_in.lock_amount
            &&& out.change_address@ == data_in.change_address@
            &&& out.funding_utxo@ == data_in.funding_utxo@
        }),
{
}

/// Balance law of the transfer: a satisfied transfer moves equal totals in
/// and out, and a zero total is never satisfied, however equal the totals.
pub proof fn lemma_transfer_balance(app: App, tx: Transaction)
    ensures
        transfer_ok(app, tx) ==> total_in(app, tx.ins@) == total_out(app, tx.outs@),
        transfer_ok(app, tx) ==> total_in(app, tx.ins@) > 0,
        total_in(app, tx.ins@) == 0 ==> !transfer_ok(app, tx),
{
}

} // verus!
