use vstd::prelude::*;

use crate::data::{bytes_eq, App, AppKind, Transaction};

verus! {

/// The identity `candidate` names a previously deployed instance of `app`:
/// NFT kind, same content-identity hash, same verification key.
pub open spec fn prior_nft(app: App, candidate: App) -> bool {
    &&& candidate.tag is Nft
    &&& candidate.identity@ == app.identity@
    &&& candidate.vk@ == app.vk@
}

/// Some transaction input carries, under some app slot, an NFT-kind identity
/// equal to the acting app's identity and verification key: a previously
/// deployed instance of this exact app is being consumed.
pub open spec fn lineage_holds(app: App, tx: Transaction) -> bool {
    exists|i: int, j: int|
        0 <= i < tx.ins@.len() && 0 <= j < tx.ins@[i].1@.len() && prior_nft(
            app,
            tx.ins@[i].1@[j].0,
        )
}

/// Decides the lineage condition: at least one transaction input must carry
/// an NFT-kind identity with the acting app's identity and verification key.
pub fn check_previous_nft(token_app: &App, tx: &Transaction) -> (r: bool)
    ensures
        r == lineage_holds(*token_app, *tx),
{
    let mut i: usize = 0;
    while i < tx.ins.len()
        invariant
            i <= tx.ins.len(),
            forall|i2: int, j2: int|
                0 <= i2 < i && 0 <= j2 < tx.ins@[i2].1@.len() ==> !prior_nft(
                    *token_app,
                    tx.ins@[i2].1@[j2].0,
                ),
        decreases tx.ins.len() - i,
    {
        let charms = &tx.ins[i].1;
        let mut j: usize = 0;
        while j < charms.len()
            invariant
                i < tx.ins.len(),
                j <= charms.len(),
                charms@ == tx.ins@[i as int].1@,
                forall|i2: int, j2: int|
                    0 <= i2 < i && 0 <= j2 < tx.ins@[i2].1@.len() ==> !prior_nft(
                        *token_app,
                        tx.ins@[i2].1@[j2].0,
                    ),
                forall|j2: int|
                    0 <= j2 < j ==> !prior_nft(*token_app, tx.ins@[i as int].1@[j2].0),
            decreases charms.len() - j,
        {
            let candidate = &charms[j].0;
            if candidate.tag == AppKind::Nft && bytes_eq(&candidate.identity, &token_app.identity)
                && bytes_eq(&candidate.vk, &token_app.vk) {
                proof {
                    assert(prior_nft(*token_app, tx.ins@[i as int].1@[j as int].0));
                }
                return true;
            }
            j += 1;
        }
        i += 1;
    }
    false
}

} // verus!
