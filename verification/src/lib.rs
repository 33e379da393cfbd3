//! Transaction-validity predicate for a UTXO-anchored asset bridge and its
//! governance protocol: given a candidate transaction view and the
//! app-tagged state attached to its inputs and outputs, decide whether the
//! proposed transition is legal for a fungible bridged-value token or for
//! the non-fungible governance roster object. The predicate is stateless
//! and pure; its only outcomes are satisfied, not satisfied, or a fatal
//! structural violation with its reason.

use vstd::prelude::*;

pub mod common;
pub mod data;
pub mod nft;
pub mod objects;
pub mod token;

use crate::data::{lookup, map_get, string_map_of, App, AppKind, Data, Transaction, Violation};
use crate::nft::{deploy_ok, nft_deploy_satisfied, nft_update_satisfied, update_outcome};
use crate::objects::TransactionType;
use crate::token::{token_contract_satisfied, token_outcome, token_transfer_satisfied, transfer_ok};

verus! {

/// Routing of one recognized action for the acting app's kind. A token
/// handles mint, burn and transfer; the governance object handles deploy
/// and update; any other action is a fatal structural violation, never a
/// silent success.
pub open spec fn route(app: App, tx: Transaction, action: Seq<char>, w: Data) -> Result<
    bool,
    Violation,
> {
    match app.tag {
        AppKind::Token => {
            if action == "mint"@ {
                token_outcome(app, tx, TransactionType::Mint, w)
            } else if action == "burn"@ {
                token_outcome(app, tx, TransactionType::Burn, w)
            } else if action == "transfer"@ {
                Ok(transfer_ok(app, tx))
            } else {
                Err(Violation::UnrecognizedAction)
            }
        },
        AppKind::Nft => {
            if action == "deploy"@ {
                Ok(deploy_ok(app, tx, w))
            } else if action == "update"@ {
                update_outcome(app, tx)
            } else {
                Err(Violation::UnrecognizedAction)
            }
        },
    }
}

/// The whole predicate: the public inputs must be a text mapping holding
/// the selecting action under the key `action` — anything else is a fatal
/// violation — and the selected rule decides the rest.
pub open spec fn contract_outcome(app: App, tx: Transaction, x: Data, w: Data) -> Result<
    bool,
    Violation,
> {
    match string_map_of(x) {
        Some(entries) => match map_get(entries@, "action"@) {
            Some(action) => route(app, tx, action@, w),
            None => Err(Violation::MissingAction),
        },
        None => Err(Violation::MissingAction),
    }
}

/// Decides the validity of one proposed transition: `x` carries the public
/// inputs, a text mapping that selects the action; `w` carries the private
/// witness, whose shape each action decides for itself. `Ok(true)` is
/// satisfied, `Ok(false)` an ordinary rule failure, and `Err` a fatal
/// structural violation with its reason.
pub fn app_contract(app: &App, tx: &Transaction, x: &Data, w: &Data) -> (r: Result<
    bool,
    Violation,
>)
    ensures
        r == contract_outcome(*app, *tx, *x, *w),
{
    let entries = match x.as_string_map() {
        Some(m) => m,
        None => {
            return Err(Violation::MissingAction);
        },
    };
    let action_key: String = "action".to_owned();
    let action = match lookup(entries, &action_key) {
        Some(a) => a,
        None => {
            return Err(Violation::MissingAction);
        },
    };
    match app.tag {
        AppKind::Token => {
            if *action == "mint".to_owned() {
                token_contract_satisfied(app, tx, TransactionType::Mint, w)
            } else if *action == "burn".to_owned() {
                token_contract_satisfied(app, tx, TransactionType::Burn, w)
            } else if *action == "transfer".to_owned() {
                Ok(token_transfer_satisfied(app, tx))
            } else {
                Err(Violation::UnrecognizedAction)
            }
        },
        AppKind::Nft => {
            if *action == "deploy".to_owned() {
                Ok(nft_deploy_satisfied(app, tx, w))
            } else if *action == "update".to_owned() {
                nft_update_satisfied(app, tx)
            } else {
                Err(Violation::UnrecognizedAction)
            }
        },
    }
}

} // verus!
