use vstd::prelude::*;

verus! {

/// The two operations a fungible-token record may declare.
#[derive(Debug, Clone, PartialEq, Eq)]
pub enum TransactionType {
    Mint,
    Burn,
}

/// Fungible bridge record: the state a token input or output carries.
///
/// `funding_utxo` names the backing lock transaction; `lock_amount`,
/// `change_amount` and `fee` are denominated in the bridged asset's base
/// unit; `action` declares which operation the record takes part in.
#[derive(Debug, Clone, PartialEq, Eq)]
pub struct XBTCData {
    pub funding_utxo: String,
    pub lock_amount: u64,
    pub change_amount: u64,
    pub change_address: String,
    pub fee: u64,
    pub action: TransactionType,
}

/// Governance roster record: the comma-delimited cosigner list and the
/// signing threshold, with optional descriptive metadata.
#[derive(Debug, Clone, PartialEq, Eq)]
pub struct NftData {
    pub ticker: Option<String>,
    pub name: Option<String>,
    pub image: Option<String>,
    pub url: Option<String>,
    pub current_cosigners: String,
    pub current_threshold: u32,
}

/// Roster-set object: an explicit cosigner sequence with an optional
/// proposed-addition list, carried by the roster-continuity check.
#[derive(Debug, Clone, PartialEq, Eq)]
pub struct RosterNFT {
    pub pubkeys: Vec<String>,
    pub new_cosigners: Option<Vec<String>>,
}

} // verus!
