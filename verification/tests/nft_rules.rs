use sha2::{Digest, Sha256};

use zkapp::app_contract;
use zkapp::data::{outpoint_from_bytes, App, AppKind, Data, Outpoint, Transaction, Violation};
use zkapp::nft::nft_contract_satisfied;
use zkapp::objects::{NftData, RosterNFT};

fn nft_app(identity: Vec<u8>) -> App {
    App { tag: AppKind::Nft, identity, vk: vec![2u8; 32] }
}

fn actions(a: &str) -> Data {
    Data::StringMap(vec![("action".to_string(), a.to_string())])
}

fn digest_of(witness: &str) -> Vec<u8> {
    Sha256::digest(witness.as_bytes()).to_vec()
}

fn roster(cosigners: &str, threshold: u32) -> NftData {
    NftData {
        ticker: None,
        name: None,
        image: None,
        url: None,
        current_cosigners: cosigners.to_string(),
        current_threshold: threshold,
    }
}

fn outpoint(txid_byte: u8, index: u32) -> Outpoint {
    Outpoint { txid: vec![txid_byte; 32], index }
}

fn outpoint_witness(txid_byte: u8, index: u32) -> Data {
    let mut b = vec![txid_byte; 32];
    b.extend_from_slice(&index.to_le_bytes());
    Data::Bytes(b)
}

fn deploy_tx(app: &App, r: NftData) -> Transaction {
    Transaction { ins: vec![], outs: vec![vec![(app.clone(), Data::Roster(r))]] }
}

#[test]
fn deploy_scenario_satisfied() {
    // threshold 3 against cosigners "a,b,c,d": four names meet the quorum.
    let app = nft_app(digest_of("secret"));
    let tx = deploy_tx(&app, roster("a,b,c,d", 3));
    let r = app_contract(&app, &tx, &actions("deploy"), &Data::Text("secret".to_string()));
    assert_eq!(r, Ok(true));
}

#[test]
fn deploy_threshold_above_count_rejected() {
    // threshold 5 against the same four cosigners is rejected.
    let app = nft_app(digest_of("secret"));
    let tx = deploy_tx(&app, roster("a,b,c,d", 5));
    let r = app_contract(&app, &tx, &actions("deploy"), &Data::Text("secret".to_string()));
    assert_eq!(r, Ok(false));
}

#[test]
fn deploy_zero_threshold_rejected() {
    let app = nft_app(digest_of("secret"));
    let tx = deploy_tx(&app, roster("a,b,c,d", 0));
    let r = app_contract(&app, &tx, &actions("deploy"), &Data::Text("secret".to_string()));
    assert_eq!(r, Ok(false));
}

#[test]
fn deploy_counts_delimited_entries() {
    let app = nft_app(digest_of("secret"));
    // "a,b," splits into three entries, the trailing one empty.
    let tx = deploy_tx(&app, roster("a,b,", 3));
    let r = app_contract(&app, &tx, &actions("deploy"), &Data::Text("secret".to_string()));
    assert_eq!(r, Ok(true));
    let tx = deploy_tx(&app, roster("a,b", 3));
    let r = app_contract(&app, &tx, &actions("deploy"), &Data::Text("secret".to_string()));
    assert_eq!(r, Ok(false));
}

#[test]
fn deploy_binds_identity_to_preimage() {
    let app = nft_app(digest_of("secret"));
    let tx = deploy_tx(&app, roster("a,b,c,d", 3));
    // a flipped character in the witness flips acceptance
    let r = app_contract(&app, &tx, &actions("deploy"), &Data::Text("secrez".to_string()));
    assert_eq!(r, Ok(false));
}

#[test]
fn deploy_digest_is_not_the_preimage() {
    // an identity set to the witness bytes themselves, rather than to their
    // digest, must be rejected.
    let mut identity = "secret".as_bytes().to_vec();
    identity.resize(32, 0u8);
    let app = nft_app(identity);
    let tx = deploy_tx(&app, roster("a,b,c,d", 3));
    let r = app_contract(&app, &tx, &actions("deploy"), &Data::Text("secret".to_string()));
    assert_eq!(r, Ok(false));
}

#[test]
fn deploy_known_digest_vector() {
    // sha-256 of "abc", a published test vector
    let expected: [u8; 32] = [
        0xba, 0x78, 0x16, 0xbf, 0x8f, 0x01, 0xcf, 0xea, 0x41, 0x41, 0x40, 0xde, 0x5d, 0xae, 0x22,
        0x23, 0xb0, 0x03, 0x61, 0xa3, 0x96, 0x17, 0x7a, 0x9c, 0xb4, 0x10, 0xff, 0x61, 0xf2, 0x00,
        0x15, 0xad,
    ];
    let app = nft_app(expected.to_vec());
    let tx = deploy_tx(&app, roster("a,b,c", 2));
    let r = app_contract(&app, &tx, &actions("deploy"), &Data::Text("abc".to_string()));
    assert_eq!(r, Ok(true));
}

#[test]
fn deploy_needs_pure_genesis() {
    let app = nft_app(digest_of("secret"));
    let mut tx = deploy_tx(&app, roster("a,b,c,d", 3));
    tx.ins.push((outpoint(7, 0), vec![]));
    let w = Data::Text("secret".to_string());
    assert_eq!(app_contract(&app, &tx, &actions("deploy"), &w), Ok(false));
    let mut tx = deploy_tx(&app, roster("a,b,c,d", 3));
    tx.outs.push(vec![]);
    assert_eq!(app_contract(&app, &tx, &actions("deploy"), &w), Ok(false));
}

#[test]
fn deploy_without_text_witness_rejected() {
    let app = nft_app(digest_of("secret"));
    let tx = deploy_tx(&app, roster("a,b,c,d", 3));
    let r = app_contract(&app, &tx, &actions("deploy"), &Data::Bytes(b"secret".to_vec()));
    assert_eq!(r, Ok(false));
}

#[test]
fn deploy_without_roster_record_rejected() {
    let app = nft_app(digest_of("secret"));
    let tx = Transaction { ins: vec![], outs: vec![vec![(app.clone(), Data::Nat(3))]] };
    let r = app_contract(&app, &tx, &actions("deploy"), &Data::Text("secret".to_string()));
    assert_eq!(r, Ok(false));
    let tx = Transaction { ins: vec![], outs: vec![vec![]] };
    let r = app_contract(&app, &tx, &actions("deploy"), &Data::Text("secret".to_string()));
    assert_eq!(r, Ok(false));
}

fn update_tx(app: &App, prior: App, r: NftData) -> Transaction {
    Transaction {
        ins: vec![(outpoint(7, 0), vec![(prior, Data::Opaque)])],
        outs: vec![vec![(app.clone(), Data::Roster(r))]],
    }
}

#[test]
fn update_with_lineage_satisfied() {
    let app = nft_app(vec![5u8; 32]);
    let tx = update_tx(&app, app.clone(), roster("a,b,c,d", 3));
    let r = app_contract(&app, &tx, &actions("update"), &Data::Opaque);
    assert_eq!(r, Ok(true));
}

#[test]
fn update_without_lineage_is_fatal() {
    // the output roster is well-formed, but no input carries a prior
    // instance of the acting app
    let app = nft_app(vec![5u8; 32]);
    let stranger = nft_app(vec![6u8; 32]);
    let tx = update_tx(&app, stranger, roster("a,b,c,d", 3));
    let r = app_contract(&app, &tx, &actions("update"), &Data::Opaque);
    assert_eq!(r, Err(Violation::MissingLineage));
}

#[test]
fn update_threshold_rules_apply() {
    let app = nft_app(vec![5u8; 32]);
    let tx = update_tx(&app, app.clone(), roster("a,b,c,d", 5));
    assert_eq!(app_contract(&app, &tx, &actions("update"), &Data::Opaque), Ok(false));
    let tx = update_tx(&app, app.clone(), roster("a,b,c,d", 0));
    assert_eq!(app_contract(&app, &tx, &actions("update"), &Data::Opaque), Ok(false));
}

#[test]
fn update_needs_input_and_output() {
    let app = nft_app(vec![5u8; 32]);
    let tx = Transaction { ins: vec![], outs: vec![vec![(app.clone(), Data::Roster(roster("a,b", 1)))]] };
    assert_eq!(app_contract(&app, &tx, &actions("update"), &Data::Opaque), Ok(false));
    let tx = Transaction { ins: vec![(outpoint(7, 0), vec![(app.clone(), Data::Opaque)])], outs: vec![] };
    assert_eq!(app_contract(&app, &tx, &actions("update"), &Data::Opaque), Ok(false));
}

#[test]
fn update_without_roster_record_rejected() {
    let app = nft_app(vec![5u8; 32]);
    let tx = Transaction {
        ins: vec![(outpoint(7, 0), vec![(app.clone(), Data::Opaque)])],
        outs: vec![vec![(app.clone(), Data::Text("not a roster".to_string()))]],
    };
    assert_eq!(app_contract(&app, &tx, &actions("update"), &Data::Opaque), Ok(false));
}

#[test]
fn nft_unknown_action_is_fatal() {
    let app = nft_app(vec![5u8; 32]);
    let tx = Transaction { ins: vec![], outs: vec![] };
    let r = app_contract(&app, &tx, &actions("mint"), &Data::Opaque);
    assert_eq!(r, Err(Violation::UnrecognizedAction));
}

fn roster_set(keys: &[&str]) -> RosterNFT {
    RosterNFT {
        pubkeys: keys.iter().map(|k| k.to_string()).collect(),
        new_cosigners: None,
    }
}

#[test]
fn continuity_satisfied_with_prior_and_produced_roster_set() {
    let app = nft_app(vec![5u8; 32]);
    let tx = Transaction {
        ins: vec![(outpoint(7, 3), vec![(app.clone(), Data::RosterSet(roster_set(&["a", "b"])))])],
        outs: vec![vec![(app.clone(), Data::RosterSet(roster_set(&["a", "b", "c"])))]],
    };
    let r = nft_contract_satisfied(&app, &tx, &outpoint_witness(7, 3));
    assert_eq!(r, Ok(true));
}

#[test]
fn continuity_without_produced_roster_set_rejected() {
    let app = nft_app(vec![5u8; 32]);
    let tx = Transaction {
        ins: vec![(outpoint(7, 3), vec![(app.clone(), Data::RosterSet(roster_set(&["a"])))])],
        outs: vec![vec![(app.clone(), Data::Nat(1))]],
    };
    let r = nft_contract_satisfied(&app, &tx, &outpoint_witness(7, 3));
    assert_eq!(r, Ok(false));
}

#[test]
fn continuity_fatal_paths() {
    let app = nft_app(vec![5u8; 32]);
    let tx = Transaction {
        ins: vec![(outpoint(7, 3), vec![(app.clone(), Data::Nat(9))])],
        outs: vec![vec![(app.clone(), Data::RosterSet(roster_set(&["a"])))]],
    };
    assert_eq!(
        nft_contract_satisfied(&app, &tx, &outpoint_witness(7, 3)),
        Err(Violation::MissingInputState)
    );
    assert_eq!(
        nft_contract_satisfied(&app, &tx, &outpoint_witness(7, 4)),
        Err(Violation::MissingInput)
    );
    assert_eq!(
        nft_contract_satisfied(&app, &tx, &Data::Bytes(vec![0u8; 37])),
        Err(Violation::MalformedWitness)
    );
    assert_eq!(
        nft_contract_satisfied(&app, &tx, &Data::Text("x".to_string())),
        Err(Violation::MalformedWitness)
    );
}

#[test]
fn outpoint_witness_index_is_little_endian() {
    let mut b = vec![0u8; 32];
    b.extend_from_slice(&[0x01, 0x02, 0x00, 0x00]);
    let op = outpoint_from_bytes(&b).expect("36 bytes parse");
    assert_eq!(op.index, 0x0201);
    assert_eq!(op.txid, vec![0u8; 32]);
    assert!(outpoint_from_bytes(&vec![0u8; 35]).is_none());
    assert!(outpoint_from_bytes(&vec![0u8; 37]).is_none());
}
