//! Block, blockchain and consensus-value behaviour on concrete chains.
use saito_core::block::{Block, DataToValidate};
use saito_core::blockchain::Blockchain;
use saito_core::crypto::generate_publickey;
use saito_core::slip::{Slip, SlipType};
use saito_core::transaction::{Transaction, TransactionType};

fn test_keys() -> ([u8; 33], [u8; 32]) {
    let privatekey = [1u8; 32];
    let publickey = generate_publickey(&privatekey).expect("valid secret key");
    (publickey, privatekey)
}

#[test]
fn block_new_test() {
    let block = Block::new();
    assert_eq!(block.id, 0);
    assert_eq!(block.timestamp, 0);
    assert_eq!(block.previous_block_hash, [0; 32]);
    assert_eq!(block.creator, [0; 33]);
    assert_eq!(block.merkle_root, [0; 32]);
    assert_eq!(block.signature, [0; 64]);
    assert_eq!(block.treasury, 0);
    assert_eq!(block.burnfee, 0);
    assert_eq!(block.difficulty, 0);
    assert_eq!(block.transactions, Vec::<Transaction>::new());
    assert_eq!(block.hash, [0; 32]);
    assert_eq!(block.total_fees, 0);
    assert_eq!(block.lc, false);
    assert_eq!(block.has_golden_ticket, false);
    assert_eq!(block.has_fee_transaction, false);
}

#[test]
fn block_sign_test() {
    let (publickey, privatekey) = test_keys();
    let mut block = Block::new();
    assert!(block.sign(publickey, privatekey));
    assert_eq!(block.creator, publickey);
    assert_ne!(block.get_hash(), [0; 32]);
    assert_ne!(block.get_signature(), [0; 64]);
    // the signature verifies under the signer's public key
    assert!(saito_core::crypto::verify(
        &block.get_hash(),
        &block.get_signature(),
        &publickey
    ));
    // an invalid secret key signs nothing
    let mut unsigned = Block::new();
    assert!(!unsigned.sign(publickey, [0u8; 32]));
    assert_eq!(unsigned.get_signature(), [0; 64]);
}

#[test]
fn block_generate_hash() {
    let block = Block::new();
    let hash = block.generate_hash();
    assert_ne!(hash, [0; 32]);
}

#[test]
fn block_serialize_for_signature_hash() {
    let block = Block::new();
    let serialized_body = block.serialize_for_signature();
    assert_eq!(serialized_body.len(), 137);
}

#[test]
fn block_serialize_for_net_test() {
    let timestamp: u64 = 1_700_000_000_000;
    let mock_input = Slip::new();
    let mock_output = Slip::new();
    let mut mock_tx = Transaction::new();
    mock_tx.set_timestamp(timestamp);
    mock_tx.add_input(mock_input);
    mock_tx.add_output(mock_output);
    mock_tx.set_message(vec![104, 101, 108, 111]);
    mock_tx.set_transaction_type(TransactionType::Normal);
    mock_tx.set_signature([1; 64]);

    let mut mock_tx2 = Transaction::new();
    mock_tx2.set_timestamp(timestamp);
    mock_tx2.add_input(mock_input);
    mock_tx2.add_output(mock_output);
    mock_tx2.set_message(vec![]);
    mock_tx2.set_transaction_type(TransactionType::Normal);
    mock_tx2.set_signature([2; 64]);

    let mut block = Block::new();
    block.set_id(1);
    block.set_timestamp(timestamp);
    block.set_previous_block_hash([1; 32]);
    block.set_creator([2; 33]);
    block.set_merkle_root([3; 32]);
    block.set_signature([4; 64]);
    block.set_treasury(1);
    block.set_burnfee(2);
    block.set_difficulty(3);
    block.set_transactions(&mut vec![mock_tx, mock_tx2]);

    let serialized_block = block.serialize_for_net();
    let deserialized_block = Block::deserialize_for_net(serialized_block).expect("well-formed");
    assert_eq!(block.transactions, deserialized_block.transactions);
    assert_eq!(deserialized_block.get_id(), 1);
    assert_eq!(deserialized_block.get_timestamp(), timestamp);
    assert_eq!(deserialized_block.get_previous_block_hash(), [1; 32]);
    assert_eq!(deserialized_block.get_creator(), [2; 33]);
    assert_eq!(deserialized_block.get_merkle_root(), [3; 32]);
    assert_eq!(deserialized_block.get_signature(), [4; 64]);
    assert_eq!(deserialized_block.get_treasury(), 1);
    assert_eq!(deserialized_block.get_burnfee(), 2);
    assert_eq!(deserialized_block.get_difficulty(), 3);
}

#[test]
fn block_merkle_root_test() {
    let (_publickey, privatekey) = test_keys();
    let mut block = Block::new();
    let mut transactions: Vec<Transaction> = Vec::new();
    let mut i = 0;
    while i < 5 {
        let mut transaction = Transaction::new();
        transaction.set_timestamp(i);
        assert!(transaction.sign(privatekey));
        transactions.push(transaction);
        i += 1;
    }
    block.set_transactions(&mut transactions);
    assert!(block.generate_merkle_root().len() == 32);
}

#[test]
fn block_generate_data_to_validate() {
    let blockchain = Blockchain::new();
    let block = Block::new();
    let cv: DataToValidate = block.generate_data_to_validate(&blockchain);
    assert_eq!(cv.expected_difficulty, 0);
    assert_eq!(cv.total_rebroadcast_slips, 0);
}

#[test]
fn block_pre_validateion_calculations() {}

#[test]
fn block_onchain_reorganization_test() {}

#[test]
fn block_validation() {}

#[test]
fn test_new() {
    let blockchain = Blockchain::new();
    assert!(blockchain.blocks.is_empty());
    assert!(!blockchain.lc_pos_set);
}

#[test]
fn test_get_block_by_id() {
    let mut blockchain = Blockchain::new();
    let mut block = Block::new();
    block.set_id(1);
    block.set_hash([7; 32]);
    assert!(blockchain.add_block(block));
    let found = blockchain.get_longest_chain_block_by_id(1).expect("indexed");
    assert_eq!(found.get_hash(), [7; 32]);
    assert!(blockchain.get_longest_chain_block_by_id(9).is_none());
}

#[test]
fn test_get_block_by_hash() {
    let mut blockchain = Blockchain::new();
    let mut block = Block::new();
    block.set_id(1);
    block.set_hash([7; 32]);
    assert!(blockchain.add_block(block));
    let found = blockchain.get_block_by_hash(&[7; 32]).expect("indexed");
    assert_eq!(found.get_id(), 1);
    assert!(blockchain.get_block_by_hash(&[8; 32]).is_none());
}

#[test]
fn test_add_block() {
    let mut blockchain = Blockchain::new();
    let mut block = Block::new();
    block.set_id(1);
    block.set_hash([7; 32]);
    assert!(blockchain.add_block(block.clone()));
    // a duplicate hash is ignored
    assert!(!blockchain.add_block(block));
    assert_eq!(blockchain.blocks.len(), 1);
    assert!(blockchain.blocks[0].get_lc());
}

#[test]
fn test_get_block_parent() {
    let mut blockchain = Blockchain::new();
    let mut parent = Block::new();
    parent.set_id(1);
    parent.set_hash([7; 32]);
    assert!(blockchain.add_block(parent));
    let mut child = Block::new();
    child.set_id(2);
    child.set_hash([8; 32]);
    child.set_previous_block_hash([7; 32]);
    assert!(blockchain.add_block(child.clone()));
    let found = blockchain.get_block_parent(&child).expect("parent indexed");
    assert_eq!(found.get_hash(), [7; 32]);
}

#[test]
fn genesis_block_with_vip_grants_validates() {
    let (publickey, privatekey) = test_keys();
    let mut blockchain = Blockchain::new();
    let mut transactions: Vec<Transaction> = Vec::new();
    let mut block = Block::generate_with_timestamp(
        &mut transactions,
        [0; 32],
        &publickey,
        &privatekey,
        &blockchain,
        1_700_000_000_000,
    );
    assert!(block.generate_metadata());
    assert_eq!(block.transactions.len(), 10);
    for tx in &block.transactions {
        assert_eq!(tx.get_transaction_type(), TransactionType::VIP);
        assert_eq!(tx.get_outputs()[0].get_amount(), 100000);
    }
    let utxoset_copy = saito_core::utxoset::UtxoSet::new();
    assert!(block.validate(&blockchain, &utxoset_copy));
    assert!(blockchain.add_block(block));
    // ten VIP outputs become spendable on adoption
    assert_eq!(blockchain.utxoset.len(), 10);
}

#[test]
fn golden_ticket_streak_raises_difficulty() {
    let mut blockchain = Blockchain::new();
    let mut parent = Block::new();
    parent.set_id(1);
    parent.set_hash([7; 32]);
    parent.set_difficulty(3);
    parent.set_has_golden_ticket(true);
    assert!(blockchain.add_block(parent));

    let mut block = Block::new();
    block.set_id(2);
    block.set_hash([8; 32]);
    block.set_previous_block_hash([7; 32]);
    block.set_has_golden_ticket(true);
    let mut grant = Transaction::new();
    grant.set_transaction_type(TransactionType::VIP);
    block.add_transaction(grant);
    let root = block.generate_merkle_root();
    block.set_merkle_root(root);
    let cv = block.generate_data_to_validate(&blockchain);
    assert_eq!(cv.expected_difficulty, 4);

    // the validator accepts exactly that difficulty
    block.set_difficulty(4);
    let utxoset_copy = saito_core::utxoset::UtxoSet::new();
    assert!(block.validate(&blockchain, &utxoset_copy));
    block.set_difficulty(5);
    assert!(!block.validate(&blockchain, &utxoset_copy));
}

#[test]
fn no_golden_ticket_streak_lowers_difficulty() {
    let mut blockchain = Blockchain::new();
    let mut parent = Block::new();
    parent.set_id(1);
    parent.set_hash([7; 32]);
    parent.set_difficulty(5);
    assert!(blockchain.add_block(parent));

    let mut block = Block::new();
    block.set_id(2);
    block.set_previous_block_hash([7; 32]);
    let mut grant = Transaction::new();
    grant.set_transaction_type(TransactionType::VIP);
    block.add_transaction(grant);
    let root = block.generate_merkle_root();
    block.set_merkle_root(root);
    let cv = block.generate_data_to_validate(&blockchain);
    assert_eq!(cv.expected_difficulty, 4);

    block.set_difficulty(4);
    let utxoset_copy = saito_core::utxoset::UtxoSet::new();
    assert!(block.validate(&blockchain, &utxoset_copy));
    block.set_difficulty(5);
    assert!(!block.validate(&blockchain, &utxoset_copy));

    // a stored merkle root that differs from the recomputed one is rejected
    block.set_difficulty(4);
    block.set_merkle_root([9; 32]);
    assert!(!block.validate(&blockchain, &utxoset_copy));
    // and so is the zero root
    let mut empty_block = Block::new();
    empty_block.set_id(2);
    empty_block.set_previous_block_hash([7; 32]);
    empty_block.set_difficulty(4);
    assert!(!empty_block.validate(&blockchain, &utxoset_copy));

    // difficulty zero is a floor
    let mut blockchain2 = Blockchain::new();
    let mut parent2 = Block::new();
    parent2.set_id(1);
    parent2.set_hash([9; 32]);
    parent2.set_difficulty(0);
    assert!(blockchain2.add_block(parent2));
    let mut block2 = Block::new();
    block2.set_id(2);
    block2.set_previous_block_hash([9; 32]);
    let cv2 = block2.generate_data_to_validate(&blockchain2);
    assert_eq!(cv2.expected_difficulty, 0);
}

#[test]
fn rebroadcast_dust_is_collected_as_fees() {
    let mut blockchain = Blockchain::new();
    // the block leaving the epoch holds one output at the fee boundary and
    // one just below it
    let mut out1 = Slip::new();
    out1.set_publickey([5; 33]);
    out1.set_amount(200_000_000);
    out1.set_slip_ordinal(0);
    let mut out2 = Slip::new();
    out2.set_publickey([5; 33]);
    out2.set_amount(199_999_999);
    out2.set_slip_ordinal(1);
    let mut tx = Transaction::new();
    tx.add_output(out1);
    tx.add_output(out2);
    let mut b1 = Block::new();
    b1.set_id(1);
    b1.set_hash([1; 32]);
    b1.add_transaction(tx);
    assert!(blockchain.add_block(b1));
    let mut b2 = Block::new();
    b2.set_id(2);
    b2.set_hash([2; 32]);
    b2.set_previous_block_hash([1; 32]);
    assert!(blockchain.add_block(b2));

    let mut b3 = Block::new();
    b3.set_id(3);
    b3.set_previous_block_hash([2; 32]);
    let cv = b3.generate_data_to_validate(&blockchain);
    // both outputs are dust: no rebroadcast, both values collected as fees
    assert_eq!(cv.rebroadcasts.len(), 0);
    assert_eq!(cv.total_rebroadcast_slips, 0);
    assert_eq!(cv.total_rebroadcast_nolan, 0);
    assert_eq!(cv.total_rebroadcast_fees_nolan, 200_000_000 + 199_999_999);
}

#[test]
fn rebroadcast_above_fee_is_reissued() {
    let mut blockchain = Blockchain::new();
    let mut out1 = Slip::new();
    out1.set_publickey([5; 33]);
    out1.set_amount(500_000_000);
    let mut tx = Transaction::new();
    tx.add_output(out1);
    let mut b1 = Block::new();
    b1.set_id(1);
    b1.set_hash([1; 32]);
    b1.add_transaction(tx);
    assert!(blockchain.add_block(b1));
    let mut b2 = Block::new();
    b2.set_id(2);
    b2.set_hash([2; 32]);
    b2.set_previous_block_hash([1; 32]);
    assert!(blockchain.add_block(b2));

    let mut b3 = Block::new();
    b3.set_id(3);
    b3.set_previous_block_hash([2; 32]);
    let cv = b3.generate_data_to_validate(&blockchain);
    assert_eq!(cv.rebroadcasts.len(), 1);
    assert_eq!(cv.total_rebroadcast_slips, 1);
    assert_eq!(cv.total_rebroadcast_nolan, 500_000_000);
    assert_eq!(cv.total_rebroadcast_fees_nolan, 200_000_000);
    let rtx = &cv.rebroadcasts[0];
    assert_eq!(rtx.get_transaction_type(), TransactionType::ATR);
    assert_eq!(rtx.get_outputs()[0].get_amount(), 300_000_000);
    assert_eq!(rtx.get_outputs()[0].get_slip_type(), SlipType::ATR);
    assert_eq!(rtx.get_outputs()[0].get_publickey(), [5; 33]);
    assert_ne!(cv.rebroadcast_hash, [0; 32]);
}

#[test]
fn fee_transaction_splits_fees_between_miner_and_router() {
    let blockchain = Blockchain::new();
    // one fee-paying transaction with a two-hop path, plus a golden ticket
    let mut input = Slip::new();
    input.set_publickey([10; 33]);
    input.set_amount(1_000_000);
    let mut tx = Transaction::new();
    tx.add_input(input);
    let mut hop1 = saito_core::hop::Hop::new();
    hop1.from = [10; 33];
    hop1.to = [11; 33];
    let mut hop2 = saito_core::hop::Hop::new();
    hop2.from = [11; 33];
    hop2.to = [12; 33];
    tx.add_hop_to_path(hop1);
    tx.add_hop_to_path(hop2);

    let gt = saito_core::golden_ticket::GoldenTicket::new([6; 32], [13; 33], [0; 32]);
    let mut gt_tx = Transaction::new();
    gt_tx.set_transaction_type(TransactionType::GoldenTicket);
    gt_tx.set_message(gt.serialize_for_transaction());

    let mut block = Block::new();
    block.set_id(1);
    block.add_transaction(tx);
    block.add_transaction(gt_tx);
    assert!(block.generate_metadata());
    assert_eq!(block.total_fees, 1_000_000);

    let cv = block.generate_data_to_validate(&blockchain);
    let ft = cv.fee_transaction.expect("fees and a ticket release a payout");
    assert_eq!(ft.get_transaction_type(), TransactionType::Fee);
    assert_eq!(ft.get_outputs()[0].get_publickey(), [13; 33]);
    assert_eq!(ft.get_outputs()[0].get_amount(), 500_000);
    assert_eq!(ft.get_outputs()[0].get_slip_type(), SlipType::MinerOutput);
    assert_eq!(ft.get_outputs()[1].get_amount(), 500_000);
    assert_eq!(ft.get_outputs()[1].get_slip_type(), SlipType::RouterOutput);
    // miner and router payouts cover the whole released total
    assert_eq!(
        ft.get_outputs()[0].get_amount() + ft.get_outputs()[1].get_amount(),
        1_000_000
    );
}

#[test]
fn router_lottery_band_selects_middle_hop() {
    // fee 1 000 000 over the path A -> B -> C: the bands are
    // [0, 1e6) for the originator, [1e6, 1.5e6) for B, [1.5e6, 1.75e6) for C
    let mut input = Slip::new();
    input.set_publickey([10; 33]);
    input.set_amount(1_000_000);
    let mut tx = Transaction::new();
    tx.add_input(input);
    let mut hop1 = saito_core::hop::Hop::new();
    hop1.from = [10; 33];
    hop1.to = [11; 33];
    let mut hop2 = saito_core::hop::Hop::new();
    hop2.from = [11; 33];
    hop2.to = [12; 33];
    tx.add_hop_to_path(hop1);
    tx.add_hop_to_path(hop2);

    let mut random = [0u8; 32];
    // big-endian 1 200 000: inside the middle band
    random[29] = 0x12;
    random[30] = 0x4F;
    random[31] = 0x80;
    assert_eq!(tx.get_winning_routing_node(random), [11; 33]);

    let mut random_low = [0u8; 32];
    random_low[31] = 1;
    assert_eq!(tx.get_winning_routing_node(random_low), [10; 33]);

    let mut random_high = [0u8; 32];
    // big-endian 1 600 000: inside the last band
    random_high[29] = 0x18;
    random_high[30] = 0x6A;
    random_high[31] = 0x00;
    assert_eq!(tx.get_winning_routing_node(random_high), [12; 33]);
}

#[test]
fn spent_output_is_no_longer_spendable() {
    let mut utxoset = saito_core::utxoset::UtxoSet::new();
    let mut out = Slip::new();
    out.set_publickey([3; 33]);
    out.set_amount(500_000_000);
    let mut create_tx = Transaction::new();
    create_tx.add_output(out);
    create_tx.on_chain_reorganization(&mut utxoset, true, 1);
    assert!(out.validate(&utxoset));

    // a rebroadcast spends the output: it stops being spendable
    let atr = Transaction::generate_rebroadcast_transaction(&create_tx, &out, 200_000_000);
    atr.on_chain_reorganization(&mut utxoset, true, 3);
    assert!(!out.validate(&utxoset));
    // the replacement output is spendable instead
    assert!(atr.get_outputs()[0].validate(&utxoset));
}
