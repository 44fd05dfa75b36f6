//! The leaf components: byte formats, crypto, burn fee, merkle, golden
//! tickets, staking and the mempool.
use saito_core::bignum::u256_rem_u64;
use saito_core::block::Block;
use saito_core::burnfee::BurnFee;
use saito_core::crypto::{generate_publickey, hash, sign, verify};
use saito_core::golden_ticket::{count_leading_zero_bits, GoldenTicket};
use saito_core::mempool::Mempool;
use saito_core::slip::{slip_type_from_u8, Slip, SlipType};
use saito_core::staking::Staking;
use saito_core::transaction::{Transaction, TransactionType};

#[test]
fn staking_table_test() {
    let mut staking = Staking::new();

    let mut slip1 = Slip::new();
    slip1.set_amount(200_000_000);
    slip1.set_slip_type(SlipType::StakerDeposit);

    let mut slip2 = Slip::new();
    slip2.set_amount(300_000_000);
    slip2.set_slip_type(SlipType::StakerDeposit);

    let mut slip3 = Slip::new();
    slip3.set_amount(400_000_000);
    slip3.set_slip_type(SlipType::StakerDeposit);

    let mut slip4 = Slip::new();
    slip4.set_amount(500_000_000);
    slip4.set_slip_type(SlipType::StakerDeposit);

    let mut slip5 = Slip::new();
    slip5.set_amount(600_000_000);
    slip5.set_slip_type(SlipType::StakerDeposit);

    staking.add_deposit(slip1);
    staking.add_deposit(slip2);
    staking.add_deposit(slip3);
    staking.add_deposit(slip4);
    staking.add_deposit(slip5);

    staking.reset_staker_table(1_000_000_000);

    assert_eq!(staking.stakers[0].get_amount(), 210000000);
    assert_eq!(staking.stakers[1].get_amount(), 315000000);
    assert_eq!(staking.stakers[2].get_amount(), 420000000);
    assert_eq!(staking.stakers[3].get_amount(), 525000000);
    assert_eq!(staking.stakers[4].get_amount(), 630000000);
}

#[test]
fn staking_reset_pays_one_epoch_share_of_the_treasury() {
    let mut staking = Staking::new();
    let amounts: [u64; 5] = [200_000_000, 300_000_000, 400_000_000, 500_000_000, 600_000_000];
    let mut before: u64 = 0;
    for a in amounts.iter() {
        let mut s = Slip::new();
        s.set_amount(*a);
        s.set_slip_type(SlipType::StakerDeposit);
        staking.add_deposit(s);
        before += *a;
    }
    staking.reset_staker_table(1_000_000_000);
    let mut after: u64 = 0;
    for s in &staking.stakers {
        after += s.get_amount();
        assert_eq!(s.get_slip_type(), SlipType::StakerOutput);
    }
    // the pool grows by treasury / GENESIS_PERIOD
    assert_eq!(after - before, 1_000_000_000 / 10);
}

#[test]
fn staker_lottery_is_deterministic() {
    let mut staking = Staking::new();
    let mut s1 = Slip::new();
    s1.set_amount(1);
    let mut s2 = Slip::new();
    s2.set_amount(2);
    let mut s3 = Slip::new();
    s3.set_amount(3);
    staking.add_staker(s1);
    staking.add_staker(s2);
    staking.add_staker(s3);
    let mut random = [0u8; 32];
    random[31] = 4;
    // 4 mod 3 picks position 1
    let winner = staking.find_winning_staker(random).expect("pool not empty");
    assert_eq!(winner.get_amount(), 2);
    // insertion position is 4 mod (3 + 1) = 0
    let mut s4 = Slip::new();
    s4.set_amount(9);
    staking.add_staker_with_number(s4, random);
    assert_eq!(staking.stakers[0].get_amount(), 9);
}

#[test]
fn staking_remove_finds_first_key() {
    let mut staking = Staking::new();
    let mut s1 = Slip::new();
    s1.set_amount(7);
    staking.add_pending(s1);
    assert!(staking.remove_pending(s1));
    assert!(!staking.remove_pending(s1));
    assert_eq!(staking.pending.len(), 0);
}

#[test]
fn sha256_of_empty_input_is_the_known_digest() {
    let digest = hash(&Vec::new());
    let expected: [u8; 32] = [
        0xe3, 0xb0, 0xc4, 0x42, 0x98, 0xfc, 0x1c, 0x14, 0x9a, 0xfb, 0xf4, 0xc8, 0x99, 0x6f,
        0xb9, 0x24, 0x27, 0xae, 0x41, 0xe4, 0x64, 0x9b, 0x93, 0x4c, 0xa4, 0x95, 0x99, 0x1b,
        0x78, 0x52, 0xb8, 0x55,
    ];
    assert_eq!(digest, expected);
}

#[test]
fn signatures_round_trip_under_the_right_key() {
    let privatekey = [1u8; 32];
    let publickey = generate_publickey(&privatekey).expect("valid secret key");
    let msg = hash(&vec![1, 2, 3]);
    let sig = sign(&msg, &privatekey).expect("valid secret key");
    assert!(verify(&msg, &sig, &publickey));
    let other = generate_publickey(&[2u8; 32]).expect("valid secret key");
    assert!(!verify(&msg, &sig, &other));
    assert!(sign(&msg, &[0u8; 32]).is_none());
}

#[test]
fn big_endian_remainder_is_exact() {
    let mut bytes = [0u8; 32];
    bytes[31] = 7;
    assert_eq!(u256_rem_u64(&bytes, 5), 2);
    bytes[30] = 1;
    // 256 + 7 = 263; 263 mod 10 = 3
    assert_eq!(u256_rem_u64(&bytes, 10), 3);
}

#[test]
fn burnfee_holds_at_the_heartbeat_and_scales_with_speed() {
    // a block at exactly the target interval keeps the burn fee
    assert_eq!(
        BurnFee::return_burnfee_for_block_produced_at_current_timestamp_in_nolan(
            100_000_000,
            12_000,
            10_000
        ),
        100_000_000
    );
    // a block after a quarter interval doubles it: sqrt(2000 * 500) = 1000
    assert_eq!(
        BurnFee::return_burnfee_for_block_produced_at_current_timestamp_in_nolan(
            100_000_000,
            10_500,
            10_000
        ),
        200_000_000
    );
    // routing work needed grows linearly with the elapsed time
    assert_eq!(
        BurnFee::return_routing_work_needed_to_produce_block_in_nolan(100_000_000, 14_000, 10_000),
        200_000_000
    );
    assert_eq!(
        BurnFee::return_routing_work_needed_to_produce_block_in_nolan(100_000_000, 11_000, 10_000),
        50_000_000
    );
}

#[test]
fn golden_ticket_round_trip_and_solution_bits() {
    let gt = GoldenTicket::new([1; 32], [2; 33], [3; 32]);
    let bytes = gt.serialize_for_transaction();
    assert_eq!(bytes.len(), 97);
    let back = GoldenTicket::deserialize_for_transaction(&bytes).expect("exact length");
    assert_eq!(back.get_random(), [1; 32]);
    assert_eq!(back.get_publickey(), [2; 33]);
    assert_eq!(back.get_target(), [3; 32]);
    assert!(GoldenTicket::deserialize_for_transaction(&vec![0; 96]).is_none());

    let mut solution = [0u8; 32];
    solution[2] = 0b0001_0000;
    assert_eq!(count_leading_zero_bits(&solution), 19);
    assert!(GoldenTicket::is_valid_solution([0; 32], solution, 19));
    assert!(!GoldenTicket::is_valid_solution([0; 32], solution, 20));
}

#[test]
fn slip_serialization_round_trips() {
    let mut slip = Slip::new();
    slip.set_publickey([9; 33]);
    slip.set_uuid([8; 32]);
    slip.set_amount(123_456);
    slip.set_slip_ordinal(4);
    slip.set_slip_type(SlipType::RouterOutput);
    let bytes = slip.serialize_for_net();
    assert_eq!(bytes.len(), 75);
    let back = Slip::deserialize_from_net_at(&bytes, 0).expect("valid type byte");
    assert_eq!(back, slip);
    assert!(slip_type_from_u8(9).is_none());
}

#[test]
fn transaction_serialization_round_trips() {
    let mut tx = Transaction::new();
    tx.set_timestamp(77);
    let mut input = Slip::new();
    input.set_amount(5);
    tx.add_input(input);
    let mut output = Slip::new();
    output.set_amount(3);
    tx.add_output(output);
    tx.set_message(vec![1, 2, 3, 4, 5]);
    tx.set_transaction_type(TransactionType::StakerDeposit);
    tx.set_signature([6; 64]);
    let mut hop = saito_core::hop::Hop::new();
    hop.from = [1; 33];
    hop.to = [2; 33];
    tx.add_hop_to_path(hop);

    let bytes = tx.serialize_for_net();
    assert_eq!(bytes.len(), 89 + 75 * 2 + 5 + 130);
    let back = Transaction::deserialize_from_net(bytes).expect("well-formed");
    assert_eq!(back.timestamp, tx.timestamp);
    assert_eq!(back.inputs, tx.inputs);
    assert_eq!(back.outputs, tx.outputs);
    assert_eq!(back.message, tx.message);
    assert_eq!(back.transaction_type, tx.transaction_type);
    assert_eq!(back.signature, tx.signature);
    assert_eq!(back.path, tx.path);
    // truncated bytes are rejected
    assert!(Transaction::deserialize_from_net(vec![0; 88]).is_none());
    assert!(Block::deserialize_for_net(vec![0; 100]).is_none());
}

#[test]
fn transaction_fees_and_routing_work() {
    let mut tx = Transaction::new();
    let mut input = Slip::new();
    input.set_publickey([1; 33]);
    input.set_amount(1_000);
    tx.add_input(input);
    let mut output = Slip::new();
    output.set_amount(250);
    tx.add_output(output);
    assert_eq!(tx.calculate_total_fees(), 750);
    // the originator is credited the whole fee, a first hop half of it
    assert_eq!(tx.get_routing_work_for_publickey(&[1; 33]), 750);
    assert_eq!(tx.get_routing_work_for_publickey(&[2; 33]), 0);
    let mut hop = saito_core::hop::Hop::new();
    hop.from = [1; 33];
    hop.to = [2; 33];
    tx.add_hop_to_path(hop);
    assert_eq!(tx.get_routing_work_for_publickey(&[2; 33]), 375);

    // a fee transaction pays no fee by definition
    tx.set_transaction_type(TransactionType::Fee);
    assert_eq!(tx.calculate_total_fees(), 0);
}

#[test]
fn merkle_root_of_single_leaf_pads_with_zeros() {
    let mut tx = Transaction::new();
    tx.set_timestamp(5);
    let leaf = hash(&tx.serialize_for_signature());
    let mut block = Block::new();
    block.add_transaction(tx);
    let root = block.generate_merkle_root();
    let mut buf = Vec::new();
    buf.extend_from_slice(&leaf);
    buf.extend_from_slice(&[0u8; 32]);
    assert_eq!(root, hash(&buf));
    // the empty block has the zero root
    assert_eq!(Block::new().generate_merkle_root(), [0; 32]);
}

#[test]
fn mempool_new_test() {
    assert_eq!(true, true);
}

#[test]
fn mempool_can_bundle_block_test() {
    assert_eq!(true, true);
}

#[test]
fn mempool_bundle_block_test() {
    assert_eq!(true, true);
}

#[test]
fn mempool_queues_and_hands_out_blocks() {
    let mut mempool = Mempool::new();
    let mut block = Block::new();
    block.set_hash([4; 32]);
    assert!(mempool.add_block(block.clone()));
    assert!(!mempool.add_block(block));
    assert!(mempool.get_block([5; 32]).is_none());
    let out = mempool.get_block([4; 32]).expect("queued");
    assert_eq!(out.get_hash(), [4; 32]);
    assert_eq!(mempool.blocks.len(), 0);
    assert!(mempool.can_bundle_block(100_000_000, 10_000, 14_000, 200_000_000));
    assert!(!mempool.can_bundle_block(100_000_000, 10_000, 14_000, 199_999_999));
    let h = mempool.bundle_block(0, [0; 32], 1_700_000_000_000);
    assert_eq!(mempool.blocks.len(), 1);
    assert_eq!(mempool.blocks[0].get_hash(), h);
}

#[test]
fn validate_rejects_unknown_and_spent_inputs() {
    let mut utxoset = saito_core::utxoset::UtxoSet::new();
    let privatekey = [1u8; 32];
    let publickey = generate_publickey(&privatekey).expect("valid secret key");
    let mut input = Slip::new();
    input.set_publickey(publickey);
    input.set_amount(10);
    let mut tx = Transaction::new();
    tx.add_input(input);
    assert!(tx.sign(privatekey));
    // unknown input
    assert!(!tx.validate(&utxoset));
    // spendable input
    input.on_chain_reorganization(&mut utxoset, true, 1);
    assert!(tx.validate(&utxoset));
    // spent input
    input.on_chain_reorganization(&mut utxoset, false, 1);
    assert!(!tx.validate(&utxoset));
    // a bad signature is rejected even with a spendable input
    input.on_chain_reorganization(&mut utxoset, true, 1);
    tx.set_signature([9; 64]);
    assert!(!tx.validate(&utxoset));
}
