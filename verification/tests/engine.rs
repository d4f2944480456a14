//! End-to-end tests of the analysis engine on synthetic blocks.

use blockstats::model::{Block, InputData, OutputData, PrevoutKind, TxData};
use blockstats::stats::{Stats, StatsError};

/// A minimal legacy coinbase transaction: null prevout, 4-byte script
/// sig, one P2PKH output.
fn coinbase_raw() -> Vec<u8> {
    let mut raw = vec![1, 0, 0, 0]; // version 1
    raw.push(1); // one input
    raw.extend(vec![0u8; 32]); // null prev txid
    raw.extend(vec![0xff, 0xff, 0xff, 0xff]); // prev vout
    raw.push(4); // script sig length
    raw.extend(vec![0x03, 0x51, 0x52, 0x53]);
    raw.extend(vec![0xff, 0xff, 0xff, 0xff]); // sequence
    raw.push(1); // one output
    raw.extend(50_0000_0000u64.to_le_bytes());
    raw.push(25);
    raw.extend(p2pkh_script());
    raw.extend(vec![0, 0, 0, 0]); // lock time
    raw
}

/// A minimal spend with an empty script sig (which classifies as a
/// pay-to-anchor spend) and P2PKH outputs.
fn spend_raw(outputs: usize) -> Vec<u8> {
    let mut raw = vec![2, 0, 0, 0]; // version 2
    raw.push(1); // one input
    raw.extend(vec![0x11u8; 32]); // some prev txid
    raw.extend(vec![0, 0, 0, 0]); // prev vout
    raw.push(0); // empty script sig
    raw.extend(vec![0xfd, 0xff, 0xff, 0xff]); // sequence (RBF, locktime enabled)
    raw.push(outputs as u8);
    for _ in 0..outputs {
        raw.extend(1000u64.to_le_bytes());
        raw.push(25);
        raw.extend(p2pkh_script());
    }
    raw.extend(vec![0, 0, 0, 0]); // lock time
    raw
}

fn p2pkh_script() -> Vec<u8> {
    let mut s = vec![0x76, 0xa9, 0x14];
    s.extend(vec![0xabu8; 20]);
    s.extend(vec![0x88, 0xac]);
    s
}

/// A minimal DER-encoded ECDSA signature (r = 1, s = 1) with a
/// SIGHASH_ALL byte, 9 bytes in all.
fn der_sig_bytes() -> Vec<u8> {
    vec![0x30, 0x06, 0x02, 0x01, 0x01, 0x02, 0x01, 0x01, 0x01]
}

/// A spend whose script sig pushes one ECDSA signature: a pay-to-pubkey
/// spend.  With `pushdata` the push is written non-minimally through
/// OP_PUSHDATA1, which still classifies as pay-to-pubkey.
fn p2pk_spend_raw(pushdata: bool) -> Vec<u8> {
    let mut raw = vec![1, 0, 0, 0]; // version 1
    raw.push(1); // one input
    raw.extend(vec![0x22u8; 32]); // some prev txid
    raw.extend(vec![0, 0, 0, 0]); // prev vout
    let sig = der_sig_bytes();
    if pushdata {
        raw.push((sig.len() + 2) as u8); // script sig length
        raw.push(0x4c); // OP_PUSHDATA1
        raw.push(sig.len() as u8);
    } else {
        raw.push((sig.len() + 1) as u8); // script sig length
        raw.push(sig.len() as u8); // minimal push
    }
    raw.extend(sig);
    raw.extend(vec![0xff, 0xff, 0xff, 0xff]); // sequence
    raw.push(1); // one output
    raw.extend(1000u64.to_le_bytes());
    raw.push(25);
    raw.extend(p2pkh_script());
    raw.extend(vec![0, 0, 0, 0]); // lock time
    raw
}

fn coinbase_tx() -> TxData {
    TxData {
        raw: coinbase_raw(),
        txid: vec![0xc0; 32],
        version: 1,
        lock_time: 0,
        fee: None,
        vsize: 100,
        size: 100,
        inputs: vec![InputData {
            coinbase: true,
            prev_txid: vec![0; 32],
            prev_vout: 0xffff_ffff,
            prevout_value: 0,
            prevout_kind: PrevoutKind::Other,
            prevout_height: 0,
        }],
        outputs: vec![OutputData { value: 50_0000_0000, script: p2pkh_script() }],
    }
}

fn spend_tx(txid_byte: u8, prev: Vec<u8>, fee: u64, vsize: u64) -> TxData {
    TxData {
        raw: spend_raw(1),
        txid: vec![txid_byte; 32],
        version: 2,
        lock_time: 0,
        fee: Some(fee),
        vsize,
        size: vsize,
        inputs: vec![InputData {
            coinbase: false,
            prev_txid: prev,
            prev_vout: 0,
            prevout_value: 2000,
            prevout_kind: PrevoutKind::Other,
            prevout_height: 90,
        }],
        outputs: vec![OutputData { value: 1000, script: p2pkh_script() }],
    }
}

fn small_block() -> Block {
    Block {
        height: 100,
        time: 1231006505,
        version: 1,
        nonce: 7,
        bits: b"1d00ffff".to_vec(),
        size: 500,
        stripped_size: 500,
        weight: 2000,
        txdata: vec![coinbase_tx(), spend_tx(0xaa, vec![0x11; 32], 500, 200)],
    }
}

#[test]
fn small_block_block_stats() {
    let stats = Stats::from_block(&small_block()).expect("synthetic block should analyze");
    let b = &stats.block;
    assert_eq!(b.stats_version, 4);
    assert_eq!(b.height, 100);
    assert_eq!(b.transactions, 2);
    assert_eq!(b.inputs, 2);
    assert_eq!(b.outputs, 2);
    assert_eq!(b.bits, 0x1d00ffff);
    assert_eq!(b.difficulty, 1);
    assert_eq!(b.pool_id, 0);
    assert_eq!(b.vsize, 300);
    assert!(!b.empty);
    assert_eq!(b.coinbase_output_amount, 50_0000_0000);
    assert!(!b.coinbase_locktime_set);
    assert!(!b.coinbase_locktime_set_bip54);
    // One payment per transaction: each has a single non-OP_RETURN output.
    assert_eq!(b.payments, 2);
    // The empty-script-sig spend classifies as pay-to-anchor, a SegWit
    // spend, so its payment counts there.
    assert_eq!(b.payments_segwit_spending_tx, 1);
    assert_eq!(b.payments_taproot_spending_tx, 0);
    // Date of the genesis timestamp.
    assert_eq!(b.date.year, 2009);
    assert_eq!(b.date.month, 1);
    assert_eq!(b.date.day, 3);
}

#[test]
fn small_block_tx_stats() {
    let stats = Stats::from_block(&small_block()).expect("synthetic block should analyze");
    let t = &stats.tx;
    assert_eq!(t.tx_version_1, 1);
    assert_eq!(t.tx_version_2, 1);
    assert_eq!(t.tx_version_3, 0);
    assert_eq!(t.tx_output_amount, 50_0000_0000 + 1000);
    // The coinbase input is neither legacy nor SegWit; the spend's
    // empty-script-sig input classifies as pay-to-anchor (SegWit).
    assert_eq!(t.tx_spending_only_legacy, 0);
    assert_eq!(t.tx_spending_segwit, 1);
    assert_eq!(t.tx_spending_only_segwit, 1);
    assert_eq!(t.tx_spending_native_segwit, 1);
    assert_eq!(t.tx_spending_taproot, 0);
    assert_eq!(t.tx_1_input, 2);
    assert_eq!(t.tx_1_output, 2);
    assert_eq!(t.tx_1_input_1_output, 2);
    assert_eq!(t.tx_signaling_explicit_rbf, 1);
    assert_eq!(t.tx_spending_newly_created_utxos, 0);
    assert_eq!(t.tx_spending_ephemeral_dust, 0);
    assert_eq!(t.tx_timelock_height, 0);
    assert_eq!(t.tx_timelock_timestamp, 0);
}

#[test]
fn small_block_input_stats() {
    let stats = Stats::from_block(&small_block()).expect("synthetic block should analyze");
    let i = &stats.input;
    assert_eq!(i.inputs_coinbase, 1);
    assert_eq!(i.inputs_witness_coinbase, 0);
    assert_eq!(i.inputs_unknown, 1);
    assert_eq!(i.inputs_p2a, 0);
    assert_eq!(i.inputs_spend_in_same_block, 0);
    // Age of the one non-coinbase input is 100 - 90 = 10.
    assert_eq!(i.inputs_spending_prev_1_blocks, 0);
    assert_eq!(i.inputs_spending_prev_6_blocks, 0);
    assert_eq!(i.inputs_spending_prev_144_blocks, 1);
    assert_eq!(i.inputs_spending_prev_2016_blocks, 1);
}

#[test]
fn small_block_output_stats() {
    let stats = Stats::from_block(&small_block()).expect("synthetic block should analyze");
    let o = &stats.output;
    assert_eq!(o.outputs_p2pkh, 2);
    assert_eq!(o.outputs_p2pkh_amount, 50_0000_0000 + 1000);
    assert_eq!(o.outputs_coinbase, 1);
    assert_eq!(o.outputs_coinbase_p2pkh, 1);
    assert_eq!(o.outputs_opreturn, 0);
    assert_eq!(o.outputs_opreturn_bytes, 0);
}

#[test]
fn small_block_feerate_stats() {
    let stats = Stats::from_block(&small_block()).expect("synthetic block should analyze");
    let f = &stats.feerate;
    // The one non-coinbase transaction pays 500 sat over 200 vbytes.
    assert_eq!(f.fee_sum, 500);
    assert_eq!(f.fee_min, 500);
    assert_eq!(f.fee_max, 500);
    assert_eq!(f.size_sum, 200);
    assert_eq!(f.zero_fee_tx, 0);
    assert_eq!(f.below_1_sat_vbyte, 0);
    assert_eq!(f.feerate_2_5_sat_vbyte, 1);
    assert_eq!(f.feerate_1_2_sat_vbyte, 0);
}

#[test]
fn analysis_is_repeatable() {
    let block = small_block();
    let a = Stats::from_block(&block).expect("synthetic block should analyze");
    let b = Stats::from_block(&block).expect("synthetic block should analyze");
    assert_eq!(a, b);
}

#[test]
fn bad_bits_rejected() {
    let mut block = small_block();
    block.bits = b"zz".to_vec();
    assert_eq!(Stats::from_block(&block), Err(StatsError::UnprefixedHex));
    block.bits = b"".to_vec();
    assert_eq!(Stats::from_block(&block), Err(StatsError::UnprefixedHex));
    block.bits = b"80000000".to_vec();
    assert_eq!(Stats::from_block(&block), Err(StatsError::ParseInt));
}

#[test]
fn bad_raw_tx_rejected() {
    let mut block = small_block();
    block.txdata[1].raw = vec![0xde, 0xad];
    assert_eq!(Stats::from_block(&block), Err(StatsError::TxInfo));
}

#[test]
fn p2pk_spend_analyzes() {
    let mut block = small_block();
    block.txdata[1].raw = p2pk_spend_raw(false);
    let stats = Stats::from_block(&block).expect("a minimally pushed P2PK signature parses");
    assert_eq!(stats.input.inputs_p2pk, 1);
    assert_eq!(stats.script.sigs_ecdsa, 1);
}

#[test]
fn nonminimal_p2pk_push_rejected() {
    let mut block = small_block();
    block.txdata[1].raw = p2pk_spend_raw(true);
    assert_eq!(Stats::from_block(&block), Err(StatsError::TxInfo));
}

fn dust_parent(txid_byte: u8, version: u32, fee: Option<u64>, dust_outputs: usize) -> TxData {
    let mut outputs = vec![OutputData { value: 100, script: p2pkh_script() }];
    for _ in 1..dust_outputs {
        outputs.push(OutputData { value: 100, script: p2pkh_script() });
    }
    TxData {
        raw: spend_raw(outputs.len()),
        txid: vec![txid_byte; 32],
        version,
        lock_time: 0,
        fee,
        vsize: 150,
        size: 150,
        inputs: vec![InputData {
            coinbase: false,
            prev_txid: vec![0x22; 32],
            prev_vout: 0,
            prevout_value: 2000,
            prevout_kind: PrevoutKind::Other,
            prevout_height: 90,
        }],
        outputs,
    }
}

fn dust_child(prev_txid_byte: u8, version: u32, fee: u64, vsize: u64) -> TxData {
    let mut tx = spend_tx(0xee, vec![prev_txid_byte; 32], fee, vsize);
    tx.version = version;
    tx
}

fn dust_block(parent: TxData, child: TxData) -> Block {
    let mut block = small_block();
    block.txdata = vec![coinbase_tx(), parent, child];
    block
}

#[test]
fn ephemeral_dust_counted() {
    let block = dust_block(dust_parent(0xd0, 3, Some(0), 1), dust_child(0xd0, 3, 200, 150));
    let stats = Stats::from_block(&block).expect("synthetic block should analyze");
    assert_eq!(stats.tx.tx_spending_ephemeral_dust, 1);
    assert_eq!(stats.tx.tx_spending_newly_created_utxos, 1);
    assert_eq!(stats.feerate.zero_fee_tx, 1);
}

#[test]
fn ephemeral_dust_needs_version_3_parent() {
    let block = dust_block(dust_parent(0xd0, 2, Some(0), 1), dust_child(0xd0, 3, 200, 150));
    let stats = Stats::from_block(&block).expect("synthetic block should analyze");
    assert_eq!(stats.tx.tx_spending_ephemeral_dust, 0);
}

#[test]
fn ephemeral_dust_needs_zero_fee_parent() {
    let block = dust_block(dust_parent(0xd0, 3, Some(10), 1), dust_child(0xd0, 3, 200, 150));
    let stats = Stats::from_block(&block).expect("synthetic block should analyze");
    assert_eq!(stats.tx.tx_spending_ephemeral_dust, 0);
}

#[test]
fn ephemeral_dust_needs_single_dust_output() {
    let block = dust_block(dust_parent(0xd0, 3, Some(0), 2), dust_child(0xd0, 3, 200, 150));
    let stats = Stats::from_block(&block).expect("synthetic block should analyze");
    assert_eq!(stats.tx.tx_spending_ephemeral_dust, 0);
    // The spend is still a same-block spend.
    assert_eq!(stats.tx.tx_spending_newly_created_utxos, 1);
}

#[test]
fn ephemeral_dust_needs_paying_child() {
    let block = dust_block(dust_parent(0xd0, 3, Some(0), 1), dust_child(0xd0, 3, 0, 150));
    let stats = Stats::from_block(&block).expect("synthetic block should analyze");
    assert_eq!(stats.tx.tx_spending_ephemeral_dust, 0);
}

#[test]
fn ephemeral_dust_needs_version_3_child() {
    let block = dust_block(dust_parent(0xd0, 3, Some(0), 1), dust_child(0xd0, 2, 200, 150));
    let stats = Stats::from_block(&block).expect("synthetic block should analyze");
    assert_eq!(stats.tx.tx_spending_ephemeral_dust, 0);
}

#[test]
fn ephemeral_dust_needs_small_child() {
    let block = dust_block(dust_parent(0xd0, 3, Some(0), 1), dust_child(0xd0, 3, 200, 1500));
    let stats = Stats::from_block(&block).expect("synthetic block should analyze");
    assert_eq!(stats.tx.tx_spending_ephemeral_dust, 0);
}

#[test]
fn ephemeral_dust_needs_sub_dust_output() {
    // An output at or above its script's dust threshold stages nothing.
    let mut parent = dust_parent(0xd0, 3, Some(0), 1);
    parent.outputs[0].value = 1000;
    let block = dust_block(parent, dust_child(0xd0, 3, 200, 150));
    let stats = Stats::from_block(&block).expect("synthetic block should analyze");
    assert_eq!(stats.tx.tx_spending_ephemeral_dust, 0);
}

#[test]
fn feerate_band_partition_holds() {
    // Fees chosen to land in different bands over vsize 100:
    // 50 sat -> below 1; 150 -> [1,2); 700 -> [5,10); 200000 -> 1000+.
    let mut block = small_block();
    block.txdata = vec![
        coinbase_tx(),
        spend_tx(0xa1, vec![0x31; 32], 50, 100),
        spend_tx(0xa2, vec![0x32; 32], 150, 100),
        spend_tx(0xa3, vec![0x33; 32], 700, 100),
        spend_tx(0xa4, vec![0x34; 32], 200_000, 100),
    ];
    let stats = Stats::from_block(&block).expect("synthetic block should analyze");
    let f = &stats.feerate;
    assert_eq!(f.below_1_sat_vbyte, 1);
    assert_eq!(f.feerate_1_2_sat_vbyte, 1);
    assert_eq!(f.feerate_5_10_sat_vbyte, 1);
    assert_eq!(f.feerate_1000_plus_sat_vbyte, 1);
    let band_sum = f.below_1_sat_vbyte + f.feerate_1_2_sat_vbyte + f.feerate_2_5_sat_vbyte
        + f.feerate_5_10_sat_vbyte + f.feerate_10_25_sat_vbyte + f.feerate_25_50_sat_vbyte
        + f.feerate_50_100_sat_vbyte + f.feerate_100_250_sat_vbyte + f.feerate_250_500_sat_vbyte
        + f.feerate_500_1000_sat_vbyte + f.feerate_1000_plus_sat_vbyte;
    assert_eq!(band_sum, stats.block.transactions - 1);
    assert_eq!(f.zero_fee_tx, 0);
}

#[test]
fn input_and_output_types_sum_to_totals() {
    let block = dust_block(dust_parent(0xd0, 3, Some(0), 1), dust_child(0xd0, 3, 200, 150));
    let stats = Stats::from_block(&block).expect("synthetic block should analyze");
    let i = &stats.input;
    let type_sum = i.inputs_p2pk + i.inputs_p2pkh + i.inputs_nested_p2wpkh + i.inputs_p2wpkh
        + i.inputs_p2ms + i.inputs_p2sh + i.inputs_nested_p2wsh + i.inputs_p2wsh
        + i.inputs_coinbase + i.inputs_witness_coinbase + i.inputs_p2tr_keypath
        + i.inputs_p2tr_scriptpath + i.inputs_p2a + i.inputs_unknown;
    assert_eq!(type_sum, stats.block.inputs);
    let o = &stats.output;
    let out_sum = o.outputs_p2pk + o.outputs_p2pkh + o.outputs_p2wpkh + o.outputs_p2ms
        + o.outputs_p2sh + o.outputs_p2wsh + o.outputs_opreturn + o.outputs_p2tr + o.outputs_p2a
        + o.outputs_unknown;
    assert_eq!(out_sum, stats.block.outputs);
}

#[test]
fn one_coinbase_input_per_block() {
    let stats = Stats::from_block(&small_block()).expect("synthetic block should analyze");
    assert_eq!(stats.input.inputs_coinbase + stats.input.inputs_witness_coinbase, 1);
    assert_eq!(
        stats.output.outputs_coinbase,
        small_block().txdata[0].outputs.len() as i32
    );
}

#[test]
fn opreturn_output_counted_with_bytes() {
    let mut block = small_block();
    let mut opret = vec![0x6a, 0x04];
    opret.extend(vec![0xde, 0xad, 0xbe, 0xef]);
    block.txdata[1].outputs.push(OutputData { value: 0, script: opret });
    // Re-parse facts come from the raw bytes; give the spend two outputs
    // so facts and node outputs stay aligned, the second one OP_RETURN.
    let mut raw = vec![2, 0, 0, 0];
    raw.push(1);
    raw.extend(vec![0x11u8; 32]);
    raw.extend(vec![0, 0, 0, 0]);
    raw.push(0);
    raw.extend(vec![0xfd, 0xff, 0xff, 0xff]);
    raw.push(2);
    raw.extend(1000u64.to_le_bytes());
    raw.push(25);
    raw.extend(p2pkh_script());
    raw.extend(0u64.to_le_bytes());
    raw.push(6);
    raw.extend(vec![0x6a, 0x04, 0xde, 0xad, 0xbe, 0xef]);
    raw.extend(vec![0, 0, 0, 0]);
    block.txdata[1].raw = raw;
    let stats = Stats::from_block(&block).expect("synthetic block should analyze");
    assert_eq!(stats.output.outputs_opreturn, 1);
    assert_eq!(stats.output.outputs_opreturn_bytes, 4);
    // The OP_RETURN output is not a payment.
    assert_eq!(stats.block.payments, 2);
}
