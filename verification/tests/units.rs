//! Unit tests of the calendar, hex, script-walk, store, and planning
//! pieces, and of the trusted boundary through public functions.

use blockstats::caldate::DateYmd;
use blockstats::classify::{InKind, InputFact, OutKind, OutputFact, SigFact, TxFacts};
use blockstats::hexnum::parse_hex_u32;
use blockstats::model::{Block, InputData, OutputData, PrevoutKind, TxData};
use blockstats::opreturn::opreturn_data_size;
use blockstats::stats::scriptstats::ScriptStats;
use blockstats::stats::Stats;
use blockstats::store::StatsStore;
use blockstats::sync::{plan_heights, BatchBuffer, SyncError};

fn ymd(y: u32, m: u32, d: u32) -> DateYmd {
    DateYmd { year: y, month: m, day: d }
}

#[test]
fn dates_from_unix_seconds() {
    assert_eq!(DateYmd::from_unix(0), ymd(1970, 1, 1));
    assert_eq!(DateYmd::from_unix(86399), ymd(1970, 1, 1));
    assert_eq!(DateYmd::from_unix(86400), ymd(1970, 1, 2));
    assert_eq!(DateYmd::from_unix(315532800), ymd(1980, 1, 1));
    assert_eq!(DateYmd::from_unix(946684800), ymd(2000, 1, 1));
    // 2000 is a leap year: day 60 is February 29.
    assert_eq!(DateYmd::from_unix(946684800 + 59 * 86400), ymd(2000, 2, 29));
    // The genesis block's header time.
    assert_eq!(DateYmd::from_unix(1231006505), ymd(2009, 1, 3));
}

#[test]
fn hex_bits_parsing() {
    assert_eq!(parse_hex_u32(&b"1d00ffff".to_vec()), Some(0x1d00ffff));
    assert_eq!(parse_hex_u32(&b"0".to_vec()), Some(0));
    assert_eq!(parse_hex_u32(&b"00000001".to_vec()), Some(1));
    assert_eq!(parse_hex_u32(&b"ffffffff".to_vec()), Some(0xffff_ffff));
    assert_eq!(parse_hex_u32(&b"FFFFFFFF".to_vec()), Some(0xffff_ffff));
    assert_eq!(parse_hex_u32(&b"".to_vec()), None);
    assert_eq!(parse_hex_u32(&b"0x1d".to_vec()), None);
    assert_eq!(parse_hex_u32(&b"1g".to_vec()), None);
    assert_eq!(parse_hex_u32(&b"100000000".to_vec()), None);
    assert_eq!(parse_hex_u32(&b"0000000001".to_vec()), Some(1));
}

#[test]
fn opreturn_byte_walk() {
    assert_eq!(opreturn_data_size(&vec![0x6a, 0x04, 0xde, 0xad, 0xbe, 0xef]), 4);
    assert_eq!(opreturn_data_size(&vec![0x6a, 0x4c, 0x02, 0xab, 0xcd]), 2);
    assert_eq!(opreturn_data_size(&vec![0x6a, 0x4d, 0x02, 0x00, 0xab, 0xcd]), 2);
    assert_eq!(opreturn_data_size(&vec![0x6a]), 0);
    // Not an OP_RETURN script at all.
    assert_eq!(opreturn_data_size(&vec![0x51, 0x04, 0xde, 0xad, 0xbe, 0xef]), 0);
    // A truncated push ends the walk; nothing before it was pushed.
    assert_eq!(opreturn_data_size(&vec![0x6a, 0x05, 0x01, 0x02]), 0);
    // A complete push before a truncated one still counts.
    assert_eq!(opreturn_data_size(&vec![0x6a, 0x02, 0x01, 0x02, 0x4c]), 2);
    // Opcodes between pushes contribute nothing.
    assert_eq!(opreturn_data_size(&vec![0x6a, 0x51, 0x01, 0xaa]), 1);
}

fn hex_bytes(s: &str) -> Vec<u8> {
    let b = s.as_bytes();
    let mut out = Vec::new();
    let mut i = 0;
    while i + 1 < b.len() {
        let hi = (b[i] as char).to_digit(16).unwrap() as u8;
        let lo = (b[i + 1] as char).to_digit(16).unwrap() as u8;
        out.push(hi * 16 + lo);
        i += 2;
    }
    out
}

#[test]
fn pool_identification_through_catalog() {
    // Coinbase of mainnet block 670828, carrying the ViaBTC tag: the
    // catalog identifies a pool, so a non-zero id reaches the record.
    let raw = hex_bytes(
        "010000000001010000000000000000000000000000000000000000000000000000000000000000ffffffff5f036c3c0a1c2f5669614254432f4d696e6564206279206c6565686f6f343434342f2cfabe6d6d41f647100ea398435411f0297fd9d798625e1b82c82451f7c6ccb59c0c67ec07100000000000000010d02cfe0845dca9281bb0ee077c090000ffffffff04bdb8892b000000001976a914536ffa992491508dca0354e52f32a3a7a679a53a88ac00000000000000002b6a2952534b424c4f434b3a2f21f07f3619ef6521a90de396c2617f2edc5bda4fd04aba89632f2c002f79bc0000000000000000266a24b9e11b6d2dd1c7233a019c512c5f1e105e185a6ea0a47824b5ae390cc7cec5c01714588b0000000000000000266a24aa21a9ed23418324183dba97076f21aadc97aeeb1782c6859faf8e141c601e5c856c55440120000000000000000000000000000000000000000000000000000000000000000000000000",
    );
    let mut block = tiny_block();
    let n_outputs = 4;
    let mut outputs = Vec::new();
    for _ in 0..n_outputs {
        outputs.push(OutputData { value: 0, script: vec![0x51] });
    }
    block.txdata[0] = TxData {
        raw,
        txid: vec![0x70; 32],
        version: 1,
        lock_time: 0,
        fee: None,
        vsize: 200,
        size: 300,
        inputs: vec![InputData {
            coinbase: true,
            prev_txid: vec![0; 32],
            prev_vout: 0xffff_ffff,
            prevout_value: 0,
            prevout_kind: PrevoutKind::Other,
            prevout_height: 0,
        }],
        outputs,
    };
    let stats = Stats::from_block(&block).expect("coinbase block should analyze");
    assert_ne!(stats.block.pool_id, 0);
    // An unidentifiable coinbase yields pool id 0.
    let plain = Stats::from_block(&tiny_block()).expect("synthetic block should analyze");
    assert_eq!(plain.block.pool_id, 0);
}

fn fact_input(kind: InKind, sigs: Vec<SigFact>, pubkeys: Vec<bool>) -> InputFact {
    InputFact { kind, sequence: 0xffff_ffff, multisig: false, pubkeys_compressed: pubkeys, sigs }
}

fn ecdsa_sig(length: u64, strict: bool, low_r: bool, low_s: bool, sighash: u8) -> SigFact {
    SigFact { schnorr: false, strict_der: strict, length, low_r, low_s, sighash }
}

#[test]
fn script_stats_partitions_signatures() {
    let facts = vec![TxFacts {
        weight: 400,
        bip69: true,
        inputs: vec![
            fact_input(
                InKind::P2pkh,
                vec![
                    ecdsa_sig(71, true, true, true, 0x01),
                    ecdsa_sig(72, false, false, true, 0x83),
                ],
                vec![true, false],
            ),
            fact_input(
                InKind::P2trKeypath,
                vec![SigFact {
                    schnorr: true,
                    strict_der: false,
                    length: 64,
                    low_r: false,
                    low_s: false,
                    sighash: 0x01,
                }],
                vec![],
            ),
        ],
        outputs: vec![OutputFact {
            kind: OutKind::P2tr,
            flavor: None,
            value: 1000,
            pubkeys_compressed: vec![true],
        }],
    }];
    let date = DateYmd { year: 2024, month: 5, day: 1 };
    let s = ScriptStats::from_block(500, date, &facts);
    assert_eq!(s.pubkeys, 3);
    assert_eq!(s.pubkeys_compressed, 2);
    assert_eq!(s.pubkeys_uncompressed, 1);
    assert_eq!(s.pubkeys_compressed_inputs, 1);
    assert_eq!(s.pubkeys_uncompressed_inputs, 1);
    assert_eq!(s.pubkeys_compressed_outputs, 1);
    assert_eq!(s.sigs_schnorr, 1);
    assert_eq!(s.sigs_ecdsa, 2);
    assert_eq!(s.sigs_ecdsa_strict_der, 1);
    assert_eq!(s.sigs_ecdsa_not_strict_der, 1);
    assert_eq!(s.sigs_ecdsa_length_71byte, 1);
    assert_eq!(s.sigs_ecdsa_length_72byte, 1);
    assert_eq!(s.sigs_ecdsa_low_rs, 1);
    assert_eq!(s.sigs_ecdsa_high_r_low_s, 1);
    assert_eq!(s.sigs_ecdsa_low_s, 2);
    assert_eq!(s.sigs_sighash_all, 1);
    assert_eq!(s.sigs_sighash_single_acp, 1);
    assert_eq!(s.sigs_sighashes, 2);
}

fn tiny_stats(height: i64, version: i32) -> Stats {
    let block = tiny_block();
    let mut s = Stats::from_block(&block).expect("synthetic block should analyze");
    s.block.height = height;
    s.block.stats_version = version;
    s
}

fn tiny_block() -> Block {
    let mut raw = vec![1, 0, 0, 0];
    raw.push(1);
    raw.extend(vec![0u8; 32]);
    raw.extend(vec![0xff, 0xff, 0xff, 0xff]);
    raw.push(1);
    raw.push(0x51);
    raw.extend(vec![0xff, 0xff, 0xff, 0xff]);
    raw.push(1);
    raw.extend(1000u64.to_le_bytes());
    raw.push(1);
    raw.push(0x51);
    raw.extend(vec![0, 0, 0, 0]);
    Block {
        height: 1,
        time: 0,
        version: 1,
        nonce: 0,
        bits: b"1d00ffff".to_vec(),
        size: 100,
        stripped_size: 100,
        weight: 400,
        txdata: vec![TxData {
            raw,
            txid: vec![1; 32],
            version: 1,
            lock_time: 0,
            fee: None,
            vsize: 60,
            size: 60,
            inputs: vec![InputData {
                coinbase: true,
                prev_txid: vec![0; 32],
                prev_vout: 0xffff_ffff,
                prevout_value: 0,
                prevout_kind: PrevoutKind::Other,
                prevout_height: 0,
            }],
            outputs: vec![OutputData { value: 1000, script: vec![0x51] }],
        }],
    }
}

#[test]
fn store_replaces_rows_and_replays_idempotently() {
    let mut store = StatsStore::new();
    let batch = vec![tiny_stats(1, 4), tiny_stats(2, 4)];
    store.insert_stats(&batch);
    let first = store.heights_up_to_date(4);
    store.insert_stats(&batch);
    let second = store.heights_up_to_date(4);
    assert_eq!(first.len(), 2);
    assert_eq!(second.len(), 2);
    assert!(first.contains(&1) && first.contains(&2));
    assert!(second.contains(&1) && second.contains(&2));
}

#[test]
fn store_version_filter() {
    let mut store = StatsStore::new();
    store.insert_stats(&vec![tiny_stats(1, 3), tiny_stats(2, 4)]);
    let up = store.heights_up_to_date(4);
    assert!(!up.contains(&1));
    assert!(up.contains(&2));
    // A later write at the same height replaces the row.
    store.insert_stats(&vec![tiny_stats(1, 4)]);
    let up = store.heights_up_to_date(4);
    assert!(up.contains(&1));
}

#[test]
fn plan_skips_up_to_date_heights() {
    let plan = plan_heights(106, false, None, &vec![3, 50]).expect("no IBD");
    assert_eq!(plan.len(), 98);
    assert_eq!(plan[0], 0);
    assert!(!plan.contains(&3));
    assert!(!plan.contains(&50));
    assert!(plan.contains(&99));
    assert!(!plan.contains(&100));
}

#[test]
fn plan_honors_start_height_and_margin() {
    let plan = plan_heights(106, false, Some(95), &vec![]).expect("no IBD");
    assert_eq!(plan, vec![95, 96, 97, 98, 99]);
    // A tip below the safety margin plans nothing.
    let plan = plan_heights(3, false, None, &vec![]).expect("no IBD");
    assert!(plan.is_empty());
}

#[test]
fn plan_refuses_initial_block_download() {
    assert_eq!(plan_heights(106, true, None, &vec![]), Err(SyncError::IBDNotDone));
}

#[test]
fn batch_buffer_cuts_at_batch_size() {
    let mut buf = BatchBuffer::new();
    let mut batches = 0;
    for i in 0..250 {
        if let Some(batch) = buf.push(tiny_stats(i, 4)) {
            assert_eq!(batch.len(), 100);
            batches += 1;
        }
    }
    assert_eq!(batches, 2);
    let rest = buf.flush();
    assert_eq!(rest.len(), 50);
    assert_eq!(buf.flush().len(), 0);
}
