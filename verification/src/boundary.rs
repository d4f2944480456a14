//! The trusted parsing boundary.
//!
//! Raw consensus bytes are re-parsed by outside crates: `bitcoin` decodes
//! them into a transaction, `rawtx_rs` classifies every input and output
//! and collects signature and public-key inventories, and
//! `bitcoin_pool_identification` matches the coinbase against a static pool
//! catalog.  Each item below makes exactly that call, or reads one piece of
//! the parsed value, and converts the result into the library's own plain
//! types.  Everything downstream of these facts is verified.

use vstd::prelude::*;

use crate::classify::{InKind, InputFact, OrFlavor, OutKind, OutputFact, SigFact, TxFacts};
use crate::classify::{facts_like, sig_fact_wf, tx_facts_wf};
use rawtx_rs::input::{InputType, InputTypeDetection};
use rawtx_rs::output::{OpReturnFlavor, OutputType};
use rawtx_rs::script::{DEREncoding, SignatureInfo, SignatureType};
use rawtx_rs::tx::TxInfo;
use bitcoin_pool_identification::PoolIdentification;

verus! {

#[verifier::external_type_specification]
#[verifier::external_body]
pub struct ExTxInfo(TxInfo);

/// Whether the raw bytes decode into a transaction whose scripts parse;
/// a function of the bytes alone.
pub uninterp spec fn tx_parse_ok(raw: Seq<u8>) -> bool;

/// The script facts that the outside parsers derive from the raw bytes of
/// one transaction, expressed in the library's fact record; a function of
/// the bytes alone.
pub uninterp spec fn facts_of(raw: Seq<u8>) -> TxFacts;

/// The script facts that a parsed `TxInfo` value holds, expressed in the
/// library's fact record; the accessor wrappers below each read one field
/// of it.
pub uninterp spec fn info_facts(info: TxInfo) -> TxFacts;

/// Relies on bitcoin's consensus deserialization and on rawtx_rs's
/// `TxInfo::new`: both are functions of the raw bytes alone, and the
/// parse succeeds or fails deterministically, so a parsed value holds the
/// facts of its bytes.  rawtx_rs unwraps while collecting the signature
/// of a pay-to-pubkey spend whose script data does not re-parse as one
/// (a signature pushed with OP_PUSHDATA1), so that one shape is screened
/// first, with rawtx_rs's own non-panicking `get_type`, and counts as a
/// parse failure.
#[verifier::external_body]
pub(crate) fn parse_tx_info(raw: &Vec<u8>) -> (r: Option<TxInfo>)
    ensures
        r is Some <==> tx_parse_ok(raw@),
        r matches Some(info) ==> info_facts(info) == facts_of(raw@),
{
    let tx: bitcoin::Transaction = bitcoin::consensus::deserialize(raw).ok()?;
    for input in &tx.input {
        if matches!(input.get_type(), Ok(InputType::P2pk | InputType::P2pkLaxDer))
            && input.script_sig.as_bytes().get(1..).and_then(
            SignatureInfo::from_u8_slice_ecdsa,
        ).is_none() {
            return None;
        }
    }
    TxInfo::new(&tx).ok()
}

/// Relies on the `weight` field of rawtx_rs's `TxInfo`: the transaction
/// weight in weight units.
#[verifier::external_body]
fn info_weight(info: &TxInfo) -> (r: u64)
    ensures
        r == info_facts(*info).weight,
{
    info.weight
}

/// Relies on rawtx_rs's BIP-69 check over the transaction's inputs and
/// outputs.
#[verifier::external_body]
fn info_bip69(info: &TxInfo) -> (r: bool)
    ensures
        r == info_facts(*info).bip69,
{
    info.is_bip69_compliant()
}

/// Relies on the `input_infos` field of rawtx_rs's `TxInfo`: one entry per
/// transaction input.
#[verifier::external_body]
fn info_input_count(info: &TxInfo) -> (r: usize)
    ensures
        r == info_facts(*info).inputs@.len(),
{
    info.input_infos.len()
}

/// Relies on the `output_infos` field of rawtx_rs's `TxInfo`: one entry
/// per transaction output.
#[verifier::external_body]
fn info_output_count(info: &TxInfo) -> (r: usize)
    ensures
        r == info_facts(*info).outputs@.len(),
{
    info.output_infos.len()
}

/// Relies on the `in_type` field of rawtx_rs's `InputInfo`; an index past
/// the input list yields `Unknown`.
#[verifier::external_body]
fn input_kind_at(info: &TxInfo, i: usize) -> (r: InKind)
    ensures
        i < info_facts(*info).inputs@.len() ==> r == info_facts(*info).inputs@[i as int].kind,
{
    let Some(f) = info.input_infos.get(i) else { return InKind::Unknown };
    match f.in_type {
        InputType::P2pk => InKind::P2pk, InputType::P2pkLaxDer => InKind::P2pkLaxDer,
        InputType::P2pkh => InKind::P2pkh, InputType::P2pkhLaxDer => InKind::P2pkhLaxDer,
        InputType::P2shP2wpkh => InKind::P2shP2wpkh, InputType::P2wpkh => InKind::P2wpkh,
        InputType::P2ms => InKind::P2ms, InputType::P2msLaxDer => InKind::P2msLaxDer,
        InputType::P2sh => InKind::P2sh, InputType::P2shP2wsh => InKind::P2shP2wsh,
        InputType::P2wsh => InKind::P2wsh, InputType::P2trkp => InKind::P2trKeypath,
        InputType::P2trsp => InKind::P2trScriptpath, InputType::P2a => InKind::P2a,
        InputType::Coinbase => InKind::Coinbase,
        InputType::CoinbaseWitness => InKind::CoinbaseWitness, InputType::Unknown => InKind::Unknown,
    }
}

/// Relies on the `sequence` field of rawtx_rs's `InputInfo`; an index past
/// the input list yields the final sequence value.
#[verifier::external_body]
fn input_sequence_at(info: &TxInfo, i: usize) -> (r: u32)
    ensures
        i < info_facts(*info).inputs@.len() ==> r == info_facts(*info).inputs@[i as int].sequence,
{
    info.input_infos.get(i).map(|f| f.sequence.0).unwrap_or(0xFFFF_FFFF)
}

/// Relies on the `multisig_info` field of rawtx_rs's `InputInfo`: present
/// exactly when the input detectably spends a multisig construct.
#[verifier::external_body]
fn input_multisig_at(info: &TxInfo, i: usize) -> (r: bool)
    ensures
        i < info_facts(*info).inputs@.len() ==> r == info_facts(*info).inputs@[i as int].multisig,
{
    info.input_infos.get(i).map(|f| f.multisig_info.is_some()).unwrap_or(false)
}

/// Relies on the `pubkey_stats` field of rawtx_rs's `InputInfo`: one entry
/// per public key found in the input, with its compressedness.
#[verifier::external_body]
fn input_pubkeys_at(info: &TxInfo, i: usize) -> (r: Vec<bool>)
    ensures
        i < info_facts(*info).inputs@.len() ==> r == info_facts(
            *info,
        ).inputs@[i as int].pubkeys_compressed,
{
    match info.input_infos.get(i) {
        Some(f) => f.pubkey_stats.iter().map(|p| p.compressed).collect(),
        None => Vec::new(),
    }
}

/// Relies on the `signature_info` field of rawtx_rs's `InputInfo`.  Per
/// its construction, an ECDSA signature is 9 to 123 bytes long and a
/// Schnorr signature 64 or 65 bytes.
#[verifier::external_body]
fn input_sigs_at(info: &TxInfo, i: usize) -> (r: Vec<SigFact>)
    ensures
        forall|j: int| 0 <= j < r@.len() ==> sig_fact_wf(#[trigger] r@[j]),
        i < info_facts(*info).inputs@.len() ==> r == info_facts(*info).inputs@[i as int].sigs,
{
    let Some(f) = info.input_infos.get(i) else { return Vec::new() };
    f.signature_info.iter().map(|s| SigFact {
        schnorr: matches!(s.signature, SignatureType::Schnorr(_)),
        strict_der: s.der_encoded == DEREncoding::Valid,
        length: s.length as u64,
        low_r: s.low_r(),
        low_s: s.low_s(),
        sighash: s.sig_hash,
    }).collect()
}

/// Relies on the `out_type` field of rawtx_rs's `OutputInfo`; an index
/// past the output list yields `Unknown`.
#[verifier::external_body]
fn output_kind_at(info: &TxInfo, i: usize) -> (r: OutKind)
    ensures
        i < info_facts(*info).outputs@.len() ==> r == info_facts(*info).outputs@[i as int].kind,
{
    match info.output_infos.get(i).map(|f| f.out_type) {
        Some(OutputType::P2pk) => OutKind::P2pk, Some(OutputType::P2pkh) => OutKind::P2pkh,
        Some(OutputType::P2wpkhV0) => OutKind::P2wpkh, Some(OutputType::P2ms) => OutKind::P2ms,
        Some(OutputType::P2sh) => OutKind::P2sh, Some(OutputType::P2wshV0) => OutKind::P2wsh,
        Some(OutputType::OpReturn(_)) => OutKind::OpReturn, Some(OutputType::P2tr) => OutKind::P2tr,
        Some(OutputType::P2a) => OutKind::P2a, Some(OutputType::Unknown) | None => OutKind::Unknown,
    }
}

/// Relies on the `out_type` field of rawtx_rs's `OutputInfo`: the
/// recognized OP_RETURN flavor, present exactly for OP_RETURN outputs.
#[verifier::external_body]
fn output_flavor_at(info: &TxInfo, i: usize) -> (r: Option<OrFlavor>)
    ensures
        i < info_facts(*info).outputs@.len() ==> r == info_facts(*info).outputs@[i as int].flavor,
{
    let Some(OutputType::OpReturn(fl)) = info.output_infos.get(i).map(|f| f.out_type) else {
        return None;
    };
    Some(match fl {
        OpReturnFlavor::Unspecified => OrFlavor::Unspecified,
        OpReturnFlavor::WitnessCommitment => OrFlavor::WitnessCommitment,
        OpReturnFlavor::Omni => OrFlavor::Omni, OpReturnFlavor::Runestone => OrFlavor::Runestone,
        OpReturnFlavor::StacksBlockCommit => OrFlavor::StacksBlockCommit,
        OpReturnFlavor::Len1Byte => OrFlavor::Len1Byte, OpReturnFlavor::Len20Byte => OrFlavor::Len20Byte,
        OpReturnFlavor::Len80Byte => OrFlavor::Len80Byte, OpReturnFlavor::ExSat => OrFlavor::ExSat,
        OpReturnFlavor::Bip47PaymentCode => OrFlavor::Bip47PaymentCode,
        OpReturnFlavor::RSKBlock => OrFlavor::RskBlock, OpReturnFlavor::CoreDao => OrFlavor::CoreDao,
        OpReturnFlavor::HathorNetwork => OrFlavor::HathorNetwork,
    })
}

/// Relies on the `value` field of rawtx_rs's `OutputInfo`: the output
/// value in satoshi.
#[verifier::external_body]
fn output_value_at(info: &TxInfo, i: usize) -> (r: u64)
    ensures
        i < info_facts(*info).outputs@.len() ==> r == info_facts(*info).outputs@[i as int].value,
{
    info.output_infos.get(i).map(|f| f.value.to_sat()).unwrap_or(0)
}

/// Relies on the `pubkey_stats` field of rawtx_rs's `OutputInfo`: one
/// entry per public key found in the output, with its compressedness.
#[verifier::external_body]
fn output_pubkeys_at(info: &TxInfo, i: usize) -> (r: Vec<bool>)
    ensures
        i < info_facts(*info).outputs@.len() ==> r == info_facts(
            *info,
        ).outputs@[i as int].pubkeys_compressed,
{
    match info.output_infos.get(i) {
        Some(f) => f.pubkey_stats.iter().map(|p| p.compressed).collect(),
        None => Vec::new(),
    }
}

/// Re-parses one transaction's raw bytes into its script facts.
///
/// Succeeds exactly when the bytes decode and the scripts parse; the facts
/// then satisfy [`tx_facts_wf`] and agree, field by field, with the facts
/// named for the bytes, so repeat parses of the same bytes yield the same
/// statistics.
pub fn tx_facts_from_raw(raw: &Vec<u8>) -> (r: Option<TxFacts>)
    ensures
        r is Some <==> tx_parse_ok(raw@),
        r matches Some(f) ==> tx_facts_wf(f),
        r matches Some(f) ==> facts_like(f, facts_of(raw@)),
{
    let info = match parse_tx_info(raw) {
        Some(info) => info,
        None => {
            return None;
        },
    };
    let n_in = info_input_count(&info);
    let n_out = info_output_count(&info);
    let mut inputs: Vec<InputFact> = Vec::new();
    let mut i: usize = 0;
    while i < n_in
        invariant
            0 <= i <= n_in,
            n_in == info_facts(info).inputs@.len(),
            inputs@.len() == i,
            forall|k: int| 0 <= k < i ==> inputs@[k] == info_facts(info).inputs@[k],
            forall|a: int, b: int|
                0 <= a < inputs@.len() && 0 <= b < inputs@[a].sigs.len() ==> sig_fact_wf(
                    #[trigger] inputs@[a].sigs@[b],
                ),
        decreases n_in - i,
    {
        inputs.push(
            InputFact {
                kind: input_kind_at(&info, i),
                sequence: input_sequence_at(&info, i),
                multisig: input_multisig_at(&info, i),
                pubkeys_compressed: input_pubkeys_at(&info, i),
                sigs: input_sigs_at(&info, i),
            },
        );
        i = i + 1;
    }
    let mut outputs: Vec<OutputFact> = Vec::new();
    let mut j: usize = 0;
    while j < n_out
        invariant
            0 <= j <= n_out,
            n_out == info_facts(info).outputs@.len(),
            outputs@.len() == j,
            forall|k: int| 0 <= k < j ==> outputs@[k] == info_facts(info).outputs@[k],
        decreases n_out - j,
    {
        outputs.push(
            OutputFact {
                kind: output_kind_at(&info, j),
                flavor: output_flavor_at(&info, j),
                value: output_value_at(&info, j),
                pubkeys_compressed: output_pubkeys_at(&info, j),
            },
        );
        j = j + 1;
    }
    proof {
        assert(inputs@ =~= info_facts(info).inputs@);
        assert(outputs@ =~= info_facts(info).outputs@);
    }
    Some(TxFacts { weight: info_weight(&info), bip69: info_bip69(&info), inputs, outputs })
}

/// The mining pool id that the static catalog assigns to a block whose
/// coinbase transaction has these raw bytes; 0 when no pool matches or the
/// bytes are not a coinbase transaction.  A function of the bytes and the
/// catalog alone.
pub uninterp spec fn pool_id_of(raw: Seq<u8>) -> i32;

/// Relies on bitcoin's consensus deserialization and on
/// bitcoin_pool_identification's `identify_pool` over its bundled catalog:
/// coinbase tag and payout address matching are functions of the coinbase
/// bytes and the catalog alone.
#[verifier::external_body]
pub(crate) fn identify_pool_id(raw: &Vec<u8>) -> (r: i32)
    ensures
        r == pool_id_of(raw@),
{
    let tx: bitcoin::Transaction = match bitcoin::consensus::deserialize(raw) {
        Ok(tx) => tx,
        Err(_) => return 0,
    };
    if !tx.is_coinbase() {
        return 0;
    }
    let pools = bitcoin_pool_identification::default_data(bitcoin::Network::Bitcoin);
    match tx.identify_pool(bitcoin::Network::Bitcoin, &pools) {
        Some(result) => result.pool.id as i32,
        None => 0,
    }
}

/// The whole-number part of the difficulty that corresponds to a compact
/// target; a function of the compact bits alone.
pub uninterp spec fn difficulty_of(bits: u32) -> i64;

/// Relies on bitcoin's `Target::difficulty_float`: the quotient of the
/// maximum target by the target the compact bits encode, truncated to a
/// 64-bit signed integer.
#[verifier::external_body]
pub(crate) fn target_difficulty(bits: u32) -> (r: i64)
    ensures
        r == difficulty_of(bits),
{
    let target = bitcoin::Target::from_compact(bitcoin::CompactTarget::from_consensus(bits));
    target.difficulty_float() as i64
}

/// The minimal value, in satoshi, from which an output with this
/// scriptPubKey is not dust; a function of the script bytes alone.
pub uninterp spec fn dust_limit_of(script: Seq<u8>) -> u64;

/// Relies on bitcoin's `Script::minimal_non_dust`: the dust threshold
/// computed from the script's spending cost at the default relay fee rate.
#[verifier::external_body]
pub(crate) fn script_dust_limit(script: &Vec<u8>) -> (r: u64)
    ensures
        r == dust_limit_of(script@),
{
    bitcoin::Script::from_bytes(script.as_slice()).minimal_non_dust().to_sat()
}

} // verus!
