//! Per-transaction script facts and their classification.
//!
//! A [`TxFacts`] value holds what re-parsing the raw consensus bytes of one
//! transaction yields: the type of every input and output, signature and
//! public-key inventories, and the transaction weight.  The spending-pattern
//! predicates on these facts are implemented here and verified; the facts
//! themselves come from the trusted parsing boundary.

use vstd::prelude::*;

use crate::model::TxData;

verus! {

/// The classified type of a transaction input.
///
/// The `LaxDer` variants mark signatures that only parse under pre-BIP-66
/// lax DER rules; they are tallied together with their strict siblings.
#[derive(Clone, Copy, Debug, PartialEq, Eq, Structural)]
pub enum InKind {
    P2pk,
    P2pkLaxDer,
    P2pkh,
    P2pkhLaxDer,
    P2shP2wpkh,
    P2wpkh,
    P2ms,
    P2msLaxDer,
    P2sh,
    P2shP2wsh,
    P2wsh,
    P2trKeypath,
    P2trScriptpath,
    P2a,
    Coinbase,
    CoinbaseWitness,
    Unknown,
}

/// The classified type of a transaction output.
#[derive(Clone, Copy, Debug, PartialEq, Eq, Structural)]
pub enum OutKind {
    P2pk,
    P2pkh,
    P2wpkh,
    P2ms,
    P2sh,
    P2wsh,
    OpReturn,
    P2tr,
    P2a,
    Unknown,
}

/// The recognized protocol flavor of an OP_RETURN output.
#[derive(Clone, Copy, Debug, PartialEq, Eq, Structural)]
pub enum OrFlavor {
    Unspecified,
    WitnessCommitment,
    Omni,
    StacksBlockCommit,
    Len1Byte,
    Len20Byte,
    Len80Byte,
    Bip47PaymentCode,
    RskBlock,
    CoreDao,
    ExSat,
    HathorNetwork,
    Runestone,
}

/// Facts about one signature found in an input's script data.
#[derive(Clone, Copy, Debug, PartialEq, Eq, Structural)]
pub struct SigFact {
    /// True for a Schnorr signature, false for ECDSA.
    pub schnorr: bool,
    /// True when an ECDSA signature is strictly DER encoded.
    pub strict_der: bool,
    /// Length of the encoded signature in bytes.
    pub length: u64,
    /// True when the R element lies in the low half of the field.
    pub low_r: bool,
    /// True when the S element lies in the low half of the curve order.
    pub low_s: bool,
    /// The sighash flag byte.
    pub sighash: u8,
}

/// Facts about one input, derived from its script sig and witness.
#[derive(Clone, Debug, PartialEq)]
pub struct InputFact {
    /// The classified input type.
    pub kind: InKind,
    /// The input's sequence number.
    pub sequence: u32,
    /// True when the input detectably spends a multisig construct.
    pub multisig: bool,
    /// One entry per public key found; true when the key is compressed.
    pub pubkeys_compressed: Vec<bool>,
    /// The signatures found.
    pub sigs: Vec<SigFact>,
}

/// Facts about one output, derived from its scriptPubKey.
#[derive(Clone, Debug, PartialEq)]
pub struct OutputFact {
    /// The classified output type.
    pub kind: OutKind,
    /// The OP_RETURN flavor; present exactly for OP_RETURN outputs.
    pub flavor: Option<OrFlavor>,
    /// Output value in satoshi.
    pub value: u64,
    /// One entry per public key found; true when the key is compressed.
    pub pubkeys_compressed: Vec<bool>,
}

/// Facts about one transaction, derived from its raw consensus bytes.
#[derive(Clone, Debug, PartialEq)]
pub struct TxFacts {
    /// Transaction weight in weight units.
    pub weight: u64,
    /// True when inputs and outputs are ordered as BIP-69 prescribes.
    pub bip69: bool,
    /// Per-input facts, in consensus order.
    pub inputs: Vec<InputFact>,
    /// Per-output facts, in consensus order.
    pub outputs: Vec<OutputFact>,
}

impl InKind {
    /// An input of this kind spends a SegWit output (nested or native,
    /// including Taproot and pay-to-anchor).
    pub open spec fn spec_spends_segwit(self) -> bool {
        self == InKind::P2shP2wpkh || self == InKind::P2shP2wsh || self == InKind::P2wpkh
            || self == InKind::P2wsh || self == InKind::P2trKeypath
            || self == InKind::P2trScriptpath || self == InKind::P2a
    }

    /// An input of this kind spends a Taproot output.
    pub open spec fn spec_spends_taproot(self) -> bool {
        self == InKind::P2trKeypath || self == InKind::P2trScriptpath
    }

    /// An input of this kind spends a P2SH-nested SegWit output.
    pub open spec fn spec_spends_nested_segwit(self) -> bool {
        self == InKind::P2shP2wpkh || self == InKind::P2shP2wsh
    }

    /// An input of this kind spends a native SegWit output.
    pub open spec fn spec_spends_native_segwit(self) -> bool {
        self == InKind::P2wpkh || self == InKind::P2wsh || self == InKind::P2trKeypath
            || self == InKind::P2trScriptpath || self == InKind::P2a
    }

    /// An input of this kind spends a legacy output.
    pub open spec fn spec_spends_legacy(self) -> bool {
        self == InKind::P2ms || self == InKind::P2msLaxDer || self == InKind::P2pk
            || self == InKind::P2pkLaxDer || self == InKind::P2pkh
            || self == InKind::P2pkhLaxDer || self == InKind::P2sh || self == InKind::Unknown
    }

    /// Executable form of [`InKind::spec_spends_segwit`].
    pub fn spends_segwit(&self) -> (r: bool)
        ensures
            r == self.spec_spends_segwit(),
    {
        matches!(
            self,
            InKind::P2shP2wpkh | InKind::P2shP2wsh | InKind::P2wpkh | InKind::P2wsh
                | InKind::P2trKeypath | InKind::P2trScriptpath | InKind::P2a
        )
    }

    /// Executable form of [`InKind::spec_spends_taproot`].
    pub fn spends_taproot(&self) -> (r: bool)
        ensures
            r == self.spec_spends_taproot(),
    {
        matches!(self, InKind::P2trKeypath | InKind::P2trScriptpath)
    }

    /// Executable form of [`InKind::spec_spends_nested_segwit`].
    pub fn spends_nested_segwit(&self) -> (r: bool)
        ensures
            r == self.spec_spends_nested_segwit(),
    {
        matches!(self, InKind::P2shP2wpkh | InKind::P2shP2wsh)
    }

    /// Executable form of [`InKind::spec_spends_native_segwit`].
    pub fn spends_native_segwit(&self) -> (r: bool)
        ensures
            r == self.spec_spends_native_segwit(),
    {
        matches!(
            self,
            InKind::P2wpkh | InKind::P2wsh | InKind::P2trKeypath | InKind::P2trScriptpath
                | InKind::P2a
        )
    }

    /// Executable form of [`InKind::spec_spends_legacy`].
    pub fn spends_legacy(&self) -> (r: bool)
        ensures
            r == self.spec_spends_legacy(),
    {
        matches!(
            self,
            InKind::P2ms | InKind::P2msLaxDer | InKind::P2pk | InKind::P2pkLaxDer
                | InKind::P2pkh | InKind::P2pkhLaxDer | InKind::P2sh | InKind::Unknown
        )
    }
}

impl TxFacts {
    /// At least one input spends SegWit.
    pub open spec fn spec_spending_segwit(self) -> bool {
        exists|i: int| 0 <= i < self.inputs.len() && self.inputs@[i].kind.spec_spends_segwit()
    }

    /// At least one input spends Taproot.
    pub open spec fn spec_spending_taproot(self) -> bool {
        exists|i: int| 0 <= i < self.inputs.len() && self.inputs@[i].kind.spec_spends_taproot()
    }

    /// At least one input spends nested SegWit.
    pub open spec fn spec_spending_nested_segwit(self) -> bool {
        exists|i: int|
            0 <= i < self.inputs.len() && self.inputs@[i].kind.spec_spends_nested_segwit()
    }

    /// At least one input spends native SegWit.
    pub open spec fn spec_spending_native_segwit(self) -> bool {
        exists|i: int|
            0 <= i < self.inputs.len() && self.inputs@[i].kind.spec_spends_native_segwit()
    }

    /// At least one input spends a legacy output.
    pub open spec fn spec_spending_legacy(self) -> bool {
        exists|i: int| 0 <= i < self.inputs.len() && self.inputs@[i].kind.spec_spends_legacy()
    }

    /// At least one input detectably spends a multisig construct.
    pub open spec fn spec_spending_multisig(self) -> bool {
        exists|i: int| 0 <= i < self.inputs.len() && self.inputs@[i].multisig
    }

    /// Every input spends SegWit.
    pub open spec fn spec_only_spending_segwit(self) -> bool {
        forall|i: int| 0 <= i < self.inputs.len() ==> self.inputs@[i].kind.spec_spends_segwit()
    }

    /// Every input spends a legacy output.
    pub open spec fn spec_only_spending_legacy(self) -> bool {
        forall|i: int| 0 <= i < self.inputs.len() ==> self.inputs@[i].kind.spec_spends_legacy()
    }

    /// Every input spends Taproot.
    pub open spec fn spec_only_spending_taproot(self) -> bool {
        forall|i: int| 0 <= i < self.inputs.len() ==> self.inputs@[i].kind.spec_spends_taproot()
    }

    /// Inputs spend both SegWit and legacy outputs.
    pub open spec fn spec_spending_segwit_and_legacy(self) -> bool {
        self.spec_spending_segwit() && self.spec_spending_legacy()
    }

    /// All input sequence numbers signal explicit RBF replicability
    /// (every sequence lies below 0xFFFF_FFFE).
    pub open spec fn spec_signaling_explicit_rbf(self) -> bool {
        forall|i: int| 0 <= i < self.inputs.len() ==> self.inputs@[i].sequence < 0xFFFF_FFFEu32
    }

    /// Some input sequence number leaves the absolute lock-time enabled
    /// (it is not the final sequence value).
    pub open spec fn spec_locktime_enabled(self) -> bool {
        exists|i: int| 0 <= i < self.inputs.len() && self.inputs@[i].sequence != 0xFFFF_FFFFu32
    }

    /// Number of non-OP_RETURN outputs.
    pub open spec fn spec_non_opreturn_outputs(self) -> int {
        count_non_opreturn(self.outputs@)
    }

    /// The payment estimate: the number of non-OP_RETURN outputs, minus one
    /// assumed change output when there are at least two of them.
    pub open spec fn spec_payments(self) -> int {
        let n = self.spec_non_opreturn_outputs();
        if n <= 1 {
            n
        } else {
            n - 1
        }
    }

    /// Executable form of [`TxFacts::spec_spending_segwit`] and its siblings,
    /// combined into one pass over the inputs.
    pub fn spending_flags(&self) -> (r: SpendingFlags)
        ensures
            r.segwit == self.spec_spending_segwit(),
            r.taproot == self.spec_spending_taproot(),
            r.nested_segwit == self.spec_spending_nested_segwit(),
            r.native_segwit == self.spec_spending_native_segwit(),
            r.legacy == self.spec_spending_legacy(),
            r.multisig == self.spec_spending_multisig(),
            r.only_segwit == self.spec_only_spending_segwit(),
            r.only_legacy == self.spec_only_spending_legacy(),
            r.only_taproot == self.spec_only_spending_taproot(),
            r.rbf == self.spec_signaling_explicit_rbf(),
            r.locktime_enabled == self.spec_locktime_enabled(),
    {
        let mut r = SpendingFlags {
            segwit: false,
            taproot: false,
            nested_segwit: false,
            native_segwit: false,
            legacy: false,
            multisig: false,
            only_segwit: true,
            only_legacy: true,
            only_taproot: true,
            rbf: true,
            locktime_enabled: false,
        };
        let n = self.inputs.len();
        for i in 0..n
            invariant
                n == self.inputs.len(),
                r.segwit == exists|j: int|
                    0 <= j < i && self.inputs@[j].kind.spec_spends_segwit(),
                r.taproot == exists|j: int|
                    0 <= j < i && self.inputs@[j].kind.spec_spends_taproot(),
                r.nested_segwit == exists|j: int|
                    0 <= j < i && self.inputs@[j].kind.spec_spends_nested_segwit(),
                r.native_segwit == exists|j: int|
                    0 <= j < i && self.inputs@[j].kind.spec_spends_native_segwit(),
                r.legacy == exists|j: int|
                    0 <= j < i && self.inputs@[j].kind.spec_spends_legacy(),
                r.multisig == exists|j: int| 0 <= j < i && self.inputs@[j].multisig,
                r.only_segwit == forall|j: int|
                    0 <= j < i ==> self.inputs@[j].kind.spec_spends_segwit(),
                r.only_legacy == forall|j: int|
                    0 <= j < i ==> self.inputs@[j].kind.spec_spends_legacy(),
                r.only_taproot == forall|j: int|
                    0 <= j < i ==> self.inputs@[j].kind.spec_spends_taproot(),
                r.rbf == forall|j: int| 0 <= j < i ==> self.inputs@[j].sequence < 0xFFFF_FFFEu32,
                r.locktime_enabled == exists|j: int|
                    0 <= j < i && self.inputs@[j].sequence != 0xFFFF_FFFFu32,
        {
            let k = &self.inputs[i].kind;
            r.segwit = r.segwit || k.spends_segwit();
            r.taproot = r.taproot || k.spends_taproot();
            r.nested_segwit = r.nested_segwit || k.spends_nested_segwit();
            r.native_segwit = r.native_segwit || k.spends_native_segwit();
            r.legacy = r.legacy || k.spends_legacy();
            r.multisig = r.multisig || self.inputs[i].multisig;
            r.only_segwit = r.only_segwit && k.spends_segwit();
            r.only_legacy = r.only_legacy && k.spends_legacy();
            r.only_taproot = r.only_taproot && k.spends_taproot();
            r.rbf = r.rbf && self.inputs[i].sequence < 0xFFFF_FFFE;
            r.locktime_enabled = r.locktime_enabled || self.inputs[i].sequence != 0xFFFF_FFFF;
        }
        r
    }

    /// Executable form of [`TxFacts::spec_payments`].
    pub fn payments(&self) -> (r: usize)
        requires
            self.outputs.len() <= usize::MAX,
        ensures
            r == self.spec_payments(),
            r <= self.outputs.len(),
    {
        let n = self.outputs.len();
        let mut count: usize = 0;
        for i in 0..n
            invariant
                n == self.outputs.len(),
                count == count_non_opreturn(self.outputs@.take(i as int)),
                count <= i,
        {
            proof {
                assert(self.outputs@.take(i + 1).drop_last() =~= self.outputs@.take(i as int));
            }
            if !matches!(self.outputs[i].kind, OutKind::OpReturn) {
                count = count + 1;
            }
        }
        proof {
            assert(self.outputs@.take(n as int) =~= self.outputs@);
            lemma_count_non_opreturn_le(self.outputs@);
        }
        if count <= 1 {
            count
        } else {
            count - 1
        }
    }
}

/// The spending-pattern summary of one transaction.
pub struct SpendingFlags {
    pub segwit: bool,
    pub taproot: bool,
    pub nested_segwit: bool,
    pub native_segwit: bool,
    pub legacy: bool,
    pub multisig: bool,
    pub only_segwit: bool,
    pub only_legacy: bool,
    pub only_taproot: bool,
    pub rbf: bool,
    pub locktime_enabled: bool,
}

/// Number of outputs in the list that are not OP_RETURN.
pub open spec fn count_non_opreturn(outs: Seq<OutputFact>) -> int
    decreases outs.len(),
{
    if outs.len() == 0 {
        0
    } else {
        count_non_opreturn(outs.drop_last()) + if outs.last().kind == OutKind::OpReturn {
            0int
        } else {
            1int
        }
    }
}

/// The non-OP_RETURN count never exceeds the list length.
pub proof fn lemma_count_non_opreturn_le(outs: Seq<OutputFact>)
    ensures
        0 <= count_non_opreturn(outs) <= outs.len(),
    decreases outs.len(),
{
    if outs.len() > 0 {
        lemma_count_non_opreturn_le(outs.drop_last());
    }
}

/// Well-formedness of parsed signature facts, as the parsing boundary
/// guarantees them: ECDSA signatures are 9 to 123 bytes, Schnorr
/// signatures 64 or 65 bytes.
pub open spec fn sig_fact_wf(s: SigFact) -> bool {
    if s.schnorr {
        s.length == 64 || s.length == 65
    } else {
        9 <= s.length <= 123
    }
}

/// Well-formedness of the facts of one transaction: every signature's
/// length lies in the range its type admits.
pub open spec fn tx_facts_wf(f: TxFacts) -> bool {
    forall|i: int, j: int|
        0 <= i < f.inputs.len() && 0 <= j < f.inputs@[i].sigs.len() ==> sig_fact_wf(
            #[trigger] f.inputs@[i].sigs@[j],
        )
}

/// Two fact records agree in every field the statistics read: the scalar
/// fields and the per-input and per-output fact lists.  Such records are
/// interchangeable in every derived count.
pub open spec fn facts_like(f: TxFacts, n: TxFacts) -> bool {
    &&& f.weight == n.weight
    &&& f.bip69 == n.bip69
    &&& f.inputs@ == n.inputs@
    &&& f.outputs@ == n.outputs@
}

/// Element-wise [`facts_like`] over two fact lists of equal length.
pub open spec fn facts_all_like(fs: Seq<TxFacts>, ns: Seq<TxFacts>) -> bool {
    &&& fs.len() == ns.len()
    &&& forall|t: int| 0 <= t < fs.len() ==> facts_like(#[trigger] fs[t], ns[t])
}

/// The parsed facts line up with the node's view of the block: one fact
/// record per transaction, with the same number of inputs and outputs.
pub open spec fn facts_aligned(fs: Seq<TxFacts>, xs: Seq<TxData>) -> bool {
    &&& fs.len() == xs.len()
    &&& forall|t: int|
        0 <= t < fs.len() ==> (#[trigger] fs[t].inputs@.len()) == xs[t].inputs@.len()
            && fs[t].outputs@.len() == xs[t].outputs@.len()
}

} // verus!
