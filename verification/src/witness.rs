use vstd::prelude::*;

use crate::codec::{
    bytes_eq, clone_bytes, dec_bytes, enc_bytes, lemma_dec_enc_bytes, lemma_prefix_slice, put_u32,
    put_slice, put_sized, spec_u32_be, ReadBuf, ReadError,
};
use crate::error::Error;

verus! {

/// The tag byte of a legacy witness.
pub const WITNESS_TAG_OLDUTXO: u8 = 0;

/// The tag byte of an unspent-output witness.
pub const WITNESS_TAG_UTXO: u8 = 1;

/// The tag byte of an account witness.
pub const WITNESS_TAG_ACCOUNT: u8 = 2;

/// The outcome of verifying a witness against a key and a message.
#[derive(Clone, Copy, PartialEq, Eq, Structural, Debug)]
pub enum Verification {
    Success,
    Failed,
}

/// The id of the genesis block, fixing which chain a witness commits
/// to; an opaque byte string here.
#[derive(Debug)]
pub struct HeaderHash {
    pub bytes: Vec<u8>,
}

/// The id of the transaction a witness signs; an opaque byte string.
#[derive(Debug)]
pub struct TransactionId {
    pub bytes: Vec<u8>,
}

/// The per-account counter that makes each account witness unique.
#[derive(Clone, Copy, PartialEq, Eq, Structural, Debug)]
pub struct SpendingCounter(pub u32);

impl SpendingCounter {
    /// The big-endian byte layout of the counter.
    pub fn to_bytes(&self) -> (r: Vec<u8>)
        ensures
            r@ == spec_u32_be(self.0),
    {
        let mut v: Vec<u8> = Vec::new();
        put_u32(&mut v, self.0);
        v
    }
}

/// A secret spending key.  The authentication collaborator is modeled
/// abstractly: a signature records the signer's verifying key and the
/// exact message it covers, and verification is exact agreement.
#[derive(Debug)]
pub struct SpendingSecretKey {
    pub bytes: Vec<u8>,
}

/// The verifying key matching a secret spending key.
#[derive(Debug)]
pub struct SpendingPublicKey {
    pub bytes: Vec<u8>,
}

impl SpendingSecretKey {
    /// Wraps key material supplied by the authentication collaborator.
    pub fn from_bytes(bytes: Vec<u8>) -> (r: SpendingSecretKey)
        ensures
            r.bytes@ == bytes@,
    {
        SpendingSecretKey { bytes }
    }

    /// The verifying key for this secret key.
    pub fn to_public(&self) -> (r: SpendingPublicKey)
        ensures
            r.bytes@ == self.bytes@,
    {
        SpendingPublicKey { bytes: clone_bytes(&self.bytes) }
    }
}

/// A signature over an opaque message.
#[derive(Debug)]
pub struct SpendingSignature {
    pub key: Vec<u8>,
    pub data: Vec<u8>,
}

/// The mathematical value of a signature.
#[verifier::ext_equal]
pub struct SigV {
    pub key: Seq<u8>,
    pub data: Seq<u8>,
}

impl View for SpendingSignature {
    type V = SigV;

    open spec fn view(&self) -> SigV {
        SigV { key: self.key@, data: self.data@ }
    }
}

impl SpendingSignature {
    /// Signs the message with the secret key.
    pub fn generate(secret_key: &SpendingSecretKey, data: &Vec<u8>) -> (r: SpendingSignature)
        ensures
            r.key@ == secret_key.bytes@,
            r.data@ == data@,
    {
        SpendingSignature { key: clone_bytes(&secret_key.bytes), data: clone_bytes(data) }
    }

    /// Verifies the signature: success exactly when the verifying key
    /// matches the signer and the message is the one signed.
    pub fn verify(&self, public_key: &SpendingPublicKey, data: &Vec<u8>) -> (r: Verification)
        ensures
            (r == Verification::Success) <==> (self.key@ == public_key.bytes@ && self.data@
                == data@),
    {
        if bytes_eq(&self.key, &public_key.bytes) && bytes_eq(&self.data, data) {
            Verification::Success
        } else {
            Verification::Failed
        }
    }

    /// Copies the signature.
    pub fn duplicate(&self) -> (r: SpendingSignature)
        ensures
            r@ == self@,
    {
        SpendingSignature { key: clone_bytes(&self.key), data: clone_bytes(&self.data) }
    }
}

/// The message an unspent-output witness signs: the genesis id followed
/// by the transaction id.
pub open spec fn utxo_witness_data(block0: Seq<u8>, transaction_id: Seq<u8>) -> Seq<u8> {
    block0 + transaction_id
}

/// The message an account witness signs: the account tag, the genesis
/// id, the transaction id, and the spending counter.
pub open spec fn account_witness_data(
    block0: Seq<u8>,
    transaction_id: Seq<u8>,
    counter: u32,
) -> Seq<u8> {
    seq![WITNESS_TAG_ACCOUNT] + block0 + transaction_id + spec_u32_be(counter)
}

/// The byte string an unspent-output witness signs.
#[derive(Debug)]
pub struct WitnessUtxoData(pub Vec<u8>);

impl WitnessUtxoData {
    /// Lays the message out: genesis id, then transaction id.
    pub fn new(block0: &HeaderHash, transaction_id: &TransactionId) -> (r: WitnessUtxoData)
        ensures
            r.0@ == utxo_witness_data(block0.bytes@, transaction_id.bytes@),
    {
        let mut v: Vec<u8> = Vec::new();
        put_slice(&mut v, &block0.bytes);
        put_slice(&mut v, &transaction_id.bytes);
        proof {
            assert(v@ =~= utxo_witness_data(block0.bytes@, transaction_id.bytes@));
        }
        WitnessUtxoData(v)
    }
}

/// The byte string an account witness signs.
#[derive(Debug)]
pub struct WitnessAccountData(pub Vec<u8>);

impl WitnessAccountData {
    /// Lays the message out: tag, genesis id, transaction id, counter.
    pub fn new(
        block0: &HeaderHash,
        transaction_id: &TransactionId,
        spending_counter: &SpendingCounter,
    ) -> (r: WitnessAccountData)
        ensures
            r.0@ == account_witness_data(
                block0.bytes@,
                transaction_id.bytes@,
                spending_counter.0,
            ),
    {
        let mut v: Vec<u8> = Vec::new();
        v.push(WITNESS_TAG_ACCOUNT);
        put_slice(&mut v, &block0.bytes);
        put_slice(&mut v, &transaction_id.bytes);
        put_u32(&mut v, spending_counter.0);
        proof {
            assert(v@ =~= account_witness_data(
                block0.bytes@,
                transaction_id.bytes@,
                spending_counter.0,
            ));
        }
        WitnessAccountData(v)
    }
}

/// Proof that a user agrees with some opaque data, signing it to turn
/// a transaction into a signed transaction.  The witness never sees
/// the transaction's contents, only its id.
#[derive(Debug)]
pub enum Witness {
    Utxo(SpendingSignature),
    Account(SpendingSignature),
    OldUtxo(SpendingPublicKey, SpendingSignature),
}

/// The mathematical value of a witness.
#[verifier::ext_equal]
pub enum WitnessV {
    Utxo(SigV),
    Account(SigV),
    OldUtxo(Seq<u8>, SigV),
}

impl View for Witness {
    type V = WitnessV;

    open spec fn view(&self) -> WitnessV {
        match self {
            Witness::Utxo(s) => WitnessV::Utxo(s@),
            Witness::Account(s) => WitnessV::Account(s@),
            Witness::OldUtxo(pk, s) => WitnessV::OldUtxo(pk.bytes@, s@),
        }
    }
}

impl PartialEq for Witness {
    fn eq(&self, other: &Witness) -> bool {
        match (self, other) {
            (Witness::Utxo(a), Witness::Utxo(b)) => bytes_eq(&a.key, &b.key) && bytes_eq(
                &a.data,
                &b.data,
            ),
            (Witness::Account(a), Witness::Account(b)) => bytes_eq(&a.key, &b.key) && bytes_eq(
                &a.data,
                &b.data,
            ),
            (Witness::OldUtxo(p1, a), Witness::OldUtxo(p2, b)) => bytes_eq(&p1.bytes, &p2.bytes)
                && bytes_eq(&a.key, &b.key) && bytes_eq(&a.data, &b.data),
            _ => false,
        }
    }
}

impl vstd::std_specs::cmp::PartialEqSpecImpl for Witness {
    open spec fn obeys_eq_spec() -> bool {
        true
    }

    open spec fn eq_spec(&self, other: &Witness) -> bool {
        self@ == other@
    }
}

impl Eq for Witness {}

impl Witness {
    /// Signs the transaction for an unspent output.
    pub fn new_utxo(
        block0: &HeaderHash,
        transaction_id: &TransactionId,
        secret_key: &SpendingSecretKey,
    ) -> (r: Witness)
        ensures
            r matches Witness::Utxo(sig) && sig.key@ == secret_key.bytes@ && sig.data@
                == utxo_witness_data(block0.bytes@, transaction_id.bytes@),
    {
        let d = WitnessUtxoData::new(block0, transaction_id);
        Witness::Utxo(SpendingSignature::generate(secret_key, &d.0))
    }

    /// Signs the transaction for an account, under the account's
    /// spending counter.
    pub fn new_account(
        block0: &HeaderHash,
        transaction_id: &TransactionId,
        spending_counter: &SpendingCounter,
        secret_key: &SpendingSecretKey,
    ) -> (r: Witness)
        ensures
            r matches Witness::Account(sig) && sig.key@ == secret_key.bytes@ && sig.data@
                == account_witness_data(
                block0.bytes@,
                transaction_id.bytes@,
                spending_counter.0,
            ),
    {
        let d = WitnessAccountData::new(block0, transaction_id, spending_counter);
        Witness::Account(SpendingSignature::generate(secret_key, &d.0))
    }

    /// Verifies the witness against a transaction id: success exactly
    /// when an unspent-output witness signed this transaction on this
    /// chain with the matching key.  An account witness never verifies
    /// as an unspent-output witness.  Legacy witnesses are not
    /// supported here and are excluded by contract.
    pub fn verify_utxo(
        &self,
        public_key: &SpendingPublicKey,
        block0: &HeaderHash,
        transaction_id: &TransactionId,
    ) -> (r: Verification)
        requires
            !(self is OldUtxo),
        ensures
            self is Account ==> r == Verification::Failed,
            self matches Witness::Utxo(sig) ==> ((r == Verification::Success) <==> (sig.key@
                == public_key.bytes@ && sig.data@ == utxo_witness_data(
                block0.bytes@,
                transaction_id.bytes@,
            ))),
    {
        match self {
            Witness::Utxo(signature) => {
                let d = WitnessUtxoData::new(block0, transaction_id);
                signature.verify(public_key, &d.0)
            },
            Witness::Account(_) => Verification::Failed,
            Witness::OldUtxo(_, _) => {
                proof {
                    assert(false);
                }
                Verification::Failed
            },
        }
    }

    /// Verifies like `verify_utxo`, but takes every variant: a legacy
    /// witness is recognized yet not supported for processing and is
    /// reported as `Unimplemented`.
    pub fn try_verify_utxo(
        &self,
        public_key: &SpendingPublicKey,
        block0: &HeaderHash,
        transaction_id: &TransactionId,
    ) -> (r: Result<Verification, Error>)
        ensures
            match r {
                Ok(v) => !(self is OldUtxo) && (self is Account ==> v == Verification::Failed)
                    && (self matches Witness::Utxo(sig) ==> ((v == Verification::Success) <==> (
                sig.key@ == public_key.bytes@ && sig.data@ == utxo_witness_data(
                    block0.bytes@,
                    transaction_id.bytes@,
                )))),
                Err(e) => e == Error::Unimplemented && self is OldUtxo,
            },
    {
        match self {
            Witness::OldUtxo(_, _) => Err(Error::Unimplemented),
            _ => Ok(self.verify_utxo(public_key, block0, transaction_id)),
        }
    }
}

/// The wire layout of a signature: its key, then its message, each
/// length-prefixed.
pub open spec fn enc_sig(s: SigV) -> Seq<u8> {
    enc_bytes(s.key) + enc_bytes(s.data)
}

/// The wire layout of a witness: its tag byte, then its components.
pub open spec fn spec_serialize(w: WitnessV) -> Seq<u8> {
    match w {
        WitnessV::OldUtxo(pk, s) => seq![WITNESS_TAG_OLDUTXO] + enc_bytes(pk) + enc_sig(s),
        WitnessV::Utxo(s) => seq![WITNESS_TAG_UTXO] + enc_sig(s),
        WitnessV::Account(s) => seq![WITNESS_TAG_ACCOUNT] + enc_sig(s),
    }
}

/// Whether every component is short enough for its length prefix.
pub open spec fn serializable(w: WitnessV) -> bool {
    match w {
        WitnessV::OldUtxo(pk, s) => pk.len() <= u32::MAX && s.key.len() <= u32::MAX
            && s.data.len() <= u32::MAX,
        WitnessV::Utxo(s) => s.key.len() <= u32::MAX && s.data.len() <= u32::MAX,
        WitnessV::Account(s) => s.key.len() <= u32::MAX && s.data.len() <= u32::MAX,
    }
}

/// Decodes a signature at position `i`: key, then message.
pub open spec fn dec_sig(s: Seq<u8>, i: int) -> Result<(SigV, int), ReadError> {
    match dec_bytes(s, i) {
        Ok((key, j)) => match dec_bytes(s, j) {
            Ok((data, j2)) => Ok((SigV { key, data }, j2)),
            Err(e) => Err(e),
        },
        Err(e) => Err(e),
    }
}

/// Decodes a witness at position `i`: the tag byte picks the variant.
pub open spec fn dec_witness(s: Seq<u8>, i: int) -> Result<(WitnessV, int), ReadError> {
    if 0 <= i && i < s.len() {
        let t = s[i];
        if t == WITNESS_TAG_OLDUTXO {
            match dec_bytes(s, i + 1) {
                Ok((pk, j)) => match dec_sig(s, j) {
                    Ok((sig, j2)) => Ok((WitnessV::OldUtxo(pk, sig), j2)),
                    Err(e) => Err(e),
                },
                Err(e) => Err(e),
            }
        } else if t == WITNESS_TAG_UTXO {
            match dec_sig(s, i + 1) {
                Ok((sig, j)) => Ok((WitnessV::Utxo(sig), j)),
                Err(e) => Err(e),
            }
        } else if t == WITNESS_TAG_ACCOUNT {
            match dec_sig(s, i + 1) {
                Ok((sig, j)) => Ok((WitnessV::Account(sig), j)),
                Err(e) => Err(e),
            }
        } else {
            Err(ReadError::UnknownTag(t as u32))
        }
    } else {
        Err(ReadError::NotEnoughBytes)
    }
}

impl Witness {
    /// Appends the wire layout of the witness to `out`.
    pub fn serialize(&self, out: &mut Vec<u8>)
        requires
            serializable(self@),
        ensures
            final(out)@ == old(out)@ + spec_serialize(self@),
    {
        match self {
            Witness::OldUtxo(xpub, sig) => {
                out.push(WITNESS_TAG_OLDUTXO);
                put_sized(out, &xpub.bytes);
                put_sized(out, &sig.key);
                put_sized(out, &sig.data);
                proof {
                    assert(out@ =~= old(out)@ + spec_serialize(self@));
                }
            },
            Witness::Utxo(sig) => {
                out.push(WITNESS_TAG_UTXO);
                put_sized(out, &sig.key);
                put_sized(out, &sig.data);
                proof {
                    assert(out@ =~= old(out)@ + spec_serialize(self@));
                }
            },
            Witness::Account(sig) => {
                out.push(WITNESS_TAG_ACCOUNT);
                put_sized(out, &sig.key);
                put_sized(out, &sig.data);
                proof {
                    assert(out@ =~= old(out)@ + spec_serialize(self@));
                }
            },
        }
    }

    /// Reads one witness from the buffer.  On success the cursor stops
    /// right after it; an unknown tag byte is reported as such, a
    /// truncated buffer as `NotEnoughBytes`.
    pub fn read(buf: &mut ReadBuf) -> (r: Result<Witness, ReadError>)
        requires
            old(buf).wf(),
        ensures
            final(buf).wf(),
            final(buf).bytes@ == old(buf).bytes@,
            match r {
                Ok(w) => dec_witness(old(buf).bytes@, old(buf).pos as int) == Ok::<
                    (WitnessV, int),
                    ReadError,
                >((w@, final(buf).pos as int)),
                Err(e) => dec_witness(old(buf).bytes@, old(buf).pos as int) == Err::<
                    (WitnessV, int),
                    ReadError,
                >(e),
            },
    {
        let t = match buf.get_u8() {
            Ok(t) => t,
            Err(e) => {
                return Err(e);
            },
        };
        if t == WITNESS_TAG_OLDUTXO {
            let pk = match buf.get_sized() {
                Ok(v) => v,
                Err(e) => {
                    return Err(e);
                },
            };
            let key = match buf.get_sized() {
                Ok(v) => v,
                Err(e) => {
                    return Err(e);
                },
            };
            let data = match buf.get_sized() {
                Ok(v) => v,
                Err(e) => {
                    return Err(e);
                },
            };
            Ok(
                Witness::OldUtxo(
                    SpendingPublicKey { bytes: pk },
                    SpendingSignature { key, data },
                ),
            )
        } else if t == WITNESS_TAG_UTXO {
            let key = match buf.get_sized() {
                Ok(v) => v,
                Err(e) => {
                    return Err(e);
                },
            };
            let data = match buf.get_sized() {
                Ok(v) => v,
                Err(e) => {
                    return Err(e);
                },
            };
            Ok(Witness::Utxo(SpendingSignature { key, data }))
        } else if t == WITNESS_TAG_ACCOUNT {
            let key = match buf.get_sized() {
                Ok(v) => v,
                Err(e) => {
                    return Err(e);
                },
            };
            let data = match buf.get_sized() {
                Ok(v) => v,
                Err(e) => {
                    return Err(e);
                },
            };
            Ok(Witness::Account(SpendingSignature { key, data }))
        } else {
            Err(ReadError::UnknownTag(t as u32))
        }
    }
}

/// Reading back a serialized signature yields the same signature and
/// stops exactly at its end.
proof fn lemma_dec_enc_sig(g: SigV, s: Seq<u8>, i: int)
    requires
        g.key.len() <= u32::MAX,
        g.data.len() <= u32::MAX,
        0 <= i,
        i + enc_sig(g).len() <= s.len(),
        s.subrange(i, i + enc_sig(g).len() as int) == enc_sig(g),
    ensures
        dec_sig(s, i) == Ok::<(SigV, int), ReadError>((g, i + enc_sig(g).len())),
{
    let e = enc_sig(g);
    let ek = enc_bytes(g.key);
    let ed = enc_bytes(g.data);
    assert(e.subrange(0, ek.len() as int) =~= ek);
    assert(e.subrange(ek.len() as int, e.len() as int) =~= ed);
    lemma_prefix_slice(s, i, e, 0, ek);
    lemma_prefix_slice(s, i, e, ek.len() as int, ed);
    lemma_dec_enc_bytes(g.key, s, i);
    lemma_dec_enc_bytes(g.data, s, i + ek.len());
    assert(SigV { key: g.key, data: g.data } =~= g);
}

/// Reading back a serialized witness yields an equal witness and stops
/// exactly at its end: the wire codec round-trips.
pub proof fn lemma_witness_round_trip(w: WitnessV, s: Seq<u8>, i: int)
    requires
        serializable(w),
        0 <= i,
        i + spec_serialize(w).len() <= s.len(),
        s.subrange(i, i + spec_serialize(w).len() as int) == spec_serialize(w),
    ensures
        dec_witness(s, i) == Ok::<(WitnessV, int), ReadError>((w, i + spec_serialize(w).len())),
{
    let e = spec_serialize(w);
    assert(s[i] == e[0]) by {
        assert(s.subrange(i, i + e.len() as int)[0] == s[i]);
    }
    match w {
        WitnessV::OldUtxo(pk, g) => {
            let ep = enc_bytes(pk);
            let eg = enc_sig(g);
            assert(e[0] == WITNESS_TAG_OLDUTXO);
            assert(e.subrange(1, 1 + ep.len() as int) =~= ep);
            assert(e.subrange(1 + ep.len() as int, e.len() as int) =~= eg);
            lemma_prefix_slice(s, i, e, 1, ep);
            lemma_prefix_slice(s, i, e, 1 + ep.len() as int, eg);
            lemma_dec_enc_bytes(pk, s, i + 1);
            lemma_dec_enc_sig(g, s, i + 1 + ep.len());
        },
        WitnessV::Utxo(g) => {
            let eg = enc_sig(g);
            assert(e[0] == WITNESS_TAG_UTXO);
            assert(e.subrange(1, e.len() as int) =~= eg);
            lemma_prefix_slice(s, i, e, 1, eg);
            lemma_dec_enc_sig(g, s, i + 1);
        },
        WitnessV::Account(g) => {
            let eg = enc_sig(g);
            assert(e[0] == WITNESS_TAG_ACCOUNT);
            assert(e.subrange(1, e.len() as int) =~= eg);
            lemma_prefix_slice(s, i, e, 1, eg);
            lemma_dec_enc_sig(g, s, i + 1);
        },
    }
}

} // verus!
