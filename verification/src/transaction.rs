//! Transaction and batch wire format, and stateless transaction verification.
//!
//! A transaction is encoded as: 64 signature bytes, 32 public-key bytes, the
//! message length as 32-bit little-endian, the message bytes, and the nonce as
//! 64-bit little-endian. A batch is the item count as 32-bit little-endian
//! followed by each raw transaction length-prefixed the same way. The signed
//! digest covers the message bytes concatenated with the 8 little-endian nonce
//! bytes, not the full encoded transaction. Decoding tolerates trailing bytes
//! after the last field, as a reader-style decoder does.

use vstd::prelude::*;

use crate::bytes::{
    bytes_extend, bytes_range, decode_u32_le, decode_u64_le, encode_u32_le, encode_u64_le,
    u32_from_le, u32_le_bytes, u64_from_le, u64_le_bytes,
};
use crate::default_signature::{
    ed25519_verifies, sha256, sha256_of, DefaultPublicKey, DefaultSignature, PUBLIC_KEY_LENGTH,
    SIGNATURE_LENGTH,
};

verus! {

/// A raw, still-encoded transaction as it travels through mempool and blobs.
#[derive(Clone, Debug, PartialEq, Eq)]
pub struct RawTx {
    pub data: Vec<u8>,
}

impl View for RawTx {
    type V = Seq<u8>;

    open spec fn view(&self) -> Seq<u8> {
        self.data@
    }
}

/// The mathematical content of a decoded transaction.
pub ghost struct TxModel {
    pub sig: Seq<u8>,
    pub pk: Seq<u8>,
    pub msg: Seq<u8>,
    pub nonce: u64,
}

/// A decoded transaction: signature, public key, opaque runtime message and
/// nonce. Immutable once constructed.
#[derive(Clone, Debug, PartialEq, Eq)]
pub struct Transaction {
    signature: DefaultSignature,
    pub_key: DefaultPublicKey,
    runtime_msg: Vec<u8>,
    nonce: u64,
}

impl View for Transaction {
    type V = TxModel;

    closed spec fn view(&self) -> TxModel {
        TxModel {
            sig: self.signature@,
            pk: self.pub_key@,
            msg: self.runtime_msg@,
            nonce: self.nonce,
        }
    }
}

/// Field sizes that the wire format can carry.
pub open spec fn tx_model_wf(t: TxModel) -> bool {
    &&& t.sig.len() == SIGNATURE_LENGTH
    &&& t.pk.len() == PUBLIC_KEY_LENGTH
    &&& t.msg.len() < 0x1_0000_0000
}

impl Transaction {
    pub open spec fn wf(&self) -> bool {
        tx_model_wf(self@)
    }

    pub fn new(msg: Vec<u8>, pub_key: DefaultPublicKey, signature: DefaultSignature, nonce: u64)
        -> (r: Self)
        ensures
            r@ == (TxModel { sig: signature@, pk: pub_key@, msg: msg@, nonce }),
    {
        Transaction { signature, pub_key, runtime_msg: msg, nonce }
    }

    pub fn runtime_msg(&self) -> (r: &Vec<u8>)
        ensures
            r@ == self@.msg,
    {
        &self.runtime_msg
    }

    pub fn pub_key(&self) -> (r: &DefaultPublicKey)
        ensures
            r@ == self@.pk,
    {
        &self.pub_key
    }

    pub fn signature(&self) -> (r: &DefaultSignature)
        ensures
            r@ == self@.sig,
    {
        &self.signature
    }

    pub fn nonce(&self) -> (r: u64)
        ensures
            r == self@.nonce,
    {
        self.nonce
    }
}

/// The wire encoding of a transaction.
pub open spec fn tx_encoding(t: TxModel) -> Seq<u8>
    recommends
        tx_model_wf(t),
{
    t.sig + t.pk + u32_le_bytes(t.msg.len() as u32) + t.msg + u64_le_bytes(t.nonce)
}

/// What decoding a byte string as a transaction yields, trailing bytes
/// tolerated.
pub open spec fn tx_decode_spec(b: Seq<u8>) -> Option<TxModel> {
    if b.len() < 108 {
        None
    } else {
        let mlen = u32_from_le(b.subrange(96, 100)) as int;
        if b.len() < 108 + mlen {
            None
        } else {
            Some(
                TxModel {
                    sig: b.subrange(0, 64),
                    pk: b.subrange(64, 96),
                    msg: b.subrange(100, 100 + mlen),
                    nonce: u64_from_le(b.subrange(100 + mlen, 108 + mlen)),
                },
            )
        }
    }
}

/// Why a raw transaction was rejected before execution.
#[derive(Clone, Copy, Debug, PartialEq, Eq, Structural)]
pub enum TransactionDecodeError {
    /// The bytes do not parse as a transaction.
    InvalidEncoding,
}

pub fn encode_transaction(t: &Transaction) -> (r: Vec<u8>)
    requires
        t.wf(),
    ensures
        r@ == tx_encoding(t@),
{
    let mut r: Vec<u8> = t.signature.to_bytes();
    let pk = t.pub_key.to_bytes();
    bytes_extend(&mut r, &pk);
    let mlen = encode_u32_le(t.runtime_msg.len() as u32);
    bytes_extend(&mut r, &mlen);
    bytes_extend(&mut r, &t.runtime_msg);
    let nonce = encode_u64_le(t.nonce);
    bytes_extend(&mut r, &nonce);
    r
}

pub fn decode_transaction(raw: &Vec<u8>) -> (r: Result<Transaction, TransactionDecodeError>)
    ensures
        r matches Ok(t) ==> tx_decode_spec(raw@) == Some(t@) && t.wf(),
        r is Err <==> tx_decode_spec(raw@) is None,
{
    let n = raw.len();
    if n < 108 {
        return Err(TransactionDecodeError::InvalidEncoding);
    }
    let mlen_word = decode_u32_le(raw, 96);
    let mlen = mlen_word as usize;
    if mlen > n - 108 {
        return Err(TransactionDecodeError::InvalidEncoding);
    }
    let sig = bytes_range(raw, 0, 64);
    let pk = bytes_range(raw, 64, 96);
    let msg = bytes_range(raw, 100, 100 + mlen);
    let nonce = decode_u64_le(raw, 100 + mlen);
    let t = Transaction {
        signature: DefaultSignature::new(sig),
        pub_key: DefaultPublicKey::new(pk),
        runtime_msg: msg,
        nonce,
    };
    Ok(t)
}

/// Decoding an encoded transaction, with any trailing bytes, yields the
/// transaction back.
pub proof fn lemma_tx_round_trip(t: TxModel, rest: Seq<u8>)
    requires
        tx_model_wf(t),
    ensures
        tx_decode_spec(tx_encoding(t) + rest) == Some(t),
{
    reveal(crate::bytes::u32_le_bytes);
    reveal(crate::bytes::u64_le_bytes);
    let b = tx_encoding(t) + rest;
    let mlen = t.msg.len() as int;
    assert(b.subrange(96, 100) =~= u32_le_bytes(t.msg.len() as u32));
    crate::bytes::lemma_u32_le_round_trip(t.msg.len() as u32);
    assert(b.subrange(0, 64) =~= t.sig);
    assert(b.subrange(64, 96) =~= t.pk);
    assert(b.subrange(100, 100 + mlen) =~= t.msg);
    assert(b.subrange(100 + mlen, 108 + mlen) =~= u64_le_bytes(t.nonce));
    crate::bytes::lemma_u64_le_round_trip(t.nonce);
}

/// The payload the signature must cover: message bytes then the 8
/// little-endian nonce bytes.
pub open spec fn signed_payload(msg: Seq<u8>, nonce: u64) -> Seq<u8> {
    msg + u64_le_bytes(nonce)
}

/// Stateless validity of a transaction: its signature verifies, under its own
/// public key, over the SHA-256 digest of the signed payload.
pub open spec fn tx_signature_valid(t: TxModel) -> bool {
    ed25519_verifies(t.pk, sha256_of(signed_payload(t.msg, t.nonce)), t.sig)
}

/// Why stateless verification dismissed a raw transaction.
#[derive(Clone, Copy, Debug, PartialEq, Eq, Structural)]
pub enum StatelessVerifyError {
    /// The bytes do not parse as a transaction.
    InvalidEncoding,
    /// The transaction parsed but its signature does not verify.
    SignatureInvalid,
}

/// Decodes one raw transaction and checks its signature. Pure: no state is
/// read, so every transaction of a batch can be checked independently.
#[verifier::rlimit(50)]
pub fn verify_tx_stateless(raw: &RawTx) -> (r: Result<Transaction, StatelessVerifyError>)
    ensures
        r matches Ok(t) ==> {
            &&& tx_decode_spec(raw@) == Some(t@)
            &&& tx_signature_valid(t@)
            &&& t.wf()
        },
        r == Err::<Transaction, StatelessVerifyError>(StatelessVerifyError::InvalidEncoding)
            <==> tx_decode_spec(raw@) is None,
        r == Err::<Transaction, StatelessVerifyError>(StatelessVerifyError::SignatureInvalid)
            <==> (tx_decode_spec(raw@) matches Some(t) && !tx_signature_valid(t)),
{
    let t = match decode_transaction(&raw.data) {
        Ok(t) => t,
        Err(_) => {
            return Err(StatelessVerifyError::InvalidEncoding);
        },
    };
    let mut payload = bytes_range(&t.runtime_msg, 0, t.runtime_msg.len());
    let nonce_bytes = encode_u64_le(t.nonce);
    bytes_extend(&mut payload, &nonce_bytes);
    proof {
        assert(t.runtime_msg@.subrange(0, t.runtime_msg@.len() as int) =~= t@.msg);
        assert(payload@ =~= signed_payload(t@.msg, t@.nonce));
    }
    let digest = sha256(&payload);
    match t.signature.verify(&t.pub_key, &digest) {
        Ok(_) => Ok(t),
        Err(_) => Err(StatelessVerifyError::SignatureInvalid),
    }
}

/// The views of a sequence of raw transactions.
pub open spec fn raws_view(v: Seq<RawTx>) -> Seq<Seq<u8>> {
    v.map_values(|r: RawTx| r@)
}

/// Decodes and signature-checks every raw transaction in order; the first
/// failure rejects the whole sequence.
#[verifier::opaque]
pub open spec fn verify_all_spec(raws: Seq<Seq<u8>>) -> Option<Seq<TxModel>>
    decreases raws.len(),
{
    if raws.len() == 0 {
        Some(Seq::empty())
    } else {
        match tx_decode_spec(raws[0]) {
            None => None,
            Some(t) => if !tx_signature_valid(t) {
                None
            } else {
                match verify_all_spec(raws.skip(1)) {
                    None => None,
                    Some(ts) => Some(seq![t] + ts),
                }
            },
        }
    }
}

/// Helper: extending a successfully verified prefix by one more valid
/// transaction extends the result.
proof fn lemma_verify_all_unfold(raws: Seq<Seq<u8>>, i: int)
    requires
        0 <= i < raws.len(),
    ensures
        verify_all_spec(raws.skip(i)) == match tx_decode_spec(raws[i]) {
            None => None::<Seq<TxModel>>,
            Some(t) => if !tx_signature_valid(t) {
                None::<Seq<TxModel>>
            } else {
                match verify_all_spec(raws.skip(i + 1)) {
                    None => None::<Seq<TxModel>>,
                    Some(ts) => Some(seq![t] + ts),
                }
            },
        },
{
    reveal_with_fuel(verify_all_spec, 2);
    let s = raws.skip(i);
    assert(s[0] == raws[i]);
    assert(s.skip(1) =~= raws.skip(i + 1));
}

/// Helper: one verified transaction moves the processed boundary one step.
proof fn lemma_verify_all_step(raws: Seq<Seq<u8>>, i: int, prev: Seq<TxModel>, t: TxModel)
    requires
        0 <= i < raws.len(),
        tx_decode_spec(raws[i]) == Some(t),
        tx_signature_valid(t),
        verify_all_spec(raws) == match verify_all_spec(raws.skip(i)) {
            None => None::<Seq<TxModel>>,
            Some(ts) => Some(prev + ts),
        },
    ensures
        verify_all_spec(raws) == match verify_all_spec(raws.skip(i + 1)) {
            None => None::<Seq<TxModel>>,
            Some(ts) => Some(prev.push(t) + ts),
        },
{
    lemma_verify_all_unfold(raws, i);
    if verify_all_spec(raws.skip(i + 1)) is Some {
        let ts = verify_all_spec(raws.skip(i + 1)).unwrap();
        assert(prev + (seq![t] + ts) =~= prev.push(t) + ts);
    }
}

/// Helper: a transaction that fails stateless checks rejects the whole batch.
proof fn lemma_verify_all_fails(raws: Seq<Seq<u8>>, i: int, prev: Seq<TxModel>)
    requires
        0 <= i < raws.len(),
        tx_decode_spec(raws[i]) is None || (tx_decode_spec(raws[i]) matches Some(t)
            && !tx_signature_valid(t)),
        verify_all_spec(raws) == match verify_all_spec(raws.skip(i)) {
            None => None::<Seq<TxModel>>,
            Some(ts) => Some(prev + ts),
        },
    ensures
        verify_all_spec(raws) is None,
{
    lemma_verify_all_unfold(raws, i);
}

/// Runs stateless verification over a whole batch. Succeeds if and only if
/// every transaction decodes and carries a valid signature.
pub fn verify_txs_stateless(txs: &Vec<RawTx>) -> (r: Result<Vec<Transaction>, StatelessVerifyError>)
    ensures
        r matches Ok(ts) ==> {
            &&& verify_all_spec(raws_view(txs@)) == Some(ts@.map_values(|t: Transaction| t@))
            &&& ts@.len() == txs@.len()
            &&& forall|i: int| 0 <= i < ts@.len() ==> (#[trigger] ts@[i]).wf()
        },
        r is Err <==> verify_all_spec(raws_view(txs@)) is None,
{
    let ghost raws = raws_view(txs@);
    let mut out: Vec<Transaction> = Vec::new();
    let ghost mut models: Seq<TxModel> = Seq::empty();
    proof {
        assert(raws.skip(0) =~= raws);
        if verify_all_spec(raws) is Some {
            let ts = verify_all_spec(raws).unwrap();
            assert(models + ts =~= ts);
        }
    }
    let mut i: usize = 0;
    while i < txs.len()
        invariant
            0 <= i <= txs@.len(),
            raws == raws_view(txs@),
            raws.len() == txs@.len(),
            models.len() == out@.len(),
            out@.len() == i,
            forall|j: int| 0 <= j < out@.len() ==> (#[trigger] out@[j]).wf() && out@[j]@
                == models[j],
            verify_all_spec(raws) == match verify_all_spec(raws.skip(i as int)) {
                None => None::<Seq<TxModel>>,
                Some(ts) => Some(models + ts),
            },
        decreases txs@.len() - i,
    {
        proof {
            assert(raws[i as int] == txs@[i as int]@);
        }
        let t = match verify_tx_stateless(&txs[i]) {
            Ok(t) => t,
            Err(e) => {
                proof {
                    lemma_verify_all_fails(raws, i as int, models);
                }
                return Err(e);
            },
        };
        out.push(t);
        proof {
            lemma_verify_all_step(raws, i as int, models, t@);
            models = models.push(t@);
        }
        i = i + 1;
    }
    proof {
        reveal_with_fuel(verify_all_spec, 1);
        assert(raws.skip(txs@.len() as int) =~= Seq::<Seq<u8>>::empty());
        assert(models + Seq::<TxModel>::empty() =~= models);
        assert(models =~= out@.map_values(|t: Transaction| t@));
    }
    Ok(out)
}

} // verus!
