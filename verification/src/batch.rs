//! Batch wire format: a blob decodes to an ordered list of raw transactions,
//! written as a 32-bit little-endian item count followed by each item with a
//! 32-bit little-endian length prefix. Trailing bytes after the last item are
//! tolerated, as a reader-style decoder does.

use vstd::prelude::*;

use crate::bytes::{bytes_extend, bytes_range, decode_u32_le, encode_u32_le, u32_from_le,
    u32_le_bytes};
use crate::transaction::{raws_view, RawTx};

verus! {

/// An ordered batch of raw transactions, as proposed by a sequencer.
#[derive(Clone, Debug, PartialEq, Eq)]
pub struct Batch {
    pub txs: Vec<RawTx>,
}

impl View for Batch {
    type V = Seq<Seq<u8>>;

    open spec fn view(&self) -> Seq<Seq<u8>> {
        raws_view(self.txs@)
    }
}

impl Batch {
    /// Hands out the raw transactions in order.
    pub fn take_transactions(self) -> (r: Vec<RawTx>)
        ensures
            raws_view(r@) == self@,
    {
        self.txs
    }
}

/// Decodes `count` length-prefixed items from the front of `b`, tolerating
/// trailing bytes.
#[verifier::opaque]
pub open spec fn batch_body_decode(b: Seq<u8>, count: nat) -> Option<Seq<Seq<u8>>>
    decreases count,
{
    if count == 0 {
        Some(Seq::empty())
    } else if b.len() < 4 {
        None
    } else {
        let l = u32_from_le(b.subrange(0, 4)) as int;
        if b.len() < 4 + l {
            None
        } else {
            match batch_body_decode(b.skip(4 + l), (count - 1) as nat) {
                None => None,
                Some(items) => Some(seq![b.subrange(4, 4 + l)] + items),
            }
        }
    }
}

/// What decoding a blob as a batch yields.
pub open spec fn batch_decode_spec(b: Seq<u8>) -> Option<Seq<Seq<u8>>> {
    if b.len() < 4 {
        None
    } else {
        batch_body_decode(b.skip(4), u32_from_le(b.subrange(0, 4)) as nat)
    }
}

/// Helper: one unfolding of `batch_body_decode` at offset `off` of `b`.
proof fn lemma_batch_body_unfold(b: Seq<u8>, off: int, count: nat)
    requires
        0 <= off <= b.len(),
        count > 0,
    ensures
        batch_body_decode(b.skip(off), count) == {
            if b.len() - off < 4 {
                None::<Seq<Seq<u8>>>
            } else {
                let l = u32_from_le(b.subrange(off, off + 4)) as int;
                if b.len() < off + 4 + l {
                    None::<Seq<Seq<u8>>>
                } else {
                    match batch_body_decode(b.skip(off + 4 + l), (count - 1) as nat) {
                        None => None::<Seq<Seq<u8>>>,
                        Some(items) => Some(seq![b.subrange(off + 4, off + 4 + l)] + items),
                    }
                }
            }
        },
{
    reveal_with_fuel(batch_body_decode, 2);
    let s = b.skip(off);
    if s.len() >= 4 {
        assert(s.subrange(0, 4) =~= b.subrange(off, off + 4));
        let l = u32_from_le(b.subrange(off, off + 4)) as int;
        if b.len() >= off + 4 + l {
            assert(s.subrange(4, 4 + l) =~= b.subrange(off + 4, off + 4 + l));
            assert(s.skip(4 + l) =~= b.skip(off + 4 + l));
        }
    }
}

/// Why a blob was rejected as a batch.
#[derive(Clone, Copy, Debug, PartialEq, Eq, Structural)]
pub enum BatchDecodeError {
    /// The bytes do not parse as a batch.
    InvalidEncoding,
}

/// Parses a blob into its ordered raw transactions.
pub fn decode_batch(blob: &Vec<u8>) -> (r: Result<Batch, BatchDecodeError>)
    ensures
        r matches Ok(b) ==> batch_decode_spec(blob@) == Some(b@),
        r is Err <==> batch_decode_spec(blob@) is None,
{
    let n = blob.len();
    if n < 4 {
        return Err(BatchDecodeError::InvalidEncoding);
    }
    let count_word = decode_u32_le(blob, 0);
    let count = count_word as usize;
    let ghost total: nat = count as nat;
    let mut txs: Vec<RawTx> = Vec::new();
    let ghost mut models: Seq<Seq<u8>> = Seq::empty();
    let mut off: usize = 4;
    let mut i: usize = 0;
    proof {
        if batch_body_decode(blob@.skip(4), total) is Some {
            let items = batch_body_decode(blob@.skip(4), total).unwrap();
            assert(models + items =~= items);
        }
    }
    while i < count
        invariant
            0 <= i <= count,
            4 <= off <= n,
            n == blob@.len(),
            total == count as nat,
            models.len() == txs@.len(),
            forall|j: int| 0 <= j < txs@.len() ==> (#[trigger] txs@[j])@ == models[j],
            batch_decode_spec(blob@) == batch_body_decode(blob@.skip(4), total),
            batch_body_decode(blob@.skip(4), total) == match batch_body_decode(
                blob@.skip(off as int),
                (total - i) as nat,
            ) {
                None => None::<Seq<Seq<u8>>>,
                Some(items) => Some(models + items),
            },
        decreases count - i,
    {
        proof {
            lemma_batch_body_unfold(blob@, off as int, (total - i) as nat);
        }
        if n - off < 4 {
            return Err(BatchDecodeError::InvalidEncoding);
        }
        let l_word = decode_u32_le(blob, off);
        let l = l_word as usize;
        if l > n - off - 4 {
            return Err(BatchDecodeError::InvalidEncoding);
        }
        let item = bytes_range(blob, off + 4, off + 4 + l);
        proof {
            let ghost prev = models;
            models = models.push(item@);
            if batch_body_decode(blob@.skip(off + 4 + l), (total - i - 1) as nat) is Some {
                let items = batch_body_decode(blob@.skip(off + 4 + l), (total - i - 1) as nat)
                    .unwrap();
                assert(prev + (seq![item@] + items) =~= models + items);
            }
        }
        txs.push(RawTx { data: item });
        off = off + 4 + l;
        i = i + 1;
    }
    proof {
        reveal_with_fuel(batch_body_decode, 1);
        assert(batch_body_decode(blob@.skip(off as int), 0) == Some(Seq::<Seq<u8>>::empty()));
        assert(models + Seq::<Seq<u8>>::empty() =~= models);
        assert(models =~= raws_view(txs@));
    }
    Ok(Batch { txs })
}

/// The wire encoding of the items, each length-prefixed, in order.
pub open spec fn batch_body_encoding(items: Seq<Seq<u8>>) -> Seq<u8>
    decreases items.len(),
{
    if items.len() == 0 {
        Seq::empty()
    } else {
        u32_le_bytes(items[0].len() as u32) + items[0] + batch_body_encoding(items.skip(1))
    }
}

/// The wire encoding of a whole batch.
pub open spec fn batch_encoding(items: Seq<Seq<u8>>) -> Seq<u8> {
    u32_le_bytes(items.len() as u32) + batch_body_encoding(items)
}

/// Helper: encoding a prefix one item longer appends that item's encoding.
proof fn lemma_batch_body_encoding_snoc(items: Seq<Seq<u8>>, i: int)
    requires
        0 <= i < items.len(),
    ensures
        batch_body_encoding(items.take(i + 1)) == batch_body_encoding(items.take(i))
            + u32_le_bytes(items[i].len() as u32) + items[i],
    decreases i,
{
    reveal_with_fuel(batch_body_encoding, 3);
    if i == 0 {
        assert(items.take(1)[0] == items[0]);
        assert(items.take(1).skip(1) =~= Seq::<Seq<u8>>::empty());
        assert(batch_body_encoding(items.take(0)) =~= Seq::<u8>::empty());
        assert(batch_body_encoding(items.take(1)) =~= u32_le_bytes(items[0].len() as u32)
            + items[0]);
    } else {
        lemma_batch_body_encoding_snoc(items.skip(1), i - 1);
        assert(items.take(i + 1)[0] == items[0]);
        assert(items.take(i + 1).skip(1) =~= items.skip(1).take(i));
        assert(items.take(i).skip(1) =~= items.skip(1).take(i - 1));
        assert(items.take(i)[0] == items[0]);
        assert(items.skip(1)[i - 1] == items[i]);
        assert(batch_body_encoding(items.take(i + 1)) =~= batch_body_encoding(items.take(i))
            + u32_le_bytes(items[i].len() as u32) + items[i]);
    }
}

/// Serializes a batch; every item must fit its 32-bit length prefix.
pub fn encode_batch(b: &Batch) -> (r: Vec<u8>)
    requires
        b@.len() < 0x1_0000_0000,
        forall|i: int| 0 <= i < b@.len() ==> (#[trigger] b@[i]).len() < 0x1_0000_0000,
    ensures
        r@ == batch_encoding(b@),
{
    let mut r = encode_u32_le(b.txs.len() as u32);
    let mut i: usize = 0;
    proof {
        assert(b@.take(0) =~= Seq::<Seq<u8>>::empty());
        assert(r@ + batch_body_encoding(b@.take(0)) =~= r@);
    }
    while i < b.txs.len()
        invariant
            0 <= i <= b.txs@.len(),
            b@.len() == b.txs@.len(),
            b@ == raws_view(b.txs@),
            forall|j: int| 0 <= j < b@.len() ==> (#[trigger] b@[j]).len() < 0x1_0000_0000,
            r@ == u32_le_bytes(b.txs@.len() as u32) + batch_body_encoding(b@.take(i as int)),
        decreases b.txs@.len() - i,
    {
        proof {
            assert(b@[i as int] == b.txs@[i as int]@);
            assert(b@[i as int].len() < 0x1_0000_0000);
        }
        let lp = encode_u32_le(b.txs[i].data.len() as u32);
        bytes_extend(&mut r, &lp);
        bytes_extend(&mut r, &b.txs[i].data);
        proof {
            lemma_batch_body_encoding_snoc(b@, i as int);
        }
        i = i + 1;
    }
    proof {
        assert(b@.take(b@.len() as int) =~= b@);
    }
    r
}


/// Decoding an encoded batch, with any trailing bytes, yields the items
/// back (each item must fit its 32-bit length prefix).
pub proof fn lemma_batch_round_trip(items: Seq<Seq<u8>>, rest: Seq<u8>)
    requires
        items.len() < 0x1_0000_0000,
        forall|i: int| 0 <= i < items.len() ==> (#[trigger] items[i]).len() < 0x1_0000_0000,
    ensures
        batch_decode_spec(batch_encoding(items) + rest) == Some(items),
{
    reveal(crate::bytes::u32_le_bytes);
    let b = batch_encoding(items) + rest;
    crate::bytes::lemma_u32_le_round_trip(items.len() as u32);
    assert(b.subrange(0, 4) =~= u32_le_bytes(items.len() as u32));
    assert(b.skip(4) =~= batch_body_encoding(items) + rest);
    lemma_batch_body_round_trip(items, rest);
}

/// Helper: the length-prefixed items decode back from their own encoding.
proof fn lemma_batch_body_round_trip(items: Seq<Seq<u8>>, rest: Seq<u8>)
    requires
        forall|i: int| 0 <= i < items.len() ==> (#[trigger] items[i]).len() < 0x1_0000_0000,
    ensures
        batch_body_decode(batch_body_encoding(items) + rest, items.len() as nat) == Some(items),
    decreases items.len(),
{
    reveal(crate::bytes::u32_le_bytes);
    reveal_with_fuel(batch_body_decode, 1);
    reveal_with_fuel(batch_body_encoding, 1);
    if items.len() == 0 {
        assert(batch_body_decode(batch_body_encoding(items) + rest, 0) == Some(Seq::<
            Seq<u8>,
        >::empty()));
        assert(items =~= Seq::<Seq<u8>>::empty());
    } else {
        let b = batch_body_encoding(items) + rest;
        let head = items[0];
        crate::bytes::lemma_u32_le_round_trip(head.len() as u32);
        assert(b.subrange(0, 4) =~= u32_le_bytes(head.len() as u32));
        let l = head.len() as int;
        assert(b.subrange(4, 4 + l) =~= head);
        assert(b.skip(4 + l) =~= batch_body_encoding(items.skip(1)) + rest);
        lemma_batch_body_round_trip(items.skip(1), rest);
        assert(seq![head] + items.skip(1) =~= items);
    }
}

} // verus!
