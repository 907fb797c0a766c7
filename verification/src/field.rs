use vstd::prelude::*;
use vstd::bytes::lemma_auto_spec_u128_to_from_le_bytes;
use vstd::bytes::spec_u128_from_le_bytes;
use vstd::bytes::spec_u128_to_le_bytes;
use vstd::bytes::u128_from_le_bytes;
use vstd::bytes::u128_to_le_bytes;
use vstd::slice::slice_subrange;

verus! {

/// The capability a native field-element type must offer to this core: a
/// fixed maximum bit width, a deterministic self-delimiting byte encoding
/// with its decoder, equality, and proofs that the two sides of the codec
/// agree. The core performs no field arithmetic.
pub trait FieldElement: Sized {
    /// The maximum number of bits a value of the native field can take.
    spec fn spec_max_num_bits() -> u32;

    /// The deterministic encoding of this element.
    spec fn encoding(self) -> Seq<u8>;

    /// The decoder matching `encoding`, reading at `pos`; on success it
    /// returns the element together with the position just after it.
    spec fn decoding(s: Seq<u8>, pos: int) -> Option<(Self, int)>;

    /// A successful decode consumes at least one byte and stays in bounds.
    proof fn lemma_decoding_advances(s: Seq<u8>, pos: int)
        ensures
            match Self::decoding(s, pos) {
                Some(r) => pos < r.1 <= s.len(),
                None => true,
            },
    ;

    /// Wherever the bytes of `self.encoding()` stand, decoding from their
    /// start yields `self` back and stops just after them.
    proof fn lemma_codec_round_trip(self, s: Seq<u8>, pos: int)
        requires
            0 <= pos,
            pos + self.encoding().len() <= s.len(),
            s.subrange(pos, pos + self.encoding().len() as int) == self.encoding(),
        ensures
            Self::decoding(s, pos) == Some((self, pos + self.encoding().len() as int)),
    ;

    fn max_num_bits() -> (r: u32)
        ensures
            r == Self::spec_max_num_bits(),
    ;

    fn encode(&self, out: &mut Vec<u8>)
        ensures
            final(out)@ == old(out)@ + self.encoding(),
    ;

    fn decode(data: &[u8], pos: usize) -> (r: Option<(Self, usize)>)
        ensures
            match r {
                Some(p) => Self::decoding(data@, pos as int) == Some((p.0, p.1 as int)),
                None => Self::decoding(data@, pos as int) is None,
            },
    ;
}

/// An element of a 254-bit native field, carried as 256 bits of raw data in
/// two little-endian halves. This core never computes on field elements, so
/// no reduction against a modulus is performed here.
#[derive(Debug, Clone, Copy, PartialEq, Eq, Hash, Structural)]
pub struct Field254 {
    pub low: u128,
    pub high: u128,
}

impl FieldElement for Field254 {
    open spec fn spec_max_num_bits() -> u32 {
        254
    }

    open spec fn encoding(self) -> Seq<u8> {
        spec_u128_to_le_bytes(self.low) + spec_u128_to_le_bytes(self.high)
    }

    open spec fn decoding(s: Seq<u8>, pos: int) -> Option<(Field254, int)> {
        if 0 <= pos && pos + 32 <= s.len() {
            Some(
                (
                    Field254 {
                        low: spec_u128_from_le_bytes(s.subrange(pos, pos + 16)),
                        high: spec_u128_from_le_bytes(s.subrange(pos + 16, pos + 32)),
                    },
                    pos + 32,
                ),
            )
        } else {
            None
        }
    }

    proof fn lemma_decoding_advances(s: Seq<u8>, pos: int) {
    }

    proof fn lemma_codec_round_trip(self, s: Seq<u8>, pos: int) {
        lemma_auto_spec_u128_to_from_le_bytes();
        assert(s.subrange(pos, pos + 16) =~= self.encoding().subrange(0, 16));
        assert(s.subrange(pos + 16, pos + 32) =~= self.encoding().subrange(16, 32));
        assert(self.encoding().subrange(0, 16) =~= spec_u128_to_le_bytes(self.low));
        assert(self.encoding().subrange(16, 32) =~= spec_u128_to_le_bytes(self.high));
    }

    fn max_num_bits() -> u32 {
        254
    }

    fn encode(&self, out: &mut Vec<u8>) {
        let mut lo = u128_to_le_bytes(self.low);
        let mut hi = u128_to_le_bytes(self.high);
        out.append(&mut lo);
        out.append(&mut hi);
        proof {
            assert(final(out)@ =~= old(out)@ + self.encoding());
        }
    }

    fn decode(data: &[u8], pos: usize) -> (r: Option<(Field254, usize)>) {
        if pos <= data.len() && data.len() - pos >= 32 {
            let low = u128_from_le_bytes(slice_subrange(data, pos, pos + 16));
            let high = u128_from_le_bytes(slice_subrange(data, pos + 16, pos + 32));
            Some((Field254 { low, high }, pos + 32))
        } else {
            None
        }
    }
}

} // verus!
