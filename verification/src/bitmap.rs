//! Validity bitmaps: one bit per row, packed eight to a byte, least
//! significant bit first.

use vstd::prelude::*;

verus! {

/// Whether bit `i` of a packed bitmap is set.
pub open spec fn bit_at(bytes: Seq<u8>, i: int) -> bool {
    bytes[i / 8] & (1u8 << ((i % 8) as u8)) != 0
}

/// The number of bytes that hold `len` bits.
pub open spec fn bytes_for(len: int) -> int {
    (len + 7) / 8
}

/// `arrow::util::bit_util::ceil`: the quotient of the two numbers, rounded up.
#[verifier::external_body]
fn ceil(value: usize, divisor: usize) -> (r: usize)
    requires
        divisor > 0,
    ensures
        r == (value + divisor - 1) / (divisor as int),
{
    arrow::util::bit_util::ceil(value, divisor)
}

/// `arrow::util::bit_util::set_bit`: the byte that holds bit `i` gets that bit
/// set, and nothing else changes. The call indexes that byte and does
/// nothing else, so it does not unwind where the byte exists.
#[verifier::external_body]
fn set_bit(data: &mut Vec<u8>, i: usize)
    requires
        i / 8 < old(data)@.len(),
    ensures
        final(data)@ == old(data)@.update(
            (i / 8) as int,
            old(data)@[(i / 8) as int] | (1u8 << ((i % 8) as u8)),
        ),
    no_unwind
{
    arrow::util::bit_util::set_bit(data, i)
}

/// `arrow::util::bit_util::get_bit`: whether bit `i` is set.
#[verifier::external_body]
fn get_bit(data: &Vec<u8>, i: usize) -> (r: bool)
    requires
        i / 8 < data@.len(),
    ensures
        r == bit_at(data@, i as int),
{
    arrow::util::bit_util::get_bit(data, i)
}

proof fn lemma_set_bit_in_byte(b: u8, k: u8, j: u8)
    requires
        k < 8,
        j < 8,
    ensures
        ((b | (1u8 << k)) & (1u8 << j) != 0) == (j == k || (b & (1u8 << j) != 0)),
{
    assert(((b | (1u8 << k)) & (1u8 << j) != 0) == (j == k || (b & (1u8 << j) != 0))) by (bit_vector)
        requires
            k < 8,
            j < 8,
    ;
}

proof fn lemma_zero_byte(j: u8)
    requires
        j < 8,
    ensures
        0u8 & (1u8 << j) == 0,
{
    assert(0u8 & (1u8 << j) == 0) by (bit_vector);
}

/// A validity bitmap of a fixed number of rows.
#[derive(Debug, PartialEq)]
pub struct Bitmap {
    bytes: Vec<u8>,
    len: usize,
}

impl View for Bitmap {
    type V = Seq<bool>;

    closed spec fn view(&self) -> Seq<bool> {
        Seq::new(self.len as nat, |i: int| bit_at(self.bytes@, i))
    }
}

impl Bitmap {
    #[verifier::type_invariant]
    spec fn well_formed(&self) -> bool {
        self.bytes@.len() == bytes_for(self.len as int)
    }

    /// A bitmap of `len` rows with no bit set.
    pub fn zeroed(len: usize) -> (r: Bitmap)
        ensures
            r@ == Seq::new(len as nat, |i: int| false),
    {
        let num_bytes: usize = ceil(len, 8);
        let mut bytes: Vec<u8> = Vec::new();
        let mut i: usize = 0;
        while i < num_bytes
            invariant
                i <= num_bytes,
                bytes@.len() == i,
                forall|j: int| 0 <= j < i ==> bytes@[j] == 0u8,
            decreases num_bytes - i,
        {
            bytes.push(0u8);
            i = i + 1;
        }
        let r = Bitmap { bytes, len };
        proof {
            assert forall|k: int| 0 <= k < len implies !bit_at(r.bytes@, k) by {
                lemma_zero_byte((k % 8) as u8);
            }
            assert(r@ =~= Seq::new(len as nat, |i: int| false));
        }
        r
    }

    /// The number of rows.
    pub fn len(&self) -> (n: usize)
        ensures
            n == self@.len(),
    {
        self.len
    }

    /// The packed bytes, the bit of row `i` being bit `i % 8` of byte `i / 8`.
    pub fn bytes(&self) -> (b: &Vec<u8>)
        ensures
            b@.len() == bytes_for(self@.len() as int),
            forall|i: int| 0 <= i < self@.len() ==> self@[i] == bit_at(b@, i),
    {
        proof {
            use_type_invariant(self);
        }
        &self.bytes
    }

    /// Sets the bit of row `i`.
    pub fn set(&mut self, i: usize)
        requires
            i < old(self)@.len(),
        ensures
            final(self)@ == old(self)@.update(i as int, true),
    {
        proof {
            use_type_invariant(&*self);
        }
        let ghost before = self.bytes@;
        set_bit(&mut self.bytes, i);
        proof {
            assert(self@.len() == old(self)@.len());
            assert forall|k: int| 0 <= k < self.len implies self@[k] == old(self)@.update(
                i as int,
                true,
            )[k] by {
                if k / 8 == i as int / 8 {
                    lemma_set_bit_in_byte(before[k / 8], (i % 8) as u8, (k % 8) as u8);
                }
                assert(self@[k] == bit_at(self.bytes@, k));
                assert(old(self)@[k] == bit_at(before, k));
            }
            assert(self@ =~= old(self)@.update(i as int, true));
        }
    }

    /// Whether the bit of row `i` is set.
    pub fn get(&self, i: usize) -> (r: bool)
        requires
            i < self@.len(),
        ensures
            r == self@[i as int],
    {
        proof {
            use_type_invariant(self);
        }
        get_bit(&self.bytes, i)
    }
}

} // verus!
