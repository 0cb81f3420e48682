//! A most-significant-bit-first reader over a byte stream, for
//! Golomb-style codes: each read hands back the next run of bits of the
//! stream as an unsigned value.

use vstd::prelude::*;

use vstd::arithmetic::power2::pow2;

use crate::bytecodec::ReadCore;
use crate::bytestream::ByteStream;
use crate::fault::Fault;

verus! {

/// Bit number `i` of the stream, counting most significant first within
/// each byte.
pub open spec fn bit_at(d: Seq<u8>, i: int) -> u32 {
    ((d[i / 8] as u32) >> ((7 - (i % 8)) as u32)) & 1
}

/// The value of the `n` bits of the stream that start at bit `start`, most
/// significant first.
pub open spec fn bits_value(d: Seq<u8>, start: int, n: nat) -> int
    decreases n,
{
    if n == 0 {
        0
    } else {
        bits_value(d, start, (n - 1) as nat) * 2 + bit_at(d, start + n - 1)
    }
}

/// A position `8 * q + r` with `r` within a byte splits into byte `q`, bit
/// `r`.
proof fn lemma_byte_pos(q: int, r: int)
    requires
        0 <= r < 8,
        0 <= q,
    ensures
        (8 * q + r) / 8 == q,
        (8 * q + r) % 8 == r,
{
    vstd::arithmetic::div_mod::lemma_div_multiples_vanish_fancy(q, r, 8);
    vstd::arithmetic::div_mod::lemma_fundamental_div_mod(8 * q + r, 8);
}

/// A bit cursor over a byte stream: `offset` counts the bits of the pulled
/// byte already handed out, and the ghost `bitpos` counts the bits handed
/// out since the start of the stream.
pub struct Bitstream {
    pub reader: ByteStream,
    pub byte: u32,
    pub offset: usize,
    pub bitpos: Ghost<nat>,
}

impl Bitstream {
    /// The cursor's structural invariant: the bit position, the pulled byte,
    /// and the reader's cursor stay in step.
    pub open spec fn wf(&self) -> bool {
        &&& 1 <= self.offset <= 8
        &&& self.byte < 0x100
        &&& self.bitpos@ + (8 - self.offset) == 8 * self.reader.pos
        &&& self.reader.pos <= self.reader.data@.len()
        &&& self.offset < 8 ==> self.reader.pos >= 1 && self.byte == self.reader.data@[self.reader.pos - 1] as u32
    }

    /// A bit cursor starting at the reader's position, with no byte pulled.
    pub fn new(reader: ByteStream) -> (r: Bitstream)
        requires
            reader.pos <= reader.data@.len(),
        ensures
            r.wf(),
            r.reader == reader,
            r.bitpos@ == 8 * reader.pos,
    {
        let ghost start = (8 * reader.pos) as nat;
        Bitstream { reader, byte: 0, offset: 8, bitpos: Ghost(start) }
    }

    /// Reads the next `bits` bits of the stream, most significant first,
    /// pulling bytes as they are needed; succeeds exactly when that many
    /// bits lie before the end of the stream, and fails with `Truncated`
    /// otherwise.
    pub fn read(&mut self, bits: usize) -> (r: Result<u32, Fault>)
        requires
            old(self).wf(),
            bits <= 32,
        ensures
            final(self).reader.data == old(self).reader.data,
            (r is Ok <==> old(self).bitpos@ + bits <= 8 * old(self).reader.data@.len()),
            r matches Ok(v) ==> {
                &&& v as int == bits_value(
                    old(self).reader.data@,
                    old(self).bitpos@ as int,
                    bits as nat,
                )
                &&& final(self).wf()
                &&& final(self).bitpos@ == old(self).bitpos@ + bits
            },
            r is Err ==> r == Err::<u32, Fault>(Fault::Truncated),
    {
        let ghost d = self.reader.data@;
        let ghost b0 = self.bitpos@;

        let mut acc: u32 = 0;
        let mut k: usize = 0;
        proof {
            vstd::arithmetic::power2::lemma2_to64();
        }
        while k < bits
            invariant
                self.reader.data == old(self).reader.data,
                d == old(self).reader.data@,
                b0 == old(self).bitpos@,
                self.reader.data@ == d,
                self.bitpos@ == b0,
                bits <= 32,
                k <= bits,
                1 <= self.offset <= 8,
                self.byte < 0x100,
                b0 + k + (8 - self.offset) == 8 * self.reader.pos,
                self.reader.pos <= d.len(),
                self.offset < 8 ==> self.reader.pos >= 1 && self.byte == d[self.reader.pos
                    - 1] as u32,
                acc as int == bits_value(d, b0 as int, k as nat),
                acc < pow2(k as nat),
                pow2(k as nat) <= 0x1_0000_0000,
            decreases bits - k,
        {
            if self.offset == 8 {
                let pulled = match self.reader.read_u8_be() {
                    Ok(pulled) => pulled,
                    Err(_) => {
                        // The stream ended inside the requested run.
                        proof {
                            assert(self.reader.pos == d.len());
                            assert(b0 + k == 8 * d.len());
                        }
                        return Err(Fault::Truncated);
                    },
                };
                self.byte = pulled as u32;
                self.offset = 0;
            }

            let bit: u32 = (self.byte >> ((7 - self.offset) as u32)) & 1;
            proof {
                let i = b0 + k;
                lemma_byte_pos((i as int) / 8, (i as int) % 8);
                if self.offset == 0 {
                    lemma_byte_pos(self.reader.pos - 1, 0);
                    assert(i == 8 * (self.reader.pos - 1));
                } else {
                    lemma_byte_pos(self.reader.pos - 1, self.offset as int);
                    assert(i == 8 * (self.reader.pos - 1) + self.offset);
                }
                let bb = self.byte;
                let sh: u32 = (7 - self.offset) as u32;
                assert((bb >> sh) & 1 <= 1) by (bit_vector);
                assert(bit == bit_at(d, i as int));
                vstd::arithmetic::power2::lemma_pow2_adds(k as nat, 1);
                assert(pow2(k as nat) <= 0x8000_0000) by {
                    vstd::arithmetic::power2::lemma2_to64();
                    if (k as nat) < 31 {
                        vstd::arithmetic::power2::lemma_pow2_strictly_increases(k as nat, 31);
                    }
                }
            }
            acc = acc * 2 + bit;
            self.offset = self.offset + 1;
            k += 1;
            proof {
                vstd::arithmetic::power2::lemma_pow2_adds((k - 1) as nat, 1);
                vstd::arithmetic::power2::lemma2_to64();
                assert(pow2(1) == 2);
                assert(pow2(k as nat) == pow2((k - 1) as nat) * 2) by (nonlinear_arith)
                    requires
                        pow2(k as nat) == pow2((k - 1) as nat) * pow2(1),
                        pow2(1) == 2,
                ;
                assert(acc as int == bits_value(d, b0 as int, k as nat));
                assert(acc < pow2(k as nat));
            }
        }

        self.bitpos = Ghost((b0 + bits) as nat);
        Ok(acc)
    }
}

} // verus!
