//! DFPWM1a: a one-bit adaptive delta modulator over 8-bit PCM levels.
use bitvec::order::Msb0;
use bitvec::vec::BitVec;
use vstd::prelude::*;

verus! {

/// Fixed-point precision of the adaptation gain.
pub const PREC: i32 = 10;

/// Lowest gain the encoder ever settles to once it has seen a sample (`2 << (PREC - 8)`).
pub const STRENGTH_FLOOR: i32 = 8;

/// Gain the adaptation moves toward while consecutive bits agree (`1 << PREC`).
pub const STRENGTH_TARGET: i32 = 1024;

/// Growable bit buffer, filled most significant bit first.
#[verifier::external_body]
pub struct BitBuffer {
    bits: BitVec<u8, Msb0>,
}

/// The bits pushed into a buffer so far, oldest first.
pub uninterp spec fn buffered_bits(b: BitBuffer) -> Seq<bool>;

/// Value of the byte made of bits `base .. base + k` of `bits`, most significant first,
/// where positions past the end count as zero.
pub open spec fn msb_value(bits: Seq<bool>, base: int, k: nat) -> nat
    decreases k,
{
    if k == 0 {
        0
    } else {
        2 * msb_value(bits, base, (k - 1) as nat) + (if base + k - 1 < bits.len()
            && bits[base + k - 1] {
            1nat
        } else {
            0nat
        })
    }
}

/// Bits packed into bytes, most significant bit first, the last byte padded with zeros.
pub open spec fn pack_msb(bits: Seq<bool>) -> Seq<u8> {
    Seq::new(((bits.len() + 7) / 8) as nat, |j: int| msb_value(bits, 8 * j, 8) as u8)
}

/// Bit `p` of `bits`, zero past the end.
pub open spec fn bit_at(bits: Seq<bool>, p: int) -> bool {
    0 <= p < bits.len() && bits[p]
}

/// Two runs of `k` bits that agree bit by bit have the same value.
proof fn lemma_msb_value_agree(s: Seq<bool>, bs: int, t: Seq<bool>, bt: int, k: nat)
    requires
        bs >= 0,
        bt >= 0,
        forall|i: int| 0 <= i < k ==> #[trigger] bit_at(s, bs + i) == bit_at(t, bt + i),
    ensures
        msb_value(s, bs, k) == msb_value(t, bt, k),
    decreases k,
{
    if k > 0 {
        lemma_msb_value_agree(s, bs, t, bt, (k - 1) as nat);
        assert(bit_at(s, bs + k - 1) == bit_at(t, bt + k - 1));
    }
}

/// Packing bits whose first part fills whole bytes packs each part on its own.
pub proof fn lemma_pack_concat(a: Seq<bool>, b: Seq<bool>)
    requires
        a.len() % 8 == 0,
    ensures
        pack_msb(a + b) == pack_msb(a) + pack_msb(b),
{
    let na = a.len() / 8;
    assert((a.len() + b.len() + 7) / 8 == na + (b.len() + 7) / 8);
    assert forall|j: int| 0 <= j < pack_msb(a + b).len() implies #[trigger] pack_msb(a + b)[j] == (
    pack_msb(a) + pack_msb(b))[j] by {
        if j < na {
            assert forall|i: int| 0 <= i < 8 implies #[trigger] bit_at(a + b, 8 * j + i) == bit_at(a, 8 * j + i) by {
                assert(8 * j + i < a.len());
            }
            lemma_msb_value_agree(a + b, 8 * j, a, 8 * j, 8);
        } else {
            assert forall|i: int| 0 <= i < 8 implies #[trigger] bit_at(a + b, 8 * j + i) == bit_at(
                b,
                8 * (j - na) + i,
            ) by {
                assert(8 * j + i - a.len() == 8 * (j - na) + i);
            }
            lemma_msb_value_agree(a + b, 8 * j, b, 8 * (j - na), 8);
        }
    }
    assert(pack_msb(a + b) =~= pack_msb(a) + pack_msb(b));
}

/// Relies on `BitVec::new`: a buffer with no bits.
#[verifier::external_body]
fn buffer_new() -> (r: BitBuffer)
    ensures
        buffered_bits(r) == Seq::<bool>::empty(),
{
    BitBuffer { bits: BitVec::new() }
}

/// Relies on `BitVec::push`: appends one bit after the others. It panics only past
/// `usize::MAX >> 3` bits.
#[verifier::external_body]
fn buffer_push(b: &mut BitBuffer, bit: bool)
    requires
        buffered_bits(*old(b)).len() < usize::MAX / 16,
    ensures
        buffered_bits(*final(b)) == buffered_bits(*old(b)).push(bit),
{
    b.bits.push(bit)
}

/// Relies on `From<BitVec<u8, Msb0>> for Vec<u8>`: the storage bytes, bit 0 of the buffer
/// in the high bit of byte 0. Each storage byte is pushed as zero by `BitVec::push` before
/// its first bit is set, and a `BitBuffer` is only ever grown by pushes, so the padding
/// bits of the last byte are zero.
#[verifier::external_body]
fn buffer_into_bytes(b: BitBuffer) -> (r: Vec<u8>)
    ensures
        r@ == pack_msb(buffered_bits(b)),
{
    Vec::from(b.bits)
}

/// Encoder state, carried from one block of samples to the next.
#[derive(Debug, Clone, Copy, PartialEq, Eq)]
pub struct DfpwmEncoder {
    /// Running prediction of the signal, an 8-bit level.
    pub charge: i32,
    /// Adaptation gain, scaled by `1 << PREC`.
    pub strength: i32,
    /// The bit emitted for the last sample.
    pub previous_bit: bool,
}

/// The bit that the encoder emits for `level` in state `st`.
pub open spec fn bit_for(st: DfpwmEncoder, level: i32) -> bool {
    level > st.charge || (level == st.charge && st.charge == 127)
}

/// One encoding step: the state after `level`, and the bit emitted for it.
pub open spec fn step(st: DfpwmEncoder, level: i32) -> (DfpwmEncoder, bool) {
    let bit = bit_for(st, level);
    let target: int = if bit { 127 } else { -128 };
    let moved: int = st.charge + (st.strength * (target - st.charge) + 512) / 1024;
    let nc: int = if moved == st.charge && moved != target {
        moved + (if bit { 1int } else { -1int })
    } else {
        moved
    };
    let same = bit == st.previous_bit;
    let z: int = if same { STRENGTH_TARGET as int } else { 0 };
    let adapted: int = if st.strength != z {
        st.strength + (if same { 1int } else { -1int })
    } else {
        st.strength as int
    };
    let ns: int = if adapted < STRENGTH_FLOOR { STRENGTH_FLOOR as int } else { adapted };
    (DfpwmEncoder { charge: nc as i32, strength: ns as i32, previous_bit: bit }, bit)
}

/// The state after encoding all of `levels` from `st`.
pub open spec fn state_after(st: DfpwmEncoder, levels: Seq<i32>) -> DfpwmEncoder
    decreases levels.len(),
{
    if levels.len() == 0 {
        st
    } else {
        step(state_after(st, levels.drop_last()), levels.last()).0
    }
}

/// The bits emitted while encoding `levels` from `st`, one per level.
pub open spec fn bits_after(st: DfpwmEncoder, levels: Seq<i32>) -> Seq<bool>
    decreases levels.len(),
{
    if levels.len() == 0 {
        Seq::empty()
    } else {
        bits_after(st, levels.drop_last()).push(
            step(state_after(st, levels.drop_last()), levels.last()).1,
        )
    }
}

/// One step keeps the charge an 8-bit level and the gain within `[0, 1 << PREC]`.
proof fn lemma_step_wf(st: DfpwmEncoder, level: i32)
    requires
        st.wf(),
    ensures
        step(st, level).0.wf(),
{
    let bit = bit_for(st, level);
    let target: int = if bit { 127 } else { -128 };
    let d: int = target - st.charge;
    let s: int = st.strength as int;
    let q: int = (s * d + 512) / 1024;
    if d >= 0 {
        assert(0 <= s * d <= 1024 * d) by (nonlinear_arith)
            requires
                0 <= s <= 1024,
                d >= 0,
        ;
        assert(0 <= q <= d);
    } else {
        assert(1024 * d <= s * d <= 0) by (nonlinear_arith)
            requires
                0 <= s <= 1024,
                d < 0,
        ;
        assert(d <= q <= 0);
    }
}

/// Encoding more levels never changes the bits already emitted, and the state runs on.
proof fn lemma_run_wf(st: DfpwmEncoder, levels: Seq<i32>)
    requires
        st.wf(),
    ensures
        state_after(st, levels).wf(),
        bits_after(st, levels).len() == levels.len(),
    decreases levels.len(),
{
    if levels.len() > 0 {
        lemma_run_wf(st, levels.drop_last());
        lemma_step_wf(state_after(st, levels.drop_last()), levels.last());
    }
}

/// After at least one level, the gain is never below `2 << (PREC - 8)`.
pub proof fn lemma_strength_floor(st: DfpwmEncoder, levels: Seq<i32>)
    requires
        st.wf(),
        levels.len() > 0,
    ensures
        state_after(st, levels).strength >= STRENGTH_FLOOR,
{
    lemma_run_wf(st, levels.drop_last());
}

/// Encoding is a function of the starting state and the levels: two encoders in the same
/// state, fed the same levels, emit the same bits and bytes and end in the same state.
pub proof fn lemma_deterministic(a: DfpwmEncoder, b: DfpwmEncoder, levels: Seq<i32>)
    requires
        a == b,
    ensures
        bits_after(a, levels) == bits_after(b, levels),
        pack_msb(bits_after(a, levels)) == pack_msb(bits_after(b, levels)),
        state_after(a, levels) == state_after(b, levels),
{
}

/// Encoding `first` and then `second` with one encoder emits the same bits, and leaves the
/// same state, as encoding `first + second` at once.
pub proof fn lemma_resumable(st: DfpwmEncoder, first: Seq<i32>, second: Seq<i32>)
    ensures
        state_after(st, first + second) == state_after(state_after(st, first), second),
        bits_after(st, first + second) == bits_after(st, first) + bits_after(
            state_after(st, first),
            second,
        ),
    decreases second.len(),
{
    if second.len() == 0 {
        assert(first + second =~= first);
        assert(bits_after(st, first) + bits_after(state_after(st, first), second) =~= bits_after(
            st,
            first,
        ));
    } else {
        lemma_resumable(st, first, second.drop_last());
        assert((first + second).drop_last() =~= first + second.drop_last());
        assert((first + second).last() == second.last());
        let mid = state_after(st, first);
        assert(bits_after(st, first) + bits_after(mid, second) =~= (bits_after(st, first)
            + bits_after(mid, second.drop_last())).push(
            step(state_after(mid, second.drop_last()), second.last()).1,
        ));
    }
}

/// Split where the first part fills whole bytes, encoding the two parts one after the
/// other with one encoder gives the bytes of encoding them at once.
pub proof fn lemma_resumable_bytes(st: DfpwmEncoder, first: Seq<i32>, second: Seq<i32>)
    requires
        st.wf(),
        first.len() % 8 == 0,
    ensures
        pack_msb(bits_after(st, first + second)) == pack_msb(bits_after(st, first)) + pack_msb(
            bits_after(state_after(st, first), second),
        ),
{
    lemma_resumable(st, first, second);
    lemma_run_wf(st, first);
    lemma_pack_concat(bits_after(st, first), bits_after(state_after(st, first), second));
}

impl DfpwmEncoder {
    /// The state's fields lie where the encoder keeps them: the charge is an 8-bit level
    /// and the gain lies between zero and `1 << PREC`.
    pub open spec fn wf(&self) -> bool {
        -128 <= self.charge <= 127 && 0 <= self.strength <= STRENGTH_TARGET
    }

    /// A fresh encoder: zero charge, zero gain, previous bit low.
    pub fn new() -> (r: Self)
        ensures
            r.charge == 0,
            r.strength == 0,
            !r.previous_bit,
            r.wf(),
    {
        DfpwmEncoder { charge: 0, strength: 0, previous_bit: false }
    }

    /// Encodes one level: updates the state and returns the emitted bit.
    fn advance(&mut self, level: i32) -> (bit: bool)
        requires
            old(self).wf(),
        ensures
            (*final(self), bit) == step(*old(self), level),
            final(self).wf(),
    {
        proof {
            lemma_step_wf(*self, level);
        }
        let bit = level > self.charge || (level == self.charge && self.charge == 127);
        let target: i32 = if bit { 127 } else { -128 };
        let d: i32 = target - self.charge;
        assert(-255 * 1024 <= self.strength * d <= 255 * 1024) by (nonlinear_arith)
            requires
                0 <= self.strength <= 1024,
                -255 <= d <= 255,
        ;
        // Rounds the scaled product: adds half of `1 << PREC`.
        let num: i32 = self.strength * d + 512;
        // The shift works on a value made non-negative by a whole number of steps.
        let lifted: u32 = (num + 256 * 1024) as u32;
        let shifted: u32 = lifted >> (PREC as u32);
        assert(lifted >> 10u32 == lifted / 1024u32) by (bit_vector);
        assert((num + 262144) / 1024 == num / 1024 + 256);
        let mut next_charge: i32 = self.charge + (shifted as i32 - 256);
        if next_charge == self.charge && next_charge != target {
            next_charge = next_charge + if bit { 1i32 } else { -1i32 };
        }
        let same = bit == self.previous_bit;
        let z: i32 = if same { STRENGTH_TARGET } else { 0 };
        let mut next_strength: i32 = self.strength;
        if self.strength != z {
            next_strength = next_strength + if same { 1i32 } else { -1i32 };
        }
        if next_strength < STRENGTH_FLOOR {
            next_strength = STRENGTH_FLOOR;
        }
        self.charge = next_charge;
        self.strength = next_strength;
        self.previous_bit = bit;
        bit
    }

    /// Encodes `levels` (samples already scaled to `[-128, 127]`), one bit per level, packed
    /// most significant bit first. The state carries over to the next call.
    pub fn encode(&mut self, levels: &[i32]) -> (r: Vec<u8>)
        requires
            old(self).wf(),
            levels@.len() <= usize::MAX / 16,
        ensures
            final(self).wf(),
            *final(self) == state_after(*old(self), levels@),
            r@ == pack_msb(bits_after(*old(self), levels@)),
            r@.len() == (levels@.len() + 7) / 8,
            levels@.len() > 0 ==> final(self).strength >= STRENGTH_FLOOR,
    {
        let ghost start = *self;
        let mut out = buffer_new();
        let mut i: usize = 0;
        proof {
            assert(levels@.subrange(0, 0) =~= Seq::<i32>::empty());
        }
        while i < levels.len()
            invariant
                start.wf(),
                self.wf(),
                i <= levels@.len(),
                levels@.len() <= usize::MAX / 16,
                *self == state_after(start, levels@.subrange(0, i as int)),
                buffered_bits(out) == bits_after(start, levels@.subrange(0, i as int)),
            decreases levels@.len() - i,
        {
            let ghost prefix = levels@.subrange(0, i as int);
            let ghost next = levels@.subrange(0, i as int + 1);
            proof {
                assert(next.drop_last() =~= prefix);
                lemma_run_wf(start, prefix);
            }
            let bit = self.advance(levels[i]);
            buffer_push(&mut out, bit);
            i = i + 1;
        }
        proof {
            assert(levels@.subrange(0, i as int) =~= levels@);
            lemma_run_wf(start, levels@);
            if levels@.len() > 0 {
                lemma_strength_floor(start, levels@);
            }
        }
        buffer_into_bytes(out)
    }
}

} // verus!
