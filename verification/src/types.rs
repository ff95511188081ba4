//! Plain enumerations and one-word bitmaps shared by the closure model.

use vstd::prelude::*;

verus! {

/// One machine word of the runtime.
pub type StgWord = usize;

/// Kind tag that an info table gives to the closures built from it.
#[derive(Clone, Copy, Debug, PartialEq, Eq, Hash, Structural)]
pub enum StgClosureType {
    Constr,
    Constr01,
    Constr02,
    ConstrNoCaf,
    Fun,
    FunStatic,
    Thunk,
    ThunkStatic,
    ThunkSelector,
    Ap,
    Pap,
    ApStack,
    Ind,
    IndStatic,
    BlackHole,
    WhiteHole,
    MVar,
    TVar,
    MutVar,
    ArrWords,
    MutArrPtrs,
    SmallMutArrPtrs,
    Weak,
    Tso,
    Stack,
    TRecChunk,
    BlockingQueue,
}

/// Number of bits of a bitmap word.
pub const BITS_PER_WORD: usize = 64;

/// What the size of a one-word bitmap stays below: the size takes the six
/// low bits of the word.
pub const BITMAP_SIZE_RANGE: usize = 64;

/// `word` shifted right by `n` bits.
pub open spec fn shifted(word: usize, n: nat) -> usize
    decreases n,
{
    if n == 0 {
        word
    } else {
        shifted(word, (n - 1) as nat) / 2
    }
}

/// Whether bit `i` of `word` is zero. Bits beyond the word are zero.
pub open spec fn bit_is_clear(word: usize, i: nat) -> bool {
    shifted(word, i) % 2 == 0
}

/// Shifting by halving is the shift of the machine, and the test of a bit
/// that of the machine, for every bit of a 64-bit word.
pub proof fn lemma_shifted_is_shift(word: usize, n: nat)
    requires
        n < 64,
    ensures
        shifted(word, n) as u64 == (word as u64) >> (n as u64),
        bit_is_clear(word, n) <==> ((word as u64) >> (n as u64)) & 1 == 0,
    decreases n,
{
    let w = word as u64;
    if n > 0 {
        lemma_shifted_is_shift(word, (n - 1) as nat);
        let k = (n - 1) as u64;
        assert(k < 63 ==> (w >> k) / 2 == w >> ((k + 1) as u64)) by (bit_vector);
    } else {
        assert(w >> 0u64 == w) by (bit_vector);
    }
    let s = w >> (n as u64);
    assert((s & 1 == 0) <==> (s % 2 == 0)) by (bit_vector);
}

/// A bitmap that fits one word: its size in the six low bits, one bit per
/// field above them. A zero bit marks a field that holds a reference.
#[derive(Clone, Copy, Debug, PartialEq, Eq, Hash, Structural)]
pub struct StgSmallBitmap(pub StgWord);

impl StgSmallBitmap {
    pub open spec fn spec_size(self) -> usize {
        self.0 % BITMAP_SIZE_RANGE
    }

    pub open spec fn spec_bits(self) -> usize {
        self.0 / BITMAP_SIZE_RANGE
    }

    /// Number of fields that the bitmap describes.
    #[verifier::when_used_as_spec(spec_size)]
    pub fn size(self) -> (n: usize)
        ensures
            n == self.spec_size(),
            n < 64,
    {
        self.0 % BITMAP_SIZE_RANGE
    }

    /// The bits of the bitmap, the first field's bit lowest.
    #[verifier::when_used_as_spec(spec_bits)]
    pub fn bits(self) -> (b: usize)
        ensures
            b == self.spec_bits(),
    {
        self.0 / BITMAP_SIZE_RANGE
    }

    /// The bitmap of `size` fields (below 64) whose bits are the low 58 bits
    /// of `bits`.
    pub fn new(size: usize, bits: usize) -> (b: StgSmallBitmap)
        requires
            size < 64,
            bits <= usize::MAX / 64,
        ensures
            b.spec_size() == size,
            b.spec_bits() == bits,
    {
        StgSmallBitmap(bits * BITMAP_SIZE_RANGE + size)
    }
}

/// How a function's arguments are laid out, as its info table records it.
#[derive(Clone, Copy, Debug, PartialEq, Eq, Hash, Structural)]
pub enum StgFunType {
    /// Generic layout described by the one-word bitmap of the info table.
    ArgGen,
    /// Generic layout described by the multi-word bitmap of the info table.
    ArgGenBig,
    /// Byte-code object.
    ArgBco,
    /// One of the fixed argument patterns, with the one-word bitmap that
    /// belongs to the pattern.
    ArgPattern(StgSmallBitmap),
}

impl StgFunType {
    pub open spec fn spec_get_small_bitmap(&self) -> StgSmallBitmap {
        match *self {
            StgFunType::ArgPattern(b) => b,
            _ => StgSmallBitmap(0),
        }
    }

    /// The one-word bitmap that belongs to the layout itself: that of the
    /// pattern for a fixed pattern, the empty bitmap for the others.
    #[verifier::when_used_as_spec(spec_get_small_bitmap)]
    pub fn get_small_bitmap(&self) -> (b: StgSmallBitmap)
        ensures
            b == self.spec_get_small_bitmap(),
    {
        match self {
            StgFunType::ArgPattern(b) => *b,
            _ => StgSmallBitmap(0),
        }
    }
}

/// Why a thread is not running.
#[derive(Clone, Copy, Debug, PartialEq, Eq, Structural)]
pub enum StgTSOBlocked {
    NotBlocked,
    BlockedOnMVar,
    BlockedOnMVarRead,
    BlockedOnBlackHole,
    BlockedOnRead,
    BlockedOnWrite,
    BlockedOnDelay,
    BlockedOnSTM,
    BlockedOnDoProc,
    BlockedOnCCall,
    BlockedOnCCallInterruptible,
    BlockedOnMsgThrowTo,
    ThreadMigrating,
}

impl StgTSOBlocked {
    /// Whether the thread's block-info field holds a closure reference.
    pub open spec fn spec_has_block_info_closure(self) -> bool {
        self == StgTSOBlocked::BlockedOnMVar || self == StgTSOBlocked::BlockedOnMVarRead
            || self == StgTSOBlocked::BlockedOnBlackHole || self
            == StgTSOBlocked::BlockedOnMsgThrowTo || self == StgTSOBlocked::NotBlocked
    }

    #[verifier::when_used_as_spec(spec_has_block_info_closure)]
    pub fn has_block_info_closure(self) -> (r: bool)
        ensures
            r == self.spec_has_block_info_closure(),
    {
        match self {
            StgTSOBlocked::BlockedOnMVar => true,
            StgTSOBlocked::BlockedOnMVarRead => true,
            StgTSOBlocked::BlockedOnBlackHole => true,
            StgTSOBlocked::BlockedOnMsgThrowTo => true,
            StgTSOBlocked::NotBlocked => true,
            _ => false,
        }
    }
}

} // verus!
