//! Fixed-width values exchanged with the emulator as raw little-endian bytes.
use vstd::prelude::*;
use vstd::arithmetic::div_mod::lemma_fundamental_div_mod_converse;
use vstd::arithmetic::mul::lemma_mul_is_distributive_add_other_way;
use vstd::slice::slice_subrange;

verus! {

/// A fixed-width numeric value whose raw byte image can be handed to the
/// emulator's register or memory store and read back.
pub trait RawValue: Sized + Copy {
    /// Number of bytes in the raw image.
    spec fn width() -> nat;

    /// The raw byte image of a value.
    spec fn raw_bytes(self) -> Seq<u8>;

    /// The value whose raw image is `b`.
    spec fn from_raw(b: Seq<u8>) -> Self;

    /// Every width is between one and eight bytes.
    proof fn lemma_width()
        ensures
            1 <= Self::width() <= 8,
    ;

    /// The raw image has the type's width and decodes to the value.
    proof fn lemma_raw_round_trip(self)
        ensures
            self.raw_bytes().len() == Self::width(),
            Self::from_raw(self.raw_bytes()) == self,
    ;

    /// Number of bytes in the raw image.
    fn byte_width() -> (r: usize)
        ensures
            r == Self::width(),
    ;

    /// The raw byte image of the value.
    fn to_raw_bytes(&self) -> (r: Vec<u8>)
        ensures
            r@ == self.raw_bytes(),
    ;

    /// The value whose raw image is `b`.
    fn from_raw_bytes(b: &[u8]) -> (r: Self)
        requires
            b@.len() == Self::width(),
        ensures
            r == Self::from_raw(b@),
    ;
}

impl RawValue for u8 {
    open spec fn width() -> nat {
        1
    }

    open spec fn raw_bytes(self) -> Seq<u8> {
        seq![self]
    }

    open spec fn from_raw(b: Seq<u8>) -> u8 {
        b[0]
    }

    proof fn lemma_width() {
    }

    proof fn lemma_raw_round_trip(self) {
    }

    fn byte_width() -> (r: usize) {
        1
    }

    fn to_raw_bytes(&self) -> (r: Vec<u8>) {
        let mut r: Vec<u8> = Vec::new();
        r.push(*self);
        proof {
            assert(r@ =~= self.raw_bytes());
        }
        r
    }

    fn from_raw_bytes(b: &[u8]) -> (r: u8) {
        b[0]
    }
}

impl RawValue for u16 {
    open spec fn width() -> nat {
        2
    }

    open spec fn raw_bytes(self) -> Seq<u8> {
        seq![self as u8, (self >> 8u16) as u8]
    }

    open spec fn from_raw(b: Seq<u8>) -> u16 {
        (b[0] as u16) | ((b[1] as u16) << 8u16)
    }

    proof fn lemma_width() {
    }

    proof fn lemma_raw_round_trip(self) {
        let v = self;
        assert(((v as u8) as u16) | ((((v >> 8u16) as u8) as u16) << 8u16) == v) by (bit_vector);
    }

    fn byte_width() -> (r: usize) {
        2
    }

    fn to_raw_bytes(&self) -> (r: Vec<u8>) {
        let v = *self;
        let mut r: Vec<u8> = Vec::new();
        r.push(v as u8);
        r.push((v >> 8u16) as u8);
        proof {
            assert(r@ =~= self.raw_bytes());
        }
        r
    }

    fn from_raw_bytes(b: &[u8]) -> (r: u16) {
        (b[0] as u16) | ((b[1] as u16) << 8u16)
    }
}

impl RawValue for u32 {
    open spec fn width() -> nat {
        4
    }

    open spec fn raw_bytes(self) -> Seq<u8> {
        seq![self as u8, (self >> 8u32) as u8, (self >> 16u32) as u8, (self >> 24u32) as u8]
    }

    open spec fn from_raw(b: Seq<u8>) -> u32 {
        (b[0] as u32) | ((b[1] as u32) << 8u32) | ((b[2] as u32) << 16u32) | ((b[3] as u32)
            << 24u32)
    }

    proof fn lemma_width() {
    }

    proof fn lemma_raw_round_trip(self) {
        let v = self;
        assert(((v as u8) as u32) | ((((v >> 8u32) as u8) as u32) << 8u32) | ((((v >> 16u32)
            as u8) as u32) << 16u32) | ((((v >> 24u32) as u8) as u32) << 24u32) == v)
            by (bit_vector);
    }

    fn byte_width() -> (r: usize) {
        4
    }

    fn to_raw_bytes(&self) -> (r: Vec<u8>) {
        let v = *self;
        let mut r: Vec<u8> = Vec::new();
        r.push(v as u8);
        r.push((v >> 8u32) as u8);
        r.push((v >> 16u32) as u8);
        r.push((v >> 24u32) as u8);
        proof {
            assert(r@ =~= self.raw_bytes());
        }
        r
    }

    fn from_raw_bytes(b: &[u8]) -> (r: u32) {
        (b[0] as u32) | ((b[1] as u32) << 8u32) | ((b[2] as u32) << 16u32) | ((b[3] as u32)
            << 24u32)
    }
}

impl RawValue for u64 {
    open spec fn width() -> nat {
        8
    }

    open spec fn raw_bytes(self) -> Seq<u8> {
        seq![
            self as u8,
            (self >> 8u64) as u8,
            (self >> 16u64) as u8,
            (self >> 24u64) as u8,
            (self >> 32u64) as u8,
            (self >> 40u64) as u8,
            (self >> 48u64) as u8,
            (self >> 56u64) as u8,
        ]
    }

    open spec fn from_raw(b: Seq<u8>) -> u64 {
        (b[0] as u64) | ((b[1] as u64) << 8u64) | ((b[2] as u64) << 16u64) | ((b[3] as u64)
            << 24u64) | ((b[4] as u64) << 32u64) | ((b[5] as u64) << 40u64) | ((b[6] as u64)
            << 48u64) | ((b[7] as u64) << 56u64)
    }

    proof fn lemma_width() {
    }

    proof fn lemma_raw_round_trip(self) {
        let v = self;
        assert(((v as u8) as u64) | ((((v >> 8u64) as u8) as u64) << 8u64) | ((((v >> 16u64)
            as u8) as u64) << 16u64) | ((((v >> 24u64) as u8) as u64) << 24u64) | ((((v
            >> 32u64) as u8) as u64) << 32u64) | ((((v >> 40u64) as u8) as u64) << 40u64) | ((((v
            >> 48u64) as u8) as u64) << 48u64) | ((((v >> 56u64) as u8) as u64) << 56u64) == v)
            by (bit_vector);
    }

    fn byte_width() -> (r: usize) {
        8
    }

    fn to_raw_bytes(&self) -> (r: Vec<u8>) {
        let v = *self;
        let mut r: Vec<u8> = Vec::new();
        r.push(v as u8);
        r.push((v >> 8u64) as u8);
        r.push((v >> 16u64) as u8);
        r.push((v >> 24u64) as u8);
        r.push((v >> 32u64) as u8);
        r.push((v >> 40u64) as u8);
        r.push((v >> 48u64) as u8);
        r.push((v >> 56u64) as u8);
        proof {
            assert(r@ =~= self.raw_bytes());
        }
        r
    }

    fn from_raw_bytes(b: &[u8]) -> (r: u64) {
        (b[0] as u64) | ((b[1] as u64) << 8u64) | ((b[2] as u64) << 16u64) | ((b[3] as u64)
            << 24u64) | ((b[4] as u64) << 32u64) | ((b[5] as u64) << 40u64) | ((b[6] as u64)
            << 48u64) | ((b[7] as u64) << 56u64)
    }
}

impl RawValue for i32 {
    open spec fn width() -> nat {
        4
    }

    open spec fn raw_bytes(self) -> Seq<u8> {
        (self as u32).raw_bytes()
    }

    open spec fn from_raw(b: Seq<u8>) -> i32 {
        u32::from_raw(b) as i32
    }

    proof fn lemma_width() {
    }

    proof fn lemma_raw_round_trip(self) {
        let v = self;
        (v as u32).lemma_raw_round_trip();
        assert((v as u32) as i32 == v) by (bit_vector);
    }

    fn byte_width() -> (r: usize) {
        4
    }

    fn to_raw_bytes(&self) -> (r: Vec<u8>) {
        (*self as u32).to_raw_bytes()
    }

    fn from_raw_bytes(b: &[u8]) -> (r: i32) {
        u32::from_raw_bytes(b) as i32
    }
}

impl RawValue for i64 {
    open spec fn width() -> nat {
        8
    }

    open spec fn raw_bytes(self) -> Seq<u8> {
        (self as u64).raw_bytes()
    }

    open spec fn from_raw(b: Seq<u8>) -> i64 {
        u64::from_raw(b) as i64
    }

    proof fn lemma_width() {
    }

    proof fn lemma_raw_round_trip(self) {
        let v = self;
        (v as u64).lemma_raw_round_trip();
        assert((v as u64) as i64 == v) by (bit_vector);
    }

    fn byte_width() -> (r: usize) {
        8
    }

    fn to_raw_bytes(&self) -> (r: Vec<u8>) {
        (*self as u64).to_raw_bytes()
    }

    fn from_raw_bytes(b: &[u8]) -> (r: i64) {
        u64::from_raw_bytes(b) as i64
    }
}

/// The bytes of a buffer laid end to end: byte `k` is byte `k % width` of
/// element `k / width`.
pub open spec fn image<T: RawValue>(s: Seq<T>) -> Seq<u8> {
    Seq::new(s.len() * T::width(), |k: int| s[k / T::width() as int].raw_bytes()[k % T::width() as int])
}

/// The `n` elements whose raw images lie end to end in `raw`.
pub open spec fn decode<T: RawValue>(raw: Seq<u8>, n: nat) -> Seq<T> {
    Seq::new(n, |i: int| T::from_raw(raw.subrange(i * T::width(), i * T::width() + T::width())))
}

/// Byte `k` of a block of width `w` that starts at `i * w` lies in element `i`.
proof fn lemma_in_block(i: int, w: int, k: int)
    requires
        0 <= i,
        0 < w,
        i * w <= k < i * w + w,
    ensures
        k / w == i,
        k % w == k - i * w,
{
    lemma_fundamental_div_mod_converse(k, w, i, k - i * w);
}

/// Element `i` of a buffer of `n` elements of width `w` ends within `n * w`.
proof fn lemma_block_fits(i: int, n: int, w: int)
    requires
        0 <= i < n,
        0 < w,
    ensures
        i * w + w <= n * w,
{
    lemma_mul_is_distributive_add_other_way(w, i, 1);
    assert((i + 1) * w <= n * w) by (nonlinear_arith)
        requires
            i + 1 <= n,
            0 < w,
    ;
}

/// Writing a buffer to memory and reading as many bytes back reproduces the
/// buffer: its raw image holds `width` bytes per element, and those bytes
/// decode to the buffer, whatever its length.
pub proof fn lemma_memory_copy_fidelity<T: RawValue>(s: Seq<T>)
    ensures
        image(s).len() == s.len() * T::width(),
        decode::<T>(image(s), s.len()) == s,
{
    T::lemma_width();
    let w = T::width() as int;
    let img = image(s);
    assert forall|i: int| 0 <= i < s.len() implies #[trigger] decode::<T>(img, s.len())[i]
        == s[i] by {
        lemma_block_fits(i, s.len() as int, w);
        s[i].lemma_raw_round_trip();
        assert forall|j: int| 0 <= j < w implies img.subrange(i * w, i * w + w)[j]
            == s[i].raw_bytes()[j] by {
            lemma_in_block(i, w, i * w + j);
        }
        assert(img.subrange(i * w, i * w + w) =~= s[i].raw_bytes());
    }
    assert(decode::<T>(img, s.len()) =~= s);
}

/// The raw image of a buffer, element after element.
pub fn encode_slice<T: RawValue>(buf: &[T]) -> (r: Vec<u8>)
    ensures
        r@ == image(buf@),
{
    proof {
        T::lemma_width();
    }
    let ghost w = T::width() as int;
    let mut r: Vec<u8> = Vec::new();
    let mut i: usize = 0;
    while i < buf.len()
        invariant
            0 <= i <= buf@.len(),
            w == T::width(),
            1 <= w <= 8,
            r@.len() == i * w,
            forall|k: int|
                0 <= k < r@.len() ==> #[trigger] r@[k] == buf@[k / w].raw_bytes()[k % w],
        decreases buf@.len() - i,
    {
        let mut b = buf[i].to_raw_bytes();
        proof {
            buf@[i as int].lemma_raw_round_trip();
        }
        let ghost prev = r@;
        r.append(&mut b);
        proof {
            assert forall|k: int| 0 <= k < r@.len() implies #[trigger] r@[k] == buf@[k
                / w].raw_bytes()[k % w] by {
                if k >= prev.len() {
                    lemma_in_block(i as int, w, k);
                } else {
                    assert(r@[k] == prev[k]);
                }
            }
            assert(r@.len() == (i + 1) * w) by (nonlinear_arith)
                requires
                    r@.len() == i * w + w,
            ;
        }
        i = i + 1;
    }
    proof {
        assert(r@ =~= image(buf@));
    }
    r
}

/// Overwrites every element of `buf` with the value whose raw image lies at
/// its place in `raw`.
pub fn decode_into<T: RawValue>(raw: &[u8], buf: &mut [T])
    requires
        raw@.len() == old(buf)@.len() * T::width(),
    ensures
        final(buf)@ == decode::<T>(raw@, old(buf)@.len()),
{
    proof {
        T::lemma_width();
    }
    let w = T::byte_width();
    let n = buf.len();
    let len = raw.len();
    let mut i: usize = 0;
    while i < n
        invariant
            0 <= i <= n,
            n == buf@.len(),
            w == T::width(),
            1 <= w <= 8,
            raw@.len() == n * w,
            len == raw@.len(),
            forall|j: int|
                0 <= j < i ==> #[trigger] buf@[j] == decode::<T>(raw@, n as nat)[j],
        decreases n - i,
    {
        proof {
            lemma_block_fits(i as int, n as int, w as int);
            assert(0 <= i * w) by (nonlinear_arith)
                requires
                    0 <= i,
                    0 <= w,
            ;
        }
        let start = i * w;
        let chunk = slice_subrange(raw, start, start + w);
        buf[i] = T::from_raw_bytes(chunk);
        i = i + 1;
    }
    proof {
        assert(buf@ =~= decode::<T>(raw@, n as nat));
    }
}

} // verus!
