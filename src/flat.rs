//! Fixed-size values that travel as raw bytes.
use vstd::prelude::*;

verus! {

/// A fixed-size, pointer-free shape that is read from and written to another
/// process as its in-memory bytes (least significant byte first).
pub trait Flat: Sized {
    /// Number of bytes one value occupies.
    spec fn size_spec() -> nat;

    /// The bytes that represent `v`.
    spec fn to_bytes_spec(v: Self) -> Seq<u8>;

    /// The value that `b` (of `size_spec()` bytes) represents.
    spec fn from_bytes_spec(b: Seq<u8>) -> Self;

    /// Every value has a representation of the right size, and reading that
    /// representation back yields the value.
    proof fn lemma_round_trip(v: Self)
        ensures
            Self::to_bytes_spec(v).len() == Self::size_spec(),
            Self::from_bytes_spec(Self::to_bytes_spec(v)) == v,
    ;

    /// Every byte sequence of the right size is the representation of the
    /// value it decodes to.
    proof fn lemma_bytes_round_trip(b: Seq<u8>)
        requires
            b.len() == Self::size_spec(),
        ensures
            Self::to_bytes_spec(Self::from_bytes_spec(b)) == b,
    ;

    /// A value occupies at least one byte.
    proof fn lemma_size_positive()
        ensures
            0 < Self::size_spec(),
    ;

    fn size() -> (r: usize)
        ensures
            r == Self::size_spec(),
    ;

    /// Decodes the value stored at `b[start..start + size]`.
    fn from_bytes_at(b: &[u8], start: usize) -> (r: Self)
        requires
            start + Self::size_spec() <= b@.len(),
        ensures
            r == Self::from_bytes_spec(b@.subrange(start as int, start + Self::size_spec())),
    ;

    fn to_bytes(&self) -> (r: Vec<u8>)
        ensures
            r@ == Self::to_bytes_spec(*self),
    ;
}

impl Flat for u8 {
    open spec fn size_spec() -> nat {
        1
    }

    open spec fn to_bytes_spec(v: u8) -> Seq<u8> {
        seq![v]
    }

    open spec fn from_bytes_spec(b: Seq<u8>) -> u8 {
        b[0]
    }

    proof fn lemma_round_trip(v: u8) {
    }

    proof fn lemma_bytes_round_trip(b: Seq<u8>) {
        assert(seq![b[0]] =~= b);
    }

    proof fn lemma_size_positive() {
    }

    fn size() -> (r: usize) {
        1
    }

    fn from_bytes_at(b: &[u8], start: usize) -> (r: u8) {
        b[start]
    }

    fn to_bytes(&self) -> (r: Vec<u8>) {
        let mut r: Vec<u8> = Vec::new();
        r.push(*self);
        r
    }
}

impl Flat for u16 {
    open spec fn size_spec() -> nat {
        2
    }

    open spec fn to_bytes_spec(v: u16) -> Seq<u8> {
        seq![v as u8, (v >> 8u16) as u8]
    }

    open spec fn from_bytes_spec(b: Seq<u8>) -> u16 {
        (b[0] as u16) | ((b[1] as u16) << 8u16)
    }

    proof fn lemma_round_trip(v: u16) {
        assert(((v as u8) as u16) | ((((v >> 8u16) as u8) as u16) << 8u16) == v) by (bit_vector);
    }

    proof fn lemma_bytes_round_trip(b: Seq<u8>) {
        let (b0, b1) = (b[0], b[1]);
        let x = Self::from_bytes_spec(b);
        assert(x as u8 == b0 && (x >> 8u16) as u8 == b1) by (bit_vector)
            requires
                x == (b0 as u16) | ((b1 as u16) << 8u16),
        ;
        assert(Self::to_bytes_spec(x) =~= b);
    }

    proof fn lemma_size_positive() {
    }

    fn size() -> (r: usize) {
        2
    }

    fn from_bytes_at(b: &[u8], start: usize) -> (r: u16) {
        (b[start] as u16) | ((b[start + 1] as u16) << 8u16)
    }

    fn to_bytes(&self) -> (r: Vec<u8>) {
        let v = *self;
        let mut r: Vec<u8> = Vec::new();
        r.push(v as u8);
        r.push((v >> 8u16) as u8);
        assert(r@ =~= Self::to_bytes_spec(v));
        r
    }
}

impl Flat for u32 {
    open spec fn size_spec() -> nat {
        4
    }

    open spec fn to_bytes_spec(v: u32) -> Seq<u8> {
        seq![v as u8, (v >> 8u32) as u8, (v >> 16u32) as u8, (v >> 24u32) as u8]
    }

    open spec fn from_bytes_spec(b: Seq<u8>) -> u32 {
        (b[0] as u32) | ((b[1] as u32) << 8u32) | ((b[2] as u32) << 16u32) | ((b[3] as u32) << 24u32)
    }

    proof fn lemma_round_trip(v: u32) {
        assert(((v as u8) as u32) | ((((v >> 8u32) as u8) as u32) << 8u32) | ((((v >> 16u32) as u8) as u32) << 16u32)
            | ((((v >> 24u32) as u8) as u32) << 24u32) == v) by (bit_vector);
    }

    proof fn lemma_bytes_round_trip(b: Seq<u8>) {
        let (b0, b1, b2, b3) = (b[0], b[1], b[2], b[3]);
        let x = Self::from_bytes_spec(b);
        assert(x as u8 == b0 && (x >> 8u32) as u8 == b1 && (x >> 16u32) as u8 == b2 && (x >> 24u32) as u8 == b3)
            by (bit_vector)
            requires
                x == (b0 as u32) | ((b1 as u32) << 8u32) | ((b2 as u32) << 16u32) | ((b3 as u32) << 24u32),
        ;
        assert(Self::to_bytes_spec(x) =~= b);
    }

    proof fn lemma_size_positive() {
    }

    fn size() -> (r: usize) {
        4
    }

    fn from_bytes_at(b: &[u8], start: usize) -> (r: u32) {
        (b[start] as u32) | ((b[start + 1] as u32) << 8u32) | ((b[start + 2] as u32) << 16u32) | ((b[start + 3] as u32) << 24u32)
    }

    fn to_bytes(&self) -> (r: Vec<u8>) {
        let v = *self;
        let mut r: Vec<u8> = Vec::new();
        r.push(v as u8);
        r.push((v >> 8u32) as u8);
        r.push((v >> 16u32) as u8);
        r.push((v >> 24u32) as u8);
        assert(r@ =~= Self::to_bytes_spec(v));
        r
    }
}

impl Flat for u64 {
    open spec fn size_spec() -> nat {
        8
    }

    open spec fn to_bytes_spec(v: u64) -> Seq<u8> {
        seq![
            v as u8,
            (v >> 8u64) as u8,
            (v >> 16u64) as u8,
            (v >> 24u64) as u8,
            (v >> 32u64) as u8,
            (v >> 40u64) as u8,
            (v >> 48u64) as u8,
            (v >> 56u64) as u8,
        ]
    }

    open spec fn from_bytes_spec(b: Seq<u8>) -> u64 {
        (b[0] as u64) | ((b[1] as u64) << 8u64) | ((b[2] as u64) << 16u64) | ((b[3] as u64) << 24u64)
            | ((b[4] as u64) << 32u64) | ((b[5] as u64) << 40u64) | ((b[6] as u64) << 48u64) | ((b[7] as u64)
            << 56u64)
    }

    proof fn lemma_round_trip(v: u64) {
        assert(((v as u8) as u64) | ((((v >> 8u64) as u8) as u64) << 8u64) | ((((v >> 16u64) as u8) as u64) << 16u64)
            | ((((v >> 24u64) as u8) as u64) << 24u64) | ((((v >> 32u64) as u8) as u64) << 32u64) | ((((v
            >> 40u64) as u8) as u64) << 40u64) | ((((v >> 48u64) as u8) as u64) << 48u64) | ((((v >> 56u64)
            as u8) as u64) << 56u64) == v) by (bit_vector);
    }

    proof fn lemma_bytes_round_trip(b: Seq<u8>) {
        let (b0, b1, b2, b3, b4, b5, b6, b7) = (b[0], b[1], b[2], b[3], b[4], b[5], b[6], b[7]);
        let x = Self::from_bytes_spec(b);
        assert(x as u8 == b0 && (x >> 8u64) as u8 == b1 && (x >> 16u64) as u8 == b2 && (x >> 24u64) as u8 == b3
            && (x >> 32u64) as u8 == b4 && (x >> 40u64) as u8 == b5 && (x >> 48u64) as u8 == b6 && (x >> 56u64)
            as u8 == b7) by (bit_vector)
            requires
                x == (b0 as u64) | ((b1 as u64) << 8u64) | ((b2 as u64) << 16u64) | ((b3 as u64) << 24u64) | ((b4
                    as u64) << 32u64) | ((b5 as u64) << 40u64) | ((b6 as u64) << 48u64) | ((b7 as u64) << 56u64),
        ;
        assert(Self::to_bytes_spec(x) =~= b);
    }

    proof fn lemma_size_positive() {
    }

    fn size() -> (r: usize) {
        8
    }

    fn from_bytes_at(b: &[u8], start: usize) -> (r: u64) {
        (b[start] as u64) | ((b[start + 1] as u64) << 8u64) | ((b[start + 2] as u64) << 16u64) | ((b[start + 3] as u64)
            << 24u64) | ((b[start + 4] as u64) << 32u64) | ((b[start + 5] as u64) << 40u64) | ((b[start
            + 6] as u64) << 48u64) | ((b[start + 7] as u64) << 56u64)
    }

    fn to_bytes(&self) -> (r: Vec<u8>) {
        let v = *self;
        let mut r: Vec<u8> = Vec::new();
        r.push(v as u8);
        r.push((v >> 8u64) as u8);
        r.push((v >> 16u64) as u8);
        r.push((v >> 24u64) as u8);
        r.push((v >> 32u64) as u8);
        r.push((v >> 40u64) as u8);
        r.push((v >> 48u64) as u8);
        r.push((v >> 56u64) as u8);
        assert(r@ =~= Self::to_bytes_spec(v));
        r
    }
}

impl Flat for i32 {
    open spec fn size_spec() -> nat {
        4
    }

    open spec fn to_bytes_spec(v: i32) -> Seq<u8> {
        u32::to_bytes_spec(v as u32)
    }

    open spec fn from_bytes_spec(b: Seq<u8>) -> i32 {
        u32::from_bytes_spec(b) as i32
    }

    proof fn lemma_round_trip(v: i32) {
        u32::lemma_round_trip(v as u32);
        assert((v as u32) as i32 == v) by (bit_vector);
    }

    proof fn lemma_bytes_round_trip(b: Seq<u8>) {
        let x = u32::from_bytes_spec(b);
        u32::lemma_bytes_round_trip(b);
        assert((x as i32) as u32 == x) by (bit_vector);
    }

    proof fn lemma_size_positive() {
    }

    fn size() -> (r: usize) {
        4
    }

    fn from_bytes_at(b: &[u8], start: usize) -> (r: i32) {
        u32::from_bytes_at(b, start) as i32
    }

    fn to_bytes(&self) -> (r: Vec<u8>) {
        (*self as u32).to_bytes()
    }
}

impl Flat for i64 {
    open spec fn size_spec() -> nat {
        8
    }

    open spec fn to_bytes_spec(v: i64) -> Seq<u8> {
        u64::to_bytes_spec(v as u64)
    }

    open spec fn from_bytes_spec(b: Seq<u8>) -> i64 {
        u64::from_bytes_spec(b) as i64
    }

    proof fn lemma_round_trip(v: i64) {
        u64::lemma_round_trip(v as u64);
        assert((v as u64) as i64 == v) by (bit_vector);
    }

    proof fn lemma_bytes_round_trip(b: Seq<u8>) {
        let x = u64::from_bytes_spec(b);
        u64::lemma_bytes_round_trip(b);
        assert((x as i64) as u64 == x) by (bit_vector);
    }

    proof fn lemma_size_positive() {
    }

    fn size() -> (r: usize) {
        8
    }

    fn from_bytes_at(b: &[u8], start: usize) -> (r: i64) {
        u64::from_bytes_at(b, start) as i64
    }

    fn to_bytes(&self) -> (r: Vec<u8>) {
        (*self as u64).to_bytes()
    }
}

} // verus!
