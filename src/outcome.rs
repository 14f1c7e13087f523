//! Turning the outcome of a raw byte transfer into typed results.
use vstd::prelude::*;

use crate::error::ProcError;
use crate::flat::Flat;

verus! {

/// A transfer of `len` bytes reported success and moved every byte.
pub open spec fn is_full(r: (bool, usize), len: nat) -> bool {
    r.0 && r.1 == len
}

/// What a typed read yields from transfer outcome `r` and buffer contents `b`.
pub open spec fn read_result<T: Flat>(r: (bool, usize), b: Seq<u8>) -> Result<T, ProcError> {
    if is_full(r, T::size_spec()) && b.len() == T::size_spec() {
        Ok(T::from_bytes_spec(b))
    } else {
        Err(ProcError::TransferFailed)
    }
}

/// The value of a result, if there is one.
pub open spec fn ok_of<T>(r: Result<T, ProcError>) -> Option<T> {
    match r {
        Ok(v) => Some(v),
        Err(_) => None,
    }
}

/// The `n` consecutive values stored in `b`.
pub open spec fn decode_all<T: Flat>(b: Seq<u8>, n: nat) -> Seq<T> {
    Seq::new(n, |i: int| T::from_bytes_spec(b.subrange(i * T::size_spec(), (i + 1) * T::size_spec())))
}

/// What a sequence read of `n` values yields from outcome `r` and buffer `b`.
pub open spec fn sequence_result<T: Flat>(r: (bool, usize), b: Seq<u8>, n: nat) -> Result<Seq<T>, ProcError> {
    if is_full(r, n * T::size_spec()) && b.len() == n * T::size_spec() {
        Ok(decode_all::<T>(b, n))
    } else {
        Err(ProcError::TransferFailed)
    }
}

/// The outcome a backend that only knows all-or-nothing transfers reports:
/// the whole length when the transfer completed, nothing otherwise.
pub fn exact_transfer(done: bool, len: usize) -> (r: (bool, usize))
    ensures
        r == (if done { (true, len) } else { (false, 0usize) }),
{
    if done {
        (true, len)
    } else {
        (false, 0)
    }
}

/// A destination buffer of `len` zero bytes.
pub fn zeroed_buffer(len: usize) -> (r: Vec<u8>)
    ensures
        r@ == Seq::new(len as nat, |i: int| 0u8),
{
    let mut r: Vec<u8> = Vec::new();
    let mut i: usize = 0;
    while i < len
        invariant
            i <= len,
            r@ == Seq::new(i as nat, |j: int| 0u8),
        decreases len - i,
    {
        r.push(0);
        i = i + 1;
        assert(r@ =~= Seq::new(i as nat, |j: int| 0u8));
    }
    r
}

/// Interprets a finished single-value transfer into `buf`.
pub fn settle_read<T: Flat>(r: (bool, usize), buf: &[u8]) -> (res: Result<T, ProcError>)
    ensures
        res == read_result::<T>(r, buf@),
{
    let size = T::size();
    if r.0 && r.1 == size && buf.len() == size {
        assert(buf@.subrange(0, size as int) =~= buf@);
        Ok(T::from_bytes_at(buf, 0))
    } else {
        Err(ProcError::TransferFailed)
    }
}

/// Interprets a finished single-value transfer, then lets `validator` accept
/// or reject the value. The validator only ever sees a fully transferred value.
pub fn settle_validated<T: Flat, F: Fn(&T) -> bool>(r: (bool, usize), buf: &[u8], validator: F) -> (res: Result<
    T,
    ProcError,
>)
    requires
        forall|v: T| validator.requires((&v,)),
    ensures
        match read_result::<T>(r, buf@) {
            Err(e) => res == Err::<T, ProcError>(e),
            Ok(v) => (res == Ok::<T, ProcError>(v) && validator.ensures((&v,), true)) || (res == Err::<
                T,
                ProcError,
            >(ProcError::ValidationRejected) && validator.ensures((&v,), false)),
        },
        (forall|v: T| !validator.ensures((&v,), true)) ==> res is Err,
{
    match settle_read::<T>(r, buf) {
        Err(e) => Err(e),
        Ok(v) => {
            if validator(&v) {
                Ok(v)
            } else {
                Err(ProcError::ValidationRejected)
            }
        },
    }
}

/// Builds `len` values, each from one call of `default_provider`. With
/// `len == 0` the provider is never called, so it need not be callable.
pub fn fill_with<T, F: Fn() -> T>(len: usize, default_provider: F) -> (r: Vec<T>)
    requires
        len > 0 ==> default_provider.requires(()),
    ensures
        r.len() == len,
        forall|i: int| 0 <= i < len ==> default_provider.ensures((), #[trigger] r@[i]),
{
    let mut r: Vec<T> = Vec::new();
    let mut i: usize = 0;
    while i < len
        invariant
            i <= len,
            r.len() == i,
            len > 0 ==> default_provider.requires(()),
            forall|j: int| 0 <= j < i ==> default_provider.ensures((), #[trigger] r@[j]),
        decreases len - i,
    {
        let v = default_provider();
        r.push(v);
        i = i + 1;
    }
    r
}

proof fn lemma_chunk_in_bounds(i: int, n: int, s: int)
    requires
        0 <= i < n,
        0 < s,
    ensures
        0 <= i * s,
        (i + 1) * s == i * s + s,
        i * s + s <= n * s,
{
    assert(0 <= i * s) by (nonlinear_arith)
        requires
            0 <= i,
            0 < s,
    ;
    assert((i + 1) * s == i * s + s) by (nonlinear_arith);
    assert((i + 1) * s <= n * s) by (nonlinear_arith)
        requires
            i + 1 <= n,
            0 < s,
    ;
}

/// Interprets a finished sequence transfer into `buf`: on full success every
/// element of `items` is overwritten by the value stored at its place in `buf`.
pub fn settle_sequence<T: Flat>(r: (bool, usize), buf: &[u8], items: Vec<T>) -> (res: Result<Vec<T>, ProcError>)
    ensures
        res is Ok <==> sequence_result::<T>(r, buf@, items.len() as nat) is Ok,
        res matches Ok(v) ==> sequence_result::<T>(r, buf@, items.len() as nat) == Ok::<Seq<T>, ProcError>(v@),
        res matches Err(e) ==> e == ProcError::TransferFailed,
{
    let ghost n = items.len() as nat;
    let size = T::size();
    proof {
        T::lemma_size_positive();
    }
    let total = items.len().checked_mul(size);
    let total = match total {
        Some(t) => t,
        None => {
            proof {
                assert(n * size > usize::MAX);
                assert(r.1 <= usize::MAX);
            }
            return Err(ProcError::TransferFailed);
        },
    };
    if !(r.0 && r.1 == total && buf.len() == total) {
        return Err(ProcError::TransferFailed);
    }
    let mut items = items;
    let mut i: usize = 0;
    while i < items.len()
        invariant
            items.len() == n,
            i <= n,
            size == T::size_spec(),
            0 < size,
            buf@.len() == n * size,
            n * size == total,
            forall|j: int| 0 <= j < i ==> items@[j] == #[trigger] decode_all::<T>(buf@, n)[j],
        decreases n - i,
    {
        proof {
            lemma_chunk_in_bounds(i as int, n as int, size as int);
        }
        let v = T::from_bytes_at(buf, i * size);
        items.set(i, v);
        i = i + 1;
    }
    assert(items@ =~= decode_all::<T>(buf@, n));
    Ok(items)
}

} // verus!
