//! The access interface every target process backend provides.
use vstd::prelude::*;

use crate::flat::Flat;
use crate::outcome::{
    fill_with,
    ok_of,
    read_result,
    sequence_result,
    settle_read,
    settle_sequence,
    settle_validated,
    zeroed_buffer,
};

verus! {

/// An open target process: raw byte transfers, supplied by each backend, and
/// the typed operations built on them.
pub trait ProcT: Sized {
    /// The outcomes a read of `len` bytes at `proc_address` may have: the
    /// reported result `r` and the destination's contents `bytes`. A backend
    /// that cannot say more admits every outcome.
    open spec fn may_read(&self, proc_address: usize, len: nat, r: (bool, usize), bytes: Seq<u8>) -> bool {
        true
    }

    /// The outcomes a write of `data` at `proc_address` may have: the reported
    /// result `r` and the target afterwards.
    open spec fn may_write(&self, proc_address: usize, data: Seq<u8>, r: (bool, usize), after: Self) -> bool {
        true
    }

    /// Get the opened process id
    fn pid(&self) -> isize;

    /// Copies `buf.len()` bytes from the target at `proc_address` into `buf`,
    /// reporting success and the number of bytes copied.
    fn read_raw(&self, proc_address: usize, buf: &mut Vec<u8>) -> (r: (bool, usize))
        ensures
            final(buf)@.len() == old(buf)@.len(),
            r.1 <= old(buf)@.len(),
            self.may_read(proc_address, old(buf)@.len() as nat, r, final(buf)@),
    ;

    /// Copies `data` into the target at `proc_address`, reporting success and
    /// the number of bytes copied.
    fn write_raw(&mut self, proc_address: usize, data: &[u8]) -> (r: (bool, usize))
        ensures
            r.1 <= data@.len(),
            old(self).may_write(proc_address, data@, r, *final(self)),
    ;

    /// Read a certain type T from specified memory address
    fn read<T: Flat>(&self, proc_address: usize) -> (r: Option<T>)
        ensures
            exists|t: (bool, usize), b: Seq<u8>|
                self.may_read(proc_address, T::size_spec(), t, b) && r == ok_of(read_result::<T>(t, b)),
    {
        let mut buf = zeroed_buffer(T::size());
        let t = self.read_raw(proc_address, &mut buf);
        match settle_read::<T>(t, buf.as_slice()) {
            Ok(v) => Some(v),
            Err(_) => None,
        }
    }

    /// Read a certain type T from specified memory address and only return the
    /// value if `validator` returns `true`
    fn read_valid<T: Flat, F: Fn(&T) -> bool>(&self, proc_address: usize, validator: F) -> (r: Option<T>)
        requires
            forall|v: T| validator.requires((&v,)),
        ensures
            exists|t: (bool, usize), b: Seq<u8>|
                self.may_read(proc_address, T::size_spec(), t, b) && match read_result::<T>(t, b) {
                    Err(_) => r is None,
                    Ok(v) => (r == Some(v) && validator.ensures((&v,), true)) || (r is None
                        && validator.ensures((&v,), false)),
                },
            (forall|v: T| !validator.ensures((&v,), true)) ==> r is None,
    {
        let mut buf = zeroed_buffer(T::size());
        let t = self.read_raw(proc_address, &mut buf);
        match settle_validated::<T, F>(t, buf.as_slice(), validator) {
            Ok(v) => Some(v),
            Err(_) => None,
        }
    }

    /// Read `len` consecutive values of type T; the destination is first
    /// filled with values returned by `default_provider`, one call each, so
    /// with `len == 0` the provider is never called and nothing is transferred.
    /// A request whose byte count does not fit in `usize` is answered with
    /// `None` before the provider is called or anything is transferred.
    fn read_vec<T: Flat, F: Fn() -> T>(&self, proc_address: usize, len: usize, default_provider: F) -> (r:
        Option<Vec<T>>)
        requires
            len > 0 ==> default_provider.requires(()),
        ensures
            len == 0 ==> (r matches Some(v) && v@.len() == 0),
            len * T::size_spec() > usize::MAX ==> r is None,
            r matches Some(v) ==> v@.len() == len,
            len > 0 && len * T::size_spec() <= usize::MAX ==> exists|t: (bool, usize), b: Seq<u8>|
                self.may_read(proc_address, (len * T::size_spec()) as nat, t, b) && (r is Some <==> sequence_result::<
                    T,
                >(t, b, len as nat) is Ok) && (r matches Some(v) ==> sequence_result::<T>(t, b, len as nat)
                    == Ok::<Seq<T>, crate::error::ProcError>(v@)),
    {
        let total = match len.checked_mul(T::size()) {
            Some(total) => total,
            None => return None,
        };
        let items = fill_with(len, default_provider);
        if len == 0 {
            return Some(items);
        }
        let mut buf = zeroed_buffer(total);
        let t = self.read_raw(proc_address, &mut buf);
        match settle_sequence::<T>(t, buf.as_slice(), items) {
            Ok(v) => Some(v),
            Err(_) => None,
        }
    }

    /// Write the value of T to the specified address
    fn write<T: Flat>(&mut self, proc_address: usize, data: &T) -> (r: (bool, usize))
        ensures
            r.1 <= T::size_spec(),
            old(self).may_write(proc_address, T::to_bytes_spec(*data), r, *final(self)),
    {
        let bytes = data.to_bytes();
        proof {
            T::lemma_round_trip(*data);
        }
        self.write_raw(proc_address, bytes.as_slice())
    }
}

} // verus!
