//! Fixed-size, heap-allocated memory regions.

use crate::bits::{filled, put};
use crate::emu::state::{lemma_to_array, to_array};
use vstd::prelude::*;

verus! {

/// `Box::<[T; N]>::try_from` on a `Vec` turns a vector of exactly `N` elements
/// into a boxed array of them, and refuses any other length.
#[verifier::external_body]
fn boxed_array<T, const N: usize>(v: Vec<T>) -> (r: Option<Box<[T; N]>>)
    ensures
        r is Some <==> v@.len() == N,
        r is Some ==> r->0@ == v@,
{
    <Box<[T; N]>>::try_from(v).ok()
}

/// A fixed-size memory region, heap-allocated with no stack temporary.
///
/// Large regions must not be embedded inline in the emulator structs: in
/// debug builds Rust materialises a returned value as a temporary on the
/// caller's stack, which overflows the default thread stack for anything
/// approaching a megabyte (and the 3DS has a 128 MB region). Building the
/// region as a `Vec` and converting it allocates the `[T; N]` directly on the
/// heap while keeping the exact size in the type.
#[verifier::reject_recursive_types(T)]
pub struct Mem<T, const N: usize>(pub Box<[T; N]>);

impl<T: Copy, const N: usize> Mem<T, N> {
    /// The region whose elements are all `v`.
    pub open spec fn all(v: T) -> Mem<T, N> {
        Mem(Box::new(filled(v)))
    }

    /// Allocate a region filled with a repeated value.
    pub fn filled(v: T) -> (r: Mem<T, N>)
        ensures
            r == Mem::<T, N>::all(v),
    {
        let mut elements: Vec<T> = Vec::with_capacity(N);
        while elements.len() < N
            invariant
                elements@.len() <= N,
                forall|k: int| 0 <= k < elements@.len() ==> elements@[k] == v,
            decreases N - elements@.len(),
        {
            elements.push(v);
        }
        match boxed_array(elements) {
            Some(array) => {
                assert(*array =~= filled::<T, N>(v)) by {
                    assert forall|i: int| 0 <= i < N implies array[i] == filled::<T, N>(v)[i] by {
                        assert(array@[i] == elements@[i]);
                    }
                }
                Mem(array)
            },
            None => Mem(Box::new([v; N])),
        }
    }

    /// The region with element `i` replaced by `v`.
    pub open spec fn with(self, i: int, v: T) -> Mem<T, N> {
        Mem(Box::new(put(*self.0, i, v)))
    }

    /// Element `i`.
    pub open spec fn at(self, i: int) -> T {
        self.0[i]
    }

    pub fn get(&self, i: usize) -> (r: T)
        requires
            i < N,
        ensures
            r == self.at(i as int),
    {
        self.0[i]
    }

    pub fn set(&mut self, i: usize, v: T)
        requires
            i < N,
        ensures
            *final(self) == old(self).with(i as int, v),
    {
        self.0[i] = v;
    }

    /// The number of elements.
    pub fn len(&self) -> (r: usize)
        ensures
            r == N,
    {
        N
    }

    pub fn as_slice(&self) -> (r: &[T])
        ensures
            r@ == self.0@,
    {
        self.0.as_slice()
    }
}

impl<const N: usize> Mem<u8, N> {
    /// Allocate a zero-initialised region directly on the heap.
    pub fn zeroed() -> (r: Mem<u8, N>)
        ensures
            r == Mem::<u8, N>::all(0),
    {
        Mem::filled(0)
    }

    /// The region with `bytes` laid over it from `at` on.
    pub open spec fn overlaid(self, at: int, bytes: Seq<u8>) -> Mem<u8, N> {
        Mem(
            Box::new(
                to_array(
                    Seq::new(
                        N as nat,
                        |i: int|
                            if at <= i < at + bytes.len() {
                                bytes[i - at]
                            } else {
                                self.at(i)
                            },
                    ),
                ),
            ),
        )
    }

    /// Copy the first `n` of `bytes` to the region from `at` on.
    pub fn copy_from(&mut self, at: usize, bytes: &[u8], n: usize)
        requires
            n <= bytes@.len(),
            at + n <= N,
        ensures
            *final(self) == old(self).overlaid(at as int, bytes@.take(n as int)),
    {
        let mut k: usize = 0;
        while k < n
            invariant
                k <= n,
                n <= bytes@.len(),
                at + n <= N,
                forall|i: int|
                    0 <= i < N ==> (#[trigger] self.at(i)) == (if at <= i < at + k {
                        bytes@[i - at]
                    } else {
                        old(self).at(i)
                    }),
            decreases n - k,
        {
            let ghost before = *self;
            self.set(at + k, bytes[k]);
            k = k + 1;
            assert forall|i: int| 0 <= i < N implies (#[trigger] self.at(i)) == (if at <= i < at
                + k {
                bytes@[i - at]
            } else {
                old(self).at(i)
            }) by {
                if i != at + k - 1 {
                    assert(self.at(i) == before.at(i));
                }
            }
        }
        proof {
            let all = Seq::new(
                N as nat,
                |i: int|
                    if at <= i < at + n {
                        bytes@.take(n as int)[i - at]
                    } else {
                        old(self).at(i)
                    },
            );
            let a = *self.0;
            assert forall|i: int| 0 <= i < N implies a@[i] == all[i] by {
                assert(self.at(i) == all[i]);
            }
            assert(a@ =~= all);
            lemma_to_array(a);
        }
    }

    /// Set the `n` bytes from `at` on to `v`.
    pub fn fill(&mut self, at: usize, n: usize, v: u8)
        requires
            at + n <= N,
        ensures
            *final(self) == old(self).overlaid(at as int, Seq::new(n as nat, |i: int| v)),
    {
        let mut k: usize = 0;
        while k < n
            invariant
                k <= n,
                at + n <= N,
                forall|i: int|
                    0 <= i < N ==> (#[trigger] self.at(i)) == (if at <= i < at + k {
                        v
                    } else {
                        old(self).at(i)
                    }),
            decreases n - k,
        {
            let ghost before = *self;
            self.set(at + k, v);
            k = k + 1;
            assert forall|i: int| 0 <= i < N implies (#[trigger] self.at(i)) == (if at <= i < at
                + k {
                v
            } else {
                old(self).at(i)
            }) by {
                if i != at + k - 1 {
                    assert(self.at(i) == before.at(i));
                }
            }
        }
        proof {
            let all = Seq::new(
                N as nat,
                |i: int|
                    if at <= i < at + n {
                        Seq::new(n as nat, |i: int| v)[i - at]
                    } else {
                        old(self).at(i)
                    },
            );
            let a = *self.0;
            assert forall|i: int| 0 <= i < N implies a@[i] == all[i] by {
                assert(self.at(i) == all[i]);
            }
            assert(a@ =~= all);
            lemma_to_array(a);
        }
    }
}

/// What each byte of a region reads after `bytes` were laid over it.
pub proof fn lemma_overlaid<const N: usize>(m: Mem<u8, N>, at: int, bytes: Seq<u8>)
    ensures
        forall|i: int|
            0 <= i < N ==> (#[trigger] m.overlaid(at, bytes).at(i)) == (if at <= i < at
                + bytes.len() {
                bytes[i - at]
            } else {
                m.at(i)
            }),
{
    let all = Seq::new(
        N as nat,
        |i: int|
            if at <= i < at + bytes.len() {
                bytes[i - at]
            } else {
                m.at(i)
            },
    );
    lemma_array_exists::<N>(all);
    let a = to_array::<N>(all);
    assert(a@ =~= all);
    assert forall|i: int| 0 <= i < N implies (#[trigger] m.overlaid(at, bytes).at(i)) == all[i] by {
        assert(a@[i] == all[i]);
    }
}

/// The array that begins with the first `n` of the bytes `s`.
spec fn beginning<const N: usize>(s: Seq<u8>, n: nat) -> [u8; N]
    decreases n,
{
    if n == 0 {
        filled(0)
    } else {
        put(beginning::<N>(s, (n - 1) as nat), n - 1, s[n - 1])
    }
}

proof fn lemma_beginning<const N: usize>(s: Seq<u8>, n: nat)
    requires
        s.len() == N,
        n <= N,
    ensures
        forall|i: int| 0 <= i < n ==> (#[trigger] beginning::<N>(s, n)@[i]) == s[i],
    decreases n,
{
    if n > 0 {
        lemma_beginning::<N>(s, (n - 1) as nat);
        let b = beginning::<N>(s, (n - 1) as nat);
        assert forall|i: int| 0 <= i < n implies (#[trigger] beginning::<N>(s, n)@[i]) == s[i] by {
            if i < n - 1 {
                assert(beginning::<N>(s, n)@[i] == b@[i]);
            }
        }
    }
}

/// Any `N` bytes are the elements of an array.
pub proof fn lemma_array_exists<const N: usize>(s: Seq<u8>)
    requires
        s.len() == N,
    ensures
        exists|a: [u8; N]| a@ =~= s,
{
    lemma_beginning::<N>(s, N as nat);
    assert(beginning::<N>(s, N as nat)@ =~= s);
}

} // verus!
