//! Read-only media too large to hold in memory.
//!
//! A cartridge image of several gigabytes is read in pieces, where and when
//! the emulated software asks for them. The cores stay free of the operating
//! system: a frontend supplies the [`Storage`] (a file, a browser `File`, a
//! byte vector) and the core only ever calls [`Storage::read_at`]. Reads are
//! part of no timing model, so how long the host takes changes nothing that
//! is emulated.

use crate::emu::text::{decimal, hexadecimal, numbered, push_hexadecimal};
use vstd::prelude::*;

verus! {

/// Why a read failed.
#[derive(Clone, PartialEq, Eq, Debug)]
pub enum StorageError {
    /// The range does not lie inside the medium.
    OutOfRange { offset: u64, len: usize },
    /// The host could not deliver the data.
    Host(String),
}

impl StorageError {
    /// What the error says.
    pub open spec fn text(self) -> Seq<char> {
        match self {
            StorageError::OutOfRange { offset, len } => "read of "@ + decimal(len as nat)
                + " bytes at 0x"@ + hexadecimal(offset as nat) + " is outside the image"@,
            StorageError::Host(message) => message@,
        }
    }

    /// The error as a message.
    pub fn message(&self) -> (r: String)
        ensures
            r@ == self.text(),
    {
        match self {
            StorageError::OutOfRange { offset, len } => {
                let mut s = numbered("read of ", *len as u64);
                s.push_str(" bytes at 0x");
                push_hexadecimal(&mut s, *offset);
                s.push_str(" is outside the image");
                s
            },
            StorageError::Host(message) => message.clone(),
        }
    }
}

/// Why a read failed, if it did.
pub open spec fn error_of<T>(r: Result<T, StorageError>) -> Option<StorageError> {
    match r {
        Ok(_) => None,
        Err(e) => Some(e),
    }
}

/// A medium that is read at arbitrary offsets.
pub trait Storage: Sized {
    /// What the medium holds.
    spec fn content(&self) -> Seq<u8>;

    /// Whether a read at `offset` into a buffer that holds `room` can lead from
    /// `before` to `after`, leave `filled` in the buffer and fail with `error`, if with any.
    spec fn is_read(
        before: Self,
        offset: u64,
        room: Seq<u8>,
        after: Self,
        filled: Seq<u8>,
        error: Option<StorageError>,
    ) -> bool;

    /// Whether the host delivers every range that lies inside the medium.
    spec fn reliable(&self) -> bool;

    /// The size of the medium in bytes.
    fn len(&self) -> (r: u64)
        ensures
            r == self.content().len(),
    ;

    fn is_empty(&self) -> (r: bool)
        ensures
            r <==> self.content().len() == 0,
    {
        self.len() == 0
    }

    /// Fill `buf` from `offset`. A range that is not wholly inside the
    /// medium is an error and leaves `buf` unspecified.
    fn read_at(&mut self, offset: u64, buf: &mut [u8]) -> (r: Result<(), StorageError>)
        ensures
            Self::is_read(*old(self), offset, old(buf)@, *final(self), final(buf)@, error_of(r)),
            final(self).content() == old(self).content(),
            final(self).reliable() == old(self).reliable(),
            final(buf)@.len() == old(buf)@.len(),
            match r {
                Ok(()) => offset + old(buf)@.len() <= old(self).content().len() && final(buf)@
                    == old(self).content().subrange(
                    offset as int,
                    offset + old(buf)@.len(),
                ),
                Err(StorageError::OutOfRange { offset: at, len }) => offset + old(buf)@.len()
                    > old(self).content().len() && at == offset && len == old(buf)@.len(),
                Err(StorageError::Host(_)) => !old(self).reliable(),
            },
    ;
}

impl Storage for Vec<u8> {
    open spec fn content(&self) -> Seq<u8> {
        self@
    }

    open spec fn is_read(
        before: Vec<u8>,
        offset: u64,
        room: Seq<u8>,
        after: Vec<u8>,
        filled: Seq<u8>,
        error: Option<StorageError>,
    ) -> bool {
        &&& after == before
        &&& if offset + room.len() <= before@.len() {
            error is None && filled == before@.subrange(offset as int, offset + room.len())
        } else {
            error == Some(StorageError::OutOfRange { offset, len: room.len() as usize }) && filled
                == room
        }
    }

    open spec fn reliable(&self) -> bool {
        true
    }

    fn len(&self) -> (r: u64) {
        self.as_slice().len() as u64
    }

    fn read_at(&mut self, offset: u64, buf: &mut [u8]) -> (r: Result<(), StorageError>) {
        let total: usize = self.as_slice().len();
        let n: usize = buf.len();
        if n > total || offset > (total - n) as u64 {
            return Err(StorageError::OutOfRange { offset, len: n });
        }
        let start: usize = offset as usize;
        let mut i: usize = 0;
        while i < n
            invariant
                i <= n,
                n == buf@.len(),
                start + n <= total,
                total == self@.len(),
                *self == *old(self),
                forall|k: int| 0 <= k < i ==> #[trigger] buf@[k] == self@[start + k],
            decreases n - i,
        {
            buf[i] = self[start + i];
            i = i + 1;
        }
        assert(buf@ =~= self@.subrange(offset as int, offset + n));
        Ok(())
    }
}

/// `n` zero bytes.
pub open spec fn zeros(n: nat) -> Seq<u8> {
    Seq::new(n, |i: int| 0u8)
}

/// A part of a medium: a partition, a file system, a file. It holds no
/// reference, so many windows can describe one medium that a single owner
/// reads.
#[derive(Clone, Copy, PartialEq, Eq, Structural, Debug)]
pub struct Window {
    pub base: u64,
    pub len: u64,
}

impl Window {
    /// The window ends within the address range of a medium.
    pub open spec fn wf(self) -> bool {
        self.base + self.len <= u64::MAX
    }

    /// Whether every byte of `inner` is one of this window.
    pub open spec fn contains(self, inner: Window) -> bool {
        self.base <= inner.base && inner.base + inner.len <= self.base + self.len
    }

    /// The bytes of the window.
    pub open spec fn of(self, content: Seq<u8>) -> Seq<u8> {
        content.subrange(self.base as int, self.base + self.len)
    }

    /// The whole of `media`.
    pub fn whole<S: Storage>(media: &S) -> (r: Window)
        ensures
            r.base == 0,
            r.len == media.content().len(),
            r.wf(),
    {
        Window { base: 0, len: media.len() }
    }

    /// The part of this window from `offset`, `len` bytes long, or `None` if
    /// it does not fit.
    pub fn sub(&self, offset: u64, len: u64) -> (r: Option<Window>)
        requires
            self.wf(),
        ensures
            r == if offset + len <= self.len {
                Some(Window { base: (self.base + offset) as u64, len })
            } else {
                None
            },
            r is Some ==> r->0.wf(),
    {
        match offset.checked_add(len) {
            Some(end) => {
                if end <= self.len {
                    Some(Window { base: self.base + offset, len })
                } else {
                    None
                }
            },
            None => None,
        }
    }

    /// Fill `buf` from `offset` within the window.
    pub fn read_at<S: Storage>(
        &self,
        media: &mut S,
        offset: u64,
        buf: &mut [u8],
    ) -> (r: Result<(), StorageError>)
        requires
            self.wf(),
        ensures
            offset + old(buf)@.len() <= self.len ==> S::is_read(
                *old(media),
                (self.base + offset) as u64,
                old(buf)@,
                *final(media),
                final(buf)@,
                error_of(r),
            ),
            offset + old(buf)@.len() > self.len ==> *final(media) == *old(media),
            final(media).content() == old(media).content(),
            final(media).reliable() == old(media).reliable(),
            final(buf)@.len() == old(buf)@.len(),
            r is Err && r->Err_0 is Host ==> !old(media).reliable(),
            offset + old(buf)@.len() <= self.len && r is Err && r->Err_0 is OutOfRange ==> self.base
                + offset + old(buf)@.len() > old(media).content().len() && r->Err_0
                == (StorageError::OutOfRange {
                offset: (self.base + offset) as u64,
                len: old(buf)@.len() as usize,
            }),
            offset + old(buf)@.len() > self.len ==> r == Err::<(), StorageError>(
                StorageError::OutOfRange { offset, len: old(buf)@.len() as usize },
            ) && final(buf)@ == old(buf)@,
            r is Ok ==> offset + old(buf)@.len() <= self.len && self.base + offset
                + old(buf)@.len() <= old(media).content().len() && final(buf)@
                == old(media).content().subrange(
                self.base + offset,
                self.base + offset + old(buf)@.len(),
            ),
    {
        match self.sub(offset, buf.len() as u64) {
            Some(part) => media.read_at(part.base, buf),
            None => Err(StorageError::OutOfRange { offset, len: buf.len() }),
        }
    }

    /// `len` bytes from `offset` as a vector.
    pub fn read_vec<S: Storage>(&self, media: &mut S, offset: u64, len: usize) -> (r: Result<
        Vec<u8>,
        StorageError,
    >)
        requires
            self.wf(),
        ensures
            offset + len <= self.len ==> exists|filled: Seq<u8>|
                #[trigger] S::is_read(
                    *old(media),
                    (self.base + offset) as u64,
                    zeros(len as nat),
                    *final(media),
                    filled,
                    error_of(r),
                ) && (r is Ok ==> filled == r->Ok_0@),
            offset + len > self.len ==> *final(media) == *old(media),
            final(media).content() == old(media).content(),
            final(media).reliable() == old(media).reliable(),
            offset + len > self.len ==> r == Err::<Vec<u8>, StorageError>(
                StorageError::OutOfRange { offset, len },
            ),
            match r {
                Ok(v) => offset + len <= self.len && self.base + offset + len
                    <= old(media).content().len() && v@ == old(media).content().subrange(
                    self.base + offset,
                    self.base + offset + len,
                ),
                Err(StorageError::Host(_)) => !old(media).reliable(),
                Err(StorageError::OutOfRange { offset: at, len: n }) => {
                    ||| offset + len > self.len
                    ||| self.base + offset + len > old(media).content().len() && at == self.base
                        + offset && n == len
                },
            },
    {
        let mut buf: Vec<u8> = vec![0; len];
        assert(buf@ =~= zeros(len as nat));
        let answer = self.read_at(media, offset, buf.as_mut_slice());
        let ghost filled = buf@;
        assert(offset + len <= self.len ==> S::is_read(
            *old(media),
            (self.base + offset) as u64,
            zeros(len as nat),
            *media,
            filled,
            error_of(answer),
        ));
        match answer {
            Ok(()) => Ok(buf),
            Err(e) => Err(e),
        }
    }
}

impl Default for Window {
    /// The empty window.
    fn default() -> (r: Window)
        ensures
            r == (Window { base: 0, len: 0 }),
    {
        Window { base: 0, len: 0 }
    }
}

/// Windows nest: a part of a part lies inside the outer window, and holds the
/// bytes found at the sum of the offsets.
pub proof fn law_windows_nest(
    outer: Window,
    content: Seq<u8>,
    offset: u64,
    len: u64,
    inner_offset: u64,
    inner_len: u64,
)
    requires
        outer.wf(),
        outer.base + outer.len <= content.len(),
        offset + len <= outer.len,
        inner_offset + inner_len <= len,
    ensures
        ({
            let part = Window { base: (outer.base + offset) as u64, len };
            let inner = Window { base: (part.base + inner_offset) as u64, len: inner_len };
            &&& outer.contains(part)
            &&& part.contains(inner)
            &&& outer.contains(inner)
            &&& inner.of(content) == outer.of(content).subrange(
                offset + inner_offset,
                offset + inner_offset + inner_len,
            )
        }),
{
    let part = Window { base: (outer.base + offset) as u64, len };
    let inner = Window { base: (part.base + inner_offset) as u64, len: inner_len };
    assert(inner.of(content) =~= outer.of(content).subrange(
        offset + inner_offset,
        offset + inner_offset + inner_len,
    ));
}

} // verus!
