//! A bounds-checked, forward-only cursor over a borrowed byte buffer.

use crate::error::{ParseError, ParseErrorModel};
use vstd::prelude::*;
use vstd::slice::slice_subrange;

verus! {

/// Index of the first zero byte of `s`, or `s.len()` when there is none.
pub open spec fn first_nul(s: Seq<u8>) -> int
    decreases s.len(),
{
    if s.len() == 0 || s[0] == 0 {
        0
    } else {
        1 + first_nul(s.skip(1))
    }
}

/// `first_nul` is the unique index that has no zero byte before it and either
/// ends the sequence or holds a zero byte.
pub proof fn lemma_first_nul(s: Seq<u8>, i: int)
    requires
        0 <= i <= s.len(),
        forall|j: int| 0 <= j < i ==> s[j] != 0,
        i < s.len() ==> s[i] == 0,
    ensures
        first_nul(s) == i,
    decreases s.len(),
{
    if s.len() != 0 && s[0] != 0 {
        let t = s.skip(1);
        assert forall|j: int| 0 <= j < i - 1 implies t[j] != 0 by {
            assert(t[j] == s[j + 1]);
        }
        lemma_first_nul(t, i - 1);
    }
}

/// `first_nul` lies within the sequence and marks its first zero byte.
pub proof fn lemma_first_nul_bounds(s: Seq<u8>)
    ensures
        0 <= first_nul(s) <= s.len(),
        forall|j: int| 0 <= j < first_nul(s) ==> s[j] != 0,
        first_nul(s) < s.len() ==> s[first_nul(s)] == 0,
    decreases s.len(),
{
    if s.len() != 0 && s[0] != 0 {
        let t = s.skip(1);
        lemma_first_nul_bounds(t);
        assert forall|j: int| 0 <= j < first_nul(s) implies s[j] != 0 by {
            if j > 0 {
                assert(t[j - 1] == s[j]);
            }
        }
    }
}

/// Read position within a shared, immutable buffer.
#[derive(Clone, Copy, Debug)]
pub struct Stream<'a> {
    buf: &'a [u8],
    at: usize,
}

impl<'a> Stream<'a> {
    #[verifier::type_invariant]
    spec fn within(self) -> bool {
        self.at <= self.buf@.len()
    }

    /// The whole buffer the cursor ranges over.
    pub closed spec fn bytes(self) -> Seq<u8> {
        self.buf@
    }

    /// Offset of the next unread byte.
    pub closed spec fn position(self) -> int {
        self.at as int
    }

    /// The bytes not yet read.
    pub open spec fn rest(self) -> Seq<u8> {
        self.bytes().skip(self.position())
    }

    /// The position lies inside the buffer.
    pub open spec fn in_bounds(self) -> bool {
        0 <= self.position() <= self.bytes().len()
    }

    /// `self` is `before` moved forward by `n` bytes over the same buffer.
    pub open spec fn advanced(self, before: Stream, n: int) -> bool {
        &&& self.bytes() == before.bytes()
        &&& self.position() == before.position() + n
        &&& 0 <= n
        &&& before.in_bounds()
        &&& self.in_bounds()
    }

    /// A cursor at the start of `data`.
    pub fn new(data: &'a [u8]) -> (s: Self)
        ensures
            s.bytes() == data@,
            s.position() == 0,
            s.rest() == data@,
    {
        Stream { buf: data, at: 0 }
    }

    /// Offset of the next unread byte.
    pub fn pos(&self) -> (p: usize)
        ensures
            p == self.position(),
            self.in_bounds(),
    {
        proof {
            use_type_invariant(self);
        }
        self.at
    }

    /// Length of the whole buffer.
    pub fn len(&self) -> (n: usize)
        ensures
            n == self.bytes().len(),
    {
        self.buf.len()
    }

    /// Number of unread bytes.
    pub fn remain(&self) -> (n: usize)
        ensures
            n == self.rest().len(),
            n == self.bytes().len() - self.position(),
            self.in_bounds(),
    {
        proof {
            use_type_invariant(self);
        }
        self.buf.len() - self.at
    }

    /// Moves past `cnt` bytes, or fails without moving when fewer remain.
    pub fn skip(&mut self, cnt: usize) -> (r: Result<(), ParseError>)
        ensures
            cnt <= old(self).rest().len() ==> r is Ok && final(self).advanced(*old(self), cnt as int),
            cnt > old(self).rest().len() ==> r == Err::<(), ParseError>(ParseError::Io) && *final(self) == *old(self),
            final(self).rest() == if r is Ok {
                old(self).rest().skip(cnt as int)
            } else {
                old(self).rest()
            },
    {
        proof {
            use_type_invariant(&*self);
        }
        if cnt > self.buf.len() - self.at {
            return Err(ParseError::Io);
        }
        self.at = self.at + cnt;
        Ok(())
    }

    /// Hands out the next `cnt` bytes and moves past them, or fails without
    /// moving when fewer remain.
    pub fn read_slice(&mut self, cnt: usize) -> (r: Result<&'a [u8], ParseError>)
        ensures
            cnt <= old(self).rest().len() ==> r is Ok && r.unwrap()@ == old(self).rest().take(
                cnt as int,
            ) && final(self).advanced(*old(self), cnt as int),
            cnt > old(self).rest().len() ==> r == Err::<&[u8], ParseError>(ParseError::Io)
                && *final(self) == *old(self),
            final(self).rest() == if r is Ok {
                old(self).rest().skip(cnt as int)
            } else {
                old(self).rest()
            },
    {
        proof {
            use_type_invariant(&*self);
        }
        if cnt > self.buf.len() - self.at {
            return Err(ParseError::Io);
        }
        let s = slice_subrange(self.buf, self.at, self.at + cnt);
        self.at = self.at + cnt;
        Ok(s)
    }

    /// Reads a zero-terminated string: hands out the bytes before the first
    /// zero byte and moves past that byte. Fails without moving when no zero
    /// byte remains.
    pub fn read_cstr(&mut self) -> (r: Result<&'a [u8], ParseError>)
        ensures
            first_nul(old(self).rest()) < old(self).rest().len() ==> r is Ok && r.unwrap()@ == old(self).rest().take(first_nul(old(self).rest())) && final(self).advanced(
                *old(self),
                first_nul(old(self).rest()) + 1,
            ),
            first_nul(old(self).rest()) >= old(self).rest().len() ==> r == Err::<
                &[u8],
                ParseError,
            >(ParseError::Encoding) && *final(self) == *old(self),
            final(self).rest() == if r is Ok {
                old(self).rest().skip(first_nul(old(self).rest()) + 1)
            } else {
                old(self).rest()
            },
    {
        proof {
            use_type_invariant(&*self);
        }
        let ghost rest = self.rest();
        let start = self.at;
        let total = self.buf.len();
        let mut i: usize = start;
        while i < total && self.buf[i] != 0
            invariant
                start <= i <= total,
                total == self.buf@.len(),
                start == self.at,
                rest == self.buf@.skip(start as int),
                forall|j: int| 0 <= j < i - start ==> rest[j] != 0,
            decreases total - i,
        {
            i = i + 1;
        }
        proof {
            lemma_first_nul(rest, i - start);
        }
        if i >= total {
            return Err(ParseError::Encoding);
        }
        let s = slice_subrange(self.buf, start, i);
        self.at = i + 1;
        Ok(s)
    }

    /// Carves an independent cursor over the next `cnt` bytes and moves past
    /// them, or fails without moving when fewer remain.
    pub fn substream(&mut self, cnt: usize) -> (r: Result<Stream<'a>, ParseError>)
        ensures
            cnt <= old(self).rest().len() ==> r is Ok && r.unwrap().bytes() == old(self).rest().take(cnt as int) && r.unwrap().position() == 0 && final(self).advanced(
                *old(self),
                cnt as int,
            ),
            cnt > old(self).rest().len() ==> r == Err::<Stream, ParseError>(ParseError::Io)
                && *final(self) == *old(self),
            final(self).rest() == if r is Ok {
                old(self).rest().skip(cnt as int)
            } else {
                old(self).rest()
            },
    {
        match self.read_slice(cnt) {
            Ok(s) => Ok(Stream::new(s)),
            Err(e) => Err(e),
        }
    }
}

/// Moving forward over one buffer cuts the moved distance off the unread bytes.
pub broadcast proof fn lemma_advanced_rest(before: Stream, after: Stream, n: int)
    requires
        #[trigger] after.advanced(before, n),
    ensures
        after.rest() == before.rest().skip(n),
{
    assert(after.rest() =~= before.rest().skip(n));
}

/// What every decoder promises: where the mathematical parser `expected`
/// accepts, the result is its value and the cursor has moved on by the number
/// of bytes it consumed; where it rejects, the result is its error and the
/// cursor stands where it stood.
pub open spec fn decoded<T: DeepView>(
    before: Stream,
    after: Stream,
    r: Result<T, ParseError>,
    expected: Result<(T::V, int), ParseErrorModel>,
) -> bool {
    match expected {
        Ok((v, n)) => r matches Ok(x) && x.deep_view() == v && after.advanced(before, n),
        Err(e) => r matches Err(x) && x.deep_view() == e && after == before,
    }
}

} // verus!
