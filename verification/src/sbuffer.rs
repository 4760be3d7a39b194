//! Buffers made of two pieces that are read, or filled, as one.
use vstd::prelude::*;
use crate::error::Error;

verus! {

/// A reader over the bytes of two slices, one after the other.
///
/// A ring hands out its contents in at most two pieces. The reader's view is what
/// has not been read yet.
pub struct SBufferReader<'a> {
    first: &'a [u8],
    second: &'a [u8],
    pos: usize,
}

impl<'a> SBufferReader<'a> {
    #[verifier::type_invariant]
    spec fn inv(self) -> bool {
        &&& self.first@.len() + self.second@.len() <= usize::MAX
        &&& self.pos <= self.first@.len() + self.second@.len()
    }

    /// The bytes that are left to read.
    pub closed spec fn view(&self) -> Seq<u8> {
        (self.first@ + self.second@).skip(self.pos as int)
    }

    /// A reader over the whole of both slices.
    pub fn new_reader(first: &'a [u8], second: &'a [u8]) -> (r: Self)
        requires
            first@.len() + second@.len() <= usize::MAX,
        ensures
            r@ == first@ + second@,
    {
        let r = SBufferReader { first, second, pos: 0 };
        assert(r@ =~= first@ + second@);
        r
    }

    /// How many bytes are left to read.
    pub fn len(&self) -> (r: usize)
        ensures
            r == self@.len(),
    {
        proof {
            use_type_invariant(self);
        }
        self.first.len() + self.second.len() - self.pos
    }

    /// Returns true if nothing is left to read.
    pub fn is_empty(&self) -> (r: bool)
        ensures
            r == (self@.len() == 0),
    {
        self.len() == 0
    }

    /// The byte that is `i` bytes ahead.
    pub fn peek(&self, i: usize) -> (r: u8)
        requires
            i < self@.len(),
        ensures
            r == self@[i as int],
    {
        proof {
            use_type_invariant(self);
        }
        let at: usize = self.pos + i;
        if at < self.first.len() {
            self.first[at]
        } else {
            self.second[at - self.first.len()]
        }
    }

    /// Reads exactly `n` bytes. Fails, and reads nothing, if fewer are left.
    pub fn read_exact(&mut self, n: usize) -> (r: Result<Vec<u8>, Error>)
        ensures
            match r {
                Ok(data) => {
                    &&& n <= old(self)@.len()
                    &&& data@ == old(self)@.take(n as int)
                    &&& final(self)@ == old(self)@.skip(n as int)
                },
                Err(e) => {
                    &&& n > old(self)@.len()
                    &&& e == Error::EINVAL
                    &&& final(self)@ == old(self)@
                },
            },
    {
        proof {
            use_type_invariant(&*self);
        }
        if n > self.len() {
            return Err(Error::EINVAL);
        }
        let mut data: Vec<u8> = Vec::new();
        let mut i: usize = 0;
        while i < n
            invariant
                i <= n,
                n <= self@.len(),
                *self == *old(self),
                data@ == self@.take(i as int),
            decreases n - i,
        {
            data.push(self.peek(i));
            i += 1;
            assert(data@ =~= self@.take(i as int));
        }
        self.pos = self.pos + n;
        assert(self@ =~= old(self)@.skip(n as int));
        Ok(data)
    }

    /// Reads everything that is left.
    pub fn read_into_vec(&mut self) -> (r: Vec<u8>)
        ensures
            r@ == old(self)@,
            final(self)@ == Seq::<u8>::empty(),
    {
        let n = self.len();
        let mut data: Vec<u8> = Vec::new();
        match self.read_exact(n) {
            Ok(bytes) => {
                data = bytes;
            },
            Err(_) => {},
        }
        assert(data@ =~= old(self)@);
        assert(self@ =~= Seq::<u8>::empty());
        data
    }
}

/// As much of `s` as goes into `room` bytes.
pub open spec fn at_most(s: Seq<u8>, room: int) -> Seq<u8> {
    if s.len() <= room {
        s
    } else {
        s.take(room)
    }
}

/// A writer with room for a fixed number of bytes. Its view is what was written.
pub struct SBufferWriter {
    data: Vec<u8>,
    limit: usize,
}

impl SBufferWriter {
    #[verifier::type_invariant]
    spec fn inv(self) -> bool {
        self.data@.len() <= self.limit
    }

    /// The bytes written so far.
    pub closed spec fn view(&self) -> Seq<u8> {
        self.data@
    }

    /// How many bytes can be written in all.
    pub closed spec fn limit(&self) -> nat {
        self.limit as nat
    }

    /// How many bytes can still be written.
    pub open spec fn room(&self) -> int {
        self.limit() - self@.len()
    }

    /// An empty writer with room for `limit` bytes.
    pub fn new_writer(limit: usize) -> (r: Self)
        ensures
            r@ == Seq::<u8>::empty(),
            r.limit() == limit,
    {
        SBufferWriter { data: Vec::new(), limit }
    }

    /// Returns true if there is no room left.
    pub fn is_empty(&self) -> (r: bool)
        ensures
            r == (self@.len() == self.limit()),
    {
        self.data.len() == self.limit
    }

    /// Writes all of `src`. Fails if there is too little room, which is then filled up.
    pub fn write_all(&mut self, src: &[u8]) -> (r: Result<(), Error>)
        ensures
            final(self).limit() == old(self).limit(),
            0 <= old(self).room(),
            final(self)@ == old(self)@ + at_most(src@, old(self).room()),
            r == (if src@.len() <= old(self).room() {
                Ok(())
            } else {
                Err::<(), Error>(Error::ETOOSMALL)
            }),
    {
        proof {
            use_type_invariant(&*self);
        }
        let room = self.limit - self.data.len();
        let mut data: Vec<u8> = Vec::new();
        std::mem::swap(&mut data, &mut self.data);
        if src.len() > room {
            data.extend_from_slice(vstd::slice::slice_subrange(src, 0, room));
            assert(data@ =~= old(self)@ + src@.take(room as int));
            self.data = data;
            return Err(Error::ETOOSMALL);
        }
        data.extend_from_slice(src);
        assert(data@ =~= old(self)@ + src@);
        self.data = data;
        Ok(())
    }

    /// Hands out what was written.
    pub fn into_vec(self) -> (r: Vec<u8>)
        ensures
            r@ == self@,
    {
        self.data
    }
}

/// What goes into some room is the front of what there is: all of it, or as much as fills
/// the room.
pub proof fn law_at_most(s: Seq<u8>, room: int)
    requires
        0 <= room,
    ensures
        at_most(s, room).len() <= room,
        at_most(s, room).len() < room ==> at_most(s, room) == s,
        s.len() <= room ==> at_most(s, room) == s,
        exists|rest: Seq<u8>| s == #[trigger] (at_most(s, room) + rest),
{
    let n = at_most(s, room).len() as int;
    assert(s =~= at_most(s, room) + s.skip(n));
}

/// What was written and what can still be written make up the room that there was.
pub proof fn law_room(writer: SBufferWriter)
    ensures
        writer@.len() + writer.room() == writer.limit(),
{
}

} // verus!
