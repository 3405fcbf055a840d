use vstd::prelude::*;

use crate::error::ClassFileError;

verus! {

/// Byte order of the multi-byte integers a reader decodes.
#[derive(Debug, Clone, Copy, PartialEq, Eq, Structural)]
pub enum Endian {
    Little,
    Big,
}

/// The unsigned value of the two bytes at `p`, in the given order.
pub open spec fn u16_at(e: Endian, s: Seq<u8>, p: int) -> int {
    match e {
        Endian::Big => s[p] * 256 + s[p + 1],
        Endian::Little => s[p + 1] * 256 + s[p],
    }
}

/// The unsigned value of the four bytes at `p`, in the given order.
pub open spec fn u32_at(e: Endian, s: Seq<u8>, p: int) -> int {
    match e {
        Endian::Big => s[p] * 16777216 + s[p + 1] * 65536 + s[p + 2] * 256 + s[p + 3],
        Endian::Little => s[p + 3] * 16777216 + s[p + 2] * 65536 + s[p + 1] * 256 + s[p],
    }
}

/// Two's-complement reading of an 8-bit value.
pub open spec fn signed8(u: int) -> int {
    if u >= 128 { u - 256 } else { u }
}

/// Two's-complement reading of a 16-bit value.
pub open spec fn signed16(u: int) -> int {
    if u >= 32768 { u - 65536 } else { u }
}

/// Two's-complement reading of a 32-bit value.
pub open spec fn signed32(u: int) -> int {
    if u >= 2147483648 { u - 4294967296 } else { u }
}

/// A cursor over an immutable byte slice with a fixed byte order.
pub struct BinaryReader<'a> {
    buf: &'a [u8],
    pos: usize,
    endian: Endian,
}

impl<'a> BinaryReader<'a> {
    /// The bytes under the cursor.
    pub closed spec fn data(&self) -> Seq<u8> {
        self.buf@
    }

    /// The number of bytes consumed so far.
    pub closed spec fn pos(&self) -> int {
        self.pos as int
    }

    pub closed spec fn byte_order(&self) -> Endian {
        self.endian
    }

    /// The cursor stands inside the data or at its end.
    pub open spec fn wf(&self) -> bool {
        0 <= self.pos() <= self.data().len()
    }

    /// `self` has moved `n` bytes past where `before` stood, over the same data.
    pub open spec fn advanced(&self, before: &Self, n: int) -> bool {
        &&& self.data() == before.data()
        &&& self.byte_order() == before.byte_order()
        &&& self.pos() == before.pos() + n
    }

    /// Whether `n` more bytes can be read.
    pub open spec fn has(&self, n: int) -> bool {
        self.pos() + n <= self.data().len()
    }

    pub fn new(buf: &'a [u8], endian: Endian) -> (r: Self)
        ensures
            r.data() == buf@,
            r.pos() == 0,
            r.byte_order() == endian,
    {
        BinaryReader { buf, pos: 0, endian }
    }

    pub fn position(&self) -> (r: usize)
        ensures
            r as int == self.pos(),
    {
        self.pos
    }

    pub fn len(&self) -> (r: usize)
        ensures
            r as int == self.data().len(),
    {
        self.buf.len()
    }

    pub fn is_empty(&self) -> (r: bool)
        ensures
            r == (self.data().len() == 0),
    {
        self.buf.len() == 0
    }

    fn ensure(&self, count: usize) -> (r: Result<(), ClassFileError>)
        requires
            self.wf(),
        ensures
            r is Ok <==> self.has(count as int),
            r is Err ==> r == Err::<(), ClassFileError>(ClassFileError::UnexpectedEof),
    {
        if count > self.buf.len() - self.pos {
            Err(ClassFileError::UnexpectedEof)
        } else {
            Ok(())
        }
    }

    /// Returns the next `count` bytes; fails at the end of input without moving.
    pub fn read_bytes(&mut self, count: usize) -> (r: Result<&'a [u8], ClassFileError>)
        requires
            old(self).wf(),
        ensures
            final(self).wf(),
            r is Ok <==> old(self).has(count as int),
            r matches Ok(b) ==> b@ == old(self).data().subrange(old(self).pos(), old(self).pos()
                + count) && final(self).advanced(old(self), count as int),
            r is Err ==> *final(self) == *old(self) && r == Err::<&'a [u8], ClassFileError>(
                ClassFileError::UnexpectedEof,
            ),
    {
        if count > self.buf.len() - self.pos {
            return Err(ClassFileError::UnexpectedEof);
        }
        let s = vstd::slice::slice_subrange(self.buf, self.pos, self.pos + count);
        self.pos = self.pos + count;
        Ok(s)
    }

    pub fn read_u8(&mut self) -> (r: Result<u8, ClassFileError>)
        requires
            old(self).wf(),
        ensures
            final(self).wf(),
            r is Ok <==> old(self).has(1),
            r matches Ok(v) ==> v == old(self).data()[old(self).pos()] && final(self).advanced(
                old(self),
                1,
            ),
            r is Err ==> *final(self) == *old(self) && r == Err::<u8, ClassFileError>(
                ClassFileError::UnexpectedEof,
            ),
    {
        self.ensure(1)?;
        let v = self.buf[self.pos];
        self.pos = self.pos + 1;
        Ok(v)
    }

    pub fn read_i8(&mut self) -> (r: Result<i8, ClassFileError>)
        requires
            old(self).wf(),
        ensures
            final(self).wf(),
            r is Ok <==> old(self).has(1),
            r matches Ok(v) ==> v as int == signed8(old(self).data()[old(self).pos()] as int)
                && final(self).advanced(old(self), 1),
            r is Err ==> *final(self) == *old(self) && r == Err::<i8, ClassFileError>(
                ClassFileError::UnexpectedEof,
            ),
    {
        let u = self.read_u8()?;
        if u >= 128 {
            Ok((u as i16 - 256) as i8)
        } else {
            Ok(u as i8)
        }
    }

    pub fn read_u16(&mut self) -> (r: Result<u16, ClassFileError>)
        requires
            old(self).wf(),
        ensures
            final(self).wf(),
            r is Ok <==> old(self).has(2),
            r matches Ok(v) ==> v as int == u16_at(
                old(self).byte_order(),
                old(self).data(),
                old(self).pos(),
            ) && final(self).advanced(old(self), 2),
            r is Err ==> *final(self) == *old(self) && r == Err::<u16, ClassFileError>(
                ClassFileError::UnexpectedEof,
            ),
    {
        self.ensure(2)?;
        let b0 = self.buf[self.pos] as u16;
        let b1 = self.buf[self.pos + 1] as u16;
        self.pos = self.pos + 2;
        match self.endian {
            Endian::Big => Ok(b0 * 256 + b1),
            Endian::Little => Ok(b1 * 256 + b0),
        }
    }

    pub fn read_i16(&mut self) -> (r: Result<i16, ClassFileError>)
        requires
            old(self).wf(),
        ensures
            final(self).wf(),
            r is Ok <==> old(self).has(2),
            r matches Ok(v) ==> v as int == signed16(
                u16_at(old(self).byte_order(), old(self).data(), old(self).pos()),
            ) && final(self).advanced(old(self), 2),
            r is Err ==> *final(self) == *old(self) && r == Err::<i16, ClassFileError>(
                ClassFileError::UnexpectedEof,
            ),
    {
        let u = self.read_u16()?;
        if u >= 32768 {
            Ok((u as i32 - 65536) as i16)
        } else {
            Ok(u as i16)
        }
    }

    pub fn read_u32(&mut self) -> (r: Result<u32, ClassFileError>)
        requires
            old(self).wf(),
        ensures
            final(self).wf(),
            r is Ok <==> old(self).has(4),
            r matches Ok(v) ==> v as int == u32_at(
                old(self).byte_order(),
                old(self).data(),
                old(self).pos(),
            ) && final(self).advanced(old(self), 4),
            r is Err ==> *final(self) == *old(self) && r == Err::<u32, ClassFileError>(
                ClassFileError::UnexpectedEof,
            ),
    {
        self.ensure(4)?;
        let b0 = self.buf[self.pos] as u32;
        let b1 = self.buf[self.pos + 1] as u32;
        let b2 = self.buf[self.pos + 2] as u32;
        let b3 = self.buf[self.pos + 3] as u32;
        self.pos = self.pos + 4;
        match self.endian {
            Endian::Big => Ok(b0 * 16777216 + b1 * 65536 + b2 * 256 + b3),
            Endian::Little => Ok(b3 * 16777216 + b2 * 65536 + b1 * 256 + b0),
        }
    }

    pub fn read_i32(&mut self) -> (r: Result<i32, ClassFileError>)
        requires
            old(self).wf(),
        ensures
            final(self).wf(),
            r is Ok <==> old(self).has(4),
            r matches Ok(v) ==> v as int == signed32(
                u32_at(old(self).byte_order(), old(self).data(), old(self).pos()),
            ) && final(self).advanced(old(self), 4),
            r is Err ==> *final(self) == *old(self) && r == Err::<i32, ClassFileError>(
                ClassFileError::UnexpectedEof,
            ),
    {
        let u = self.read_u32()?;
        if u >= 2147483648 {
            Ok((u as i64 - 4294967296) as i32)
        } else {
            Ok(u as i32)
        }
    }

    /// Copies the next `count` bytes into a vector.
    pub fn read_u8_vec(&mut self, count: usize) -> (r: Result<Vec<u8>, ClassFileError>)
        requires
            old(self).wf(),
        ensures
            final(self).wf(),
            r is Ok <==> old(self).has(count as int),
            r matches Ok(v) ==> v@ == old(self).data().subrange(old(self).pos(), old(self).pos()
                + count) && final(self).advanced(old(self), count as int),
            r is Err ==> *final(self) == *old(self) && r == Err::<Vec<u8>, ClassFileError>(
                ClassFileError::UnexpectedEof,
            ),
    {
        let s = self.read_bytes(count)?;
        Ok(vstd::slice::slice_to_vec(s))
    }

    /// Reads `count` consecutive 16-bit values; fails without moving if they do not all fit.
    pub fn read_u16_vec(&mut self, count: usize) -> (r: Result<Vec<u16>, ClassFileError>)
        requires
            old(self).wf(),
        ensures
            final(self).wf(),
            r is Ok <==> old(self).has(2 * count),
            r matches Ok(v) ==> v@.len() == count && final(self).advanced(old(self), 2 * count)
                && forall|i: int|
                0 <= i < count ==> #[trigger] v@[i] as int == u16_at(
                    old(self).byte_order(),
                    old(self).data(),
                    old(self).pos() + 2 * i,
                ),
            r is Err ==> *final(self) == *old(self) && r == Err::<Vec<u16>, ClassFileError>(
                ClassFileError::UnexpectedEof,
            ),
    {
        if count > (self.buf.len() - self.pos) / 2 {
            return Err(ClassFileError::UnexpectedEof);
        }
        let ghost start = *self;
        let mut res: Vec<u16> = Vec::with_capacity(count);
        let mut i: usize = 0;
        while i < count
            invariant
                self.wf(),
                0 <= i <= count,
                count <= (self.data().len() - start.pos()) / 2,
                self.advanced(&start, 2 * i),
                res@.len() == i,
                forall|j: int|
                    0 <= j < i ==> #[trigger] res@[j] as int == u16_at(
                        start.byte_order(),
                        start.data(),
                        start.pos() + 2 * j,
                    ),
            decreases count - i,
        {
            let x = self.read_u16().unwrap();
            res.push(x);
            i = i + 1;
        }
        Ok(res)
    }

    /// Reads `count` consecutive signed 32-bit values; fails without moving if they do not all fit.
    pub fn read_i32_vec(&mut self, count: usize) -> (r: Result<Vec<i32>, ClassFileError>)
        requires
            old(self).wf(),
        ensures
            final(self).wf(),
            r is Ok <==> old(self).has(4 * count),
            r matches Ok(v) ==> v@.len() == count && final(self).advanced(old(self), 4 * count)
                && forall|i: int|
                0 <= i < count ==> #[trigger] v@[i] as int == signed32(
                    u32_at(old(self).byte_order(), old(self).data(), old(self).pos() + 4 * i),
                ),
            r is Err ==> *final(self) == *old(self) && r == Err::<Vec<i32>, ClassFileError>(
                ClassFileError::UnexpectedEof,
            ),
    {
        if count > (self.buf.len() - self.pos) / 4 {
            return Err(ClassFileError::UnexpectedEof);
        }
        let ghost start = *self;
        let mut res: Vec<i32> = Vec::with_capacity(count);
        let mut i: usize = 0;
        while i < count
            invariant
                self.wf(),
                0 <= i <= count,
                count <= (self.data().len() - start.pos()) / 4,
                self.advanced(&start, 4 * i),
                res@.len() == i,
                forall|j: int|
                    0 <= j < i ==> #[trigger] res@[j] as int == signed32(
                        u32_at(start.byte_order(), start.data(), start.pos() + 4 * j),
                    ),
            decreases count - i,
        {
            let x = self.read_i32().unwrap();
            res.push(x);
            i = i + 1;
        }
        Ok(res)
    }

    /// Skips the padding up to the next offset that is a multiple of four.
    pub fn align_to_four(&mut self) -> (r: Result<(), ClassFileError>)
        requires
            old(self).wf(),
        ensures
            final(self).wf(),
            r is Ok <==> old(self).has((4 - old(self).pos() % 4) % 4),
            r is Ok ==> final(self).pos() % 4 == 0 && final(self).advanced(
                old(self),
                (4 - old(self).pos() % 4) % 4,
            ),
            r is Err ==> *final(self) == *old(self) && r == Err::<(), ClassFileError>(
                ClassFileError::UnexpectedEof,
            ),
    {
        let pad = (4 - self.pos % 4) % 4;
        if pad > self.buf.len() - self.pos {
            return Err(ClassFileError::UnexpectedEof);
        }
        self.pos = self.pos + pad;
        Ok(())
    }
}

} // verus!
