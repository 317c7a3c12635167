use vstd::prelude::*;

verus! {

#[verifier::external_type_specification]
#[verifier::external_body]
/// Relies on std's io::Error only as an opaque error carrier.
pub struct ExIoError(std::io::Error);

/// A reusable read buffer: a fixed allocation plus how much of it the last
/// read filled.
pub struct Databuf {
    buf: Vec<u8>,
    content_size: usize,
}

impl Databuf {
    pub closed spec fn capacity(&self) -> int {
        self.buf@.len() as int
    }

    pub closed spec fn size(&self) -> int {
        self.content_size as int
    }

    pub closed spec fn contents(&self) -> Seq<u8> {
        self.buf@.subrange(0, self.content_size as int)
    }

    /// The filled prefix never exceeds the allocation.
    pub open spec fn inv(&self) -> bool {
        self.size() <= self.capacity()
    }

    pub fn new(capacity: usize) -> (r: Databuf)
        ensures
            r.inv(),
            r.capacity() == capacity,
            r.size() == 0,
    {
        let mut buf: Vec<u8> = Vec::new();
        while buf.len() < capacity
            invariant
                buf@.len() <= capacity,
            decreases capacity - buf@.len(),
        {
            buf.push(0);
        }
        Databuf { buf, content_size: 0 }
    }

    /// Fill the buffer from a reader, remembering how much arrived.
    ///
    /// Relies on std's Read::read: on success it places `n <= buf.len()` bytes
    /// at the start of the buffer and returns `n`; what arrives depends on
    /// the reader, so nothing more is promised of the contents.
    #[verifier::external_body]
    pub fn read<R: std::io::Read>(&mut self, reader: &mut R) -> (r: Result<(), std::io::Error>)
        ensures
            final(self).capacity() == old(self).capacity(),
            final(self).inv(),
            r matches Err(_) ==> final(self).size() == 0,
    {
        self.content_size = 0;
        self.content_size = reader.read(&mut self.buf)?;
        Ok(())
    }

    /// The bytes the last read produced.
    pub fn data(&self) -> (r: &[u8])
        requires
            self.inv(),
        ensures
            r@ == self.contents(),
            r@.len() == self.size(),
    {
        vstd::slice::slice_subrange(self.buf.as_slice(), 0, self.content_size)
    }
}

} // verus!
