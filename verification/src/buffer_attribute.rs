//! Typed attribute buffers: a flat array of scalars read in groups of
//! a fixed size.
use vstd::prelude::*;

verus! {

/// A flat buffer of scalars, grouped in tuples of `size` lanes.
pub struct TypeBufferAttribute<T: Sized + Copy> {
    pub data: Vec<T>,
    pub size: usize,
    pub normalized: bool,
}

impl<T: Sized + Copy> TypeBufferAttribute<T> {
    pub fn new(data: Vec<T>, size: usize, normalized: bool) -> (r: TypeBufferAttribute<T>)
        ensures
            r.data@ == data@,
            r.size == size,
            r.normalized == normalized,
    {
        TypeBufferAttribute { data, size, normalized }
    }

    /// One group read from the front of the buffer: `size` copies of
    /// the first scalar, or nothing when the buffer is empty and a
    /// group is asked for.
    pub fn next(&self) -> (r: Option<Vec<T>>)
        ensures
            r is Some <==> (self.size == 0 || self.data@.len() > 0),
            r is Some ==> r->0@.len() == self.size,
            r is Some ==> forall|i: int| 0 <= i < self.size ==> r->0@[i] == self.data@[0],
    {
        let mut res: Vec<T> = Vec::new();
        let mut count: usize = self.size;
        while count > 0
            invariant
                count <= self.size,
                self.data@.len() > 0 || count == self.size,
                res@.len() == self.size - count,
                forall|i: int| 0 <= i < res@.len() ==> res@[i] == self.data@[0],
            decreases count,
        {
            if self.data.len() == 0 {
                return None;
            }
            res.push(self.data[0]);
            count = count - 1;
        }
        Some(res)
    }
}

/// Extraction of a typed view from a tagged buffer, for users of the
/// library to implement on their own buffer unions.
pub trait ExtractRef<T> {
    fn extract(&self) -> Option<T>;
}

} // verus!
