//! Vectors as they are stored by the similarity indexes.

use vstd::prelude::*;
use crate::key::encode::{
    SEQ_END, f32_key, f64_key, i16_key, i32_key, i64_key, put_f32, put_f64, put_i16, put_i32,
    put_i64, put_u32, u32_be,
};

verus! {

/// A vector in its stored form. Floating-point components are held by their
/// IEEE 754 bit patterns.
#[derive(Debug, Clone, PartialEq, Eq)]
pub enum SerializedVector {
    F64(Vec<u64>),
    F32(Vec<u32>),
    I64(Vec<i64>),
    I32(Vec<i32>),
    I16(Vec<i16>),
}

/// The ordered forms of the first `n` components of a vector, one after the
/// other.
pub open spec fn components_key(v: SerializedVector, n: nat) -> Seq<u8>
    decreases n,
{
    if n == 0 {
        Seq::empty()
    } else {
        let i = n - 1;
        components_key(v, i as nat) + match v {
            SerializedVector::F64(c) => f64_key(c@[i]),
            SerializedVector::F32(c) => f32_key(c@[i]),
            SerializedVector::I64(c) => i64_key(c@[i]),
            SerializedVector::I32(c) => i32_key(c@[i]),
            SerializedVector::I16(c) => i16_key(c@[i]),
        }
    }
}

impl SerializedVector {
    /// The number of components.
    pub open spec fn dimension(self) -> nat {
        match self {
            SerializedVector::F64(c) => c@.len(),
            SerializedVector::F32(c) => c@.len(),
            SerializedVector::I64(c) => c@.len(),
            SerializedVector::I32(c) => c@.len(),
            SerializedVector::I16(c) => c@.len(),
        }
    }

    /// The position of the vector's variant.
    pub open spec fn variant(self) -> u32 {
        match self {
            SerializedVector::F64(_) => 0,
            SerializedVector::F32(_) => 1,
            SerializedVector::I64(_) => 2,
            SerializedVector::I32(_) => 3,
            SerializedVector::I16(_) => 4,
        }
    }

    /// The vector as part of a key: its variant, its components, the end byte.
    pub open spec fn key(self) -> Seq<u8> {
        (u32_be(self.variant()) + components_key(self, self.dimension())).push(SEQ_END)
    }

    /// Appends the vector to a key.
    pub fn put(&self, buf: &mut Vec<u8>)
        ensures
            final(buf)@ == old(buf)@ + self.key(),
    {
        let ghost start = buf@;
        match self {
            SerializedVector::F64(c) => {
                put_u32(buf, 0);
                let mut i: usize = 0;
                while i < c.len()
                    invariant
                        i <= c.len(),
                        *self == SerializedVector::F64(*c),
                        buf@ == start + u32_be(0) + components_key(*self, i as nat),
                    decreases c.len() - i,
                {
                    put_f64(buf, c[i]);
                    i += 1;
                    assert(buf@ =~= start + u32_be(0) + components_key(*self, i as nat));
                }
            },
            SerializedVector::F32(c) => {
                put_u32(buf, 1);
                let mut i: usize = 0;
                while i < c.len()
                    invariant
                        i <= c.len(),
                        *self == SerializedVector::F32(*c),
                        buf@ == start + u32_be(1) + components_key(*self, i as nat),
                    decreases c.len() - i,
                {
                    put_f32(buf, c[i]);
                    i += 1;
                    assert(buf@ =~= start + u32_be(1) + components_key(*self, i as nat));
                }
            },
            SerializedVector::I64(c) => {
                put_u32(buf, 2);
                let mut i: usize = 0;
                while i < c.len()
                    invariant
                        i <= c.len(),
                        *self == SerializedVector::I64(*c),
                        buf@ == start + u32_be(2) + components_key(*self, i as nat),
                    decreases c.len() - i,
                {
                    put_i64(buf, c[i]);
                    i += 1;
                    assert(buf@ =~= start + u32_be(2) + components_key(*self, i as nat));
                }
            },
            SerializedVector::I32(c) => {
                put_u32(buf, 3);
                let mut i: usize = 0;
                while i < c.len()
                    invariant
                        i <= c.len(),
                        *self == SerializedVector::I32(*c),
                        buf@ == start + u32_be(3) + components_key(*self, i as nat),
                    decreases c.len() - i,
                {
                    put_i32(buf, c[i]);
                    i += 1;
                    assert(buf@ =~= start + u32_be(3) + components_key(*self, i as nat));
                }
            },
            SerializedVector::I16(c) => {
                put_u32(buf, 4);
                let mut i: usize = 0;
                while i < c.len()
                    invariant
                        i <= c.len(),
                        *self == SerializedVector::I16(*c),
                        buf@ == start + u32_be(4) + components_key(*self, i as nat),
                    decreases c.len() - i,
                {
                    put_i16(buf, c[i]);
                    i += 1;
                    assert(buf@ =~= start + u32_be(4) + components_key(*self, i as nat));
                }
            },
        }
        buf.push(SEQ_END);
        assert(buf@ =~= start + self.key());
    }
}

} // verus!
