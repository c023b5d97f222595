//! Conversion of solved values to the bytes written into emulated memory.
//!
//! One byte order is configured globally for a run.  A value is always
//! written as exactly `size` bytes — the low `size` bytes of the value,
//! laid out in the configured order — and a width outside {1, 4, 8} is
//! reported as a fatal error rather than silently truncated.

use vstd::prelude::*;

use crate::errors::{supported_width, InferenceError};

verus! {

/// The byte order used when writing values back into emulated memory.
#[derive(Debug, Clone, Copy, PartialEq, Eq, Structural)]
pub enum ByteOrder {
    Little,
    Big,
}

/// Byte `i` (counting from the least significant end) of a value.
pub open spec fn byte_of(v: u64, i: int) -> u8 {
    ((v >> ((8 * i) as u64)) & 0xff) as u8
}

/// Byte `j` of the `n`-byte encoding of `v` in the given order.
pub open spec fn byte_at(v: u64, order: ByteOrder, n: int, j: int) -> u8 {
    match order {
        ByteOrder::Little => byte_of(v, j),
        ByteOrder::Big => byte_of(v, n - 1 - j),
    }
}

/// The `n`-byte encoding of the low `n` bytes of `v` in the given order.
pub open spec fn value_bytes(v: u64, order: ByteOrder, n: int) -> Seq<u8> {
    Seq::new(n as nat, |j: int| byte_at(v, order, n, j))
}

/// Encode a value as exactly `size` bytes in the given order, or report
/// the width as unsupported.
pub fn value_to_bytes(value: u64, order: ByteOrder, size: usize) -> (r: Result<
    Vec<u8>,
    InferenceError,
>)
    ensures
        match r {
            Ok(bytes) => supported_width(size) && bytes@ == value_bytes(value, order, size as int),
            Err(e) => !supported_width(size) && e == (InferenceError::UnsupportedWidth { size }),
        },
{
    if !(size == 1 || size == 4 || size == 8) {
        return Err(InferenceError::UnsupportedWidth { size });
    }
    let mut bytes: Vec<u8> = Vec::new();
    let mut i: usize = 0;
    while i < size
        invariant
            i <= size,
            size <= 8,
            bytes@.len() == i as int,
            forall|j: int| 0 <= j < i ==> bytes@[j] == byte_at(value, order, size as int, j),
        decreases size - i,
    {
        let sh: u64 = match order {
            ByteOrder::Little => 8 * (i as u64),
            ByteOrder::Big => 8 * ((size - 1 - i) as u64),
        };
        bytes.push(((value >> sh) & 0xff) as u8);
        i = i + 1;
    }
    proof {
        assert(bytes@ =~= value_bytes(value, order, size as int));
    }
    Ok(bytes)
}

} // verus!
