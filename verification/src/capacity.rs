//! Constant cache capacity implementations: one marker type per power of two
//! up to 8192.

use crate::Capacity;
use vstd::prelude::*;

verus! {

/// Constant cache capacity = 1.
pub struct Capacity1;

impl Capacity for Capacity1 {
    open spec fn spec_capacity() -> usize {
        1
    }

    fn capacity() -> (r: usize) {
        1
    }
}

/// Constant cache capacity = 2.
pub struct Capacity2;

impl Capacity for Capacity2 {
    open spec fn spec_capacity() -> usize {
        2
    }

    fn capacity() -> (r: usize) {
        2
    }
}

/// Constant cache capacity = 4.
pub struct Capacity4;

impl Capacity for Capacity4 {
    open spec fn spec_capacity() -> usize {
        4
    }

    fn capacity() -> (r: usize) {
        4
    }
}

/// Constant cache capacity = 8.
pub struct Capacity8;

impl Capacity for Capacity8 {
    open spec fn spec_capacity() -> usize {
        8
    }

    fn capacity() -> (r: usize) {
        8
    }
}

/// Constant cache capacity = 16.
pub struct Capacity16;

impl Capacity for Capacity16 {
    open spec fn spec_capacity() -> usize {
        16
    }

    fn capacity() -> (r: usize) {
        16
    }
}

/// Constant cache capacity = 32.
pub struct Capacity32;

impl Capacity for Capacity32 {
    open spec fn spec_capacity() -> usize {
        32
    }

    fn capacity() -> (r: usize) {
        32
    }
}

/// Constant cache capacity = 64.
pub struct Capacity64;

impl Capacity for Capacity64 {
    open spec fn spec_capacity() -> usize {
        64
    }

    fn capacity() -> (r: usize) {
        64
    }
}

/// Constant cache capacity = 128.
pub struct Capacity128;

impl Capacity for Capacity128 {
    open spec fn spec_capacity() -> usize {
        128
    }

    fn capacity() -> (r: usize) {
        128
    }
}

/// Constant cache capacity = 256.
pub struct Capacity256;

impl Capacity for Capacity256 {
    open spec fn spec_capacity() -> usize {
        256
    }

    fn capacity() -> (r: usize) {
        256
    }
}

/// Constant cache capacity = 512.
pub struct Capacity512;

impl Capacity for Capacity512 {
    open spec fn spec_capacity() -> usize {
        512
    }

    fn capacity() -> (r: usize) {
        512
    }
}

/// Constant cache capacity = 1024.
pub struct Capacity1024;

impl Capacity for Capacity1024 {
    open spec fn spec_capacity() -> usize {
        1024
    }

    fn capacity() -> (r: usize) {
        1024
    }
}

/// Constant cache capacity = 2048.
pub struct Capacity2048;

impl Capacity for Capacity2048 {
    open spec fn spec_capacity() -> usize {
        2048
    }

    fn capacity() -> (r: usize) {
        2048
    }
}

/// Constant cache capacity = 4096.
pub struct Capacity4096;

impl Capacity for Capacity4096 {
    open spec fn spec_capacity() -> usize {
        4096
    }

    fn capacity() -> (r: usize) {
        4096
    }
}

/// Constant cache capacity = 8192.
pub struct Capacity8192;

impl Capacity for Capacity8192 {
    open spec fn spec_capacity() -> usize {
        8192
    }

    fn capacity() -> (r: usize) {
        8192
    }
}

} // verus!
