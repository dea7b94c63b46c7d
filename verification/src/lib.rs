//! Rank-turbulence divergence: the decisions of the kernel, on binary64 bit
//! patterns.
//!
//! A ranked system is handed over as two aligned vectors, ranks and counts,
//! each number as the 64-bit pattern of its IEEE 754 binary64 encoding. This
//! crate holds everything the metric decides by comparing such numbers: which
//! items are present, which closed form a sensitivity parameter selects, and
//! the divergence elements of the maximum-shift limit. Rounded arithmetic is
//! left to the caller.

pub mod alpha;
pub mod binary64;
pub mod divergence;
pub mod presence;
