//! Arbitrary-precision signed integers and fixed-point decimals whose
//! operations never abort: a failure is an explicit absent result.

pub mod digits;
pub mod backend;
pub mod heapint;
pub mod integer;
pub mod decimal;
pub mod parsing;
pub mod format;
pub mod codec;
pub mod dedup;

pub use decimal::SafeDec;
pub use heapint::HeapInt;
pub use integer::SafeInt;
