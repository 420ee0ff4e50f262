//! The containers behind the lookup tables.
pub mod hashing;
pub mod indexed;
pub mod pool;
pub mod table;
