//! Instance-folding layer of a folding scheme over customizable constraint
//! systems (CCS): committed instances, their construction from a satisfying
//! assignment, relation checks, and the homomorphic folding of a running
//! linearized instance with a fresh committed instance.
#![allow(non_snake_case)]

pub mod ccs;
pub mod field;
pub mod group;
pub mod lcccs;
pub mod pedersen;
