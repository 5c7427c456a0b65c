//! The ways of resolving a name.

pub mod resolv;
