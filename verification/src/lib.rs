//! MokaPot: a library for working with JVM bytecode, with its core logic
//! specified and proved in Verus.
#![allow(unused_imports)]

pub mod ir;
pub mod jvm;
pub mod types;
