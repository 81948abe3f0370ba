//! Password-based file encryption with self-extracting output.
#![allow(unused_imports)]

pub mod attempts;
pub mod cleanup;
pub mod container;
pub mod crypto;
pub mod decrypt_flow;
pub mod encrypt_flow;
pub mod error;
pub mod laws;
pub mod names;
pub mod primitives;
pub mod startup;
pub mod text;
