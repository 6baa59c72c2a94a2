//! Single-server private information retrieval over BFV homomorphic encryption.
//!
//! A client fetches one element of a server-held database without revealing
//! which one. Two variants are provided: a linear one, which uploads one
//! ciphertext per database element, and a square-grid one, which uploads one
//! ciphertext per row and per column.

pub mod client;
pub mod database;
pub mod duration;
pub mod error;
pub mod grid;
pub mod input;
pub mod matrix;
pub mod promise;
pub mod scheme;
pub mod selection;
pub mod trivial;
