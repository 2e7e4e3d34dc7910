//! A persistent lending catalog: a durable id counter, a bounded record
//! format and an ordered record store, with the loan life cycle on top.

pub mod allocator;
pub mod book;
pub mod catalog;
pub mod codec;
pub mod error;
pub mod laws;
pub mod model;
pub mod regions;
pub mod stable;
pub mod store;
pub mod text;
