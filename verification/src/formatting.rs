//! Turning layout instructions into positioned output.

pub mod collections;
pub mod print_items;
pub mod printer;
pub mod write_items;
pub mod writer;
pub mod writer_lemmas;
pub mod writer_model;
