pub mod binary;
pub mod text;
pub mod writer;
