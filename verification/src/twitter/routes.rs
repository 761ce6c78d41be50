//! The read path: pages of stored tweets, composed for the reader.

pub mod serve;
