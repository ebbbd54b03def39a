//! A lazily initialized text-embedding pipeline.
//!
//! The library converts a batch of text chunks into one fixed-length numeric
//! vector per chunk.  Artifacts (a tokenizer and an inference model) are
//! loaded once at startup and published into a write-once readiness cell;
//! requests that arrive before the publish fail fast instead of blocking.
//! Each request tokenizes its chunks, pads them to the longest chunk of the
//! batch, builds two rectangular tensors, and pairs each row of the model's
//! output with the chunk it came from, in input order.

pub mod assemble;
pub mod errors;
pub mod fstree;
pub mod pdfdata;
pub mod pipeline;
pub mod ready;
pub mod tensor;
