//! Decoding of schema-tagged, semi-structured records into fixed-layout
//! columns, with the decisions of a watermark generator beside it.
//!
//! A [`decoder::AvroDecoder`] buffers source values, each tagged with the
//! writer schema that it was written with, and turns all of them at once
//! into a batch: one column for each field of a target schema, one row for
//! each value. Which column a value lands in is decided by the target schema
//! and by the index of the writer schema, never by the order of the fields
//! in the source.
//!
//! - [`value`] holds the source values, [`datatype`] the target schema,
//!   [`column`] the columns and [`error`] the failures.
//! - [`resolve`] reads one value as one scalar kind; [`number`] holds the
//!   numeric casts.
//! - [`schema`] builds the index of a writer schema.
//! - [`model`] says what each column is, as a function of the rows;
//!   [`decoder`], [`lists`] and [`dictionary`] build the columns, and are
//!   proved to build exactly those.
//! - [`laws`] states what holds of every pass.
//! - [`watermark`] decides when a stream emits watermarks.

pub mod bitmap;
pub mod column;
pub mod datatype;
pub mod decoder;
pub mod dictionary;
pub mod error;
pub mod laws;
pub mod lists;
pub mod model;
pub mod number;
pub mod resolve;
pub mod schema;
pub mod seqs;
pub mod value;
pub mod watermark;
