//! Structural merging of NetCDF-4 files, and the uploads that a server merges.
//!
//! A merge is a machine: it says which call of NetCDF-C it waits for, and goes on from the reply.
//! [`merge`] holds the machine, which is put together from one machine for each part of the work:
//! [`dimensions`], [`attributes`], [`variables`] and [`data`]. [`protocol`] holds the calls and
//! the replies, [`inquiry`], [`names`] and [`text`] what is made of them. [`format`] decides which
//! files are accepted and [`store`] keeps them.
//!
//! Every machine has a model, and its functions do what the model does. [`model`] says what a
//! dataset is and what merging two of them gives, and [`netcdf`] what NetCDF-C does with datasets.
//! [`runs`] follows the model of a merge through all its calls, and [`laws`] states what comes of
//! it.

pub mod attributes;
pub mod data;
pub mod dimensions;
pub mod format;
pub mod inquiry;
pub mod laws;
pub mod merge;
pub mod model;
pub mod names;
pub mod netcdf;
pub mod protocol;
pub mod runs;
pub mod store;
pub mod text;
pub mod variables;
