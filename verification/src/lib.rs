//! Verified core of the Rooq file previewer: format detection, pixel
//! conversion, decoded-page caching and the other decisions that sit
//! between the operating system and the preview window.

pub mod daemon;
pub mod dispatcher;
pub mod highlight;
pub mod hotkey;
pub mod image;
pub mod pdf;
pub mod pixels;
pub mod preview;
pub mod request_gen;
pub mod subprocess;
pub mod text;
pub mod text_ops;

use vstd::prelude::*;

verus! {

/// `std::io::Error`, carried opaquely in the error enums for failures that
/// the application meets while reading files or running tools.
#[verifier::external_type_specification]
#[verifier::external_body]
pub struct ExIoError(std::io::Error);

} // verus!
