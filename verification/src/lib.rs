//! Code 39 barcodes as sound: text becomes a PCM waveform whose envelope, seen
//! in a waveform display, is the printed barcode.
//!
//! A character is looked up in the symbol table ([`table`]), its bars are set
//! apart by thin spaces ([`padding`]), and each bar or space is synthesized as
//! a run of samples ([`samples`]). [`pipeline`] does this for a whole text.

pub mod encoding;
pub mod error;
pub mod padding;
pub mod pipeline;
pub mod samples;
pub mod symbol;
pub mod table;

pub use crate::encoding::encode;
pub use crate::error::EncodeError;
pub use crate::padding::add_thin_space_padding;
pub use crate::pipeline::{
    render_symbols, render_text, text_to_samples, BITS_PER_SAMPLE, CHANNELS, SAMPLE_RATE,
};
pub use crate::samples::generate_samples;
pub use crate::symbol::Bar;
pub use crate::table::lookup;
