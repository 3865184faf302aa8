//! Guest-side marshaling for two preview plugins, a syntax highlighter and an
//! image thumbnailer, that a host drives through integer addresses and lengths.
//!
//! * [`boundary`] turns `(address, length)` pairs into validated views of linear
//!   memory, decodes text from them, and prepares the one callback by which a
//!   result reaches the host.
//! * [`code_highlighter`] and [`image_thumbnailer`] are the plugins: each has its
//!   exports over a model of linear memory, and below them renderers that work
//!   on plain bytes and say why they failed.
//! * [`text`] holds what both need of text: lossy decoding, trimming, lines and
//!   decimal digits.
//! * [`syntect_api`], [`image_api`] and [`std_api`] hold every call that leaves
//!   this crate, with the contract that is taken on trust for it. All other
//!   code is verified against those contracts.
//!
//! Reading raw memory and calling the host are left to the embedding module:
//! nothing here dereferences an address.

pub mod boundary;
pub mod code_highlighter;
pub mod image_api;
pub mod image_thumbnailer;
pub mod std_api;
pub mod syntect_api;
pub mod text;
