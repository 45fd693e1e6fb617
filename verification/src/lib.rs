//! QR Code symbol construction (ISO/IEC 18004 Model 2), together with the
//! small path-routing, mail-message, hashing and image-recoding value types
//! that a web worker builds around it.
//!
//! The core pipeline is pure: payload segmentation, version and error
//! correction selection, Reed-Solomon codeword generation, module drawing,
//! masking and penalty scoring, ending in an immutable module grid.

pub mod bit_buffer;
pub mod code_ecc;
pub mod color_type;
pub mod error;
pub mod finder_penalty;
pub mod format;
pub mod hashing;
pub mod http_router;
pub mod lexer;
pub mod mail;
pub mod mask;
pub mod path_router;
pub mod png_options;
pub mod qr_code;
pub mod recode;
pub mod route_error;
pub mod router;
pub mod segment_lexer;
pub mod segment_type;
pub mod segment;
pub mod segment_mode;
pub mod tables;
pub mod version;

pub use bit_buffer::get_bit;
pub use bit_buffer::BitBuffer;
pub use code_ecc::CodeEcc;
pub use color_type::ColorType;
pub use color_type::ExtendedColorType;
pub use format::Format;
pub use hashing::hash_sha256;
pub use hashing::Algorithm;
pub use hashing::HashMeta;
pub use mail::Content;
pub use mail::Dkim;
pub use mail::EmailMessage;
pub use mail::Headers;
pub use mail::Participant;
pub use mail::Participants;
pub use mail::Personalization;
pub use png_options::encode_with_options;
pub use png_options::ColorTemplate;
pub use png_options::DensityVersion;
pub use png_options::ErrorCorrection;
pub use png_options::ErrorPayload;
pub use png_options::QROptions;
pub use recode::Meta;
pub use recode::Outcome;
pub use recode::Recoder;
pub use recode::Error as RecodeError;
pub use error::QrError;
pub use finder_penalty::FinderPenalty;
pub use lexer::Lexer;
pub use lexer::LexerError;
pub use mask::Mask;
pub use http_router::HttpMatchError;
pub use http_router::HttpRouter;
pub use path_router::PathMatch;
pub use path_router::PathRouter;
pub use path_router::Route;
pub use path_router::RouteIdx;
pub use path_router::SegmentIdx;
pub use qr_code::QrCode;
pub use segment_lexer::SegmentLexer;
pub use route_error::InsertError;
pub use route_error::MatchError;
pub use router::Router;
pub use router::RouterError;
pub use segment_type::str_eq;
pub use segment_type::SegmentType;
pub use segment::Segment;
pub use segment::ALPHANUMERIC_CHARSET;
pub use segment_mode::SegmentMode;
pub use tables::ecc_codewords_per_block;
pub use tables::get_num_data_codewords;
pub use tables::get_num_raw_data_modules;
pub use tables::num_ecc_blocks;
pub use version::Version;

use vstd::prelude::*;

verus! {

} // verus!
