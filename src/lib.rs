//! Writer for chunked N-dimensional arrays in the version-2 Zarr layout:
//! array metadata, attribute sidecars, chunk keys and little-endian chunk
//! payloads, each produced as bytes with an exact contract.
pub mod text;
pub mod chunk_key;
pub mod metadata;
pub mod codec;
pub mod attrs;
pub mod sum;

pub use attrs::{crop_zattrs_json, BoundingBox, ZAttrs};
pub use chunk_key::chunk_key;
pub use codec::{decode_u16_le, encode_u16_le, encode_u64_le};
pub use metadata::{zarray_document, ArrayMetadata, DType, ValidationError, ZARRAY_FILE, ZATTRS_FILE};
pub use sum::sum_uint16_array;
