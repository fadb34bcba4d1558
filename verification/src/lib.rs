//! A memory-safe KTX2 texture container library.
//!
//! The crate models a KTX2 texture as an owned handle over plain verified
//! storage: dimensions, pixel format, a single contiguous image-data buffer
//! and a key/value metadata list. All boundary validation (dimension caps,
//! index bounds, embedded-null keys), the native status-code taxonomy and the
//! container serialization round trip are stated in contracts and proved.

pub mod bytes;
pub mod codec;
pub mod error;
pub mod format;
pub mod layout;
pub mod metadata;
pub mod texture;
pub mod vk_format;

pub use error::Error;
pub use format::TranscodeFormat;
pub use texture::Ktx2Texture;
pub use vk_format::VkFormat;
