//! Media helpers of a photo manager, verified with Verus: RAW file
//! families and their preview policy, the choice and decoding of embedded
//! RAW thumbnails, the steps of RAW previews and thumbnails, video frame
//! packing and rotation, and video metadata tags.
pub mod decode;
pub mod extension;
pub mod imaging;
pub mod metadata;
pub mod orientation;
pub mod raw;
pub mod raw_format;
pub mod text;
pub mod thumbs;
pub mod video;
