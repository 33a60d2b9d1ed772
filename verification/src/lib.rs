//! Core of a desktop image-selection utility: classifying files by image
//! extension, scanning directory listings into sorted image records, reading
//! image metadata from raw bytes, and accounting for batch copy/move
//! operations. All filesystem walking and transfer I/O is left to the
//! surrounding application; this crate holds the decisions and their proofs.
mod batch;
mod classify;
mod meta;
mod scan;
mod types;

pub use batch::join_path;
pub use classify::is_supported_image;
pub use classify::normalize_ext;
pub use meta::format_label;
pub use scan::build_record;
pub use scan::build_records;
pub use scan::extension_of;
pub use scan::sort_records;
pub use scan::str_le;
pub use scan::FileManager;
pub use types::FileAttrs;
pub use types::FileOperation;
pub use types::FsEntry;
pub use types::ImageFile;
pub use types::ImageMetadata;
pub use types::MetadataError;
pub use types::ProcessResult;
pub use types::ScanError;
pub use types::ScanResult;
