//! The data the scanner and the batch engine work over: discovered image
//! records, per-file metadata, batch operations and their aggregated result,
//! and the raw directory-entry shape the surrounding application hands in.
use vstd::prelude::*;

verus! {

/// One discovered image file, as returned by a scan. Immutable once built;
/// a fresh collection is produced by every scan.
pub struct ImageFile {
    /// Identifier fresh for this scan; carries no meaning across scans.
    pub id: String,
    /// Base file name, extension included.
    pub name: String,
    /// Absolute path of the file.
    pub path: String,
    /// Byte length at the time of the scan.
    pub size: u64,
    /// Last-modification time, seconds since the Unix epoch.
    pub modified: u64,
    /// Lower-cased extension, always one of the supported set.
    pub extension: String,
}

/// Metadata of a single image, computed on demand and never cached.
pub struct ImageMetadata {
    pub width: u32,
    pub height: u32,
    /// Container format label, or "Unknown" when undeterminable.
    pub format: String,
    /// Description of the pixel/color type.
    pub color_type: String,
    pub file_size: u64,
}

/// A single copy or move request, with absolute source and target paths.
pub enum FileOperation {
    Copy { source: String, target: String },
    Move { source: String, target: String },
}

impl FileOperation {
    pub open spec fn source_spec(self) -> Seq<char> {
        match self {
            FileOperation::Copy { source, .. } => source@,
            FileOperation::Move { source, .. } => source@,
        }
    }

    pub open spec fn target_spec(self) -> Seq<char> {
        match self {
            FileOperation::Copy { target, .. } => target@,
            FileOperation::Move { target, .. } => target@,
        }
    }

    pub open spec fn is_move(self) -> bool {
        self is Move
    }
}

/// Aggregate outcome of a batch: how many operations succeeded, how many
/// failed, and one message per failure in the order the operations were
/// attempted.
pub struct ProcessResult {
    pub success_count: usize,
    pub failed_count: usize,
    pub errors: Vec<String>,
}

/// What a scan hands back across the boundary: the sorted records, their
/// count, and the wall time the caller measured around the scan.
pub struct ScanResult {
    pub images: Vec<ImageFile>,
    pub total_count: usize,
    pub scan_time_ms: u64,
}

impl ScanResult {
    /// Packages scanned records for the boundary; the count is owed to be
    /// exactly the number of records.
    pub fn new(images: Vec<ImageFile>, scan_time_ms: u64) -> (r: ScanResult)
        ensures
            r.images@ == images@,
            r.total_count == images@.len(),
            r.scan_time_ms == scan_time_ms,
    {
        let total_count = images.len();
        ScanResult { images, total_count, scan_time_ms }
    }
}

/// Attributes of a file read from the filesystem.
#[derive(Clone, Copy)]
pub struct FileAttrs {
    /// Byte length.
    pub size: u64,
    /// Last-modification time, seconds since the Unix epoch.
    pub modified: u64,
}

/// One entry of a directory walk, as the surrounding application reports it.
/// `attrs` is `None` when the entry's metadata could not be read or its
/// modification time precedes the Unix epoch; such entries are skipped.
pub struct FsEntry {
    /// Absolute path of the entry.
    pub path: String,
    /// Base name of the entry, extension included.
    pub name: String,
    /// Whether the entry is a directory.
    pub is_dir: bool,
    /// Size and modification time, if they could be read.
    pub attrs: Option<FileAttrs>,
}

/// Whether the root of a scan exists; decides between a scan and a
/// `ScanError::NotFound`.
#[derive(Clone, Copy, Debug, PartialEq, Eq, Structural)]
pub enum ScanError {
    NotFound,
}

/// How reading metadata of a single image can fail: the bytes could not be
/// read at all, or they decode as no recognized image format.
#[derive(Clone, Copy, Debug, PartialEq, Eq, Structural)]
pub enum MetadataError {
    IoFailed,
    DecodeFailed,
}

} // verus!
