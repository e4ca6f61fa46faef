//! Decoder for the binary layout of offline-content archives: the fixed
//! header, the MIME-type table, pointer tables, cluster blob-offset tables
//! and directory records.
//!
//! Every decoder reads from a [`ByteCursor`] and is specified by a spec
//! function over the source bytes (`header_at`, `mime_table_at`,
//! `cluster_at`, `dirent_at`, `archive_at`), which it meets exactly: the
//! value it returns, the error it fails with, and where it leaves the cursor.
pub mod archive;
pub mod cluster;
pub mod dirent;
pub mod error;
pub mod source;
pub mod zimfile;
pub mod zimheader;

pub use archive::{Archive, read_dirent};
pub use cluster::{Cluster, Compression, MAX_BLOBS};
pub use dirent::{
    DELETED_MIME_TYPE,
    Dirent,
    DirentData,
    LINK_TARGET_MIME_TYPE,
    REDIRECT_MIME_TYPE,
    read_null_terminated_string,
};
pub use error::ZimError;
pub use source::ByteCursor;
pub use zimfile::{ZimFile, parse_mime_types, parse_pointer_table, split_mime_list};
pub use zimheader::{HEADER_SIZE, ZIM_MAGIC_NUMBER, ZimHeader};
