//! Recovery of gacha-history authorization URLs from a game client's HTTP
//! disk cache, and the validation / paginated-fetch pipeline built on them.
//!
//! The disk-cache side parses the cache's index and block files from raw
//! bytes and extracts candidate URLs; the network side classifies remote
//! responses, schedules retries with exponential backoff, validates
//! candidates against an account id through a consistency cache, and
//! reconciles freshly fetched record batches against stored ones.
//! All file and network I/O stays with the caller: these modules work on
//! plain bytes and values handed in.

pub mod addr;
pub mod block;
pub mod bytesutil;
pub mod entry;
pub mod error;
pub mod extract;
pub mod fetch;
pub mod index;
pub mod orchestrate;
pub mod plugin;
pub mod records;
pub mod urlbuild;
pub mod validate;
pub mod webcaches;
