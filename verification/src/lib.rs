//! A YouTube downloader's logic: video identifiers, the scanners that read
//! YouTube's pages, the formats and streams of a video and how one is picked,
//! playlists and channels, the addresses the downloader asks for, and the
//! decisions of the command line and of a download.

pub mod args;
pub mod channel;
pub mod collect;
pub mod descramble;
pub mod download;
pub mod error;
pub mod formats;
pub mod id;
pub mod id_order;
pub mod itags;
pub mod js_object;
pub mod json;
pub mod json_value;
pub mod mime;
pub mod numbers;
pub mod order;
pub mod output_level;
pub mod page;
pub mod plain_cli;
pub mod playlist;
pub mod stream;
pub mod text;
pub mod urls;
pub mod video;
