//! Verified core of a historical market-data downloader.
//!
//! The library models calendar dates and UTC hours, the fixed 20-byte wire
//! record of the data feed, the URL scheme of the feed, the retry policy of
//! the HTTP fetcher, the hour-sharded download pipeline, the tick-to-OHLCV
//! aggregator, and the persisted background-job records with their state
//! store. I/O itself (HTTP, files, processes) lives outside the library;
//! everything that decides or computes is here, with contracts.

pub mod aggregate;
pub mod client;
pub mod daemon;
pub mod decompress;
pub mod error;
pub mod estimate;
pub mod format;
pub mod instrument;
pub mod job;
pub mod jobcodec;
pub mod parse;
pub mod state;
pub mod stream;
pub mod text;
pub mod tick;
pub mod time;
pub mod timeframe;
pub mod url;
