//! Verified core of a self-hosted livestreaming server: ISO-BMFF box
//! serialization, H.26x bitstream framing, media timing and the stream
//! bookkeeping of the ingest and site services.

pub mod accounts;
pub mod buf;
pub mod endian;
pub mod fmp4;
pub mod help;
pub mod media;
pub mod mp4;
pub mod rtmp;
pub mod sessions;
pub mod site;
pub mod stream_info;
