//! Peak metering core of an equalizer companion: sample decoding, the peak
//! envelope, stream-format decoding, the capture session and supervisor
//! decisions, plus the small pieces of profile and A/B test logic.

pub mod capture;
pub mod config_path;
pub mod csv;
pub mod envelope;
pub mod eq_types;
pub mod monitor;
pub mod output_info;
pub mod sample_decoder;
pub mod stream_format;
