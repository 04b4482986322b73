pub mod config;
pub mod decimal;
pub mod model_catalog;
pub mod nemo_engine;
pub mod nemo_provider;
pub mod parakeet_engine;
pub mod seq_search;
pub mod text;
pub mod transcription_catalog;
pub mod system_detector;
pub mod mic_activity_monitor;
pub mod windows_audio_session;
pub mod json;
pub mod summary;
