//! The logic of the local Jarvis voice assistant: wake-word and clap-gesture
//! detection, speech segmentation and caching for the local TTS server, the
//! desktop's handling of voice-activation events and LaunchAgents.

pub mod text;
pub mod numbers;
pub mod segments;
pub mod tts;
pub mod audio_url;
pub mod launchctl;
pub mod launch_plan;
pub mod voice_wake;
pub mod wake_machine;
pub mod activation;
pub mod tuning;
