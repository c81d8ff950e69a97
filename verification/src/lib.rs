//! Verified core of a push-to-talk dictation engine: transcript text
//! handling, the rolling audio window, inference scheduling and the
//! session state that the desktop shell drives.

pub mod text;
pub mod transcript;
pub mod whisper;
pub mod buffer;
pub mod types;
pub mod input;
pub mod pipeline;
pub mod vad;
pub mod audio;
pub mod state;
pub mod hotkey;
