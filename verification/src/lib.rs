//! Text-to-speech requests against a remote synthesis endpoint: how the request
//! URL is built, and in which order a streamed answer reaches the audio sink.

pub mod client;
pub mod decimal;
pub mod error;
pub mod reading;
pub mod request;
pub mod speech;
pub mod urlencoded;

pub use client::GoogleTranslateClient;
pub use error::TtsError;
pub use request::SynthesizeTextRequest;
pub use speech::Action;
pub use speech::Event;
pub use speech::Phase;
pub use speech::TextToSpeech;
