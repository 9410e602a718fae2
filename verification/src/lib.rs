//! Streams remote compressed audio tracks, decodes them, and slices the
//! decoded samples into fixed-duration, speed-augmented training chunks.
//!
//! The crate holds the verified core of the pipeline: the pull-style stream
//! adapter over a channel of byte blocks (`receiver`), the semitone-step
//! speed-factor source (`distributions`), and the decode-and-chunk stage
//! with its windowed sample accumulator (`pool`). Network transport and
//! thread plumbing live with the embedding program, which feeds this crate
//! plain byte blocks and drains finished chunks.

pub mod channel;
pub mod distributions;
pub mod receiver;
pub mod decode;
pub mod pool;
