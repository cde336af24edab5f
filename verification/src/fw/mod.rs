//! Values shared by the components: byte codecs, time tags, frame contexts,
//! buffers, checksums and the common dictionary enumerations.
pub mod buffer;
pub mod bytes;
pub mod counter;
pub mod crc32;
pub mod decimal;
pub mod envelope;
pub mod outputs;
pub mod queue;
pub mod text;
pub mod throttle;
pub mod time;
pub mod types;
