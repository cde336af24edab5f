//! The command sequencer: loads a binary command sequence, validates it, then
//! sends its commands one by one, waiting for each response.
pub mod component;
pub mod dictionary;
pub mod effects;
pub mod event_laws;
pub mod file_laws;
pub mod format;
pub mod fprime_sequence;
pub mod laws;
pub mod messages;
pub mod model;
pub mod run_laws;
pub mod timer;
pub mod types;
pub mod watch_laws;

pub use component::CmdSequencer;
pub use dictionary::{Action, SequencerEvent};
pub use format::{FileImage, Sequence};
pub use fprime_sequence::FPrimeSequence;
pub use timer::Timer;
pub use types::{
    BlockState, FileReadStage, RecordDescriptor, RunMode, SeqArgs, SeqArgsBuffer, SeqMode,
    SequenceHeader, SequenceLoadEvent, SequenceRecord, StepMode, SEQUENCE_ARGUMENTS_MAX_SIZE,
    SEQUENCE_CRC_SIZE, SEQUENCE_HEADER_SIZE,
};
