//! Adaptive audio segmentation pipeline: a universal decode/resample stage
//! that yields a canonical mono 16 kHz stream, and a silence-seeking chunker
//! that partitions long recordings at detected pauses while driving a
//! caller-supplied transcription step per segment.

pub mod chunking;
pub mod decoder;
pub mod vad;
pub mod whisperfile;
