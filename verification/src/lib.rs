//! Core of a local meeting recorder: turn detection, speech alignment, chunk and
//! job bookkeeping, transcript rendering, configuration and control messages.

pub mod audio;
pub mod capture;
pub mod cleanup;
pub mod commands;
pub mod config;
pub mod control;
pub mod daemon;
pub mod disk;
pub mod distro;
pub mod doctor;
pub mod document;
pub mod encode;
pub mod error;
pub mod paths;
pub mod runtime;
pub mod service;
pub mod session_status;
pub mod sorting;
pub mod storage;
pub mod text;
pub mod timeutil;
pub mod transcript;
pub mod transcription;
pub mod tree;
