//! Meeting-note pipeline: session naming, transcript parsing, extractive
//! summarisation and the control logic of recording and post-processing.

pub mod config;
pub mod data_repo;
pub mod entry;
pub mod mic_audio;
pub mod mp3;
pub mod openai;
pub mod openai_summarizer;
pub mod postprocess;
pub mod postprocess_resumer;
pub mod recording_proc;
pub mod screencapture;
pub mod summarizer;
pub mod text;
pub mod tf_idf_summarizer;
pub mod tokenizer;
pub mod transcriber;
pub mod webvtt;
pub mod whisper_cpp;
pub mod window;
