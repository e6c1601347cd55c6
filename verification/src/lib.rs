//! Verified core of the Fish S2 speech synthesis toolkit.
pub mod args;
pub mod arith;
pub mod attention;
pub mod backend;
pub mod backend_laws;
pub mod bytes;
pub mod choice_laws;
pub mod chosen;
pub mod cli;
pub mod codec_blocks;
pub mod codec_coder;
pub mod codec_coder_weights;
pub mod codec_counts;
pub mod codec_decode;
pub mod codec_laws;
pub mod codec_layer;
pub mod codec_modules;
pub mod codec_names;
pub mod codec_registry;
pub mod codec_weights;
pub mod config;
pub mod conv;
pub mod count_laws;
pub mod convert;
pub mod convolve;
pub mod dumps;
pub mod engine;
pub mod error;
pub mod fast_ar;
pub mod fast_laws;
pub mod fast_run;
pub mod file_laws;
pub mod flag_laws;
pub mod flow;
pub mod generate;
pub mod gguf;
pub mod gguf_laws;
pub mod gguf_prefix;
pub mod gguf_read;
pub mod gguf_summary;
pub mod graph;
pub mod graph_laws;
pub mod half;
pub mod heads;
pub mod json;
pub mod layer_laws;
pub mod matmul;
pub mod models;
pub mod number;
pub mod numeric;
pub mod order;
pub mod outside_tokenizer;
pub mod paths;
pub mod patterns;
pub mod pcm;
pub mod pipeline;
pub mod pipeline_laws;
pub mod programs;
pub mod prompt;
pub mod refusals;
pub mod registry;
pub mod repeatable;
pub mod rvq;
pub mod rvq_codes;
pub mod rvq_laws;
pub mod s2_process;
pub mod sampling;
pub mod setting_laws;
pub mod settled;
pub mod shape_laws;
pub mod single;
pub mod sizes;
pub mod slow_ar;
pub mod slow_backend;
pub mod slow_decode;
pub mod slow_embed;
pub mod slow_laws;
pub mod slow_layer;
pub mod slow_run;
pub mod slow_sequence;
pub mod slow_state;
pub mod slow_weights;
pub mod speech;
pub mod speech_laws;
pub mod studio;
pub mod studio_laws;
pub mod studio_work;
pub mod sums;
pub mod tags;
pub mod tensor;
pub mod text;
pub mod tokenizer;
pub mod tokenizer_file;
pub mod tokenizer_laws;
pub mod tokenizer_s2cpp;
pub mod transpose;
pub mod tts;
pub mod voice;
pub mod wav;
pub mod wav_check;
pub mod wav_laws;
pub mod wav_mono;
pub mod waveform;
pub mod weight_laws;
pub mod word_breaks;
