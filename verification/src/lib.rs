//! Turns an Ace Attorney Online case into a bundle that plays offline.

pub mod args;
pub mod assets;
pub mod case;
pub mod collector;
pub mod context;
pub mod download;
pub mod downloader;
pub mod edits;
pub mod fetch;
pub mod inlining;
pub mod json;
pub mod marks;
pub mod module_laws;
pub mod modules;
pub mod outside;
pub mod paths;
pub mod patterns;
pub mod player;
pub mod reading;
pub mod pool;
pub mod rewrite;
pub mod scripts;
pub mod seqs;
pub mod site;
pub mod sources;
pub mod text;
pub mod transform;
