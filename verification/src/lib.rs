pub mod text;
pub mod types;
pub mod selection;
pub mod config;
pub mod hardware;
pub mod patterns;
pub mod build_parser;
pub mod repair;
pub mod conflict;
pub mod base64;
pub mod bytes_buf;
pub mod telemetry_frame;
pub mod history;
pub mod git;
pub mod envelope;
pub mod rope_text;
pub mod buffer;
pub mod search;
pub mod document;
pub mod workspace;
pub mod proxy_dispatch;
pub mod digest;
pub mod listing;
pub mod lsp_frame;
pub mod source_scan;
pub mod opmode;
pub mod gradle;
pub mod jdtls;
pub mod lsp_support;
pub mod telemetry_record;
pub mod core_error;
pub mod syntax;
pub mod pending;
