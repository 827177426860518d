pub mod text;
pub mod output_parser;
pub mod style;
pub mod emit;
pub mod hvigor;
pub mod ohpm;
pub mod numeric;
pub mod lint;
pub mod project;
pub mod build_args;
pub mod paths;
pub mod config;
pub mod env;
pub mod output;
pub mod update;
pub mod hdc;
pub mod device;
pub mod emulator;
pub mod new_project;
pub mod commands;
pub mod completion;
