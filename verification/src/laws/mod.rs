//! What holds of the library as a whole: properties that span several functions, each stated
//! over the specifications those functions are proved against.
pub mod access;
pub mod buffers;
pub mod calls;
pub mod children;
pub mod commands;
pub mod contents;
pub mod descriptors;
pub mod files;
pub mod hosts;
pub mod kernel;
pub mod layouts;
pub mod listing;
pub mod machine;
pub mod memory;
pub mod mounts;
pub mod names;
pub mod numbers;
pub mod parking;
pub mod plain;
pub mod processes;
pub mod readiness;
pub mod refusals;
pub mod rules;
pub mod scripts;
pub mod selecting;
pub mod sessions;
pub mod signals;
pub mod startup;
pub mod streams;
pub mod texts;
pub mod turns;
pub mod vectors;
pub mod waiting;
