//! Shortcuts for small command-line programs that fail hard and early, and the
//! logic of a script runner built on them: snippet analysis, program synthesis,
//! and the plans for compiling and running the result.

pub mod analysis;
pub mod cache;
pub mod files;
pub mod lines;
pub mod pipeline;
pub mod quit;
pub mod rules;
pub mod runner;
pub mod synth;
pub mod text;
pub mod toolchain;
pub mod traits;

pub use files::{read_to_string, write_all};
pub use lines::{lines, LineIter};
pub use quit::{argn_err, argn_or, quit, quit_err};
pub use toolchain::shell;
