//! beni — the logic of a typed wrapper over the mruby C API, verified:
//! the configured integer and float widths and the saturating conversions
//! into the integer width, the shapes a failure is reported in, the
//! argument spec a registered method carries and what its crossing
//! raises, the reads of a call's positional and keyword arguments, the
//! free list behind releasable GC roots, the embedder's user-data slot,
//! the constant paths a carrier class is named by, the structural checks
//! on a bytecode blob, and the messages mruby's mismatches carry.
//!
//! ## Layering
//!
//! ```text
//! width        configured widths, integer-width saturation
//! text         string equality, decimal rendering
//! error/parse  Error + ParseMessage — the shapes a failure is reported in
//! method/class MethodDef, argument specs, class-definition resolution
//! scan_args    positional and keyword reads of a call
//! state        MrbOpenError; root table, user data, carrier paths,
//!              bytecode checks
//! proc/range/string/value/hash/try_convert
//!              what each handle decides around mruby's own calls
//! ```

pub mod array;
pub mod class;
pub mod error;
pub mod hash;
pub mod method;
pub mod parse;
pub mod proc;
pub mod range;
pub mod scan_args;
pub mod state;
pub mod string;
pub mod text;
pub mod try_convert;
pub mod value;
pub mod width;

pub use error::Error;
pub use hash::ForEach;
pub use method::MethodDef;
pub use parse::ParseMessage;
pub use proc::DumpOptions;
pub use range::RangeBegLen;
pub use state::root::RootTable;
pub use state::MrbOpenError;
