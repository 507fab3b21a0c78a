//! Application of parsed diff hunks (normal, unified, context and
//! edit-script dialects) to the lines of a text file, in both directions,
//! and a record reader for in-memory text.

/// The model of an application: states, steps and the ordering of hunks.
pub mod apply_model;
/// Context-dialect hunks and their two sides.
pub mod context_hunk_data;
/// Edit-script hunks.
pub mod edit_script_hunk_data;
/// Edit-script header lines.
pub mod edit_script_range_data;
/// The running state of an application.
pub mod emitter;
/// The application of lines and hunks in each dialect and direction.
pub mod engine;
/// File headers of unified and context patches.
pub mod header;
/// A hunk of any dialect.
pub mod hunk;
/// A patch's hunks, its files, and the application as a whole.
pub mod hunks;
/// Normal-dialect hunks.
pub mod normal_hunk_data;
/// Errors of an application.
pub mod patch_error;
/// Loaded text files.
pub mod patch_file;
/// The diff dialects.
pub mod patch_format;
/// The lines of hunks.
pub mod patch_line;
/// Line ranges and their decoding.
pub mod range;
/// Records read from text.
pub mod record_reader;
/// Forward-then-reverse application gives back the original lines.
pub mod round_trip;
/// Splitting text and reading numerals.
pub mod text;
/// Unified-dialect hunks.
pub mod unified_hunk_data;
