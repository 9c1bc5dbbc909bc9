//! Render the items of a single-pass source as text, without collecting them
//! into a buffer first.
//!
//! A [`printerd::PrintingIteratorDebug`] or [`printer::PrintingIteratorDisplay`]
//! wraps a source of items together with two independent layout options:
//!
//! - `pretty`: `true` gives multi-line, indented, bracket-delimited output;
//!   `false` gives a single line, with items separated by `", "` and no
//!   brackets.
//! - `indices`: `true` prefixes each item with its zero-based position in the
//!   sequence followed by `": "`; `false` adds no prefix.
//!
//! The default options, used by the one-argument constructors, are
//! `pretty = false, indices = true`.
//!
//! Rendering drains the source exactly once, using a one-element lookahead to
//! place separators without ever holding more than one pending item. The
//! source sits behind a lock, so a shared adapter can be rendered from several
//! threads without two traversals interleaving their draws.
//!
//! Formatting parameters given to a rendering call are handed unchanged to
//! every item's own rendering call, as if a single item were being formatted.

pub mod digits;
pub mod items;
pub mod layout;
pub mod printer;
pub mod printerd;
pub mod render;
pub mod source;

pub use printer::PrinterateDisplay;
pub use printer::PrintingIteratorDisplay;
pub use printerd::PrinterateDebug;
pub use printerd::PrintingIteratorDebug;
pub use render::FormatParams;
pub use render::RenderDebug;
pub use render::RenderDisplay;
pub use render::RenderError;
pub use source::ItemSource;
pub use source::VecSource;
