//! Item types the library itself equips with the rendering protocols.
//!
//! `u64` renders as its decimal numeral under both protocols, ignoring the
//! formatting parameters. A `String` renders under the display protocol as
//! its own characters, cut to at most the requested precision's count of
//! characters when one is given; under the readable-debug protocol it renders
//! as std's quoted, escaped form, whole, regardless of the parameters.
//! Neither item type ever fails to render.

use vstd::prelude::*;
use vstd::string::StrSliceExecFns;
use crate::digits::u64_to_string;
use crate::layout::decimal;
use crate::render::FormatParams;
use crate::render::RenderDebug;
use crate::render::RenderDisplay;
use crate::render::RenderError;

verus! {

impl RenderDebug for u64 {
    open spec fn debug_renders(&self, params: FormatParams) -> bool {
        true
    }

    open spec fn debug_text(&self, params: FormatParams) -> Seq<char> {
        decimal(*self as nat)
    }

    fn render_debug(&self, params: &FormatParams) -> (r: Result<String, RenderError>) {
        Ok(u64_to_string(*self))
    }
}

impl RenderDisplay for u64 {
    open spec fn display_renders(&self, params: FormatParams) -> bool {
        true
    }

    open spec fn display_text(&self, params: FormatParams) -> Seq<char> {
        decimal(*self as nat)
    }

    fn render_display(&self, params: &FormatParams) -> (r: Result<String, RenderError>) {
        Ok(u64_to_string(*self))
    }
}

/// What std's readable-debug formatting of a string yields: the text wrapped
/// in quotes, with quotes, backslashes and control characters escaped. It
/// depends on the characters alone.
pub uninterp spec fn debug_str_of(text: Seq<char>) -> Seq<char>;

/// Relies on std's `Debug` formatting for `str` (`format!` with the `?`
/// flag): a deterministic function of the characters alone.
#[verifier::external_body]
fn fmt_debug_str(s: &str) -> (r: String)
    ensures
        r@ == debug_str_of(s@),
{
    format!("{:?}", s)
}

impl RenderDebug for String {
    open spec fn debug_renders(&self, params: FormatParams) -> bool {
        true
    }

    open spec fn debug_text(&self, params: FormatParams) -> Seq<char> {
        debug_str_of(self@)
    }

    fn render_debug(&self, params: &FormatParams) -> (r: Result<String, RenderError>) {
        Ok(fmt_debug_str(self.as_str()))
    }
}

impl RenderDisplay for String {
    open spec fn display_renders(&self, params: FormatParams) -> bool {
        true
    }

    open spec fn display_text(&self, params: FormatParams) -> Seq<char> {
        match params.precision {
            Some(p) => if (p as int) < self@.len() {
                self@.take(p as int)
            } else {
                self@
            },
            None => self@,
        }
    }

    fn render_display(&self, params: &FormatParams) -> (r: Result<String, RenderError>) {
        match params.precision {
            Some(p) => {
                let n = self.as_str().unicode_len();
                if p < n {
                    let cut = self.as_str().substring_char(0, p);
                    proof {
                        assert(cut@ =~= self@.take(p as int));
                    }
                    Ok(cut.to_owned())
                } else {
                    Ok(self.clone())
                }
            },
            None => Ok(self.clone()),
        }
    }
}

} // verus!
