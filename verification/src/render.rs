//! The rendering protocols and the one rendering routine they share.
//!
//! The two protocols, readable-debug and display, run the same algorithm: a
//! one-element lookahead drain of the source. They differ only in which
//! per-item rendering capability they ask of the items, so the algorithm is
//! written once, parameterized by a protocol flavor.

use vstd::prelude::*;
use vstd::string::StringExecFns;
use crate::digits::u64_to_string;
use crate::layout::decimal;
use crate::layout::emitted_mid;
use crate::layout::entries;
use crate::layout::entry;
use crate::layout::index_prefix;
use crate::layout::indent;
use crate::layout::item_sep;
use crate::layout::joined;
use crate::layout::lemma_emitted_mid_joined;
use crate::layout::opening;
use crate::layout::rendered;
use crate::source::ItemSource;

verus! {

/// The formatting parameters a caller hands to a rendering operation. They
/// are forwarded unchanged to every item's own rendering call, as if one
/// single item were being formatted.
#[derive(Clone, Copy)]
pub struct FormatParams {
    /// Numeric precision, where the item type is precision-sensitive.
    pub precision: Option<usize>,
    /// The alternate-form flag.
    pub alternate: bool,
}

impl Default for FormatParams {
    /// No precision, no alternate form.
    fn default() -> (d: Self)
        ensures
            d.precision is None,
            !d.alternate,
    {
        FormatParams { precision: None, alternate: false }
    }
}

/// The failure signal of a rendering operation: some item's own rendering
/// call failed. Rendering stops at the first such failure.
#[derive(Clone, Copy, PartialEq, Eq, Debug)]
pub struct RenderError;

/// The readable-debug rendering capability of an item type.
pub trait RenderDebug {
    /// Whether rendering succeeds under these parameters.
    spec fn debug_renders(&self, params: FormatParams) -> bool;

    /// The text a successful rendering produces.
    spec fn debug_text(&self, params: FormatParams) -> Seq<char>;

    /// Renders one item under the given parameters.
    fn render_debug(&self, params: &FormatParams) -> (r: Result<String, RenderError>)
        ensures
            r is Ok <==> self.debug_renders(*params),
            r is Ok ==> r->Ok_0@ == self.debug_text(*params),
    ;
}

/// The display rendering capability of an item type.
pub trait RenderDisplay {
    /// Whether rendering succeeds under these parameters.
    spec fn display_renders(&self, params: FormatParams) -> bool;

    /// The text a successful rendering produces.
    spec fn display_text(&self, params: FormatParams) -> Seq<char>;

    /// Renders one item under the given parameters.
    fn render_display(&self, params: &FormatParams) -> (r: Result<String, RenderError>)
        ensures
            r is Ok <==> self.display_renders(*params),
            r is Ok ==> r->Ok_0@ == self.display_text(*params),
    ;
}

/// A protocol flavor: how one item is turned into text. The shared rendering
/// routine is parameterized by this, and the two protocols instantiate it.
pub(crate) trait Flavor<T> {
    spec fn renders(t: T, params: FormatParams) -> bool;

    spec fn text(t: T, params: FormatParams) -> Seq<char>;

    fn render(t: &T, params: &FormatParams) -> (r: Result<String, RenderError>)
        ensures
            r is Ok <==> Self::renders(*t, *params),
            r is Ok ==> r->Ok_0@ == Self::text(*t, *params),
    ;
}

pub(crate) struct DebugFlavor;

impl<T: RenderDebug> Flavor<T> for DebugFlavor {
    open spec fn renders(t: T, params: FormatParams) -> bool {
        t.debug_renders(params)
    }

    open spec fn text(t: T, params: FormatParams) -> Seq<char> {
        t.debug_text(params)
    }

    fn render(t: &T, params: &FormatParams) -> (r: Result<String, RenderError>) {
        t.render_debug(params)
    }
}

pub(crate) struct DisplayFlavor;

impl<T: RenderDisplay> Flavor<T> for DisplayFlavor {
    open spec fn renders(t: T, params: FormatParams) -> bool {
        t.display_renders(params)
    }

    open spec fn text(t: T, params: FormatParams) -> Seq<char> {
        t.display_text(params)
    }

    fn render(t: &T, params: &FormatParams) -> (r: Result<String, RenderError>) {
        t.render_display(params)
    }
}

/// The readable-debug texts of a sequence of items, in order.
pub open spec fn debug_texts<T: RenderDebug>(items: Seq<T>, params: FormatParams) -> Seq<
    Seq<char>,
> {
    Seq::new(items.len(), |i: int| items[i].debug_text(params))
}

/// The display texts of a sequence of items, in order.
pub open spec fn display_texts<T: RenderDisplay>(items: Seq<T>, params: FormatParams) -> Seq<
    Seq<char>,
> {
    Seq::new(items.len(), |i: int| items[i].display_text(params))
}

pub(crate) open spec fn flavor_texts<T, F: Flavor<T>>(items: Seq<T>, params: FormatParams) -> Seq<
    Seq<char>,
> {
    Seq::new(items.len(), |i: int| F::text(items[i], params))
}

/// The shared rendering routine: drains `source` to exhaustion with a
/// one-element lookahead, emitting each item's entry as it goes, and never
/// holding more than one pending item.
pub(crate) fn render_core<T, F: Flavor<T>, I: ItemSource<T>>(
    source: &mut I,
    pretty: bool,
    indices: bool,
    params: &FormatParams,
) -> (r: Result<String, RenderError>)
    requires
        old(source).remaining().len() <= usize::MAX,
    ensures
        exists|m: int|
            0 <= m <= old(source).remaining().len() && final(source).remaining() =~= old(source).remaining().skip(m),
        r is Ok ==> final(source).remaining().len() == 0,
        r is Ok ==> forall|j: int|
            0 <= j < old(source).remaining().len() ==> #[trigger] F::renders(
                old(source).remaining()[j],
                *params,
            ),
        r is Ok ==> r->Ok_0@ == rendered(
            flavor_texts::<T, F>(old(source).remaining(), *params),
            pretty,
            indices,
        ),
        r is Err ==> exists|j: int|
            0 <= j < old(source).remaining().len() && !#[trigger] F::renders(
                old(source).remaining()[j],
                *params,
            ) && forall|i: int|
                0 <= i < j ==> #[trigger] F::renders(old(source).remaining()[i], *params),
{
    let ghost items = source.remaining();
    let ghost texts = flavor_texts::<T, F>(items, *params);
    proof {
        reveal_strlit("[");
        reveal_strlit("]");
        reveal_strlit("\n");
        reveal_strlit("    ");
        reveal_strlit(": ");
        reveal_strlit(",\n");
        reveal_strlit(", ");
        assert("["@ =~= seq!['[']);
        assert("]"@ =~= seq![']']);
        assert("\n"@ =~= seq!['\n']);
        assert("    "@ =~= seq![' ', ' ', ' ', ' ']);
        assert(": "@ =~= seq![':', ' ']);
        assert(",\n"@ =~= seq![',', '\n']);
        assert(", "@ =~= seq![',', ' ']);
    }
    let mut out = String::new();
    if pretty {
        out.append("[");
    }
    let mut index: usize = 0;
    let mut pending: Option<T> = source.draw();
    proof {
        assert(out@ =~= opening(pretty, false) + emitted_mid(texts, 0, pretty, indices));
        if items.len() > 0 {
            assert(source.remaining() =~= items.skip(1));
        } else {
            assert(source.remaining() =~= items.skip(0));
        }
    }
    loop
        invariant
            items.len() <= usize::MAX,
            items == old(source).remaining(),
            texts == flavor_texts::<T, F>(items, *params),
            texts.len() == items.len(),
            0 <= index as int <= items.len(),
            forall|j: int| 0 <= j < index as int ==> #[trigger] F::renders(items[j], *params),
            pending is Some ==> (index as int) < items.len() && pending == Some(
                items[index as int],
            ),
            pending is None ==> index as int == items.len(),
            source.remaining() =~= items.skip(
                if pending is Some {
                    index as int + 1
                } else {
                    index as int
                },
            ),
            pending is Some ==> out@ == opening(pretty, index > 0) + emitted_mid(
                texts,
                index as int,
                pretty,
                indices,
            ),
            pending is None && items.len() == 0 ==> out@ == opening(pretty, false),
            pending is None && items.len() > 0 ==> out@ == opening(pretty, true) + emitted_mid(
                texts,
                items.len() - 1,
                pretty,
                indices,
            ) + entry(texts[items.len() - 1], (items.len() - 1) as nat, pretty, indices) + (
            if pretty {
                seq!['\n']
            } else {
                Seq::<char>::empty()
            }),
        ensures
            pending is None,
            forall|j: int| 0 <= j < items.len() ==> #[trigger] F::renders(items[j], *params),
            source.remaining() =~= items.skip(items.len() as int),
            items.len() == 0 ==> out@ == opening(pretty, false),
            items.len() > 0 ==> out@ == opening(pretty, true) + emitted_mid(
                texts,
                items.len() - 1,
                pretty,
                indices,
            ) + entry(texts[items.len() - 1], (items.len() - 1) as nat, pretty, indices) + (
            if pretty {
                seq!['\n']
            } else {
                Seq::<char>::empty()
            }),
        decreases items.len() - index as int + (if pending is Some {
            1int
        } else {
            0int
        }),
    {
        match pending {
            None => {
                break ;
            },
            Some(elem) => {
                proof {
                    reveal_strlit("\n");
                    reveal_strlit("    ");
                    reveal_strlit(": ");
                    reveal_strlit(",\n");
                    reveal_strlit(", ");
                    assert("\n"@ =~= seq!['\n']);
                    assert("    "@ =~= seq![' ', ' ', ' ', ' ']);
                    assert(": "@ =~= seq![':', ' ']);
                    assert(",\n"@ =~= seq![',', '\n']);
                    assert(", "@ =~= seq![',', ' ']);
                }
                let successor = source.draw();
                proof {
                    if index as int + 1 < items.len() {
                        assert(items.skip(index as int + 1).skip(1) =~= items.skip(
                            index as int + 2,
                        ));
                    }
                }
                if pretty && index == 0 {
                    out.append("\n");
                }
                if pretty {
                    out.append("    ");
                }
                proof {
                    assert(out@ =~= opening(pretty, true) + emitted_mid(
                        texts,
                        index as int,
                        pretty,
                        indices,
                    ) + indent(pretty));
                }
                if indices {
                    let numeral = u64_to_string(index as u64);
                    proof {
                        assert(decimal((index as u64) as nat) == decimal(index as nat));
                    }
                    out.append(numeral.as_str());
                    out.append(": ");
                }
                proof {
                    assert(out@ =~= opening(pretty, true) + emitted_mid(
                        texts,
                        index as int,
                        pretty,
                        indices,
                    ) + indent(pretty) + (if indices {
                        index_prefix(index as nat)
                    } else {
                        Seq::<char>::empty()
                    }));
                }
                let text = match <F as Flavor<T>>::render(&elem, params) {
                    Ok(t) => t,
                    Err(e) => {
                        proof {
                            let m: int = if index as int + 1 < items.len() {
                                index as int + 2
                            } else {
                                index as int + 1
                            };
                            assert(source.remaining() =~= items.skip(m));
                            assert(!F::renders(items[index as int], *params));
                        }
                        return Err(e);
                    },
                };
                out.append(text.as_str());
                proof {
                    assert(texts[index as int] == F::text(items[index as int], *params));
                    assert(out@ =~= opening(pretty, true) + emitted_mid(
                        texts,
                        index as int,
                        pretty,
                        indices,
                    ) + entry(texts[index as int], index as nat, pretty, indices));
                }
                let last = successor.is_none();
                if last {
                    if pretty {
                        out.append("\n");
                    }
                } else {
                    if pretty {
                        out.append(",\n");
                    } else {
                        out.append(", ");
                    }
                }
                proof {
                    let i = index as int;
                    let e = entry(texts[i], index as nat, pretty, indices);
                    assert(emitted_mid(texts, i + 1, pretty, indices) == emitted_mid(
                        texts,
                        i,
                        pretty,
                        indices,
                    ) + e + item_sep(pretty));
                    if last {
                        assert(out@ =~= opening(pretty, true) + emitted_mid(
                            texts,
                            i,
                            pretty,
                            indices,
                        ) + e + (if pretty {
                            seq!['\n']
                        } else {
                            Seq::<char>::empty()
                        }));
                    } else {
                        assert(out@ =~= opening(pretty, true) + emitted_mid(
                            texts,
                            i + 1,
                            pretty,
                            indices,
                        ));
                    }
                }
                pending = successor;
                index = index + 1;
            },
        }
    }
    if pretty {
        out.append("]");
    }
    proof {
        assert(source.remaining() =~= items.skip(items.len() as int));
        let es = entries(texts, pretty, indices);
        if items.len() == 0 {
            assert(out@ =~= rendered(texts, pretty, indices));
        } else {
            lemma_emitted_mid_joined(texts, items.len() - 1, pretty, indices);
            assert(es.take(texts.len() as int) =~= es);
            if pretty {
                assert(out@ =~= seq!['[', '\n'] + joined(es, item_sep(true)) + seq!['\n', ']']);
            } else {
                assert(out@ =~= joined(es, item_sep(false)));
            }
        }
    }
    Ok(out)
}

/// Renders everything `source` still holds under the readable-debug protocol,
/// draining it to exhaustion. On success every item was drawn and rendered
/// exactly once, in order, and the output is exactly the rendering of their
/// texts under the given options; on the first failing item the error is
/// returned at once and the rest of the source is left undrawn.
pub fn render_source_debug<T: RenderDebug, I: ItemSource<T>>(
    source: &mut I,
    pretty: bool,
    indices: bool,
    params: &FormatParams,
) -> (r: Result<String, RenderError>)
    requires
        old(source).remaining().len() <= usize::MAX,
    ensures
        exists|m: int|
            0 <= m <= old(source).remaining().len() && final(source).remaining() =~= old(source).remaining().skip(m),
        r is Ok ==> final(source).remaining().len() == 0,
        r is Ok ==> forall|j: int|
            0 <= j < old(source).remaining().len() ==> (#[trigger] old(source).remaining()[j]).debug_renders(*params),
        r is Ok ==> r->Ok_0@ == rendered(
            debug_texts(old(source).remaining(), *params),
            pretty,
            indices,
        ),
        r is Err ==> exists|j: int|
            0 <= j < old(source).remaining().len() && !(#[trigger] old(source).remaining()[j]).debug_renders(*params) && forall|i: int|
                0 <= i < j ==> (#[trigger] old(source).remaining()[i]).debug_renders(*params),
{
    let r = render_core::<T, DebugFlavor, I>(source, pretty, indices, params);
    proof {
        let its = old(source).remaining();
        assert(flavor_texts::<T, DebugFlavor>(its, *params) =~= debug_texts(its, *params));
        if r is Ok {
            assert forall|j: int| 0 <= j < its.len() implies (#[trigger] its[j]).debug_renders(
                *params,
            ) by {
                assert(DebugFlavor::renders(its[j], *params));
            }
        } else {
            let j = choose|j: int|
                0 <= j < its.len() && !#[trigger] DebugFlavor::renders(its[j], *params) && forall|
                    i: int,
                |
                    0 <= i < j ==> #[trigger] DebugFlavor::renders(its[i], *params);
            assert(!its[j].debug_renders(*params));
            assert forall|i: int| 0 <= i < j implies (#[trigger] its[i]).debug_renders(
                *params,
            ) by {
                assert(DebugFlavor::renders(its[i], *params));
            }
        }
    }
    r
}

/// Renders everything `source` still holds under the display protocol; the
/// contract is that of [`render_source_debug`], over the display texts.
pub fn render_source_display<T: RenderDisplay, I: ItemSource<T>>(
    source: &mut I,
    pretty: bool,
    indices: bool,
    params: &FormatParams,
) -> (r: Result<String, RenderError>)
    requires
        old(source).remaining().len() <= usize::MAX,
    ensures
        exists|m: int|
            0 <= m <= old(source).remaining().len() && final(source).remaining() =~= old(source).remaining().skip(m),
        r is Ok ==> final(source).remaining().len() == 0,
        r is Ok ==> forall|j: int|
            0 <= j < old(source).remaining().len() ==> (#[trigger] old(source).remaining()[j]).display_renders(*params),
        r is Ok ==> r->Ok_0@ == rendered(
            display_texts(old(source).remaining(), *params),
            pretty,
            indices,
        ),
        r is Err ==> exists|j: int|
            0 <= j < old(source).remaining().len() && !(#[trigger] old(source).remaining()[j]).display_renders(*params) && forall|i: int|
                0 <= i < j ==> (#[trigger] old(source).remaining()[i]).display_renders(*params),
{
    let r = render_core::<T, DisplayFlavor, I>(source, pretty, indices, params);
    proof {
        let its = old(source).remaining();
        assert(flavor_texts::<T, DisplayFlavor>(its, *params) =~= display_texts(its, *params));
        if r is Ok {
            assert forall|j: int| 0 <= j < its.len() implies (#[trigger] its[j]).display_renders(
                *params,
            ) by {
                assert(DisplayFlavor::renders(its[j], *params));
            }
        } else {
            let j = choose|j: int|
                0 <= j < its.len() && !#[trigger] DisplayFlavor::renders(its[j], *params)
                    && forall|i: int|
                    0 <= i < j ==> #[trigger] DisplayFlavor::renders(its[i], *params);
            assert(!its[j].display_renders(*params));
            assert forall|i: int| 0 <= i < j implies (#[trigger] its[i]).display_renders(
                *params,
            ) by {
                assert(DisplayFlavor::renders(its[i], *params));
            }
        }
    }
    r
}

} // verus!
