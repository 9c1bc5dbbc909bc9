//! The readable-debug print adapter.

use vstd::prelude::*;
use vstd::rwlock::RwLock;
use crate::layout::rendered;
use crate::render::debug_texts;
use crate::render::render_source_debug;
use crate::render::FormatParams;
use crate::render::RenderDebug;
use crate::render::RenderError;
use crate::source::ItemSource;
use crate::source::SuffixPred;

verus! {

/// Wraps a single-pass source of readable-debug-renderable items together
/// with the two layout options, fixed at construction. The source sits behind
/// a lock, so a shared adapter can be rendered from several threads without
/// interleaving their draws; each item the source yields is drawn exactly
/// once over the adapter's lifetime, however many rendering calls occur.
pub struct PrintingIteratorDebug<T: RenderDebug, I: ItemSource<T>> {
    iter: RwLock<I, SuffixPred<T>>,
    pretty: bool,
    indices: bool,
}

impl<T: RenderDebug, I: ItemSource<T>> PrintingIteratorDebug<T, I> {
    /// The `pretty` layout option this adapter was built with.
    pub closed spec fn pretty_opt(&self) -> bool {
        self.pretty
    }

    /// The `indices` layout option this adapter was built with.
    pub closed spec fn indices_opt(&self) -> bool {
        self.indices
    }

    /// The items the wrapped source held when the adapter was built.
    pub closed spec fn initial_items(&self) -> Seq<T> {
        self.iter.pred().items
    }

    /// Wraps `source` with the given options.
    pub fn new(source: I, pretty: bool, indices: bool) -> (p: Self)
        requires
            source.remaining().len() <= usize::MAX,
        ensures
            p.pretty_opt() == pretty,
            p.indices_opt() == indices,
            p.initial_items() == source.remaining(),
    {
        let ghost pred = SuffixPred { items: source.remaining() };
        proof {
            assert(source.remaining() =~= pred.items.skip(0));
        }
        PrintingIteratorDebug { iter: RwLock::new(source, Ghost(pred)), pretty, indices }
    }

    /// One rendering operation: drains whatever the source still holds, to
    /// exhaustion, and returns the rendered text. A successful rendering is
    /// the exact rendering, under this adapter's options, of the
    /// readable-debug texts of some suffix of the initial items: the first
    /// call sees them all, and a later call sees whatever an earlier
    /// traversal left. Rendering succeeds whenever every initial item
    /// renders — in particular always on an empty adapter — and fails only
    /// because some item's own rendering fails. The lock is held for the
    /// whole drain, so concurrent calls never interleave their draws.
    pub fn fmt(&self, params: &FormatParams) -> (r: Result<String, RenderError>)
        ensures
            r is Ok ==> exists|k: int|
                0 <= k <= self.initial_items().len() && r->Ok_0@ == rendered(
                    debug_texts(#[trigger] self.initial_items().skip(k), *params),
                    self.pretty_opt(),
                    self.indices_opt(),
                ),
            (forall|j: int|
                0 <= j < self.initial_items().len() ==> (#[trigger] self.initial_items()[j]).debug_renders(
                    *params,
                )) ==> r is Ok,
            r is Err ==> exists|j: int|
                0 <= j < self.initial_items().len() && !(#[trigger] self.initial_items()[j]).debug_renders(
                    *params,
                ),
    {
        let (mut src, handle) = self.iter.acquire_write();
        let ghost at_acquire = src.remaining();
        let r = render_source_debug(&mut src, self.pretty, self.indices, params);
        proof {
            let items0 = self.initial_items();
            let k0 = choose|k: int|
                0 <= k <= items0.len() && at_acquire =~= #[trigger] items0.skip(k);
            let m0 = choose|m: int|
                0 <= m <= at_acquire.len() && src.remaining() =~= #[trigger] at_acquire.skip(m);
            assert(src.remaining() =~= items0.skip(k0 + m0));
            if r is Ok {
                assert(debug_texts(at_acquire, *params) =~= debug_texts(
                    items0.skip(k0),
                    *params,
                ));
            } else {
                let jf = choose|j: int|
                    0 <= j < at_acquire.len() && !(#[trigger] at_acquire[j]).debug_renders(
                        *params,
                    ) && forall|i: int|
                        0 <= i < j ==> (#[trigger] at_acquire[i]).debug_renders(*params);
                assert(at_acquire[jf] == items0[k0 + jf]);
                assert(!(items0[k0 + jf]).debug_renders(*params));
            }
        }
        handle.release_write(src);
        r
    }
}

/// Wrapping any single-pass source as a readable-debug print adapter.
pub trait PrinterateDebug<T: RenderDebug>: ItemSource<T> + Sized {
    /// Wraps the source with the default options: `pretty = false`,
    /// `indices = true`.
    fn printerd(self) -> (p: PrintingIteratorDebug<T, Self>)
        requires
            self.remaining().len() <= usize::MAX,
        ensures
            !p.pretty_opt(),
            p.indices_opt(),
            p.initial_items() == self.remaining(),
    ;

    /// Wraps the source with the given options.
    fn printerd_with_options(self, pretty: bool, indices: bool) -> (p: PrintingIteratorDebug<
        T,
        Self,
    >)
        requires
            self.remaining().len() <= usize::MAX,
        ensures
            p.pretty_opt() == pretty,
            p.indices_opt() == indices,
            p.initial_items() == self.remaining(),
    ;
}

impl<T: RenderDebug, I: ItemSource<T>> PrinterateDebug<T> for I {
    fn printerd(self) -> (p: PrintingIteratorDebug<T, Self>) {
        PrintingIteratorDebug::new(self, false, true)
    }

    fn printerd_with_options(self, pretty: bool, indices: bool) -> (p: PrintingIteratorDebug<
        T,
        Self,
    >) {
        PrintingIteratorDebug::new(self, pretty, indices)
    }
}

} // verus!
