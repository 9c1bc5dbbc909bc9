//! The output shape: what a rendering of a sequence of item texts looks like,
//! for each combination of the `pretty` and `indices` options.

use vstd::prelude::*;

verus! {

/// The decimal digit `d` (`d < 10`) as a character.
pub open spec fn digit_char(d: nat) -> char {
    if d == 0 {
        '0'
    } else if d == 1 {
        '1'
    } else if d == 2 {
        '2'
    } else if d == 3 {
        '3'
    } else if d == 4 {
        '4'
    } else if d == 5 {
        '5'
    } else if d == 6 {
        '6'
    } else if d == 7 {
        '7'
    } else if d == 8 {
        '8'
    } else {
        '9'
    }
}

/// The decimal numeral of `n`, most significant digit first, no leading zeros
/// (except for `n == 0`, which is the single digit `0`).
pub open spec fn decimal(n: nat) -> Seq<char>
    decreases n,
{
    if n < 10 {
        seq![digit_char(n)]
    } else {
        decimal(n / 10) + seq![digit_char(n % 10)]
    }
}

/// The prefix written before item `k` when the `indices` option is on.
pub open spec fn index_prefix(k: nat) -> Seq<char> {
    decimal(k) + seq![':', ' ']
}

/// The indent written before each item in `pretty` mode.
pub open spec fn indent(pretty: bool) -> Seq<char> {
    if pretty {
        seq![' ', ' ', ' ', ' ']
    } else {
        Seq::empty()
    }
}

/// Everything written for item `k` itself: the indent (in `pretty` mode), the
/// optional index prefix, and the item's own text.
pub open spec fn entry(text: Seq<char>, k: nat, pretty: bool, indices: bool) -> Seq<char> {
    indent(pretty) + (if indices {
        index_prefix(k)
    } else {
        Seq::empty()
    }) + text
}

/// The entries of all items, in order.
pub open spec fn entries(texts: Seq<Seq<char>>, pretty: bool, indices: bool) -> Seq<Seq<char>> {
    Seq::new(texts.len(), |i: int| entry(texts[i], i as nat, pretty, indices))
}

/// The separator written between two consecutive items.
pub open spec fn item_sep(pretty: bool) -> Seq<char> {
    if pretty {
        seq![',', '\n']
    } else {
        seq![',', ' ']
    }
}

/// `parts` concatenated with `sep` between consecutive parts: `n` parts are
/// joined by exactly `n - 1` separators, and a single part stands alone.
pub open spec fn joined(parts: Seq<Seq<char>>, sep: Seq<char>) -> Seq<char>
    decreases parts.len(),
{
    if parts.len() == 0 {
        Seq::empty()
    } else if parts.len() == 1 {
        parts[0]
    } else {
        parts[0] + sep + joined(parts.skip(1), sep)
    }
}

/// The whole output for the given item texts and options.
///
/// In `pretty` mode the entries are joined by `",\n"`, the last entry is
/// followed by a bare `"\n"`, and the whole body is wrapped in `"["` and
/// `"]"`; an empty sequence still gets its bracket pair, with nothing between
/// the brackets. Outside `pretty` mode the entries are joined by `", "`, with
/// no brackets and nothing after the last entry.
pub open spec fn rendered(texts: Seq<Seq<char>>, pretty: bool, indices: bool) -> Seq<char> {
    if pretty {
        if texts.len() == 0 {
            seq!['[', ']']
        } else {
            seq!['[', '\n'] + joined(entries(texts, true, indices), item_sep(true)) + seq![
                '\n',
                ']',
            ]
        }
    } else {
        joined(entries(texts, false, indices), item_sep(false))
    }
}

/// What the rendering loop has written before any entry: the opening bracket
/// in `pretty` mode, and the newline before the first entry once one exists.
pub(crate) open spec fn opening(pretty: bool, body: bool) -> Seq<char> {
    if pretty {
        if body {
            seq!['[', '\n']
        } else {
            seq!['[']
        }
    } else {
        Seq::empty()
    }
}

/// What the rendering loop has written for the first `k` entries while each of
/// them still had a successor: each entry followed by the separator.
pub(crate) open spec fn emitted_mid(
    texts: Seq<Seq<char>>,
    k: int,
    pretty: bool,
    indices: bool,
) -> Seq<char>
    decreases k,
{
    if k <= 0 {
        Seq::empty()
    } else {
        emitted_mid(texts, k - 1, pretty, indices) + entry(
            texts[k - 1],
            (k - 1) as nat,
            pretty,
            indices,
        ) + item_sep(pretty)
    }
}

/// Appending one more part to a join appends one more separator.
pub proof fn lemma_joined_push(parts: Seq<Seq<char>>, sep: Seq<char>, last: Seq<char>)
    requires
        parts.len() >= 1,
    ensures
        joined(parts.push(last), sep) == joined(parts, sep) + sep + last,
    decreases parts.len(),
{
    let all = parts.push(last);
    if parts.len() == 1 {
        assert(all.skip(1) =~= seq![last]);
        assert(joined(all, sep) == all[0] + sep + joined(all.skip(1), sep));
        assert(joined(seq![last], sep) == seq![last][0]);
        assert(all[0] == parts[0]);
        assert(joined(parts, sep) == parts[0]);
    } else {
        lemma_joined_push(parts.skip(1), sep, last);
        assert(all.skip(1) =~= parts.skip(1).push(last));
        assert(joined(all, sep) == all[0] + sep + joined(all.skip(1), sep));
        assert(all[0] == parts[0]);
        assert(joined(parts, sep) == parts[0] + sep + joined(parts.skip(1), sep));
        assert(parts[0] + sep + (joined(parts.skip(1), sep) + sep + last) =~= (parts[0] + sep
            + joined(parts.skip(1), sep)) + sep + last);
    }
}

/// The loop's mid entries plus the final entry make exactly the join of the
/// first `k + 1` entries.
pub(crate) proof fn lemma_emitted_mid_joined(
    texts: Seq<Seq<char>>,
    k: int,
    pretty: bool,
    indices: bool,
)
    requires
        0 <= k < texts.len(),
    ensures
        emitted_mid(texts, k, pretty, indices) + entry(texts[k], k as nat, pretty, indices)
            == joined(entries(texts, pretty, indices).take(k + 1), item_sep(pretty)),
    decreases k,
{
    let es = entries(texts, pretty, indices);
    let sep = item_sep(pretty);
    if k == 0 {
        assert(es.take(1) =~= seq![es[0]]);
        assert(joined(seq![es[0]], sep) == es[0]);
        assert(Seq::<char>::empty() + entry(texts[0], 0, pretty, indices) =~= entry(
            texts[0],
            0,
            pretty,
            indices,
        ));
    } else {
        lemma_emitted_mid_joined(texts, k - 1, pretty, indices);
        lemma_joined_push(es.take(k), sep, es[k]);
        assert(es.take(k + 1) =~= es.take(k).push(es[k]));
        assert(emitted_mid(texts, k, pretty, indices) == emitted_mid(texts, k - 1, pretty, indices)
            + entry(texts[k - 1], (k - 1) as nat, pretty, indices) + sep);
        assert(emitted_mid(texts, k, pretty, indices) == joined(es.take(k), sep) + sep);
        assert(es[k] == entry(texts[k], k as nat, pretty, indices));
    }
}

/// The item texts of all parts together, separators not counted.
pub open spec fn total_len(parts: Seq<Seq<char>>) -> nat
    decreases parts.len(),
{
    if parts.len() == 0 {
        0
    } else {
        parts[0].len() + total_len(parts.skip(1))
    }
}

/// A join of `n >= 1` parts holds exactly `n - 1` separators: its length is
/// the parts' lengths plus `n - 1` times the separator's length.
pub proof fn lemma_joined_len(parts: Seq<Seq<char>>, sep: Seq<char>)
    ensures
        parts.len() == 0 ==> joined(parts, sep).len() == 0,
        parts.len() >= 1 ==> joined(parts, sep).len() == total_len(parts) + (parts.len() - 1)
            * sep.len(),
    decreases parts.len(),
{
    if parts.len() == 1 {
        assert(total_len(parts.skip(1)) == 0);
    } else if parts.len() > 1 {
        lemma_joined_len(parts.skip(1), sep);
        let n: int = parts.len() as int;
        let s: int = sep.len() as int;
        assert((n - 2) * s + s == (n - 1) * s) by (nonlinear_arith);
    }
}

/// Law: rendering with `indices` on inserts `"{k}: "` before item `k`'s text,
/// counting from zero in emission order, in both `pretty` and non-`pretty`
/// modes — it is the same as rendering, with `indices` off, the texts with
/// those prefixes already attached. Rendering with `indices` off never
/// inserts such a prefix: the right-hand side uses each text verbatim.
pub proof fn lemma_indices_prefix(texts: Seq<Seq<char>>, pretty: bool)
    ensures
        rendered(texts, pretty, true) == rendered(
            Seq::new(texts.len(), |i: int| index_prefix(i as nat) + texts[i]),
            pretty,
            false,
        ),
{
    let pfx = Seq::new(texts.len(), |i: int| index_prefix(i as nat) + texts[i]);
    assert forall|i: int| 0 <= i < texts.len() implies entries(texts, pretty, true)[i] == entries(
        pfx,
        pretty,
        false,
    )[i] by {
        assert(entry(texts[i], i as nat, pretty, true) =~= entry(pfx[i], i as nat, pretty, false));
    }
    assert(entries(texts, pretty, true) =~= entries(pfx, pretty, false));
}

/// Law: the separators. Outside `pretty` mode the output is exactly the
/// entries joined by `", "`; in `pretty` mode it is exactly the entries
/// joined by `",\n"`, with a bare `"\n"` after the last entry, wrapped in
/// `"["` and `"]"`, and an empty sequence still gets its bracket pair. In
/// both modes a join of `n >= 1` entries holds exactly `n - 1` separators,
/// shown by its length.
pub proof fn lemma_separator_law(texts: Seq<Seq<char>>, indices: bool)
    ensures
        rendered(texts, false, indices) == joined(entries(texts, false, indices), seq![',', ' ']),
        texts.len() == 0 ==> rendered(texts, true, indices) == seq!['[', ']'],
        texts.len() > 0 ==> rendered(texts, true, indices) == seq!['[', '\n'] + joined(
            entries(texts, true, indices),
            seq![',', '\n'],
        ) + seq!['\n', ']'],
        texts.len() == 0 ==> rendered(texts, false, indices).len() == 0,
        texts.len() >= 1 ==> rendered(texts, false, indices).len() == total_len(
            entries(texts, false, indices),
        ) + (texts.len() - 1) * 2,
        texts.len() >= 1 ==> joined(entries(texts, true, indices), seq![',', '\n']).len()
            == total_len(entries(texts, true, indices)) + (texts.len() - 1) * 2,
{
    lemma_joined_len(entries(texts, false, indices), seq![',', ' ']);
    lemma_joined_len(entries(texts, true, indices), seq![',', '\n']);
}

/// Law: a single item is rendered with no separator at all — only the indent
/// (in `pretty` mode), the optional index prefix `"0: "`, and the item's own
/// text, still bracket-wrapped in `pretty` mode.
pub proof fn lemma_single_item(text: Seq<char>, pretty: bool, indices: bool)
    ensures
        rendered(seq![text], false, indices) == entry(text, 0, false, indices),
        rendered(seq![text], true, indices) == seq!['[', '\n'] + entry(text, 0, true, indices)
            + seq!['\n', ']'],
{
    assert(entries(seq![text], false, indices) =~= seq![entry(text, 0, false, indices)]);
    assert(entries(seq![text], true, indices) =~= seq![entry(text, 0, true, indices)]);
    assert(joined(seq![entry(text, 0, false, indices)], item_sep(false)) == entry(
        text,
        0,
        false,
        indices,
    ));
    assert(joined(seq![entry(text, 0, true, indices)], item_sep(true)) == entry(
        text,
        0,
        true,
        indices,
    ));
}

/// How many positions of `s` start an occurrence of `pat`.
pub open spec fn occurrences(s: Seq<char>, pat: Seq<char>) -> nat
    decreases s.len(),
{
    if pat.len() == 0 || s.len() < pat.len() {
        0
    } else {
        (if s.take(pat.len() as int) == pat {
            1nat
        } else {
            0nat
        }) + occurrences(s.skip(1), pat)
    }
}

/// Whether an occurrence of a two-character `pat` sits astride the seam of
/// `a + b`.
pub(crate) open spec fn seam(a: Seq<char>, b: Seq<char>, pat: Seq<char>) -> nat {
    if pat.len() == 2 && a.len() >= 1 && b.len() >= 1 && a.last() == pat[0] && b.first() == pat[1] {
        1
    } else {
        0
    }
}

/// A text none of whose characters is the head of `pat` holds no occurrence.
pub(crate) proof fn lemma_occurrences_none(s: Seq<char>, pat: Seq<char>)
    requires
        pat.len() >= 1,
        forall|i: int| 0 <= i < s.len() ==> s[i] != pat[0],
    ensures
        occurrences(s, pat) == 0,
    decreases s.len(),
{
    if s.len() >= pat.len() {
        lemma_occurrences_none(s.skip(1), pat);
        if s.take(pat.len() as int) == pat {
            assert(s.take(pat.len() as int)[0] == s[0]);
            assert(false);
        }
    }
}

/// The occurrences of a two-character pattern in `a + b` are those of `a`,
/// those of `b`, and at most one astride the seam.
pub(crate) proof fn lemma_occurrences_concat(a: Seq<char>, b: Seq<char>, pat: Seq<char>)
    requires
        pat.len() == 2,
    ensures
        occurrences(a + b, pat) == occurrences(a, pat) + occurrences(b, pat) + seam(a, b, pat),
    decreases a.len(),
{
    if a.len() == 0 {
        assert(a + b =~= b);
    } else {
        lemma_occurrences_concat(a.skip(1), b, pat);
        assert((a + b).skip(1) =~= a.skip(1) + b);
        if a.len() == 1 {
            assert(occurrences(a, pat) == 0);
            assert(a.skip(1) + b =~= b);
            if b.len() >= 1 {
                if a[0] == pat[0] && b[0] == pat[1] {
                    assert((a + b).take(2) =~= pat);
                } else {
                    if (a + b).take(2) == pat {
                        assert((a + b).take(2)[0] == a[0]);
                        assert((a + b).take(2)[1] == b[0]);
                        assert(false);
                    }
                }
            } else {
                assert((a + b).len() < 2);
            }
        } else {
            if (a + b).len() >= 2 {
                assert((a + b).take(2) =~= a.take(2));
            }
            assert(a.skip(1).last() == a.last());
            assert(seam(a.skip(1), b, pat) == seam(a, b, pat));
        }
    }
}

/// Every character of a decimal numeral is one of the ten digits.
pub(crate) proof fn lemma_numeral_chars(n: nat)
    ensures
        forall|i: int|
            0 <= i < decimal(n).len() ==> exists|d: nat| d < 10 && #[trigger] decimal(n)[i]
                == digit_char(d),
    decreases n,
{
    if n < 10 {
        assert(decimal(n)[0] == digit_char(n));
    } else {
        lemma_numeral_chars(n / 10);
        assert forall|i: int| 0 <= i < decimal(n).len() implies exists|d: nat|
            d < 10 && #[trigger] decimal(n)[i] == digit_char(d) by {
            if i < decimal(n / 10).len() {
                assert(decimal(n)[i] == decimal(n / 10)[i]);
            } else {
                assert(decimal(n)[i] == digit_char(n % 10));
            }
        }
    }
}

/// An entry holds no occurrence of the separator unless its own text does:
/// the indent, the index prefix and the seams contribute none.
pub(crate) proof fn lemma_entry_occurrences(
    text: Seq<char>,
    k: nat,
    pretty: bool,
    indices: bool,
    pat: Seq<char>,
)
    requires
        pat.len() == 2,
        pat[0] == ',',
        occurrences(text, pat) == 0,
    ensures
        occurrences(entry(text, k, pretty, indices), pat) == 0,
{
    let head = indent(pretty) + (if indices {
        index_prefix(k)
    } else {
        Seq::<char>::empty()
    });
    lemma_numeral_chars(k);
    assert forall|i: int| 0 <= i < head.len() implies head[i] != ',' by {
        if i < indent(pretty).len() {
            assert(head[i] == indent(pretty)[i]);
        } else {
            let j: int = i - indent(pretty).len();
            assert(head[i] == index_prefix(k)[j]);
            if j < decimal(k).len() {
                assert(index_prefix(k)[j] == decimal(k)[j]);
                let d = choose|d: nat| d < 10 && decimal(k)[j] == digit_char(d);
                assert(digit_char(d) != ',');
            } else {
                assert(index_prefix(k)[j] == seq![':', ' '][j - decimal(k).len()]);
            }
        }
    }
    lemma_occurrences_none(head, pat);
    lemma_occurrences_concat(head, text, pat);
    assert(seam(head, text, pat) == 0);
}

/// A join of parts that hold no occurrence of a two-character separator whose
/// two characters differ holds exactly one occurrence per separator written.
pub(crate) proof fn lemma_joined_occurrences(parts: Seq<Seq<char>>, sep: Seq<char>)
    requires
        sep.len() == 2,
        sep[0] != sep[1],
        forall|i: int| 0 <= i < parts.len() ==> occurrences(#[trigger] parts[i], sep) == 0,
    ensures
        parts.len() == 0 ==> occurrences(joined(parts, sep), sep) == 0,
        parts.len() >= 1 ==> occurrences(joined(parts, sep), sep) == parts.len() - 1,
    decreases parts.len(),
{
    if parts.len() >= 2 {
        lemma_joined_occurrences(parts.skip(1), sep);
        let head = parts[0] + sep;
        let rest = joined(parts.skip(1), sep);
        lemma_occurrences_concat(parts[0], sep, sep);
        assert(sep.take(2) =~= sep);
        assert(occurrences(sep.skip(1), sep) == 0);
        assert(occurrences(sep, sep) == 1);
        assert(seam(parts[0], sep, sep) == 0);
        lemma_occurrences_concat(head, rest, sep);
        assert(head.last() == sep[1]);
        assert(seam(head, rest, sep) == 0);
        assert(joined(parts, sep) == head + rest);
    }
}

/// Law: the separator count, literally. Outside `pretty` mode, `", "` occurs
/// exactly `n - 1` times in the output for `n >= 1` items and never for none;
/// in `pretty` mode the same holds of `",\n"`. The item texts must hold no
/// occurrence of the separator themselves, and in `pretty` mode the last text
/// must not end in a comma: an item can always counterfeit separators in its
/// own text, and those would be counted too.
pub proof fn lemma_separator_count(texts: Seq<Seq<char>>, pretty: bool, indices: bool)
    requires
        forall|i: int|
            0 <= i < texts.len() ==> occurrences(#[trigger] texts[i], item_sep(pretty)) == 0,
        pretty && texts.len() >= 1 ==> (texts.last().len() == 0 || texts.last().last() != ','),
    ensures
        texts.len() == 0 ==> occurrences(rendered(texts, pretty, indices), item_sep(pretty)) == 0,
        texts.len() >= 1 ==> occurrences(rendered(texts, pretty, indices), item_sep(pretty))
            == texts.len() - 1,
{
    let sep = item_sep(pretty);
    let es = entries(texts, pretty, indices);
    let n: int = texts.len() as int;
    assert forall|i: int| 0 <= i < es.len() implies occurrences(#[trigger] es[i], sep) == 0 by {
        lemma_entry_occurrences(texts[i], i as nat, pretty, indices, sep);
    }
    lemma_joined_occurrences(es, sep);
    if !pretty {
        assert(rendered(texts, false, indices) == joined(es, sep));
    } else {
        if texts.len() == 0 {
            assert forall|i: int|
                0 <= i < rendered(texts, true, indices).len() implies rendered(
                texts,
                true,
                indices,
            )[i] != ',' by {}
            lemma_occurrences_none(rendered(texts, true, indices), sep);
        } else {
            let body = joined(es, sep);
            // The join ends with the last entry, whose last character is the
            // last text's (or a prefix blank where that text is empty): never
            // a comma, so no occurrence sits astride the closing seam.
            lemma_emitted_mid_joined(texts, n - 1, pretty, indices);
            assert(es.take(n) =~= es);
            let last_entry = entry(texts[n - 1], (n - 1) as nat, pretty, indices);
            assert(last_entry.len() >= 1);
            assert(body == emitted_mid(texts, n - 1, pretty, indices) + last_entry);
            assert(body.last() == last_entry.last());
            let head = indent(true) + (if indices {
                index_prefix((n - 1) as nat)
            } else {
                Seq::<char>::empty()
            });
            if texts.last().len() == 0 {
                assert(last_entry.last() == head.last());
                if indices {
                    assert(head.last() == ' ');
                } else {
                    assert(head.last() == ' ');
                }
            } else {
                assert(last_entry.last() == texts.last().last());
            }
            assert(body.last() != ',');
            let front = seq!['[', '\n'] + body;
            lemma_occurrences_none(seq!['[', '\n'], sep);
            lemma_occurrences_concat(seq!['[', '\n'], body, sep);
            assert(seam(seq!['[', '\n'], body, sep) == 0);
            lemma_occurrences_none(seq!['\n', ']'], sep);
            lemma_occurrences_concat(front, seq!['\n', ']'], sep);
            assert(front.last() == body.last());
            assert(seam(front, seq!['\n', ']'], sep) == 0);
            assert(rendered(texts, true, indices) == front + seq!['\n', ']']);
        }
    }
}

} // verus!
