//! The git-style line merge shared by every table that merges text on
//! import or sync: reflections (with the "skip" placeholder rule), the daily
//! task list and the not-to-do list.
use vstd::prelude::*;

use crate::text::{clean_lines, clean_lines_of, to_lowercase, unicode_lowercase};

verus! {

// ---------------------------------------------------------------------------
// Specifications
// ---------------------------------------------------------------------------

/// A line whose lowercase form is exactly "skip": the overlay's placeholder.
pub open spec fn is_skip_spec(line: Seq<char>) -> bool {
    unicode_lowercase(line) == seq!['s', 'k', 'i', 'p']
}

/// Some line of `lines` lowercases to `key`.
pub open spec fn has_key(lines: Seq<Seq<char>>, key: Seq<char>) -> bool {
    exists|i: int| 0 <= i < lines.len() && unicode_lowercase(#[trigger] lines[i]) == key
}

/// Rule 1 of the merge: every incoming line whose lowercase form is not yet
/// present is appended, in incoming order; `acc` itself is kept unchanged.
pub open spec fn append_unique_spec(acc: Seq<Seq<char>>, incoming: Seq<Seq<char>>) -> Seq<
    Seq<char>,
>
    decreases incoming.len(),
{
    if incoming.len() == 0 {
        acc
    } else {
        let r = append_unique_spec(acc, incoming.drop_last());
        if has_key(r, unicode_lowercase(incoming.last())) {
            r
        } else {
            r.push(incoming.last())
        }
    }
}

/// Case-insensitive first-occurrence dedupe.
pub open spec fn dedupe_spec(lines: Seq<Seq<char>>) -> Seq<Seq<char>> {
    append_unique_spec(Seq::<Seq<char>>::empty(), lines)
}

/// The lines of `lines` that are not "skip" placeholders, in order.
pub open spec fn without_skips(lines: Seq<Seq<char>>) -> Seq<Seq<char>>
    decreases lines.len(),
{
    if lines.len() == 0 {
        lines
    } else {
        let r = without_skips(lines.drop_last());
        if is_skip_spec(lines.last()) {
            r
        } else {
            r.push(lines.last())
        }
    }
}

/// Some incoming line carries real (non-"skip") content.
pub open spec fn has_real_content(lines: Seq<Seq<char>>) -> bool {
    exists|i: int| 0 <= i < lines.len() && !is_skip_spec(#[trigger] lines[i])
}

/// The reflection merge: rule 2 drops existing "skip" lines when real
/// content arrives, then rule 1 appends what is new.
pub open spec fn merge_reflection_spec(existing: Seq<Seq<char>>, incoming: Seq<Seq<char>>) -> Seq<
    Seq<char>,
> {
    let baseline = if has_real_content(incoming) {
        without_skips(existing)
    } else {
        existing
    };
    append_unique_spec(baseline, incoming)
}

/// A text that is blank or made only of "skip" lines.
pub open spec fn is_ignorable_spec(text: Seq<char>) -> bool {
    forall|i: int|
        0 <= i < clean_lines(text).len() ==> is_skip_spec(#[trigger] clean_lines(text)[i])
}

/// Lines joined with `'\n'` (`[String]::join("\n")`).
pub open spec fn join_spec(lines: Seq<Seq<char>>) -> Seq<char>
    decreases lines.len(),
{
    if lines.len() == 0 {
        Seq::<char>::empty()
    } else if lines.len() == 1 {
        lines[0]
    } else {
        join_spec(lines.drop_last()) + seq!['\n'] + lines.last()
    }
}

/// The clean lines of several texts, one after another.
pub open spec fn concat_clean_lines(texts: Seq<Seq<char>>) -> Seq<Seq<char>>
    decreases texts.len(),
{
    if texts.len() == 0 {
        Seq::<Seq<char>>::empty()
    } else {
        concat_clean_lines(texts.drop_last()) + clean_lines(texts.last())
    }
}

// ---------------------------------------------------------------------------
// Laws
// ---------------------------------------------------------------------------

/// The merge never touches what was already there: the accumulated lines
/// stay, in place and in order, as a prefix of the result.
pub proof fn lemma_append_unique_keeps_prefix(acc: Seq<Seq<char>>, incoming: Seq<Seq<char>>)
    ensures
        append_unique_spec(acc, incoming).len() >= acc.len(),
        append_unique_spec(acc, incoming).subrange(0, acc.len() as int) == acc,
    decreases incoming.len(),
{
    if incoming.len() > 0 {
        lemma_append_unique_keeps_prefix(acc, incoming.drop_last());
        let r = append_unique_spec(acc, incoming.drop_last());
        if !has_key(r, unicode_lowercase(incoming.last())) {
            assert(r.push(incoming.last()).subrange(0, acc.len() as int) =~= r.subrange(
                0,
                acc.len() as int,
            ));
        }
    }
}

/// Nothing incoming is lost: every incoming line is present in the result
/// (case-insensitively).
pub proof fn lemma_append_unique_covers_incoming(acc: Seq<Seq<char>>, incoming: Seq<Seq<char>>)
    ensures
        forall|j: int|
            0 <= j < incoming.len() ==> has_key(
                append_unique_spec(acc, incoming),
                unicode_lowercase(#[trigger] incoming[j]),
            ),
    decreases incoming.len(),
{
    if incoming.len() > 0 {
        let prev = incoming.drop_last();
        lemma_append_unique_covers_incoming(acc, prev);
        let r = append_unique_spec(acc, prev);
        let res = append_unique_spec(acc, incoming);
        assert forall|j: int| 0 <= j < incoming.len() implies has_key(
            res,
            unicode_lowercase(#[trigger] incoming[j]),
        ) by {
            if j < incoming.len() - 1 {
                assert(incoming[j] == prev[j]);
                assert(has_key(r, unicode_lowercase(prev[j])));
                let w = choose|i: int| 0 <= i < r.len() && unicode_lowercase(#[trigger] r[i]) == unicode_lowercase(prev[j]);
                lemma_append_unique_keeps_prefix(r, seq![incoming.last()]);
                if !has_key(r, unicode_lowercase(incoming.last())) {
                    assert(res[w] == r[w]);
                }
            } else {
                if !has_key(r, unicode_lowercase(incoming.last())) {
                    assert(res[r.len() as int] == incoming.last());
                }
            }
        }
    }
}

/// Appending lines whose keys are all present already changes nothing.
pub proof fn lemma_append_unique_noop(acc: Seq<Seq<char>>, incoming: Seq<Seq<char>>)
    requires
        forall|j: int|
            0 <= j < incoming.len() ==> has_key(acc, unicode_lowercase(#[trigger] incoming[j])),
    ensures
        append_unique_spec(acc, incoming) == acc,
    decreases incoming.len(),
{
    if incoming.len() > 0 {
        let prev = incoming.drop_last();
        assert forall|j: int| 0 <= j < prev.len() implies has_key(
            acc,
            unicode_lowercase(#[trigger] prev[j]),
        ) by {
            assert(prev[j] == incoming[j]);
        }
        lemma_append_unique_noop(acc, prev);
        assert(has_key(acc, unicode_lowercase(incoming[incoming.len() - 1])));
    }
}

/// Merging the same incoming lines a second time is a no-op: re-importing
/// a file, or syncing the same rows twice, never duplicates a line.
pub proof fn lemma_append_unique_idempotent(acc: Seq<Seq<char>>, incoming: Seq<Seq<char>>)
    ensures
        append_unique_spec(append_unique_spec(acc, incoming), incoming) == append_unique_spec(
            acc,
            incoming,
        ),
{
    lemma_append_unique_covers_incoming(acc, incoming);
    lemma_append_unique_noop(append_unique_spec(acc, incoming), incoming);
}

/// The result never holds two lines that differ only in case, provided the
/// lines it started from did not.
pub proof fn lemma_append_unique_distinct_keys(acc: Seq<Seq<char>>, incoming: Seq<Seq<char>>)
    requires
        forall|a: int, b: int|
            0 <= a < b < acc.len() ==> unicode_lowercase(#[trigger] acc[a]) != unicode_lowercase(
                #[trigger] acc[b],
            ),
    ensures
        forall|a: int, b: int|
            0 <= a < b < append_unique_spec(acc, incoming).len() ==> unicode_lowercase(
                #[trigger] append_unique_spec(acc, incoming)[a],
            ) != unicode_lowercase(#[trigger] append_unique_spec(acc, incoming)[b]),
    decreases incoming.len(),
{
    if incoming.len() > 0 {
        lemma_append_unique_distinct_keys(acc, incoming.drop_last());
        let r = append_unique_spec(acc, incoming.drop_last());
        let x = incoming.last();
        if !has_key(r, unicode_lowercase(x)) {
            let res = r.push(x);
            assert forall|a: int, b: int| 0 <= a < b < res.len() implies unicode_lowercase(
                #[trigger] res[a],
            ) != unicode_lowercase(#[trigger] res[b]) by {
                if b == r.len() {
                    assert(res[a] == r[a]);
                    assert(!(unicode_lowercase(r[a]) == unicode_lowercase(x)));
                } else {
                    assert(res[a] == r[a] && res[b] == r[b]);
                }
            }
        }
    }
}

/// A dedupe result has pairwise different keys.
pub proof fn lemma_dedupe_distinct(lines: Seq<Seq<char>>)
    ensures
        forall|a: int, b: int|
            0 <= a < b < dedupe_spec(lines).len() ==> unicode_lowercase(
                #[trigger] dedupe_spec(lines)[a],
            ) != unicode_lowercase(#[trigger] dedupe_spec(lines)[b]),
{
    lemma_append_unique_distinct_keys(Seq::<Seq<char>>::empty(), lines);
}

/// The incoming lines rule 1 appends: each line whose key is neither in
/// `acc` nor on an earlier incoming line, in incoming order.
pub open spec fn new_lines(acc: Seq<Seq<char>>, incoming: Seq<Seq<char>>) -> Seq<Seq<char>>
    decreases incoming.len(),
{
    if incoming.len() == 0 {
        Seq::<Seq<char>>::empty()
    } else {
        let prev = incoming.drop_last();
        let k = unicode_lowercase(incoming.last());
        if has_key(acc, k) || has_key(prev, k) {
            new_lines(acc, prev)
        } else {
            new_lines(acc, prev).push(incoming.last())
        }
    }
}

proof fn lemma_new_lines_from_incoming(acc: Seq<Seq<char>>, incoming: Seq<Seq<char>>)
    ensures
        forall|i: int|
            0 <= i < new_lines(acc, incoming).len() ==> has_key(
                incoming,
                unicode_lowercase(#[trigger] new_lines(acc, incoming)[i]),
            ),
    decreases incoming.len(),
{
    if incoming.len() > 0 {
        let prev = incoming.drop_last();
        lemma_new_lines_from_incoming(acc, prev);
        let p = new_lines(acc, prev);
        let n = new_lines(acc, incoming);
        assert forall|i: int| 0 <= i < n.len() implies has_key(incoming, unicode_lowercase(#[trigger] n[i])) by {
            if i < p.len() {
                assert(n[i] == p[i]);
                assert(has_key(prev, unicode_lowercase(p[i])));
                let w = choose|j: int| 0 <= j < prev.len() && unicode_lowercase(#[trigger] prev[j])
                    == unicode_lowercase(p[i]);
                assert(incoming[w] == prev[w]);
            } else {
                assert(n[i] == incoming[incoming.len() - 1]);
            }
        }
    }
}

/// Rule 1 in closed form: the result is the accumulated lines followed by
/// exactly the new incoming lines (`new_lines`).
pub proof fn lemma_append_unique_closed_form(acc: Seq<Seq<char>>, incoming: Seq<Seq<char>>)
    ensures
        append_unique_spec(acc, incoming) == acc + new_lines(acc, incoming),
    decreases incoming.len(),
{
    if incoming.len() == 0 {
        assert(acc + Seq::<Seq<char>>::empty() =~= acc);
    } else {
        let prev = incoming.drop_last();
        let x = incoming.last();
        let k = unicode_lowercase(x);
        lemma_append_unique_closed_form(acc, prev);
        lemma_append_unique_covers_incoming(acc, prev);
        lemma_new_lines_from_incoming(acc, prev);
        let r = append_unique_spec(acc, prev);
        let p = new_lines(acc, prev);
        assert(r == acc + p);
        if has_key(r, k) {
            let w = choose|j: int| 0 <= j < r.len() && unicode_lowercase(#[trigger] r[j]) == k;
            if w < acc.len() {
                assert(r[w] == acc[w]);
            } else {
                assert(r[w] == p[w - acc.len()]);
                assert(has_key(prev, unicode_lowercase(p[w - acc.len()])));
            }
            assert(has_key(acc, k) || has_key(prev, k));
        } else {
            if has_key(acc, k) {
                let w = choose|j: int| 0 <= j < acc.len() && unicode_lowercase(#[trigger] acc[j]) == k;
                assert(r[w] == acc[w]);
            }
            if has_key(prev, k) {
                let w = choose|j: int| 0 <= j < prev.len() && unicode_lowercase(#[trigger] prev[j]) == k;
                assert(has_key(r, unicode_lowercase(prev[w])));
            }
            assert((acc + p).push(x) =~= acc + p.push(x));
        }
    }
}

/// Rule 1 drops nothing new and adds nothing foreign: a key is in the
/// result exactly when it is in the accumulated or the incoming lines.
pub proof fn lemma_append_unique_keys(acc: Seq<Seq<char>>, incoming: Seq<Seq<char>>, key: Seq<char>)
    ensures
        has_key(append_unique_spec(acc, incoming), key) <==> has_key(acc + incoming, key),
{
    lemma_append_unique_closed_form(acc, incoming);
    lemma_append_unique_keeps_prefix(acc, incoming);
    lemma_append_unique_covers_incoming(acc, incoming);
    lemma_new_lines_from_incoming(acc, incoming);
    let r = append_unique_spec(acc, incoming);
    let nl = new_lines(acc, incoming);
    let both = acc + incoming;
    if has_key(r, key) {
        let w = choose|i: int| 0 <= i < r.len() && unicode_lowercase(#[trigger] r[i]) == key;
        if w < acc.len() {
            assert(r[w] == acc[w]);
            assert(both[w] == acc[w]);
        } else {
            assert(r[w] == nl[w - acc.len()]);
            assert(has_key(incoming, unicode_lowercase(nl[w - acc.len()])));
            let v = choose|j: int| 0 <= j < incoming.len() && unicode_lowercase(#[trigger] incoming[j])
                == key;
            assert(both[acc.len() + v] == incoming[v]);
        }
    }
    if has_key(both, key) {
        let w = choose|i: int| 0 <= i < both.len() && unicode_lowercase(#[trigger] both[i]) == key;
        if w < acc.len() {
            assert(both[w] == acc[w]);
            assert(r.subrange(0, acc.len() as int)[w] == r[w]);
        } else {
            assert(both[w] == incoming[w - acc.len()]);
        }
    }
}

/// A dedupe keeps exactly the first line of each key, in order: it is the
/// new lines of its input against nothing.
pub proof fn lemma_dedupe_first_of_each_key(lines: Seq<Seq<char>>)
    ensures
        dedupe_spec(lines) == new_lines(Seq::<Seq<char>>::empty(), lines),
{
    lemma_append_unique_closed_form(Seq::<Seq<char>>::empty(), lines);
    assert(Seq::<Seq<char>>::empty() + new_lines(Seq::<Seq<char>>::empty(), lines) =~= new_lines(
        Seq::<Seq<char>>::empty(),
        lines,
    ));
}

/// Appending two batches one after the other is appending them together.
pub proof fn lemma_append_unique_concat(acc: Seq<Seq<char>>, x: Seq<Seq<char>>, y: Seq<Seq<char>>)
    ensures
        append_unique_spec(acc, x + y) == append_unique_spec(append_unique_spec(acc, x), y),
    decreases y.len(),
{
    if y.len() == 0 {
        assert(x + y =~= x);
    } else {
        lemma_append_unique_concat(acc, x, y.drop_last());
        assert((x + y).drop_last() =~= x + y.drop_last());
        assert((x + y).last() == y.last());
    }
}

/// Every line rule 1 appends is one of the incoming lines.
pub proof fn lemma_new_lines_members(acc: Seq<Seq<char>>, incoming: Seq<Seq<char>>)
    ensures
        forall|i: int|
            0 <= i < new_lines(acc, incoming).len() ==> exists|j: int|
                0 <= j < incoming.len() && incoming[j] == #[trigger] new_lines(acc, incoming)[i],
    decreases incoming.len(),
{
    if incoming.len() > 0 {
        let prev = incoming.drop_last();
        lemma_new_lines_members(acc, prev);
        let p = new_lines(acc, prev);
        let nl = new_lines(acc, incoming);
        assert forall|i: int| 0 <= i < nl.len() implies exists|j: int|
            0 <= j < incoming.len() && incoming[j] == #[trigger] nl[i] by {
            if i < p.len() {
                assert(nl[i] == p[i]);
                let j = choose|j: int| 0 <= j < prev.len() && prev[j] == p[i];
                assert(incoming[j] == prev[j]);
            } else {
                assert(nl[i] == incoming[incoming.len() - 1]);
            }
        }
    }
}

/// "skip" lines added at the end do not survive the placeholder rule.
pub proof fn lemma_without_skips_append_skips(x: Seq<Seq<char>>, y: Seq<Seq<char>>)
    requires
        forall|i: int| 0 <= i < y.len() ==> is_skip_spec(#[trigger] y[i]),
    ensures
        without_skips(x + y) == without_skips(x),
    decreases y.len(),
{
    if y.len() == 0 {
        assert(x + y =~= x);
    } else {
        let yp = y.drop_last();
        assert forall|i: int| 0 <= i < yp.len() implies is_skip_spec(#[trigger] yp[i]) by {
            assert(yp[i] == y[i]);
        }
        lemma_without_skips_append_skips(x, yp);
        assert((x + y).drop_last() =~= x + yp);
        assert((x + y).last() == y[y.len() - 1]);
    }
}

/// Lines with pairwise different keys come through a dedupe unchanged.
proof fn lemma_dedupe_of_distinct(lines: Seq<Seq<char>>)
    requires
        forall|a: int, b: int|
            0 <= a < b < lines.len() ==> unicode_lowercase(#[trigger] lines[a]) != unicode_lowercase(
                #[trigger] lines[b],
            ),
    ensures
        dedupe_spec(lines) == lines,
    decreases lines.len(),
{
    if lines.len() > 0 {
        let prev = lines.drop_last();
        assert forall|a: int, b: int| 0 <= a < b < prev.len() implies unicode_lowercase(
            #[trigger] prev[a],
        ) != unicode_lowercase(#[trigger] prev[b]) by {
            assert(prev[a] == lines[a] && prev[b] == lines[b]);
        }
        lemma_dedupe_of_distinct(prev);
        if has_key(prev, unicode_lowercase(lines.last())) {
            let w = choose|i: int| 0 <= i < prev.len() && unicode_lowercase(#[trigger] prev[i])
                == unicode_lowercase(lines.last());
            assert(lines[w] == prev[w]);
            assert(unicode_lowercase(lines[w]) != unicode_lowercase(lines[lines.len() - 1]));
        }
        assert(prev.push(lines.last()) =~= lines);
    }
}

/// Deduping twice is deduping once.
pub proof fn lemma_dedupe_idempotent(lines: Seq<Seq<char>>)
    ensures
        dedupe_spec(dedupe_spec(lines)) == dedupe_spec(lines),
{
    lemma_dedupe_distinct(lines);
    lemma_dedupe_of_distinct(dedupe_spec(lines));
}

proof fn lemma_without_skips_has_none(lines: Seq<Seq<char>>)
    ensures
        forall|i: int|
            0 <= i < without_skips(lines).len() ==> !is_skip_spec(#[trigger] without_skips(lines)[i]),
    decreases lines.len(),
{
    if lines.len() > 0 {
        let prev = lines.drop_last();
        lemma_without_skips_has_none(prev);
        let r = without_skips(prev);
        let w = without_skips(lines);
        assert forall|i: int| 0 <= i < w.len() implies !is_skip_spec(#[trigger] w[i]) by {
            if i < r.len() {
                assert(w[i] == r[i]);
            }
        }
    }
}

/// Once real content arrives for a slot, no existing "skip" placeholder
/// survives the merge: every placeholder left in the result came in with
/// the incoming lines themselves.
pub proof fn lemma_merge_drops_placeholders(existing: Seq<Seq<char>>, incoming: Seq<Seq<char>>)
    requires
        has_real_content(incoming),
    ensures
        forall|i: int|
            0 <= i < without_skips(existing).len() ==> merge_reflection_spec(existing, incoming)[i]
                == without_skips(existing)[i] && !is_skip_spec(
                #[trigger] merge_reflection_spec(existing, incoming)[i],
            ),
{
    lemma_without_skips_has_none(existing);
    lemma_append_unique_keeps_prefix(without_skips(existing), incoming);
    let r = merge_reflection_spec(existing, incoming);
    let w = without_skips(existing);
    assert forall|i: int| 0 <= i < w.len() implies r[i] == w[i] && !is_skip_spec(#[trigger] r[i]) by {
        assert(r.subrange(0, w.len() as int)[i] == r[i]);
    }
}

proof fn lemma_without_skips_from(lines: Seq<Seq<char>>)
    ensures
        forall|i: int|
            0 <= i < without_skips(lines).len() ==> has_key(
                lines,
                unicode_lowercase(#[trigger] without_skips(lines)[i]),
            ),
    decreases lines.len(),
{
    if lines.len() > 0 {
        let prev = lines.drop_last();
        lemma_without_skips_from(prev);
        let r = without_skips(prev);
        let w = without_skips(lines);
        assert forall|i: int| 0 <= i < w.len() implies has_key(lines, unicode_lowercase(#[trigger] w[i])) by {
            if i < r.len() {
                assert(w[i] == r[i]);
                let v = choose|j: int| 0 <= j < prev.len() && unicode_lowercase(#[trigger] prev[j])
                    == unicode_lowercase(r[i]);
                assert(lines[v] == prev[v]);
            } else {
                assert(w[i] == lines[lines.len() - 1]);
            }
        }
    }
}

proof fn lemma_without_skips_distinct(lines: Seq<Seq<char>>)
    requires
        forall|a: int, b: int|
            0 <= a < b < lines.len() ==> unicode_lowercase(#[trigger] lines[a]) != unicode_lowercase(
                #[trigger] lines[b],
            ),
    ensures
        forall|a: int, b: int|
            0 <= a < b < without_skips(lines).len() ==> unicode_lowercase(
                #[trigger] without_skips(lines)[a],
            ) != unicode_lowercase(#[trigger] without_skips(lines)[b]),
    decreases lines.len(),
{
    if lines.len() > 0 {
        let prev = lines.drop_last();
        assert forall|a: int, b: int| 0 <= a < b < prev.len() implies unicode_lowercase(
            #[trigger] prev[a],
        ) != unicode_lowercase(#[trigger] prev[b]) by {
            assert(prev[a] == lines[a] && prev[b] == lines[b]);
        }
        lemma_without_skips_distinct(prev);
        lemma_without_skips_from(prev);
        let r = without_skips(prev);
        let x = lines.last();
        if !is_skip_spec(x) {
            let w = r.push(x);
            assert forall|a: int, b: int| 0 <= a < b < w.len() implies unicode_lowercase(
                #[trigger] w[a],
            ) != unicode_lowercase(#[trigger] w[b]) by {
                if b == r.len() {
                    assert(w[a] == r[a]);
                    assert(has_key(prev, unicode_lowercase(r[a])));
                    let v = choose|j: int| 0 <= j < prev.len() && unicode_lowercase(#[trigger] prev[j])
                        == unicode_lowercase(r[a]);
                    assert(lines[v] == prev[v]);
                    assert(unicode_lowercase(lines[v]) != unicode_lowercase(lines[lines.len() - 1]));
                } else {
                    assert(w[a] == r[a] && w[b] == r[b]);
                }
            }
        }
    }
}

/// The reflection merge in closed form: over a baseline with pairwise
/// different keys, the result is the baseline (less its "skip" lines when
/// real content arrives) followed by the new incoming lines, in order, and
/// it holds no two lines that differ only in case.
pub proof fn lemma_merge_reflection_closed_form(existing: Seq<Seq<char>>, incoming: Seq<Seq<char>>)
    requires
        forall|a: int, b: int|
            0 <= a < b < existing.len() ==> unicode_lowercase(#[trigger] existing[a]) != unicode_lowercase(
                #[trigger] existing[b],
            ),
    ensures
        ({
            let base = if has_real_content(incoming) {
                without_skips(existing)
            } else {
                existing
            };
            &&& merge_reflection_spec(existing, incoming) == base + new_lines(base, incoming)
            &&& forall|a: int, b: int|
                0 <= a < b < merge_reflection_spec(existing, incoming).len() ==> unicode_lowercase(
                    #[trigger] merge_reflection_spec(existing, incoming)[a],
                ) != unicode_lowercase(#[trigger] merge_reflection_spec(existing, incoming)[b])
        }),
{
    let base = if has_real_content(incoming) {
        without_skips(existing)
    } else {
        existing
    };
    lemma_without_skips_distinct(existing);
    lemma_append_unique_closed_form(base, incoming);
    lemma_append_unique_distinct_keys(base, incoming);
}

// ---------------------------------------------------------------------------
// Executable merge
// ---------------------------------------------------------------------------

/// Splits `text` on newlines, trims each line, and discards blank lines.
pub fn line_split_trim(text: &str) -> (r: Vec<String>)
    ensures
        r.deep_view() == clean_lines(text@),
{
    clean_lines_of(text)
}

/// Whether the line is the "skip" placeholder (case-insensitively).
pub fn is_skip_line(line: &str) -> (r: bool)
    ensures
        r == is_skip_spec(line@),
{
    let lower = to_lowercase(line);
    let skip = String::from_str("skip");
    proof {
        reveal_strlit("skip");
        assert(skip@ =~= seq!['s', 'k', 'i', 'p']);
    }
    lower == skip
}

/// True for a row whose text is blank or nothing but "skip" lines.
pub fn is_ignorable_entry(text: &str) -> (r: bool)
    ensures
        r == is_ignorable_spec(text@),
{
    let lines = line_split_trim(text);
    let mut i: usize = 0;
    while i < lines.len()
        invariant
            0 <= i <= lines.len(),
            lines.deep_view() == clean_lines(text@),
            forall|k: int| 0 <= k < i ==> is_skip_spec(#[trigger] clean_lines(text@)[k]),
        decreases lines.len() - i,
    {
        proof {
            assert(lines.deep_view()[i as int] == lines@[i as int]@);
        }
        if !is_skip_line(lines[i].as_str()) {
            return false;
        }
        i = i + 1;
    }
    true
}

/// Copies a list of strings.
pub fn clone_lines(lines: &[String]) -> (r: Vec<String>)
    ensures
        r.deep_view() == lines.deep_view(),
{
    let mut r: Vec<String> = Vec::new();
    let mut i: usize = 0;
    while i < lines.len()
        invariant
            0 <= i <= lines.len(),
            r.deep_view() == lines.deep_view().take(i as int),
        decreases lines.len() - i,
    {
        r.push(lines[i].clone());
        proof {
            assert(lines.deep_view().take(i + 1) =~= lines.deep_view().take(i as int).push(
                lines@[i as int]@,
            ));
            assert(r.deep_view() =~= lines.deep_view().take(i + 1));
        }
        i = i + 1;
    }
    proof {
        assert(lines.deep_view().take(lines.len() as int) =~= lines.deep_view());
    }
    r
}

/// Whether some key in `keys` equals `key`.
fn contains_key(keys: &Vec<String>, key: &String) -> (r: bool)
    ensures
        r == (exists|i: int| 0 <= i < keys.len() && #[trigger] keys@[i]@ == key@),
{
    let mut i: usize = 0;
    while i < keys.len()
        invariant
            0 <= i <= keys.len(),
            forall|k: int| 0 <= k < i ==> #[trigger] keys@[k]@ != key@,
        decreases keys.len() - i,
    {
        if keys[i] == *key {
            return true;
        }
        i = i + 1;
    }
    false
}

/// Rule 1 of the line merge: any incoming line not already present
/// (case-insensitively) in `baseline` gets appended at the end; lines
/// already present are skipped rather than duplicated.
pub fn append_unique_lines_ci(baseline: &[String], incoming: &[String]) -> (r: Vec<String>)
    ensures
        r.deep_view() == append_unique_spec(baseline.deep_view(), incoming.deep_view()),
{
    let mut result = clone_lines(baseline);
    let mut keys: Vec<String> = Vec::new();
    let mut i: usize = 0;
    while i < baseline.len()
        invariant
            0 <= i <= baseline.len(),
            keys.len() == i,
            result.deep_view() == baseline.deep_view(),
            forall|k: int| 0 <= k < i ==> #[trigger] keys@[k]@ == unicode_lowercase(baseline@[k]@),
        decreases baseline.len() - i,
    {
        keys.push(to_lowercase(baseline[i].as_str()));
        i = i + 1;
    }
    proof {
        assert(result.len() == result.deep_view().len());
        assert(baseline.len() == baseline.deep_view().len());
        assert forall|k: int| 0 <= k < keys.len() implies #[trigger] keys@[k]@ == unicode_lowercase(
            result.deep_view()[k],
        ) by {
            assert(result.deep_view()[k] == baseline.deep_view()[k]);
            assert(baseline.deep_view()[k] == baseline@[k]@);
        }
    }
    let ghost inc = incoming.deep_view();
    let mut j: usize = 0;
    proof {
        assert(inc.take(0) =~= Seq::<Seq<char>>::empty());
    }
    while j < incoming.len()
        invariant
            0 <= j <= incoming.len(),
            inc == incoming.deep_view(),
            result.deep_view() == append_unique_spec(baseline.deep_view(), inc.take(j as int)),
            keys.len() == result.len(),
            forall|k: int| 0 <= k < keys.len() ==> #[trigger] keys@[k]@ == unicode_lowercase(
                result.deep_view()[k],
            ),
        decreases incoming.len() - j,
    {
        let key = to_lowercase(incoming[j].as_str());
        let found = contains_key(&keys, &key);
        let ghost before = result.deep_view();
        proof {
            assert(inc.take(j + 1).drop_last() =~= inc.take(j as int));
            assert(inc.take(j + 1).last() == incoming@[j as int]@);
            assert(found == has_key(before, unicode_lowercase(incoming@[j as int]@))) by {
                if found {
                    let w = choose|i: int| 0 <= i < keys.len() && #[trigger] keys@[i]@ == key@;
                    assert(unicode_lowercase(before[w]) == key@);
                }
                if has_key(before, unicode_lowercase(incoming@[j as int]@)) {
                    let w = choose|i: int|
                        0 <= i < before.len() && unicode_lowercase(#[trigger] before[i])
                            == unicode_lowercase(incoming@[j as int]@);
                    assert(keys@[w]@ == key@);
                }
            }
        }
        if !found {
            result.push(incoming[j].clone());
            keys.push(key);
            proof {
                assert(result.deep_view() =~= before.push(incoming@[j as int]@));
            }
        }
        j = j + 1;
    }
    proof {
        assert(inc.take(incoming.len() as int) =~= inc);
    }
    result
}

/// Case-insensitive first-occurrence dedupe: the first line of each key
/// stays, with its own casing, in the order the lines came.
pub fn dedupe_first_seen_ci(lines: Vec<String>) -> (r: Vec<String>)
    ensures
        r.deep_view() == dedupe_spec(lines.deep_view()),
{
    let empty: Vec<String> = Vec::new();
    proof {
        assert(empty.deep_view() =~= Seq::<Seq<char>>::empty());
    }
    append_unique_lines_ci(empty.as_slice(), lines.as_slice())
}

/// The reflection merge: when the incoming lines carry any real content,
/// existing "skip" placeholder lines are dropped first; then every incoming
/// line not already present is appended.
pub fn merge_reflection_lines(existing: &[String], incoming: &[String]) -> (r: Vec<String>)
    ensures
        r.deep_view() == merge_reflection_spec(existing.deep_view(), incoming.deep_view()),
{
    let ghost inc = incoming.deep_view();
    let mut has_non_skip = false;
    let mut j: usize = 0;
    while j < incoming.len()
        invariant
            0 <= j <= incoming.len(),
            inc == incoming.deep_view(),
            has_non_skip == (exists|i: int| 0 <= i < j && !is_skip_spec(#[trigger] inc[i])),
        decreases incoming.len() - j,
    {
        proof {
            assert(inc[j as int] == incoming@[j as int]@);
        }
        if !is_skip_line(incoming[j].as_str()) {
            has_non_skip = true;
        }
        j = j + 1;
    }
    let ghost ex = existing.deep_view();
    let baseline: Vec<String> = if has_non_skip {
        let mut b: Vec<String> = Vec::new();
        let mut i: usize = 0;
        proof {
            assert(ex.take(0) =~= Seq::<Seq<char>>::empty());
        }
        while i < existing.len()
            invariant
                0 <= i <= existing.len(),
                ex == existing.deep_view(),
                b.deep_view() == without_skips(ex.take(i as int)),
            decreases existing.len() - i,
        {
            proof {
                assert(ex.take(i + 1).drop_last() =~= ex.take(i as int));
                assert(ex.take(i + 1).last() == existing@[i as int]@);
            }
            if !is_skip_line(existing[i].as_str()) {
                let ghost before = b.deep_view();
                b.push(existing[i].clone());
                proof {
                    assert(b.deep_view() =~= before.push(existing@[i as int]@));
                }
            }
            i = i + 1;
        }
        proof {
            assert(ex.take(existing.len() as int) =~= ex);
        }
        b
    } else {
        clone_lines(existing)
    };
    append_unique_lines_ci(baseline.as_slice(), incoming)
}

/// Joins lines with `'\n'` between them.
pub fn join_lines(lines: &[String]) -> (r: String)
    ensures
        r@ == join_spec(lines.deep_view()),
{
    let ghost ls = lines.deep_view();
    let mut out = String::new();
    let mut i: usize = 0;
    while i < lines.len()
        invariant
            0 <= i <= lines.len(),
            ls == lines.deep_view(),
            out@ == join_spec(ls.take(i as int)),
        decreases lines.len() - i,
    {
        proof {
            assert(ls.take(i + 1).drop_last() =~= ls.take(i as int));
            assert(ls.take(i + 1).last() == lines@[i as int]@);
            if i == 0 {
                assert(ls.take(1) =~= seq![lines@[0]@]);
                assert(join_spec(ls.take(0)) =~= Seq::<char>::empty());
            }
        }
        if i > 0 {
            out.append("\n");
            proof {
                reveal_strlit("\n");
            }
        }
        out.append(lines[i].as_str());
        proof {
            if i == 0 {
                assert(out@ =~= lines@[0]@);
            } else {
                assert(out@ =~= join_spec(ls.take(i as int)) + seq!['\n'] + lines@[i as int]@);
            }
        }
        i = i + 1;
    }
    proof {
        assert(ls.take(lines.len() as int) =~= ls);
    }
    out
}

/// The clean lines of each text, concatenated in order.
pub fn concat_lines_of(texts: &Vec<String>) -> (r: Vec<String>)
    ensures
        r.deep_view() == concat_clean_lines(texts.deep_view()),
{
    let ghost ts = texts.deep_view();
    let mut out: Vec<String> = Vec::new();
    let mut i: usize = 0;
    proof {
        assert(ts.take(0) =~= Seq::<Seq<char>>::empty());
        assert(out.deep_view() =~= Seq::<Seq<char>>::empty());
    }
    while i < texts.len()
        invariant
            0 <= i <= texts.len(),
            ts == texts.deep_view(),
            out.deep_view() == concat_clean_lines(ts.take(i as int)),
        decreases texts.len() - i,
    {
        let piece = line_split_trim(texts[i].as_str());
        let ghost before = out.deep_view();
        let mut k: usize = 0;
        while k < piece.len()
            invariant
                0 <= k <= piece.len(),
                out.deep_view() == before + piece.deep_view().take(k as int),
            decreases piece.len() - k,
        {
            let ghost mid = out.deep_view();
            let line = piece[k].clone();
            out.push(line);
            proof {
                assert(out.deep_view() =~= mid.push(piece@[k as int]@));
                assert(piece.deep_view().take(k + 1) =~= piece.deep_view().take(k as int).push(
                    piece@[k as int]@,
                ));
                assert(out.deep_view() =~= before + piece.deep_view().take(k + 1));
            }
            k = k + 1;
        }
        proof {
            assert(piece.deep_view().take(piece.len() as int) =~= piece.deep_view());
            assert(ts.take(i + 1).drop_last() =~= ts.take(i as int));
            assert(ts.take(i + 1).last() == texts@[i as int]@);
        }
        i = i + 1;
    }
    proof {
        assert(ts.take(texts.len() as int) =~= ts);
    }
    out
}

} // verus!
