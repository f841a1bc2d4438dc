//! Character-level text helpers shared by the import merge, the overlay and
//! the path checks: splitting into trimmed lines, case folding, comparison.
use vstd::prelude::*;

verus! {

// ---------------------------------------------------------------------------
// Unicode facts taken from std
// ---------------------------------------------------------------------------

/// The Unicode `White_Space` property (PropList.txt), which is what
/// `char::is_whitespace` reports: the ASCII tab, line feed, vertical tab,
/// form feed, carriage return and space; next line; no-break space; ogham
/// space mark; the spaces U+2000 to U+200A; the line and paragraph
/// separators; the narrow no-break and medium mathematical spaces; and the
/// ideographic space.
pub open spec fn unicode_white_space(c: char) -> bool {
    let v = c as u32;
    ||| 0x9 <= v <= 0xD
    ||| v == 0x20
    ||| v == 0x85
    ||| v == 0xA0
    ||| v == 0x1680
    ||| 0x2000 <= v <= 0x200A
    ||| v == 0x2028
    ||| v == 0x2029
    ||| v == 0x202F
    ||| v == 0x205F
    ||| v == 0x3000
}

/// The Unicode lowercase mapping of a whole string, as `str::to_lowercase`
/// computes it.
pub uninterp spec fn unicode_lowercase(s: Seq<char>) -> Seq<char>;

/// `char::is_whitespace`: whether `c` has the Unicode `White_Space`
/// property.
pub(crate) fn char_is_whitespace(c: char) -> (b: bool)
    ensures
        b == unicode_white_space(c),
{
    let v = c as u32;
    (0x9 <= v && v <= 0xD) || v == 0x20 || v == 0x85 || v == 0xA0 || v == 0x1680 || (0x2000 <= v
        && v <= 0x200A) || v == 0x2028 || v == 0x2029 || v == 0x202F || v == 0x205F || v == 0x3000
}

/// `str::to_lowercase`: the Unicode lowercase form of `s`; the same input
/// always maps to the same output.
#[verifier::external_body]
pub(crate) fn to_lowercase(s: &str) -> (r: String)
    ensures
        r@ == unicode_lowercase(s@),
{
    s.to_lowercase()
}

/// Collects characters into a `String` (`FromIterator<char>` for `String`),
/// which holds exactly those characters in order.
#[verifier::external_body]
pub(crate) fn string_from_chars(v: &[char]) -> (r: String)
    ensures
        r@ == v@,
{
    v.iter().collect()
}

// ---------------------------------------------------------------------------
// Specifications
// ---------------------------------------------------------------------------

pub open spec fn trim_start_spec(s: Seq<char>) -> Seq<char>
    decreases s.len(),
{
    if s.len() > 0 && unicode_white_space(s[0]) {
        trim_start_spec(s.drop_first())
    } else {
        s
    }
}

pub open spec fn trim_end_spec(s: Seq<char>) -> Seq<char>
    decreases s.len(),
{
    if s.len() > 0 && unicode_white_space(s.last()) {
        trim_end_spec(s.drop_last())
    } else {
        s
    }
}

/// `str::trim`: leading and trailing Unicode white space removed.
pub open spec fn trim_spec(s: Seq<char>) -> Seq<char> {
    trim_end_spec(trim_start_spec(s))
}

/// The pieces of `s` between `'\n'` characters (`str::split('\n')`): one
/// more piece than there are newlines.
pub open spec fn split_newlines(s: Seq<char>) -> Seq<Seq<char>>
    decreases s.len(),
{
    if s.len() == 0 {
        seq![Seq::<char>::empty()]
    } else {
        let p = split_newlines(s.drop_last());
        if s.last() == '\n' {
            p.push(Seq::<char>::empty())
        } else {
            p.update(p.len() - 1, p.last().push(s.last()))
        }
    }
}

/// Trims every piece and keeps only the pieces that are not blank.
pub open spec fn nonblank_trimmed(pieces: Seq<Seq<char>>) -> Seq<Seq<char>>
    decreases pieces.len(),
{
    if pieces.len() == 0 {
        Seq::<Seq<char>>::empty()
    } else {
        let rest = nonblank_trimmed(pieces.drop_last());
        let t = trim_spec(pieces.last());
        if t.len() > 0 {
            rest.push(t)
        } else {
            rest
        }
    }
}

/// The trimmed, non-blank lines of a text.
pub open spec fn clean_lines(s: Seq<char>) -> Seq<Seq<char>> {
    nonblank_trimmed(split_newlines(s))
}

/// ASCII lowercase of one character (`char::to_ascii_lowercase`).
pub open spec fn ascii_lower(c: char) -> char {
    if 'A' <= c && c <= 'Z' {
        ((c as int) + 32) as char
    } else {
        c
    }
}

/// `str::eq_ignore_ascii_case`.
pub open spec fn eq_ignore_ascii_case_spec(a: Seq<char>, b: Seq<char>) -> bool {
    &&& a.len() == b.len()
    &&& forall|i: int| 0 <= i < a.len() ==> #[trigger] ascii_lower(a[i]) == ascii_lower(b[i])
}

/// Lexicographic order of strings by code point, which is also the byte
/// order of their UTF-8 encodings and therefore the order of `str`'s `Ord`.
pub open spec fn seq_lt(a: Seq<char>, b: Seq<char>) -> bool
    decreases a.len(),
{
    if a.len() == 0 {
        b.len() > 0
    } else if b.len() == 0 {
        false
    } else if a[0] != b[0] {
        (a[0] as u32) < (b[0] as u32)
    } else {
        seq_lt(a.drop_first(), b.drop_first())
    }
}

pub open spec fn seq_le(a: Seq<char>, b: Seq<char>) -> bool {
    a == b || seq_lt(a, b)
}

// ---------------------------------------------------------------------------
// Lemmas
// ---------------------------------------------------------------------------

proof fn lemma_split_newlines_nonempty(s: Seq<char>)
    ensures
        split_newlines(s).len() >= 1,
    decreases s.len(),
{
    if s.len() > 0 {
        lemma_split_newlines_nonempty(s.drop_last());
    }
}

/// `seq_lt` is a strict total order.
pub proof fn lemma_seq_lt_total(a: Seq<char>, b: Seq<char>)
    ensures
        a == b || seq_lt(a, b) || seq_lt(b, a),
        !(seq_lt(a, b) && seq_lt(b, a)),
        !seq_lt(a, a),
    decreases a.len(),
{
    if a.len() > 0 && b.len() > 0 && a[0] == b[0] {
        lemma_seq_lt_total(a.drop_first(), b.drop_first());
        if a.drop_first() == b.drop_first() {
            assert forall|i: int| 0 <= i < a.len() implies a[i] == b[i] by {
                if i > 0 {
                    assert(a[i] == a.drop_first()[i - 1]);
                    assert(b[i] == b.drop_first()[i - 1]);
                }
            }
            assert(a =~= b);
        }
    }
    if a.len() > 0 {
        lemma_seq_lt_total(a.drop_first(), a.drop_first());
    }
    if a.len() == 0 && b.len() == 0 {
        assert(a =~= b);
    }
    if a.len() > 0 && b.len() > 0 && a[0] != b[0] {
        vstd::utf8::char_u32_cast(a[0], a[0] as u32);
        vstd::utf8::char_u32_cast(b[0], b[0] as u32);
        assert((a[0] as u32) != (b[0] as u32));
    }
}

pub proof fn lemma_seq_lt_transitive(a: Seq<char>, b: Seq<char>, c: Seq<char>)
    requires
        seq_lt(a, b),
        seq_lt(b, c),
    ensures
        seq_lt(a, c),
    decreases a.len(),
{
    if a.len() > 0 && b.len() > 0 && c.len() > 0 && a[0] == b[0] && b[0] == c[0] {
        lemma_seq_lt_transitive(a.drop_first(), b.drop_first(), c.drop_first());
    }
}

// ---------------------------------------------------------------------------
// Executable helpers
// ---------------------------------------------------------------------------

/// Copies the characters of `s` into a vector.
pub fn to_chars(s: &str) -> (v: Vec<char>)
    ensures
        v@ == s@,
{
    let mut v: Vec<char> = Vec::new();
    for c in it: s.chars()
        invariant
            it.seq() == s@,
            v@ == it.seq().take(it.index() as int),
    {
        v.push(c);
    }
    v
}

proof fn lemma_trim_start_skip(s: Seq<char>, i: int)
    requires
        0 <= i <= s.len(),
        forall|k: int| 0 <= k < i ==> unicode_white_space(#[trigger] s[k]),
    ensures
        trim_start_spec(s) == trim_start_spec(s.subrange(i, s.len() as int)),
    decreases i,
{
    if i > 0 {
        assert(s.subrange(1, s.len() as int) =~= s.drop_first());
        lemma_trim_start_skip(s.drop_first(), i - 1);
        assert(s.drop_first().subrange(i - 1, s.drop_first().len() as int) =~= s.subrange(
            i,
            s.len() as int,
        ));
    } else {
        assert(s.subrange(0, s.len() as int) =~= s);
    }
}

proof fn lemma_trim_end_skip(s: Seq<char>, j: int)
    requires
        0 <= j <= s.len(),
        forall|k: int| j <= k < s.len() ==> unicode_white_space(#[trigger] s[k]),
    ensures
        trim_end_spec(s) == trim_end_spec(s.subrange(0, j)),
    decreases s.len() - j,
{
    if j < s.len() {
        assert(s.subrange(0, s.len() - 1) =~= s.drop_last());
        lemma_trim_end_skip(s.drop_last(), j);
        assert(s.drop_last().subrange(0, j) =~= s.subrange(0, j));
    } else {
        assert(s.subrange(0, j) =~= s);
    }
}

/// `str::trim` on a character slice.
pub fn trim_chars(s: &[char]) -> (r: Vec<char>)
    ensures
        r@ == trim_spec(s@),
{
    let n = s.len();
    let mut i: usize = 0;
    while i < n && char_is_whitespace(s[i])
        invariant
            0 <= i <= n,
            n == s@.len(),
            forall|k: int| 0 <= k < i ==> unicode_white_space(#[trigger] s@[k]),
        decreases n - i,
    {
        i = i + 1;
    }
    proof {
        lemma_trim_start_skip(s@, i as int);
    }
    let ghost mid = s@.subrange(i as int, n as int);
    assert(trim_start_spec(mid) == mid) by {
        if mid.len() > 0 {
            assert(mid[0] == s@[i as int]);
        }
    }
    let mut j: usize = n;
    while j > i && char_is_whitespace(s[j - 1])
        invariant
            i <= j <= n,
            n == s@.len(),
            forall|k: int| j <= k < n ==> unicode_white_space(#[trigger] s@[k]),
        decreases j,
    {
        j = j - 1;
    }
    proof {
        let m = j - i;
        assert forall|k: int| m <= k < mid.len() implies unicode_white_space(#[trigger] mid[k]) by {
            assert(mid[k] == s@[k + i]);
        }
        lemma_trim_end_skip(mid, m as int);
        let fin = mid.subrange(0, m as int);
        assert(fin =~= s@.subrange(i as int, j as int));
        if fin.len() > 0 {
            assert(fin.last() == s@[j - 1]);
        }
        assert(trim_end_spec(fin) == fin);
    }
    let mut r: Vec<char> = Vec::new();
    let mut k: usize = i;
    while k < j
        invariant
            i <= k <= j <= n,
            n == s@.len(),
            r@ == s@.subrange(i as int, k as int),
        decreases j - k,
    {
        r.push(s[k]);
        proof {
            assert(s@.subrange(i as int, k + 1) =~= s@.subrange(i as int, k as int).push(s@[k as int]));
        }
        k = k + 1;
    }
    r
}

/// `str::trim`, returning an owned string.
pub fn trim(s: &str) -> (r: String)
    ensures
        r@ == trim_spec(s@),
{
    let cs = to_chars(s);
    let t = trim_chars(cs.as_slice());
    string_from_chars(t.as_slice())
}

/// Splits `s` at every `'\n'`, trims each piece and keeps the non-blank
/// ones -- the line list every merge and split works on.
pub fn clean_lines_of(s: &str) -> (r: Vec<String>)
    ensures
        r.deep_view() == clean_lines(s@),
{
    let cs = to_chars(s);
    let n = cs.len();
    let mut out: Vec<String> = Vec::new();
    let mut cur: Vec<char> = Vec::new();
    let mut i: usize = 0;
    proof {
        assert(cs@.subrange(0, 0) =~= Seq::<char>::empty());
        assert(trim_spec(Seq::<char>::empty()) =~= Seq::<char>::empty());
        assert(nonblank_trimmed(seq![Seq::<char>::empty()]) =~= Seq::<Seq<char>>::empty()) by {
            assert(seq![Seq::<char>::empty()].drop_last() =~= Seq::<Seq<char>>::empty());
            assert(nonblank_trimmed(Seq::<Seq<char>>::empty()) =~= Seq::<Seq<char>>::empty());
            assert(seq![Seq::<char>::empty()].last() == Seq::<char>::empty());
        }
        assert(out.deep_view() =~= Seq::<Seq<char>>::empty());
        assert(out.deep_view() + Seq::<Seq<char>>::empty() =~= Seq::<Seq<char>>::empty());
    }
    while i < n
        invariant
            0 <= i <= n,
            n == cs@.len(),
            cs@ == s@,
            split_newlines(cs@.subrange(0, i as int)).len() >= 1,
            out.deep_view() + (if trim_spec(cur@).len() > 0 {
                seq![trim_spec(cur@)]
            } else {
                Seq::<Seq<char>>::empty()
            }) == nonblank_trimmed(split_newlines(cs@.subrange(0, i as int))),
            cur@ == split_newlines(cs@.subrange(0, i as int)).last(),
        decreases n - i,
    {
        let ghost pre = cs@.subrange(0, i as int);
        let ghost next = cs@.subrange(0, i + 1);
        proof {
            assert(next.drop_last() =~= pre);
            assert(next.last() == cs@[i as int]);
            lemma_split_newlines_nonempty(pre);
        }
        let c = cs[i];
        if c == '\n' {
            let t = trim_chars(cur.as_slice());
            if t.len() > 0 {
                let line = string_from_chars(t.as_slice());
                out.push(line);
            }
            cur = Vec::new();
            proof {
                let p = split_newlines(pre);
                assert(split_newlines(next) == p.push(Seq::<char>::empty()));
                assert(p.push(Seq::<char>::empty()).drop_last() =~= p);
                assert(trim_spec(Seq::<char>::empty()) =~= Seq::<char>::empty());
                let pieces = split_newlines(pre);
                // nonblank_trimmed(p) = nonblank_trimmed(p.drop_last()) + [t?]
                assert(nonblank_trimmed(p.push(Seq::<char>::empty())) == nonblank_trimmed(p));
                assert(out.deep_view() =~= nonblank_trimmed(p));
            }
        } else {
            cur.push(c);
            proof {
                let p = split_newlines(pre);
                let q = p.update(p.len() - 1, p.last().push(c));
                assert(split_newlines(next) == q);
                assert(q.drop_last() =~= p.drop_last());
                assert(nonblank_trimmed(p) == {
                    let rest = nonblank_trimmed(p.drop_last());
                    let t = trim_spec(p.last());
                    if t.len() > 0 { rest.push(t) } else { rest }
                });
                assert(out.deep_view() =~= nonblank_trimmed(p.drop_last())) by {
                    let rest = nonblank_trimmed(p.drop_last());
                    if trim_spec(p.last()).len() > 0 {
                        assert(out.deep_view() + seq![trim_spec(p.last())] == rest.push(
                            trim_spec(p.last()),
                        ));
                        assert((out.deep_view() + seq![trim_spec(p.last())]).drop_last()
                            =~= out.deep_view());
                        assert(rest.push(trim_spec(p.last())).drop_last() =~= rest);
                    } else {
                        assert(out.deep_view() + Seq::<Seq<char>>::empty() =~= out.deep_view());
                    }
                }
                assert(q.last() == cur@);
                if trim_spec(cur@).len() > 0 {
                    assert(out.deep_view() + seq![trim_spec(cur@)] =~= nonblank_trimmed(
                        q.drop_last(),
                    ).push(trim_spec(cur@)));
                } else {
                    assert(out.deep_view() + Seq::<Seq<char>>::empty() =~= out.deep_view());
                }
            }
        }
        i = i + 1;
    }
    let t = trim_chars(cur.as_slice());
    if t.len() > 0 {
        let line = string_from_chars(t.as_slice());
        out.push(line);
    }
    proof {
        assert(cs@.subrange(0, n as int) =~= s@);
        if trim_spec(cur@).len() > 0 {
            assert(out.deep_view() =~= nonblank_trimmed(split_newlines(s@)));
        } else {
            assert(out.deep_view() + Seq::<Seq<char>>::empty() =~= out.deep_view());
        }
    }
    out
}

/// `str::eq_ignore_ascii_case`.
pub fn eq_ignore_ascii_case(a: &str, b: &str) -> (r: bool)
    ensures
        r == eq_ignore_ascii_case_spec(a@, b@),
{
    let x = to_chars(a);
    let y = to_chars(b);
    if x.len() != y.len() {
        return false;
    }
    let mut i: usize = 0;
    while i < x.len()
        invariant
            0 <= i <= x@.len(),
            x@.len() == y@.len(),
            x@ == a@,
            y@ == b@,
            forall|k: int| 0 <= k < i ==> #[trigger] ascii_lower(x@[k]) == ascii_lower(y@[k]),
        decreases x@.len() - i,
    {
        let c = lower_ascii(x[i]);
        let d = lower_ascii(y[i]);
        if c != d {
            return false;
        }
        i = i + 1;
    }
    true
}

/// `char::to_ascii_lowercase`.
pub fn lower_ascii(c: char) -> (r: char)
    ensures
        r == ascii_lower(c),
{
    if 'A' <= c && c <= 'Z' {
        let v = (c as u32) + 32;
        assert(v <= 0x7a);
        char_from_ascii(v)
    } else {
        c
    }
}

/// The character of an ASCII code (`u8 as char`).
pub(crate) fn char_from_ascii(v: u32) -> (c: char)
    requires
        v < 0x80,
    ensures
        c == v as char,
        c as u32 == v,
{
    (v as u8) as char
}

/// `a < b` for strings (`Ord` for `str`).
pub fn str_lt(a: &str, b: &str) -> (r: bool)
    ensures
        r == seq_lt(a@, b@),
{
    let x = to_chars(a);
    let y = to_chars(b);
    let mut i: usize = 0;
    proof {
        assert(a@.subrange(0, a@.len() as int) =~= a@);
        assert(b@.subrange(0, b@.len() as int) =~= b@);
    }
    while i < x.len() && i < y.len() && x[i] == y[i]
        invariant
            0 <= i <= x@.len(),
            i <= y@.len(),
            x@ == a@,
            y@ == b@,
            forall|k: int| 0 <= k < i ==> x@[k] == y@[k],
            seq_lt(a@, b@) == seq_lt(a@.subrange(i as int, a@.len() as int), b@.subrange(
                i as int,
                b@.len() as int,
            )),
        decreases x@.len() - i,
    {
        proof {
            let sa = a@.subrange(i as int, a@.len() as int);
            let sb = b@.subrange(i as int, b@.len() as int);
            assert(sa.drop_first() =~= a@.subrange(i + 1, a@.len() as int));
            assert(sb.drop_first() =~= b@.subrange(i + 1, b@.len() as int));
        }
        i = i + 1;
    }
    let ghost sa = a@.subrange(i as int, a@.len() as int);
    let ghost sb = b@.subrange(i as int, b@.len() as int);
    if i == x.len() {
        i < y.len()
    } else if i == y.len() {
        false
    } else {
        assert(sa[0] == x@[i as int] && sb[0] == y@[i as int]);
        (x[i] as u32) < (y[i] as u32)
    }
}


/// The decimal digits of `n`, most significant first, with no leading zero
/// (`Display` for an unsigned integer).
pub open spec fn decimal_spec(n: nat) -> Seq<char>
    decreases n,
{
    if n < 10 {
        seq![((48 + n) as int) as char]
    } else {
        decimal_spec(n / 10).push(((48 + n % 10) as int) as char)
    }
}

fn decimal_chars(n: u64) -> (r: Vec<char>)
    ensures
        r@ == decimal_spec(n as nat),
    decreases n,
{
    if n < 10 {
        let c = char_from_ascii(48 + n as u32);
        let mut v: Vec<char> = Vec::new();
        v.push(c);
        proof {
            assert(v@ =~= decimal_spec(n as nat));
        }
        v
    } else {
        let mut v = decimal_chars(n / 10);
        let d = (n % 10) as u32;
        let c = char_from_ascii(48 + d);
        v.push(c);
        v
    }
}

/// `n.to_string()` for an unsigned integer.
pub fn u64_text(n: u64) -> (r: String)
    ensures
        r@ == decimal_spec(n as nat),
{
    let v = decimal_chars(n);
    string_from_chars(v.as_slice())
}

/// Concatenation of two strings (`format!("{a}{b}")`).
pub fn concat(a: &str, b: &str) -> (r: String)
    ensures
        r@ == a@ + b@,
{
    let mut s = a.to_owned();
    s.append(b);
    s
}

/// `Display` for a signed integer: a minus sign before the digits of a
/// negative value.
pub open spec fn signed_decimal_spec(n: int) -> Seq<char> {
    if n < 0 {
        seq!['-'] + decimal_spec((-n) as nat)
    } else {
        decimal_spec(n as nat)
    }
}

/// `n.to_string()` for an `i64`.
pub fn i64_text(n: i64) -> (r: String)
    ensures
        r@ == signed_decimal_spec(n as int),
{
    if n < 0 {
        let m: u64 = ((-(n + 1)) as u64) + 1;
        let digits = u64_text(m);
        let r = concat("-", digits.as_str());
        proof {
            reveal_strlit("-");
            assert(r@ =~= seq!['-'] + decimal_spec((-n) as nat));
        }
        r
    } else {
        u64_text(n as u64)
    }
}

/// `Display` for `bool`.
pub open spec fn bool_text_spec(b: bool) -> Seq<char> {
    if b {
        "true"@
    } else {
        "false"@
    }
}

pub fn bool_text(b: bool) -> (r: String)
    ensures
        r@ == bool_text_spec(b),
{
    if b {
        String::from_str("true")
    } else {
        String::from_str("false")
    }
}
} // verus!
