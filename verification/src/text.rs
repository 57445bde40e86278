//! Exact-substring and token operations on character sequences.
//!
//! The provisioning rules are deliberately textual: a configuration line is
//! "present" when it occurs as an exact substring, a package identifier is
//! the last whitespace-separated token of its install command, and a
//! listing is searched line by line.  These helpers state those operations
//! over `Seq<char>` and implement them for `&str` and `Vec<char>`.

use vstd::prelude::*;
use vstd::string::*;

verus! {

/// The whitespace characters, exactly the set the standard library's
/// whitespace predicate recognizes (the Unicode white-space characters).
pub open spec fn is_space_char(c: char) -> bool {
    c == '\u{0009}' || c == '\u{000a}' || c == '\u{000b}' || c == '\u{000c}' || c == '\u{000d}'
        || c == '\u{0020}' || c == '\u{0085}' || c == '\u{00a0}' || c == '\u{1680}' || ('\u{2000}'
        <= c && c <= '\u{200a}') || c == '\u{2028}' || c == '\u{2029}' || c == '\u{202f}' || c
        == '\u{205f}' || c == '\u{3000}'
}

/// Whether `c` is a whitespace character, over the same set as
/// `is_space_char`.
pub fn is_space(c: char) -> (r: bool)
    ensures
        r == is_space_char(c),
{
    c == '\u{0009}' || c == '\u{000a}' || c == '\u{000b}' || c == '\u{000c}' || c == '\u{000d}'
        || c == '\u{0020}' || c == '\u{0085}' || c == '\u{00a0}' || c == '\u{1680}' || (c
        >= '\u{2000}' && c <= '\u{200a}') || c == '\u{2028}' || c == '\u{2029}' || c == '\u{202f}'
        || c == '\u{205f}' || c == '\u{3000}'
}

/// `needle` occurs in `hay` starting at position `i`.
pub open spec fn match_at(hay: Seq<char>, needle: Seq<char>, i: int) -> bool {
    0 <= i && i + needle.len() <= hay.len() && hay.subrange(i, i + needle.len()) == needle
}

/// `needle` occurs somewhere in `hay`.
pub open spec fn contains_seq(hay: Seq<char>, needle: Seq<char>) -> bool {
    exists|i: int| match_at(hay, needle, i)
}

/// Separator put before an appended line when the file neither is empty
/// nor already ends in a newline.
pub open spec fn sep_for(content: Seq<char>) -> Seq<char> {
    if content.len() == 0 || content.last() == '\n' {
        Seq::empty()
    } else {
        seq!['\n']
    }
}

/// `content` with `line` appended on a line of its own.
pub open spec fn appended_line(content: Seq<char>, line: Seq<char>) -> Seq<char> {
    content + sep_for(content) + line + seq!['\n']
}

/// Number of positions of `hay` at or after `i` where `needle` occurs.
pub open spec fn count_from(hay: Seq<char>, needle: Seq<char>, i: int) -> nat
    decreases hay.len() - i + 1,
{
    if i < 0 || i + needle.len() > hay.len() {
        0
    } else {
        (if match_at(hay, needle, i) {
            1nat
        } else {
            0nat
        }) + count_from(hay, needle, i + 1)
    }
}

/// Number of positions of `hay` where `needle` occurs.
pub open spec fn count_matches(hay: Seq<char>, needle: Seq<char>) -> nat {
    count_from(hay, needle, 0)
}

/// `count_from` counts zero exactly when no position at or after `i` matches.
pub proof fn lemma_count_none(hay: Seq<char>, needle: Seq<char>, i: int)
    requires
        0 <= i,
    ensures
        (count_from(hay, needle, i) == 0) <==> (forall|j: int| j >= i ==> !match_at(
            hay,
            needle,
            j,
        )),
    decreases hay.len() - i + 1,
{
    if i + needle.len() > hay.len() {
        assert forall|j: int| j >= i implies !match_at(hay, needle, j) by {}
    } else {
        lemma_count_none(hay, needle, i + 1);
    }
}

/// If `needle` matches exactly once at or after `i`, the count from `i` is one.
pub proof fn lemma_count_single(hay: Seq<char>, needle: Seq<char>, i: int, p: int)
    requires
        0 <= i <= p,
        match_at(hay, needle, p),
        forall|j: int| j >= i && j != p ==> !match_at(hay, needle, j),
    ensures
        count_from(hay, needle, i) == 1,
    decreases hay.len() - i + 1,
{
    if i == p {
        lemma_count_none(hay, needle, i + 1);
    } else {
        lemma_count_single(hay, needle, i + 1, p);
    }
}

/// A match wholly inside one part of a concatenation survives in the whole.
pub proof fn lemma_contains_in_suffix(prefix: Seq<char>, suffix: Seq<char>, needle: Seq<char>)
    requires
        contains_seq(suffix, needle),
    ensures
        contains_seq(prefix + suffix, needle),
{
    let i = choose|i: int| match_at(suffix, needle, i);
    let whole = prefix + suffix;
    assert(whole.subrange(prefix.len() + i, prefix.len() + i + needle.len()) =~= suffix.subrange(
        i,
        i + needle.len(),
    ));
    assert(match_at(whole, needle, prefix.len() + i));
}

/// A match wholly inside the first part of a concatenation survives in
/// the whole.
pub proof fn lemma_contains_in_prefix(prefix: Seq<char>, suffix: Seq<char>, needle: Seq<char>)
    requires
        contains_seq(prefix, needle),
    ensures
        contains_seq(prefix + suffix, needle),
{
    let i = choose|i: int| match_at(prefix, needle, i);
    let whole = prefix + suffix;
    assert(whole.subrange(i, i + needle.len()) =~= prefix.subrange(i, i + needle.len()));
    assert(match_at(whole, needle, i));
}

/// The lines of `s`, as the standard library's line iterator counts
/// them: the pieces split at `'\n'`, without the empty piece that a
/// final newline leaves.  (A piece may still end in the carriage return
/// the iterator would strip; the callers' trimming removes it.)
pub open spec fn lines_spec(s: Seq<char>) -> Seq<Seq<char>> {
    let pieces = split_spec(s, '\n');
    if pieces.last() == Seq::<char>::empty() {
        pieces.drop_last()
    } else {
        pieces
    }
}

/// Splits `s` at every occurrence of `sep`; the result is never empty and
/// holds the separated pieces in order, without the separators.
pub open spec fn split_spec(s: Seq<char>, sep: char) -> Seq<Seq<char>>
    decreases s.len(),
{
    if s.len() == 0 {
        seq![Seq::<char>::empty()]
    } else if s[0] == sep {
        seq![Seq::<char>::empty()] + split_spec(s.skip(1), sep)
    } else {
        let rest = split_spec(s.skip(1), sep);
        seq![seq![s[0]] + rest[0]] + rest.skip(1)
    }
}

pub proof fn lemma_split_nonempty(s: Seq<char>, sep: char)
    ensures
        split_spec(s, sep).len() >= 1,
    decreases s.len(),
{
    if s.len() > 0 {
        lemma_split_nonempty(s.skip(1), sep);
    }
}

/// A sequence free of the separator splits into itself alone.
pub proof fn lemma_split_no_sep(s: Seq<char>, sep: char)
    requires
        forall|i: int| 0 <= i < s.len() ==> s[i] != sep,
    ensures
        split_spec(s, sep) == seq![s],
    decreases s.len(),
{
    if s.len() == 0 {
        assert(s =~= Seq::<char>::empty());
        assert(split_spec(s, sep) =~= seq![s]);
    } else {
        lemma_split_no_sep(s.skip(1), sep);
        let rest = split_spec(s.skip(1), sep);
        assert(rest == seq![s.skip(1)]);
        assert(rest[0] == seq![s.skip(1)][0]);
        assert(split_spec(s, sep) == seq![seq![s[0]] + rest[0]] + rest.skip(1));
        assert(seq![s[0]] + rest[0] =~= s);
        assert(rest.skip(1) =~= Seq::<Seq<char>>::empty());
        assert(seq![seq![s[0]] + rest[0]] + rest.skip(1) =~= seq![s]);
    }
}

/// Splitting at the first separator: the piece before it, then the split of
/// what follows it.
pub proof fn lemma_split_at_first(s: Seq<char>, sep: char, k: int)
    requires
        0 <= k < s.len(),
        s[k] == sep,
        forall|i: int| 0 <= i < k ==> s[i] != sep,
    ensures
        split_spec(s, sep) == seq![s.take(k)] + split_spec(s.skip(k + 1), sep),
    decreases s.len(),
{
    if k == 0 {
        assert(s.take(0) =~= Seq::<char>::empty());
        assert(split_spec(s, sep) =~= seq![s.take(0)] + split_spec(s.skip(1), sep));
    } else {
        lemma_split_at_first(s.skip(1), sep, k - 1);
        lemma_split_nonempty(s.skip(1).skip(k), sep);
        assert(s.skip(1).take(k - 1) =~= s.take(k).skip(1));
        assert(s.skip(1).skip(k) =~= s.skip(k + 1));
        assert(seq![s[0]] + s.take(k).skip(1) =~= s.take(k));
        assert(split_spec(s, sep) =~= seq![s.take(k)] + split_spec(s.skip(k + 1), sep));
    }
}

/// The longest all-non-space suffix of `s`.
pub open spec fn tail_run(s: Seq<char>) -> Seq<char>
    decreases s.len(),
{
    if s.len() == 0 || is_space_char(s.last()) {
        Seq::empty()
    } else {
        tail_run(s.drop_last()).push(s.last())
    }
}

/// `s` holds at least one non-space character.
pub open spec fn has_token(s: Seq<char>) -> bool {
    exists|i: int| 0 <= i < s.len() && !is_space_char(s[i])
}

/// The last whitespace-separated token of `s` (empty when `s` has none).
pub open spec fn last_token_spec(s: Seq<char>) -> Seq<char>
    decreases s.len(),
{
    if s.len() == 0 {
        Seq::empty()
    } else if is_space_char(s.last()) {
        last_token_spec(s.drop_last())
    } else {
        tail_run(s)
    }
}

/// `s` with leading space characters removed.
pub open spec fn trim_front(s: Seq<char>) -> Seq<char>
    decreases s.len(),
{
    if s.len() > 0 && is_space_char(s[0]) {
        trim_front(s.skip(1))
    } else {
        s
    }
}

/// `s` with trailing space characters removed.
pub open spec fn trim_back(s: Seq<char>) -> Seq<char>
    decreases s.len(),
{
    if s.len() > 0 && is_space_char(s.last()) {
        trim_back(s.drop_last())
    } else {
        s
    }
}

/// `s` with leading and trailing space characters removed.
pub open spec fn trim_spec(s: Seq<char>) -> Seq<char> {
    trim_back(trim_front(s))
}

/// `trim_front` removes exactly the leading spaces: if everything before
/// `a` is space and `a` is the first non-space position (or the end),
/// what remains is the suffix from `a`.
pub proof fn lemma_trim_front_index(s: Seq<char>, a: int)
    requires
        0 <= a <= s.len(),
        forall|j: int| 0 <= j < a ==> is_space_char(s[j]),
        a == s.len() || !is_space_char(s[a]),
    ensures
        trim_front(s) == s.subrange(a, s.len() as int),
    decreases s.len(),
{
    if a == 0 {
        assert(trim_front(s) =~= s.subrange(0, s.len() as int));
    } else {
        lemma_trim_front_index(s.skip(1), a - 1);
        assert(s.skip(1).subrange(a - 1, s.len() - 1) =~= s.subrange(a, s.len() as int));
    }
}

/// `trim_back` removes exactly the trailing spaces: if everything from `b`
/// on is space and `b` is just past the last non-space position (or zero),
/// what remains is the prefix up to `b`.
pub proof fn lemma_trim_back_index(s: Seq<char>, b: int)
    requires
        0 <= b <= s.len(),
        forall|j: int| b <= j < s.len() ==> is_space_char(s[j]),
        b == 0 || !is_space_char(s[b - 1]),
    ensures
        trim_back(s) == s.subrange(0, b),
    decreases s.len(),
{
    if b == s.len() {
        assert(trim_back(s) =~= s.subrange(0, b));
    } else {
        lemma_trim_back_index(s.drop_last(), b);
        assert(s.drop_last().subrange(0, b) =~= s.subrange(0, b));
    }
}

/// `tail_run` is the suffix that starts at the last space (or at the
/// beginning when there is none).
pub proof fn lemma_tail_run_index(s: Seq<char>, b: int)
    requires
        0 <= b < s.len(),
        forall|k: int| b <= k < s.len() ==> !is_space_char(s[k]),
        b == 0 || is_space_char(s[b - 1]),
    ensures
        tail_run(s) == s.subrange(b, s.len() as int),
    decreases s.len(),
{
    if b == s.len() - 1 {
        assert(tail_run(s.drop_last()) =~= Seq::<char>::empty());
        assert(tail_run(s) =~= s.subrange(b, s.len() as int));
    } else {
        lemma_tail_run_index(s.drop_last(), b);
        assert(tail_run(s) =~= s.subrange(b, s.len() as int));
    }
}

/// Trailing spaces do not change the last token.
pub proof fn lemma_last_token_at(s: Seq<char>, e: int)
    requires
        0 <= e < s.len(),
        !is_space_char(s[e]),
        forall|j: int| e < j < s.len() ==> is_space_char(s[j]),
    ensures
        last_token_spec(s) == tail_run(s.take(e + 1)),
    decreases s.len(),
{
    if e == s.len() - 1 {
        assert(s.take(e + 1) =~= s);
    } else {
        lemma_last_token_at(s.drop_last(), e);
        assert(s.drop_last().take(e + 1) =~= s.take(e + 1));
    }
}

/// The characters of `s`, one element per `char`.
pub fn to_chars(s: &str) -> (r: Vec<char>)
    ensures
        r@ == s@,
{
    let len = s.unicode_len();
    let mut r: Vec<char> = Vec::new();
    let mut i: usize = 0;
    while i < len
        invariant
            len == s@.len(),
            i <= len,
            r@ =~= s@.take(i as int),
        decreases len - i,
    {
        r.push(s.get_char(i));
        assert(r@ =~= s@.take(i as int + 1));
        i += 1;
    }
    assert(s@.take(len as int) =~= s@);
    r
}

/// The boundaries of the pieces of `v` separated by `sep`, in order: one
/// `(start, end)` pair per piece of `split_spec`.
pub fn split_positions(v: &Vec<char>, sep: char) -> (r: Vec<(usize, usize)>)
    ensures
        r@.len() == split_spec(v@, sep).len(),
        forall|k: int|
            0 <= k < r@.len() ==> #[trigger] r@[k].0 <= r@[k].1 <= v@.len() && v@.subrange(
                r@[k].0 as int,
                r@[k].1 as int,
            ) == split_spec(v@, sep)[k],
{
    let n = v.len();
    let ghost pieces = split_spec(v@, sep);
    let mut r: Vec<(usize, usize)> = Vec::new();
    let mut start: usize = 0;
    let mut i: usize = 0;
    proof {
        assert(v@.skip(0) =~= v@);
        assert(r@.map_values(|p: (usize, usize)| v@.subrange(p.0 as int, p.1 as int))
            =~= Seq::<Seq<char>>::empty());
    }
    while i < n
        invariant
            n == v@.len(),
            start <= i <= n,
            pieces == split_spec(v@, sep),
            pieces =~= r@.map_values(|p: (usize, usize)| v@.subrange(p.0 as int, p.1 as int))
                + split_spec(v@.skip(start as int), sep),
            forall|k: int| 0 <= k < r@.len() ==> #[trigger] r@[k].0 <= r@[k].1 <= v@.len(),
            forall|j: int| start <= j < i ==> v@[j] != sep,
        decreases n - i,
    {
        if v[i] == sep {
            proof {
                let tail = v@.skip(start as int);
                lemma_split_at_first(tail, sep, i - start);
                assert(tail.take(i - start) =~= v@.subrange(start as int, i as int));
                assert(tail.skip(i - start + 1) =~= v@.skip(i as int + 1));
                assert(r@.push((start, i)).map_values(
                    |p: (usize, usize)| v@.subrange(p.0 as int, p.1 as int),
                ) =~= r@.map_values(|p: (usize, usize)| v@.subrange(p.0 as int, p.1 as int)).push(
                    v@.subrange(start as int, i as int),
                ));
            }
            r.push((start, i));
            start = i + 1;
        }
        i += 1;
    }
    proof {
        let tail = v@.skip(start as int);
        lemma_split_no_sep(tail, sep);
        assert(tail =~= v@.subrange(start as int, n as int));
        assert(r@.push((start, n)).map_values(
            |p: (usize, usize)| v@.subrange(p.0 as int, p.1 as int),
        ) =~= r@.map_values(|p: (usize, usize)| v@.subrange(p.0 as int, p.1 as int)).push(
            v@.subrange(start as int, n as int),
        ));
    }
    r.push((start, n));
    proof {
        assert(pieces =~= r@.map_values(|p: (usize, usize)| v@.subrange(p.0 as int, p.1 as int)));
        assert forall|k: int| 0 <= k < r@.len() implies #[trigger] r@[k].0 <= r@[k].1 <= v@.len()
            && v@.subrange(r@[k].0 as int, r@[k].1 as int) == split_spec(v@, sep)[k] by {
            assert(split_spec(v@, sep)[k] == r@.map_values(
                |p: (usize, usize)| v@.subrange(p.0 as int, p.1 as int),
            )[k]);
        }
    }
    r
}

/// Whether `needle` occurs in `hay` at position `i`.
fn match_at_exec(hay: &str, needle: &str, i: usize, hlen: usize, nlen: usize) -> (r: bool)
    requires
        hlen == hay@.len(),
        nlen == needle@.len(),
        i + nlen <= hlen,
    ensures
        r == match_at(hay@, needle@, i as int),
{
    let mut j: usize = 0;
    while j < nlen
        invariant
            hlen == hay@.len(),
            nlen == needle@.len(),
            i + nlen <= hlen,
            j <= nlen,
            forall|k: int| 0 <= k < j ==> hay@[i + k] == needle@[k],
        decreases nlen - j,
    {
        if hay.get_char(i + j) != needle.get_char(j) {
            proof {
                let w = hay@.subrange(i as int, i + needle@.len());
                assert(w[j as int] == hay@[i + j]);
                assert(!match_at(hay@, needle@, i as int));
            }
            return false;
        }
        j += 1;
    }
    proof {
        assert(hay@.subrange(i as int, i + needle@.len()) =~= needle@);
    }
    true
}

/// The position of the first occurrence of `needle` in `hay`, if any.
pub fn find_first(hay: &str, needle: &str) -> (r: Option<usize>)
    ensures
        match r {
            Some(i) => match_at(hay@, needle@, i as int) && (forall|j: int|
                0 <= j < i ==> !match_at(hay@, needle@, j)),
            None => !contains_seq(hay@, needle@),
        },
{
    let hlen = hay.unicode_len();
    let nlen = needle.unicode_len();
    if nlen > hlen {
        return None;
    }
    if nlen == 0 {
        proof {
            assert(hay@.subrange(0, 0) =~= needle@);
        }
        return Some(0);
    }
    let mut i: usize = 0;
    while i <= hlen - nlen
        invariant
            hlen == hay@.len(),
            nlen == needle@.len(),
            0 < nlen <= hlen,
            i <= hlen - nlen + 1,
            forall|j: int| 0 <= j < i ==> !match_at(hay@, needle@, j),
        decreases hlen - i,
    {
        if match_at_exec(hay, needle, i, hlen, nlen) {
            return Some(i);
        }
        i += 1;
    }
    None
}

/// Whether `needle` occurs anywhere in `hay`.
pub fn contains_str(hay: &str, needle: &str) -> (r: bool)
    ensures
        r == contains_seq(hay@, needle@),
{
    match find_first(hay, needle) {
        Some(_) => true,
        None => false,
    }
}

} // verus!
