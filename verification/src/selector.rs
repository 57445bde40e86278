//! The selection grammar: one free-text expression per category.
//!
//! `"all"` selects every application of the category; `"0"`, `"n"` and the
//! empty input select none; anything else is read as a comma-separated
//! list of 1-based positions, each token trimmed and parsed as a number,
//! with invalid or out-of-range tokens silently dropped.  Letter case is
//! ignored throughout.

use vstd::prelude::*;
use vstd::string::*;
use crate::text::is_space;
use crate::text::is_space_char;
use crate::text::lemma_trim_back_index;
use crate::text::lemma_trim_front_index;
use crate::text::split_positions;
use crate::text::split_spec;
use crate::text::to_chars;
use crate::text::trim_spec;

verus! {

/// ASCII lowercase of one character; anything else is left as it is.
pub open spec fn lower_char_spec(c: char) -> char {
    if 'A' <= c && c <= 'Z' {
        (((c as u8) + 32) as char)
    } else {
        c
    }
}

/// ASCII lowercase, character by character.
pub open spec fn lower_spec(s: Seq<char>) -> Seq<char> {
    s.map_values(|c: char| lower_char_spec(c))
}

pub open spec fn is_digit_char(c: char) -> bool {
    '0' <= c && c <= '9'
}

/// The numeric value of a digit character.
pub open spec fn digit_val(c: char) -> int {
    c as u32 - '0' as u32
}

pub open spec fn all_digits(t: Seq<char>) -> bool {
    forall|i: int| 0 <= i < t.len() ==> is_digit_char(t[i])
}

/// The number a digit string denotes, most significant digit first.
pub open spec fn digits_val(t: Seq<char>) -> int
    decreases t.len(),
{
    if t.len() == 0 {
        0
    } else {
        digits_val(t.drop_last()) * 10 + digit_val(t.last())
    }
}

/// The value the standard `usize` parser accepts for a token: an optional
/// leading `'+'`, then one or more digits, within the `usize` range.
pub open spec fn token_value(t: Seq<char>) -> Option<int> {
    let u = if t.len() > 0 && t[0] == '+' {
        t.skip(1)
    } else {
        t
    };
    if u.len() > 0 && all_digits(u) && digits_val(u) <= usize::MAX as int {
        Some(digits_val(u))
    } else {
        None
    }
}

/// The 0-based position one selection token denotes in a category of `n`
/// applications: its trimmed numeric value, when between 1 and `n`.
pub open spec fn token_index(t: Seq<char>, n: nat) -> Option<int> {
    match token_value(trim_spec(t)) {
        Some(v) => if 1 <= v <= n {
            Some(v - 1)
        } else {
            None
        },
        None => None,
    }
}

/// The 0-based positions a token list denotes, in token order, invalid
/// tokens dropped.
pub open spec fn indices_of(toks: Seq<Seq<char>>, n: nat) -> Seq<int>
    decreases toks.len(),
{
    if toks.len() == 0 {
        Seq::empty()
    } else {
        match token_index(toks[0], n) {
            Some(i) => seq![i] + indices_of(toks.skip(1), n),
            None => indices_of(toks.skip(1), n),
        }
    }
}

/// The whole selection grammar, over the lowercased input.
pub open spec fn selection_spec(raw: Seq<char>, n: nat) -> Seq<int> {
    let s = lower_spec(raw);
    if s == "all"@ {
        Seq::new(n, |i: int| i)
    } else if s.len() == 0 || s == "0"@ || s == "n"@ {
        Seq::empty()
    } else {
        indices_of(split_spec(s, ','), n)
    }
}

proof fn lemma_digits_val_nonneg(t: Seq<char>)
    requires
        all_digits(t),
    ensures
        digits_val(t) >= 0,
    decreases t.len(),
{
    if t.len() > 0 {
        assert(all_digits(t.drop_last()));
        lemma_digits_val_nonneg(t.drop_last());
    }
}

/// A digit string is worth at least any of its prefixes.
proof fn lemma_digits_prefix_le(t: Seq<char>, k: int)
    requires
        all_digits(t),
        0 <= k <= t.len(),
    ensures
        digits_val(t.take(k)) <= digits_val(t),
    decreases t.len() - k,
{
    if k == t.len() {
        assert(t.take(k) =~= t);
    } else {
        lemma_digits_prefix_le(t, k + 1);
        assert(t.take(k + 1).drop_last() =~= t.take(k));
        assert(all_digits(t.take(k)));
        lemma_digits_val_nonneg(t.take(k));
        assert(digits_val(t.take(k + 1)) == digits_val(t.take(k)) * 10 + digit_val(t[k]));
    }
}

/// Parses the piece `v[start..end]` as the `usize` parser would.
fn parse_token_value(v: &Vec<char>, start: usize, end: usize) -> (r: Option<usize>)
    requires
        start <= end <= v@.len(),
    ensures
        match r {
            Some(val) => token_value(v@.subrange(start as int, end as int)) == Some(val as int),
            None => token_value(v@.subrange(start as int, end as int)) is None,
        },
{
    let ghost t = v@.subrange(start as int, end as int);
    let mut i = start;
    if i < end && v[i] == '+' {
        i += 1;
    }
    let ghost u = v@.subrange(i as int, end as int);
    proof {
        if t.len() > 0 && t[0] == '+' {
            assert(t.skip(1) =~= v@.subrange(start as int + 1, end as int));
        }
        assert(u == if t.len() > 0 && t[0] == '+' {
            t.skip(1)
        } else {
            t
        });
    }
    if i == end {
        return None;
    }
    let mut acc: u128 = 0;
    let mut j = i;
    while j < end
        invariant
            start <= i <= j <= end <= v@.len(),
            t == v@.subrange(start as int, end as int),
            u == (if t.len() > 0 && t[0] == '+' {
                t.skip(1)
            } else {
                t
            }),
            u == v@.subrange(i as int, end as int),
            all_digits(v@.subrange(i as int, j as int)),
            acc == digits_val(v@.subrange(i as int, j as int)),
            acc <= usize::MAX as u128,
        decreases end - j,
    {
        let c = v[j];
        if !(c >= '0' && c <= '9') {
            proof {
                assert(u[j - i] == v@[j as int]);
                assert(!all_digits(u));
            }
            return None;
        }
        let d: u128 = ((c as u32) - 48) as u128;
        let newacc = acc * 10 + d;
        proof {
            assert(v@.subrange(i as int, j as int + 1).drop_last() =~= v@.subrange(
                i as int,
                j as int,
            ));
            assert(digits_val(v@.subrange(i as int, j as int + 1)) == acc * 10 + d);
        }
        if newacc > usize::MAX as u128 {
            proof {
                if all_digits(u) {
                    assert(u.take(j - i + 1) =~= v@.subrange(i as int, j as int + 1));
                    lemma_digits_prefix_le(u, j - i + 1);
                }
            }
            return None;
        }
        acc = newacc;
        proof {
            assert(all_digits(v@.subrange(i as int, j as int + 1)));
        }
        j += 1;
    }
    proof {
        assert(u =~= v@.subrange(i as int, end as int));
        lemma_digits_val_nonneg(u);
    }
    Some(acc as usize)
}

/// The 0-based position the piece `v[start..end]` denotes, if any.
fn token_index_exec(v: &Vec<char>, start: usize, end: usize, n: usize) -> (r: Option<usize>)
    requires
        start <= end <= v@.len(),
    ensures
        match r {
            Some(ix) => token_index(v@.subrange(start as int, end as int), n as nat) == Some(
                ix as int,
            ) && ix < n,
            None => token_index(v@.subrange(start as int, end as int), n as nat) is None,
        },
{
    let mut x = start;
    while x < end && is_space(v[x])
        invariant
            start <= x <= end <= v@.len(),
            forall|j: int| start <= j < x ==> is_space_char(v@[j]),
        decreases end - x,
    {
        x += 1;
    }
    let mut y = end;
    while y > x && is_space(v[y - 1])
        invariant
            start <= x <= y <= end <= v@.len(),
            forall|j: int| y <= j < end ==> is_space_char(v@[j]),
        decreases y,
    {
        y -= 1;
    }
    proof {
        let seg = v@.subrange(start as int, end as int);
        lemma_trim_front_index(seg, x - start);
        let tf = seg.subrange(x - start, seg.len() as int);
        assert(tf =~= v@.subrange(x as int, end as int));
        lemma_trim_back_index(tf, y - x);
        assert(tf.subrange(0, y - x) =~= v@.subrange(x as int, y as int));
        assert(trim_spec(seg) == v@.subrange(x as int, y as int));
    }
    match parse_token_value(v, x, y) {
        None => None,
        Some(val) => {
            if 1 <= val && val <= n {
                Some(val - 1)
            } else {
                None
            }
        },
    }
}

/// Whether a selection expression declines the whole category: the empty
/// input, `"0"` or `"n"`, letter case ignored.  (An expression of only
/// invalid tokens also selects nothing, but is not a decline.)
pub fn selection_declined(raw: &str) -> (r: bool)
    ensures
        r == (lower_spec(raw@).len() == 0 || lower_spec(raw@) == "0"@ || lower_spec(raw@)
            == "n"@),
{
    let len = raw.unicode_len();
    proof {
        reveal_strlit("0");
        reveal_strlit("n");
        assert(lower_spec(raw@).len() == raw@.len());
    }
    if len == 0 {
        return true;
    }
    if len == 1 {
        let c = raw.get_char(0);
        let low = if c >= 'A' && c <= 'Z' {
            (((c as u8) + 32) as char)
        } else {
            c
        };
        proof {
            assert(lower_spec(raw@)[0] == lower_char_spec(raw@[0]));
        }
        if low == '0' || low == 'n' {
            proof {
                if low == '0' {
                    assert(lower_spec(raw@) =~= "0"@);
                } else {
                    assert(lower_spec(raw@) =~= "n"@);
                }
            }
            return true;
        }
        return false;
    }
    false
}

/// Parses one selection expression for a category of `n` applications and
/// returns the selected 0-based positions, in order.
pub fn parse_selection(raw: &str, n: usize) -> (r: Vec<usize>)
    ensures
        r@.map_values(|v: usize| v as int) == selection_spec(raw@, n as nat),
        forall|k: int| 0 <= k < r@.len() ==> r@[k] < n,
{
    let source = to_chars(raw);
    let mut chars: Vec<char> = Vec::new();
    let mut i: usize = 0;
    let len = source.len();
    proof {
        assert(chars@ =~= lower_spec(raw@).take(0));
    }
    while i < len
        invariant
            source@ == raw@,
            len == source@.len(),
            i <= len,
            chars@ == lower_spec(raw@).take(i as int),
        decreases len - i,
    {
        let c = source[i];
        let low = if c >= 'A' && c <= 'Z' {
            (((c as u8) + 32) as char)
        } else {
            c
        };
        chars.push(low);
        proof {
            assert(chars@ =~= lower_spec(raw@).take(i as int + 1));
        }
        i += 1;
    }
    proof {
        assert(lower_spec(raw@).take(len as int) =~= lower_spec(raw@));
        reveal_strlit("all");
        reveal_strlit("0");
        reveal_strlit("n");
    }
    let ghost low = lower_spec(raw@);
    if chars.len() == 3 && chars[0] == 'a' && chars[1] == 'l' && chars[2] == 'l' {
        proof {
            assert(low =~= "all"@);
        }
        let mut out: Vec<usize> = Vec::new();
        let mut k: usize = 0;
        while k < n
            invariant
                k <= n,
                out@.len() == k,
                forall|q: int| 0 <= q < k ==> out@[q] == q,
            decreases n - k,
        {
            out.push(k);
            k += 1;
        }
        proof {
            assert(out@.map_values(|v: usize| v as int) =~= Seq::new(n as nat, |q: int| q));
        }
        return out;
    }
    if chars.len() == 0 || (chars.len() == 1 && (chars[0] == '0' || chars[0] == 'n')) {
        proof {
            assert(low != "all"@);
            if low.len() == 1 && low[0] == '0' {
                assert(low =~= "0"@);
            }
            if low.len() == 1 && low[0] == 'n' {
                assert(low =~= "n"@);
            }
            assert(selection_spec(raw@, n as nat) == Seq::<int>::empty());
        }
        return Vec::new();
    }
    proof {
        assert(low != "all"@);
        assert(low != "0"@);
        assert(low != "n"@);
        assert(low.len() != 0);
    }
    let out = indices_from(&chars, n);
    proof {
        assert(selection_spec(raw@, n as nat) == indices_of(split_spec(low, ','), n as nat));
    }
    out
}

/// The positions a comma-separated expression denotes, read from the
/// already lowercased characters: each token trimmed, parsed and range
/// checked, invalid tokens dropped.
fn indices_from(chars: &Vec<char>, n: usize) -> (r: Vec<usize>)
    ensures
        r@.map_values(|v: usize| v as int) == indices_of(split_spec(chars@, ','), n as nat),
        forall|k: int| 0 <= k < r@.len() ==> r@[k] < n,
{
    let segs = split_positions(chars, ',');
    let ghost pieces = split_spec(chars@, ',');
    let mut out: Vec<usize> = Vec::new();
    let mut k: usize = 0;
    let end = segs.len();
    proof {
        assert(pieces.skip(0) =~= pieces);
        assert(out@.map_values(|v: usize| v as int) =~= Seq::<int>::empty());
    }
    while k < end
        invariant
            pieces == split_spec(chars@, ','),
            end == segs@.len(),
            segs@.len() == pieces.len(),
            k <= end,
            forall|k2: int|
                0 <= k2 < segs@.len() ==> #[trigger] segs@[k2].0 <= segs@[k2].1 <= chars@.len()
                    && chars@.subrange(segs@[k2].0 as int, segs@[k2].1 as int) == pieces[k2],
            indices_of(pieces, n as nat) == out@.map_values(|v: usize| v as int) + indices_of(
                pieces.skip(k as int),
                n as nat,
            ),
            forall|q: int| 0 <= q < out@.len() ==> out@[q] < n,
        decreases end - k,
    {
        let seg = segs[k];
        proof {
            assert(pieces.skip(k as int)[0] == pieces[k as int]);
            assert(pieces.skip(k as int).skip(1) =~= pieces.skip(k as int + 1));
        }
        match token_index_exec(chars, seg.0, seg.1, n) {
            Some(ix) => {
                let ghost prev = out@.map_values(|v: usize| v as int);
                out.push(ix);
                proof {
                    assert(indices_of(pieces.skip(k as int), n as nat) == seq![ix as int]
                        + indices_of(pieces.skip(k as int + 1), n as nat));
                    assert(out@.map_values(|v: usize| v as int) =~= prev.push(ix as int));
                    assert(prev.push(ix as int) =~= prev + seq![ix as int]);
                    assert(prev + (seq![ix as int] + indices_of(pieces.skip(k as int + 1), n as nat))
                        =~= (prev + seq![ix as int]) + indices_of(
                        pieces.skip(k as int + 1),
                        n as nat,
                    ));
                }
            },
            None => {
                proof {
                    assert(indices_of(pieces.skip(k as int), n as nat) == indices_of(
                        pieces.skip(k as int + 1),
                        n as nat,
                    ));
                }
            },
        }
        k += 1;
    }
    proof {
        assert(pieces.skip(end as int) =~= Seq::<Seq<char>>::empty());
        assert(out@.map_values(|v: usize| v as int) + Seq::<int>::empty() =~= out@.map_values(
            |v: usize| v as int,
        ));
    }
    out
}

} // verus!
