//! The presence checker: side-effect-free predicates over observed state.
//!
//! Each predicate takes what was read from the machine as a plain value; a
//! target that could not be read at all (`None`) counts as absent, never
//! as an error.

use vstd::prelude::*;
use vstd::string::*;
use crate::text::contains_seq;
use crate::text::contains_str;
use crate::text::is_space;
use crate::text::is_space_char;
use crate::text::lemma_split_nonempty;
use crate::text::lemma_trim_back_index;
use crate::text::lines_spec;
use crate::text::lemma_trim_front_index;
use crate::text::split_positions;
use crate::text::split_spec;
use crate::text::to_chars;
use crate::text::trim_spec;

verus! {

/// Some line of `listing` (as the line iterator counts lines), stripped
/// of surrounding whitespace, equals `name` exactly.
pub open spec fn listing_has(listing: Seq<char>, name: Seq<char>) -> bool {
    exists|k: int|
        0 <= k < lines_spec(listing).len() && trim_spec(#[trigger] lines_spec(listing)[k]) == name
}

/// Whether a configuration line is already present in a file, as an exact
/// substring.  A missing file is handed in as `None` and counts as absent.
pub fn line_present(file: &Option<String>, line: &str) -> (r: bool)
    ensures
        r == match file {
            Some(c) => contains_seq(c@, line@),
            None => false,
        },
{
    match file {
        None => false,
        Some(c) => contains_str(c.as_str(), line),
    }
}

/// Whether the piece `v[from..to]`, stripped of surrounding whitespace,
/// equals `name` exactly.
fn segment_trim_eq(v: &Vec<char>, from: usize, to: usize, name: &str) -> (r: bool)
    requires
        from <= to <= v@.len(),
    ensures
        r == (trim_spec(v@.subrange(from as int, to as int)) == name@),
{
    let mut x = from;
    while x < to && is_space(v[x])
        invariant
            from <= x <= to <= v@.len(),
            forall|j: int| from <= j < x ==> is_space_char(v@[j]),
        decreases to - x,
    {
        x += 1;
    }
    let mut y = to;
    while y > x && is_space(v[y - 1])
        invariant
            from <= x <= y <= to <= v@.len(),
            forall|j: int| y <= j < to ==> is_space_char(v@[j]),
        decreases y,
    {
        y -= 1;
    }
    proof {
        let seg = v@.subrange(from as int, to as int);
        lemma_trim_front_index(seg, x - from);
        let t = seg.subrange(x - from, seg.len() as int);
        assert(t =~= v@.subrange(x as int, to as int));
        lemma_trim_back_index(t, y - x);
        assert(t.subrange(0, y - x) =~= v@.subrange(x as int, y as int));
        assert(trim_spec(seg) == v@.subrange(x as int, y as int));
    }
    let nlen = name.unicode_len();
    if nlen != y - x {
        return false;
    }
    let mut j: usize = 0;
    while j < nlen
        invariant
            nlen == name@.len(),
            x <= y <= v@.len(),
            nlen == y - x,
            j <= nlen,
            trim_spec(v@.subrange(from as int, to as int)) == v@.subrange(x as int, y as int),
            forall|k: int| 0 <= k < j ==> v@[x + k] == name@[k],
        decreases nlen - j,
    {
        if v[x + j] != name.get_char(j) {
            proof {
                assert(v@.subrange(x as int, y as int)[j as int] != name@[j as int]);
            }
            return false;
        }
        j += 1;
    }
    proof {
        assert(v@.subrange(x as int, y as int) =~= name@);
    }
    true
}

/// Whether the package manager's listing holds `name` as an exact line,
/// line endings and surrounding whitespace ignored.  A listing that could
/// not be taken at all is handed in as `None` and counts as absent.
pub fn package_listed(listing: &Option<String>, name: &str) -> (r: bool)
    ensures
        r == match listing {
            Some(l) => listing_has(l@, name@),
            None => false,
        },
{
    match listing {
        None => false,
        Some(l) => listing_scan(l, name),
    }
}

/// Whether some line of `l`, stripped of surrounding whitespace, equals
/// `name` exactly.
fn listing_scan(l: &String, name: &str) -> (r: bool)
    ensures
        r == listing_has(l@, name@),
{
    let chars = to_chars(l.as_str());
    let segs = split_positions(&chars, '\n');
    let ghost pieces = split_spec(l@, '\n');
    let ghost lns = lines_spec(l@);
    proof {
        lemma_split_nonempty(l@, '\n');
    }
    let lastseg = segs[segs.len() - 1];
    let end = if lastseg.0 == lastseg.1 {
        segs.len() - 1
    } else {
        segs.len()
    };
    proof {
        if lastseg.0 == lastseg.1 {
            assert(chars@.subrange(lastseg.0 as int, lastseg.1 as int) =~= Seq::<char>::empty());
            assert(pieces.last() == Seq::<char>::empty());
            assert(lns == pieces.drop_last());
        } else {
            assert(pieces.last().len() == lastseg.1 - lastseg.0);
            assert(lns == pieces);
        }
    }
    let mut k: usize = 0;
    while k < end
        invariant
            chars@ == l@,
            pieces == split_spec(l@, '\n'),
            lns == lines_spec(l@),
            end == lns.len(),
            end <= segs@.len(),
            segs@.len() == pieces.len(),
            forall|k2: int| 0 <= k2 < end ==> #[trigger] lns[k2] == pieces[k2],
            k <= end,
            forall|k2: int|
                0 <= k2 < segs@.len() ==> #[trigger] segs@[k2].0 <= segs@[k2].1
                    <= chars@.len() && chars@.subrange(
                    segs@[k2].0 as int,
                    segs@[k2].1 as int,
                ) == pieces[k2],
            forall|k2: int| 0 <= k2 < k ==> trim_spec(#[trigger] lns[k2]) != name@,
        decreases end - k,
    {
        let seg = segs[k];
        if segment_trim_eq(&chars, seg.0, seg.1, name) {
            proof {
                assert(trim_spec(lines_spec(l@)[k as int]) == name@);
                assert(listing_has(l@, name@));
            }
            return true;
        }
        k += 1;
    }
    false
}

} // verus!
