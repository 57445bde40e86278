//! The shell profile editor: idempotent line appends and best-effort
//! in-place replacement.
//!
//! The editor never parses the profile; it works on exact substrings, as
//! the tool's rules demand.  A line is appended only when it is not already
//! present, so repeated runs leave the file unchanged.

use vstd::prelude::*;
use vstd::string::*;
use crate::text::appended_line;
use crate::text::contains_seq;
use crate::text::contains_str;
use crate::text::count_matches;
use crate::text::find_first;
use crate::text::lemma_contains_in_prefix;
use crate::text::lemma_contains_in_suffix;
use crate::text::lemma_count_single;
use crate::text::match_at;
use crate::text::sep_for;
use crate::text::split_positions;
use crate::text::split_spec;
use crate::text::to_chars;

verus! {

/// What the editor leaves in the file: unchanged when the line is already
/// present as an exact substring, otherwise the line appended on a line of
/// its own.
pub open spec fn ensure_line_spec(content: Seq<char>, line: Seq<char>) -> Seq<char> {
    if contains_seq(content, line) {
        content
    } else {
        appended_line(content, line)
    }
}

/// As `ensure_line_spec`, with a marker comment line before the appended
/// line.  The appended text is written as it stands, as a plain file
/// append: no separating newline is inserted first.
pub open spec fn ensure_line_marked_spec(
    content: Seq<char>,
    marker: Seq<char>,
    line: Seq<char>,
) -> Seq<char> {
    if contains_seq(content, line) {
        content
    } else {
        content + marker + seq!['\n'] + line + seq!['\n']
    }
}

/// A whole block appended behind a marker check: unchanged when the marker
/// occurs in `content`, otherwise `block` appended as it stands.
pub open spec fn ensure_block_spec(
    content: Seq<char>,
    marker: Seq<char>,
    block: Seq<char>,
) -> Seq<char> {
    if contains_seq(content, marker) {
        content
    } else {
        content + block
    }
}

/// `s` with its first occurrence of `pattern` (if any) replaced by
/// `replacement`, scanning from the left.
pub open spec fn replace_once_spec(
    s: Seq<char>,
    pattern: Seq<char>,
    replacement: Seq<char>,
) -> Seq<char>
    decreases s.len(),
{
    if match_at(s, pattern, 0) {
        replacement + s.skip(pattern.len() as int)
    } else if s.len() == 0 {
        s
    } else {
        seq![s[0]] + replace_once_spec(s.skip(1), pattern, replacement)
    }
}

/// The pieces joined back together with a newline between each two.
pub open spec fn join_lines(ps: Seq<Seq<char>>) -> Seq<char>
    decreases ps.len(),
{
    if ps.len() == 0 {
        Seq::empty()
    } else if ps.len() == 1 {
        ps[0]
    } else {
        ps[0] + seq!['\n'] + join_lines(ps.skip(1))
    }
}

/// Every line of `content` with its first occurrence of `pattern`
/// replaced by `replacement`, as a stream editor's substitution does it.
pub open spec fn replace_per_line_spec(
    content: Seq<char>,
    pattern: Seq<char>,
    replacement: Seq<char>,
) -> Seq<char> {
    join_lines(
        split_spec(content, '\n').map_values(|l: Seq<char>| replace_once_spec(l, pattern, replacement)),
    )
}

/// Appends `line` to `content` unless it is already present.  An absent
/// file is handed in as the empty string.
pub fn ensure_line(content: &str, line: &str) -> (r: String)
    ensures
        r@ == ensure_line_spec(content@, line@),
{
    if contains_str(content, line) {
        content.to_owned()
    } else {
        let mut r = content.to_owned();
        let clen = content.unicode_len();
        if clen > 0 && content.get_char(clen - 1) != '\n' {
            r.append("\n");
        }
        r.append(line);
        r.append("\n");
        proof {
            reveal_strlit("\n");
            assert(("\n")@ =~= seq!['\n']);
            assert(r@ =~= appended_line(content@, line@));
        }
        r
    }
}

/// As `ensure_line`, appending a marker comment line and the new line as
/// they stand.
pub fn ensure_line_marked(content: &str, marker: &str, line: &str) -> (r: String)
    ensures
        r@ == ensure_line_marked_spec(content@, marker@, line@),
{
    if contains_str(content, line) {
        content.to_owned()
    } else {
        let mut r = content.to_owned();
        r.append(marker);
        r.append("\n");
        r.append(line);
        r.append("\n");
        proof {
            reveal_strlit("\n");
            assert(("\n")@ =~= seq!['\n']);
            assert(r@ =~= ensure_line_marked_spec(content@, marker@, line@));
        }
        r
    }
}

/// Appends `block` to `content` unless `marker` already occurs in it.
pub fn ensure_block(content: &str, marker: &str, block: &str) -> (r: String)
    ensures
        r@ == ensure_block_spec(content@, marker@, block@),
{
    if contains_str(content, marker) {
        content.to_owned()
    } else {
        let mut r = content.to_owned();
        r.append(block);
        r
    }
}

/// A pattern absent from `s` leaves it unchanged.
proof fn lemma_replace_once_absent(s: Seq<char>, pattern: Seq<char>, replacement: Seq<char>)
    requires
        !contains_seq(s, pattern),
    ensures
        replace_once_spec(s, pattern, replacement) == s,
    decreases s.len(),
{
    assert(!match_at(s, pattern, 0));
    if s.len() > 0 {
        assert forall|j: int| !match_at(s.skip(1), pattern, j) by {
            if match_at(s.skip(1), pattern, j) {
                assert(s.subrange(j + 1, j + 1 + pattern.len() as int) =~= s.skip(1).subrange(
                    j,
                    j + pattern.len() as int,
                ));
                assert(match_at(s, pattern, j + 1));
            }
        }
        lemma_replace_once_absent(s.skip(1), pattern, replacement);
        assert(seq![s[0]] + s.skip(1) =~= s);
    }
}

/// A first match at `i` is replaced there and nowhere else.
proof fn lemma_replace_once_at(
    s: Seq<char>,
    pattern: Seq<char>,
    replacement: Seq<char>,
    i: int,
)
    requires
        match_at(s, pattern, i),
        forall|j: int| 0 <= j < i ==> !match_at(s, pattern, j),
    ensures
        replace_once_spec(s, pattern, replacement) == s.subrange(0, i) + replacement + s.subrange(
            i + pattern.len(),
            s.len() as int,
        ),
    decreases s.len(),
{
    if i == 0 {
        assert(s.subrange(0, 0) =~= Seq::<char>::empty());
        assert(s.subrange(pattern.len() as int, s.len() as int) =~= s.skip(pattern.len() as int));
        assert(replacement + s.skip(pattern.len() as int) =~= s.subrange(0, 0) + replacement
            + s.subrange(pattern.len() as int, s.len() as int));
    } else {
        assert(!match_at(s, pattern, 0));
        assert(s.skip(1).subrange(i - 1, i - 1 + pattern.len() as int) =~= s.subrange(
            i,
            i + pattern.len() as int,
        ));
        assert(match_at(s.skip(1), pattern, i - 1));
        assert forall|j: int| 0 <= j < i - 1 implies !match_at(s.skip(1), pattern, j) by {
            if match_at(s.skip(1), pattern, j) {
                assert(s.subrange(j + 1, j + 1 + pattern.len() as int) =~= s.skip(1).subrange(
                    j,
                    j + pattern.len() as int,
                ));
                assert(match_at(s, pattern, j + 1));
            }
        }
        lemma_replace_once_at(s.skip(1), pattern, replacement, i - 1);
        assert(s.skip(1).subrange(0, i - 1) =~= s.subrange(1, i));
        assert(s.skip(1).subrange(i - 1 + pattern.len() as int, s.len() - 1) =~= s.subrange(
            i + pattern.len() as int,
            s.len() as int,
        ));
        assert(seq![s[0]] + (s.subrange(1, i) + replacement + s.subrange(
            i + pattern.len() as int,
            s.len() as int,
        )) =~= s.subrange(0, i) + replacement + s.subrange(i + pattern.len() as int, s.len() as int));
    }
}

/// Unfolds one step of the join at position `k`.
proof fn lemma_join_step(ps: Seq<Seq<char>>, k: int)
    requires
        0 <= k < ps.len(),
    ensures
        join_lines(ps.skip(k)) == if k == ps.len() - 1 {
            ps[k]
        } else {
            ps[k] + seq!['\n'] + join_lines(ps.skip(k + 1))
        },
{
    assert(ps.skip(k)[0] == ps[k]);
    assert(ps.skip(k).skip(1) =~= ps.skip(k + 1));
}

/// Replaces, on every line of `content`, the first occurrence of
/// `pattern` by `replacement`; a line without the pattern stays as it is.
pub fn replace_per_line(content: &str, pattern: &str, replacement: &str) -> (r: String)
    ensures
        r@ == replace_per_line_spec(content@, pattern@, replacement@),
{
    let chars = to_chars(content);
    let segs = split_positions(&chars, '\n');
    let ghost pieces = split_spec(content@, '\n');
    let ghost mapped = pieces.map_values(
        |l: Seq<char>| replace_once_spec(l, pattern@, replacement@),
    );
    let mut r = String::new();
    let mut k: usize = 0;
    let end = segs.len();
    proof {
        assert(mapped.skip(0) =~= mapped);
        assert(r@ =~= Seq::<char>::empty());
    }
    while k < end
        invariant
            chars@ == content@,
            pieces == split_spec(content@, '\n'),
            mapped == pieces.map_values(
                |l: Seq<char>| replace_once_spec(l, pattern@, replacement@),
            ),
            end == segs@.len(),
            segs@.len() == pieces.len(),
            k <= end,
            forall|k2: int|
                0 <= k2 < segs@.len() ==> #[trigger] segs@[k2].0 <= segs@[k2].1 <= chars@.len()
                    && chars@.subrange(segs@[k2].0 as int, segs@[k2].1 as int) == pieces[k2],
            join_lines(mapped) == r@ + join_lines(mapped.skip(k as int)),
        decreases end - k,
    {
        let seg = segs[k];
        let piece = content.substring_char(seg.0, seg.1);
        let ghost prev = r@;
        match find_first(piece, pattern) {
            None => {
                r.append(piece);
                proof {
                    lemma_replace_once_absent(piece@, pattern@, replacement@);
                }
            },
            Some(i) => {
                let plen = pattern.unicode_len();
                let piece_len = piece.unicode_len();
                r.append(piece.substring_char(0, i));
                r.append(replacement);
                r.append(piece.substring_char(i + plen, piece_len));
                proof {
                    lemma_replace_once_at(piece@, pattern@, replacement@, i as int);
                }
            },
        }
        proof {
            assert(mapped[k as int] == replace_once_spec(pieces[k as int], pattern@, replacement@));
            assert(r@ =~= prev + mapped[k as int]);
        }
        if k + 1 < end {
            r.append("\n");
        }
        proof {
            reveal_strlit("\n");
            assert(("\n")@ =~= seq!['\n']);
            lemma_join_step(mapped, k as int);
            if k + 1 < end {
                assert(prev + (mapped[k as int] + seq!['\n'] + join_lines(
                    mapped.skip(k as int + 1),
                )) =~= (prev + mapped[k as int] + seq!['\n']) + join_lines(
                    mapped.skip(k as int + 1),
                ));
            }
        }
        k += 1;
    }
    proof {
        assert(mapped.skip(end as int) =~= Seq::<Seq<char>>::empty());
        assert(r@ + Seq::<char>::empty() =~= r@);
    }
    r
}

/// The stock theme assignment this tool swaps out.
pub open spec fn theme_pattern() -> Seq<char> {
    "ZSH_THEME=\"robbyrussell\""@
}

/// The theme assignment written in its place.
pub open spec fn theme_replacement() -> Seq<char> {
    "ZSH_THEME=\"powerlevel10k/powerlevel10k\""@
}

/// The stock plugin list this tool swaps out.
pub open spec fn plugins_pattern() -> Seq<char> {
    "plugins=(git)"@
}

/// The plugin list written in its place.
pub open spec fn plugins_replacement() -> Seq<char> {
    "plugins=(git jump zsh-autosuggestions zsh-history-substring-search jsontools zsh-syntax-highlighting zsh-interactive-cd)"@
}

/// Switches the profile's active theme to the tool's own, by textual
/// replacement of the stock assignment on every line that holds it; a
/// no-op when it is absent.
pub fn set_zsh_theme(profile: &str) -> (r: String)
    ensures
        r@ == replace_per_line_spec(profile@, theme_pattern(), theme_replacement()),
{
    replace_per_line(profile, "ZSH_THEME=\"robbyrussell\"", "ZSH_THEME=\"powerlevel10k/powerlevel10k\"")
}

/// Switches the profile's plugin list to the tool's own, by textual
/// replacement of the stock list on every line that holds it; a no-op
/// when it is absent.
pub fn set_zsh_plugins(profile: &str) -> (r: String)
    ensures
        r@ == replace_per_line_spec(profile@, plugins_pattern(), plugins_replacement()),
{
    replace_per_line(
        profile,
        "plugins=(git)",
        "plugins=(git jump zsh-autosuggestions zsh-history-substring-search jsontools zsh-syntax-highlighting zsh-interactive-cd)",
    )
}

/// The first run appends the line exactly once: counting every occurrence,
/// the appended file holds one copy.  The line must be nonempty, free of
/// newlines, and absent from `content`.
pub proof fn lemma_appended_line_count(content: Seq<char>, line: Seq<char>)
    requires
        line.len() > 0,
        forall|k: int| 0 <= k < line.len() ==> line[k] != '\n',
        !contains_seq(content, line),
    ensures
        count_matches(appended_line(content, line), line) == 1,
        contains_seq(appended_line(content, line), line),
{
    let r = appended_line(content, line);
    let c = content.len() as int;
    let s = sep_for(content).len() as int;
    let p = c + s;
    let ll = line.len() as int;
    assert(r.len() == p + ll + 1);
    assert(r.subrange(p, p + ll) =~= line);
    assert(match_at(r, line, p));
    assert forall|j: int| j != p && #[trigger] match_at(r, line, j) implies false by {
        let w = r.subrange(j, j + ll);
        if j + ll <= c {
            assert(content.subrange(j, j + ll) =~= w);
            assert(match_at(content, line, j));
        } else {
            let q = if j < p {
                if s == 1 {
                    c
                } else {
                    c - 1
                }
            } else {
                p + ll
            };
            assert(r[q] == '\n');
            assert(j <= q < j + ll);
            assert(line[q - j] == w[q - j]);
            assert(line[q - j] == '\n');
        }
    }
    lemma_count_single(r, line, 0, p);
}

/// Idempotence of the profile editor: a second run with identical
/// arguments returns its input unchanged.
pub proof fn lemma_ensure_line_idempotent(content: Seq<char>, line: Seq<char>)
    ensures
        ensure_line_spec(ensure_line_spec(content, line), line) == ensure_line_spec(content, line),
{
    if !contains_seq(content, line) {
        let r = appended_line(content, line);
        let p = content.len() as int + sep_for(content).len() as int;
        assert(r.subrange(p, p + line.len() as int) =~= line);
        assert(match_at(r, line, p));
    }
}

/// Running the editor twice with identical arguments produces a file that
/// holds the line exactly once.  The line must be nonempty, free of
/// newlines, and not yet occur in `content`.
pub proof fn lemma_ensure_line_twice_once(content: Seq<char>, line: Seq<char>)
    requires
        line.len() > 0,
        forall|k: int| 0 <= k < line.len() ==> line[k] != '\n',
        !contains_seq(content, line),
    ensures
        ensure_line_spec(ensure_line_spec(content, line), line) == ensure_line_spec(content, line),
        count_matches(ensure_line_spec(ensure_line_spec(content, line), line), line) == 1,
{
    lemma_appended_line_count(content, line);
    lemma_ensure_line_idempotent(content, line);
}

/// The marked append is idempotent as well: a second run with identical
/// arguments returns its input unchanged.
pub proof fn lemma_ensure_line_marked_idempotent(
    content: Seq<char>,
    marker: Seq<char>,
    line: Seq<char>,
)
    ensures
        ensure_line_marked_spec(ensure_line_marked_spec(content, marker, line), marker, line)
            == ensure_line_marked_spec(content, marker, line),
{
    if !contains_seq(content, line) {
        let r = content + marker + seq!['\n'] + line + seq!['\n'];
        let p = content.len() as int + marker.len() as int + 1;
        assert(r.subrange(p, p + line.len() as int) =~= line);
        assert(match_at(r, line, p));
    }
}

/// Running the marked append twice with identical arguments produces a
/// file that holds the line exactly once.  The line must be nonempty,
/// free of newlines, and not occur in the content followed by the marker
/// (so in particular not in the content).
pub proof fn lemma_ensure_line_marked_twice_once(
    content: Seq<char>,
    marker: Seq<char>,
    line: Seq<char>,
)
    requires
        line.len() > 0,
        forall|k: int| 0 <= k < line.len() ==> line[k] != '\n',
        !contains_seq(content + marker, line),
    ensures
        ensure_line_marked_spec(ensure_line_marked_spec(content, marker, line), marker, line)
            == ensure_line_marked_spec(content, marker, line),
        count_matches(
            ensure_line_marked_spec(ensure_line_marked_spec(content, marker, line), marker, line),
            line,
        ) == 1,
{
    if contains_seq(content, line) {
        lemma_contains_in_prefix(content, marker, line);
    }
    let r = content + marker + seq!['\n'] + line + seq!['\n'];
    let cm = content.len() as int + marker.len() as int;
    let p = cm + 1;
    let ll = line.len() as int;
    assert(r.len() == p + ll + 1);
    assert(r.subrange(p, p + ll) =~= line);
    assert(match_at(r, line, p));
    assert forall|j: int| j != p && #[trigger] match_at(r, line, j) implies false by {
        let w = r.subrange(j, j + ll);
        if j + ll <= cm {
            assert((content + marker).subrange(j, j + ll) =~= w);
            assert(match_at(content + marker, line, j));
        } else {
            let q = if j < p {
                cm
            } else {
                p + ll
            };
            assert(r[q] == '\n');
            assert(j <= q < j + ll);
            assert(line[q - j] == w[q - j]);
        }
    }
    lemma_count_single(r, line, 0, p);
    lemma_ensure_line_marked_idempotent(content, marker, line);
}

/// After the block append the file always holds the marker (and, when the
/// block was appended, the whole block as a suffix).
pub proof fn lemma_ensure_block_establishes_marker(
    content: Seq<char>,
    marker: Seq<char>,
    block: Seq<char>,
)
    requires
        contains_seq(block, marker),
    ensures
        contains_seq(ensure_block_spec(content, marker, block), marker),
        !contains_seq(content, marker) ==> ensure_block_spec(content, marker, block) == content
            + block,
{
    if !contains_seq(content, marker) {
        lemma_contains_in_suffix(content, block, marker);
    }
}

/// A block whose marker stands inside it is appended at most once.
pub proof fn lemma_ensure_block_idempotent(content: Seq<char>, marker: Seq<char>, block: Seq<char>)
    requires
        contains_seq(block, marker),
    ensures
        ensure_block_spec(ensure_block_spec(content, marker, block), marker, block)
            == ensure_block_spec(content, marker, block),
{
    if !contains_seq(content, marker) {
        lemma_contains_in_suffix(content, block, marker);
    }
}

} // verus!
