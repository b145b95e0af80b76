//! The commit-message grammar, written out character by character.
//!
//! A commit block is `hash \n header \n body...`.  The header grammar is
//!
//! ```text
//! type-token ( "(" component ")" )? ":" subject
//! ```
//!
//! where the type token is one or more characters other than `:` and `(`,
//! the optional component is any run of characters other than `:` and `)`,
//! and the subject is the rest of the line, kept verbatim (including a
//! leading space, if any).  A header that does not fit this shape falls
//! back to an empty subject and component with the type sentinel `unk`.
//!
//! Each body line is scanned for the first occurrence of `Closes`, `Fixes`
//! or `Resolves` followed by whitespace and one or more `#<digits>` tokens,
//! each optionally followed by a comma and more whitespace; every digit
//! group found this way is one closed-issue reference.

use vstd::prelude::*;

use crate::git::Commit;
use crate::registry::Category;
use crate::registry::CategoryRegistry;
use crate::registry::spec_resolve;
use crate::text::str_eq;

verus! {

/// Characters that end the type token of a header.
pub open spec fn is_stop_char(c: char) -> bool {
    c == ':' || c == '('
}

/// Characters that end the component of a header.
pub open spec fn is_comp_end(c: char) -> bool {
    c == ':' || c == ')'
}

/// ASCII decimal digits.
pub open spec fn is_digit_char(c: char) -> bool {
    ('0' as u32) <= (c as u32) && (c as u32) <= ('9' as u32)
}

/// ASCII whitespace, as a trailer separator.
pub open spec fn is_ws_char(c: char) -> bool {
    c == ' ' || c == '\t' || c == '\n' || c == '\u{b}' || c == '\u{c}' || c == '\r'
}

/// The line separator.
pub open spec fn is_nl_char(c: char) -> bool {
    c == '\n'
}

/// Characters a type token may contain.
pub open spec fn token_char() -> spec_fn(char) -> bool {
    |c: char| !is_stop_char(c)
}

/// Characters a component may contain.
pub open spec fn comp_char() -> spec_fn(char) -> bool {
    |c: char| !is_comp_end(c)
}

/// Digit characters, for issue numbers.
pub open spec fn digit_char() -> spec_fn(char) -> bool {
    |c: char| is_digit_char(c)
}

/// Whitespace characters.
pub open spec fn ws_char() -> spec_fn(char) -> bool {
    |c: char| is_ws_char(c)
}

/// Characters a line may contain.
pub open spec fn line_char() -> spec_fn(char) -> bool {
    |c: char| !is_nl_char(c)
}

/// How many consecutive characters starting at `i` satisfy `p`.
pub open spec fn run_len(s: Seq<char>, i: int, p: spec_fn(char) -> bool) -> nat
    decreases s.len() - i,
{
    if 0 <= i < s.len() && p(s[i]) {
        1 + run_len(s, i + 1, p)
    } else {
        0
    }
}

/// The run length is exactly `n` when the `n` characters from `i` satisfy
/// `p` and the next one (if any) does not.
pub proof fn lemma_run_len(s: Seq<char>, i: int, p: spec_fn(char) -> bool, n: int)
    requires
        0 <= i,
        0 <= n,
        i + n <= s.len(),
        forall|j: int| i <= j < i + n ==> p(#[trigger] s[j]),
        i + n == s.len() || !p(s[i + n]),
    ensures
        run_len(s, i, p) == n,
    decreases n,
{
    if n > 0 {
        lemma_run_len(s, i + 1, p, n - 1);
    }
}

/// Which character class a scan looks for.
pub open spec fn class_pred(mode: u8) -> spec_fn(char) -> bool {
    if mode == 0 {
        token_char()
    } else if mode == 1 {
        comp_char()
    } else if mode == 2 {
        digit_char()
    } else if mode == 3 {
        ws_char()
    } else {
        line_char()
    }
}

/// Whether `c` belongs to the class selected by `mode`.
fn class_test(mode: u8, c: char) -> (r: bool)
    ensures
        r == class_pred(mode)(c),
{
    if mode == 0 {
        !(c == ':' || c == '(')
    } else if mode == 1 {
        !(c == ':' || c == ')')
    } else if mode == 2 {
        ('0' as u32) <= (c as u32) && (c as u32) <= ('9' as u32)
    } else if mode == 3 {
        c == ' ' || c == '\t' || c == '\n' || c == '\u{b}' || c == '\u{c}' || c == '\r'
    } else {
        !(c == '\n')
    }
}

/// Scans forward from `from` over characters of the selected class and
/// returns the index of the first character outside it (or the end).
fn scan_class(s: &str, from: usize, mode: u8) -> (end: usize)
    requires
        from <= s@.len(),
    ensures
        from <= end <= s@.len(),
        end - from == run_len(s@, from as int, class_pred(mode)),
        end < s@.len() ==> !class_pred(mode)(s@[end as int]),
        forall|j: int| from <= j < end ==> class_pred(mode)(#[trigger] s@[j]),
{
    let len = s.unicode_len();
    let mut i = from;
    while i < len
        invariant
            from <= i <= len,
            len == s@.len(),
            forall|j: int| from <= j < i ==> class_pred(mode)(#[trigger] s@[j]),
        decreases len - i,
    {
        let c = s.get_char(i);
        if !class_test(mode, c) {
            proof {
                lemma_run_len(s@, from as int, class_pred(mode), i - from);
            }
            return i;
        }
        i = i + 1;
    }
    proof {
        lemma_run_len(s@, from as int, class_pred(mode), len - from);
    }
    len
}

/// What a header line parses to: type token, component (empty when
/// absent), and subject — or nothing, when the line does not fit the
/// grammar.
pub open spec fn spec_header(s: Seq<char>) -> Option<(Seq<char>, Seq<char>, Seq<char>)> {
    let i = run_len(s, 0, token_char()) as int;
    if i == 0 || i >= s.len() {
        None
    } else if s[i] == ':' {
        Some((s.take(i), Seq::empty(), s.skip(i + 1)))
    } else {
        let k = i + 1 + run_len(s, i + 1, comp_char()) as int;
        if k + 1 < s.len() && s[k] == ')' && s[k + 1] == ':' {
            Some((s.take(i), s.subrange(i + 1, k), s.skip(k + 2)))
        } else {
            None
        }
    }
}

/// Parses a header line against the grammar; `None` means the line has no
/// recognizable `type(component):` shape.
pub fn parse_header(line: &str) -> (r: Option<(String, String, String)>)
    ensures
        match (r, spec_header(line@)) {
            (Some(h), Some(g)) => h.0@ == g.0 && h.1@ == g.1 && h.2@ == g.2,
            (None, None) => true,
            _ => false,
        },
{
    let len = line.unicode_len();
    let i = scan_class(line, 0, 0);
    if i == 0 || i >= len {
        return None;
    }
    let c = line.get_char(i);
    if c == ':' {
        let ty = line.substring_char(0, i).to_owned();
        let subj = line.substring_char(i + 1, len).to_owned();
        proof {
            assert(line@.take(i as int) =~= line@.subrange(0, i as int));
            assert(line@.skip(i + 1) =~= line@.subrange(i + 1, len as int));
        }
        Some((ty, String::new(), subj))
    } else {
        proof {
            assert(is_stop_char(line@[i as int]));
        }
        let k = scan_class(line, i + 1, 1);
        if k < len && line.get_char(k) == ')' && k + 1 < len && line.get_char(k + 1) == ':' {
            let ty = line.substring_char(0, i).to_owned();
            let comp = line.substring_char(i + 1, k).to_owned();
            let subj = line.substring_char(k + 2, len).to_owned();
            proof {
                assert(line@.take(i as int) =~= line@.subrange(0, i as int));
                assert(line@.skip(k + 2) =~= line@.subrange(k + 2, len as int));
            }
            Some((ty, comp, subj))
        } else {
            proof {
                if k < len && line@[k as int] == ')' {
                    assert(!(k + 1 < len && line@[k + 1] == ':'));
                } else {
                    assert(k == len || line@[k as int] == ':');
                }
            }
            None
        }
    }
}

/// The trailer keyword starting at `p`, if any, with its length.
pub open spec fn kw_at(s: Seq<char>, p: int) -> Option<int> {
    if 0 <= p && p + 6 <= s.len() && s.subrange(p, p + 6) == "Closes"@ {
        Some(6)
    } else if 0 <= p && p + 5 <= s.len() && s.subrange(p, p + 5) == "Fixes"@ {
        Some(5)
    } else if 0 <= p && p + 8 <= s.len() && s.subrange(p, p + 8) == "Resolves"@ {
        Some(8)
    } else {
        None
    }
}

/// Whether an issue token (`#` followed by a digit) starts at `i`.
pub open spec fn unit_start(s: Seq<char>, i: int) -> bool {
    0 <= i && i + 1 < s.len() && s[i] == '#' && is_digit_char(s[i + 1])
}

/// The digit groups of the consecutive issue tokens starting at `i`: each
/// token is `#`, its digits, and an optional comma with trailing
/// whitespace before the next token.
pub open spec fn spec_units(s: Seq<char>, i: int) -> Seq<Seq<char>>
    decreases s.len() - i,
{
    if unit_start(s, i) {
        let d = i + 1 + run_len(s, i + 1, digit_char()) as int;
        let num = s.subrange(i + 1, d);
        let after = if d < s.len() && s[d] == ',' {
            d + 1 + run_len(s, d + 1, ws_char()) as int
        } else {
            d
        };
        let next = if after > s.len() {
            s.len() as int
        } else {
            after
        };
        seq![num] + spec_units(s, next)
    } else {
        Seq::empty()
    }
}

/// The issue numbers of a trailer starting at `p`: a keyword, at least one
/// whitespace character, then the issue tokens.
pub open spec fn closes_at(s: Seq<char>, p: int) -> Option<Seq<Seq<char>>> {
    match kw_at(s, p) {
        None => None,
        Some(kl) => {
            let q = p + kl;
            let w = run_len(s, q, ws_char()) as int;
            if w == 0 {
                None
            } else {
                let u = q + w;
                if unit_start(s, u) {
                    Some(spec_units(s, u))
                } else {
                    None
                }
            }
        },
    }
}

/// The issue numbers of the first trailer found scanning from `p`.
pub open spec fn line_closes_from(s: Seq<char>, p: int) -> Seq<Seq<char>>
    decreases s.len() - p,
{
    if !(0 <= p < s.len()) {
        Seq::empty()
    } else {
        match closes_at(s, p) {
            Some(ns) => ns,
            None => line_closes_from(s, p + 1),
        }
    }
}

/// The issue numbers contributed by one body line.
pub open spec fn line_closes(s: Seq<char>) -> Seq<Seq<char>> {
    line_closes_from(s, 0)
}

/// Tests for a trailer keyword at `p` and returns its length.
fn match_kw(line: &str, p: usize) -> (r: Option<usize>)
    requires
        p <= line@.len(),
    ensures
        match (r, kw_at(line@, p as int)) {
            (Some(a), Some(b)) => a as int == b,
            (None, None) => true,
            _ => false,
        },
{
    let len = line.unicode_len();
    if len - p >= 6 && str_eq(line.substring_char(p, p + 6), "Closes") {
        Some(6)
    } else if len - p >= 5 && str_eq(line.substring_char(p, p + 5), "Fixes") {
        Some(5)
    } else if len - p >= 8 && str_eq(line.substring_char(p, p + 8), "Resolves") {
        Some(8)
    } else {
        None
    }
}

/// Collects the issue numbers of the trailer at `p`, if one starts there.
fn try_closes_at(line: &str, p: usize) -> (r: Option<Vec<String>>)
    requires
        p < line@.len(),
    ensures
        match (r, closes_at(line@, p as int)) {
            (Some(v), Some(ns)) => v.deep_view() == ns,
            (None, None) => true,
            _ => false,
        },
{
    let len = line.unicode_len();
    let kl = match match_kw(line, p) {
        Some(kl) => kl,
        None => {
            return None;
        },
    };
    proof {
        assert(p + kl <= line@.len());
    }
    let q = p + kl;
    let u = scan_class(line, q, 3);
    if u == q {
        return None;
    }
    if !(u < len && line.get_char(u) == '#' && u + 1 < len && class_test(2, line.get_char(u + 1))) {
        proof {
            assert(!unit_start(line@, u as int));
        }
        return None;
    }
    let mut issues: Vec<String> = Vec::new();
    let mut cur = u;
    proof {
        assert(issues.deep_view() =~= Seq::<Seq<char>>::empty());
    }
    loop
        invariant_except_break
            len == line@.len(),
            u <= cur < len,
            unit_start(line@, cur as int),
            issues.deep_view() + spec_units(line@, cur as int) == spec_units(line@, u as int),
        ensures
            issues.deep_view() == spec_units(line@, u as int),
        decreases len - cur,
    {
        let d = scan_class(line, cur + 1, 2);
        let num = line.substring_char(cur + 1, d).to_owned();
        let ghost pre = issues.deep_view();
        issues.push(num);
        proof {
            assert(issues.deep_view() =~= pre.push(num@));
        }
        let next = if d < len && line.get_char(d) == ',' {
            scan_class(line, d + 1, 3)
        } else {
            d
        };
        proof {
            let gd = cur + 1 + run_len(line@, cur + 1, digit_char()) as int;
            assert(gd == d as int);
            let gafter = if gd < line@.len() && line@[gd] == ',' {
                gd + 1 + run_len(line@, gd + 1, ws_char()) as int
            } else {
                gd
            };
            assert(gafter == next as int);
            assert(spec_units(line@, cur as int) == seq![num@] + spec_units(line@, next as int));
            assert(pre.push(num@) + spec_units(line@, next as int) =~= pre + (seq![num@]
                + spec_units(line@, next as int)));
        }
        if next < len && line.get_char(next) == '#' && next + 1 < len && class_test(
            2,
            line.get_char(next + 1),
        ) {
            proof {
                assert(unit_start(line@, next as int));
                assert(next > cur);
            }
            cur = next;
        } else {
            proof {
                assert(!unit_start(line@, next as int));
                assert(spec_units(line@, next as int) =~= Seq::<Seq<char>>::empty());
                assert(issues.deep_view() + Seq::<Seq<char>>::empty() =~= issues.deep_view());
            }
            break ;
        }
    }
    Some(issues)
}

/// Returns the issue numbers referenced by one body line: the digit
/// groups of the first trailer on the line, left to right.
pub fn parse_closes_line(line: &str) -> (issues: Vec<String>)
    ensures
        issues.deep_view() == line_closes(line@),
{
    let len = line.unicode_len();
    let mut p: usize = 0;
    while p < len
        invariant
            p <= len,
            len == line@.len(),
            line_closes(line@) == line_closes_from(line@, p as int),
        decreases len - p,
    {
        match try_closes_at(line, p) {
            Some(v) => {
                return v;
            },
            None => {
                p = p + 1;
            },
        }
    }
    proof {
        assert(line_closes_from(line@, p as int) =~= Seq::<Seq<char>>::empty());
    }
    Vec::new()
}

/// The lines of `s` from position `i` on, split at `\n`; splitting always
/// yields at least one (possibly empty) line.
pub open spec fn spec_lines_from(s: Seq<char>, i: int) -> Seq<Seq<char>>
    decreases s.len() - i,
{
    if i < 0 {
        Seq::empty()
    } else {
        let n = i + run_len(s, i, line_char()) as int;
        if n >= s.len() {
            seq![s.subrange(i, s.len() as int)]
        } else {
            seq![s.subrange(i, n)] + spec_lines_from(s, n + 1)
        }
    }
}

/// The lines of `s`, split at `\n`.
pub open spec fn spec_lines(s: Seq<char>) -> Seq<Seq<char>> {
    spec_lines_from(s, 0)
}

/// Splits a string into its lines.
pub fn split_lines(s: &str) -> (lines: Vec<String>)
    ensures
        lines.deep_view() == spec_lines(s@),
        lines@.len() >= 1,
{
    let len = s.unicode_len();
    let mut lines: Vec<String> = Vec::new();
    let mut i: usize = 0;
    proof {
        assert(lines.deep_view() =~= Seq::<Seq<char>>::empty());
    }
    loop
        invariant_except_break
            i <= len,
            len == s@.len(),
            lines.deep_view() + spec_lines_from(s@, i as int) == spec_lines(s@),
        ensures
            lines.deep_view() == spec_lines(s@),
            lines@.len() >= 1,
        decreases len - i,
    {
        let n = scan_class(s, i, 4);
        let piece = s.substring_char(i, n).to_owned();
        let ghost pre = lines.deep_view();
        lines.push(piece);
        proof {
            assert(lines.deep_view() =~= pre.push(piece@));
        }
        if n < len {
            proof {
                assert(spec_lines_from(s@, i as int) == seq![s@.subrange(i as int, n as int)]
                    + spec_lines_from(s@, n + 1));
                assert(pre.push(piece@) + spec_lines_from(s@, n + 1) =~= pre + (seq![piece@]
                    + spec_lines_from(s@, n + 1)));
            }
            i = n + 1;
        } else {
            proof {
                assert(spec_lines_from(s@, i as int) =~= seq![s@.subrange(i as int, len as int)]);
                assert(lines.deep_view() =~= pre + seq![piece@]);
            }
            break ;
        }
    }
    lines
}

/// The block separator written between commits in the log text.
pub open spec fn sep_at(s: Seq<char>, i: int) -> bool {
    0 <= i && i + 9 <= s.len() && s.subrange(i, i + 9) == "\n==END==\n"@
}

/// How many consecutive positions starting at `i` do not begin the block
/// separator.
pub open spec fn blk_run(s: Seq<char>, i: int) -> nat
    decreases s.len() - i,
{
    if 0 <= i < s.len() && !sep_at(s, i) {
        1 + blk_run(s, i + 1)
    } else {
        0
    }
}

/// The block run is exactly `n` when no separator begins in the `n`
/// positions from `i` and one does at `i + n` (unless the string ends).
proof fn lemma_blk_run(s: Seq<char>, i: int, n: int)
    requires
        0 <= i,
        0 <= n,
        i + n <= s.len(),
        forall|j: int| i <= j < i + n ==> !sep_at(s, j),
        i + n == s.len() || sep_at(s, i + n),
    ensures
        blk_run(s, i) == n,
    decreases n,
{
    if n > 0 {
        lemma_blk_run(s, i + 1, n - 1);
    }
}

/// Scans forward from `from` to the start of the next block separator, or
/// to the end of the string.
fn scan_sep(s: &str, from: usize) -> (end: usize)
    requires
        from <= s@.len(),
    ensures
        from <= end <= s@.len(),
        end - from == blk_run(s@, from as int),
        end < s@.len() ==> sep_at(s@, end as int) && end + 9 <= s@.len(),
{
    let len = s.unicode_len();
    let mut i = from;
    while i < len
        invariant
            from <= i <= len,
            len == s@.len(),
            forall|j: int| from <= j < i ==> !sep_at(s@, j),
        decreases len - i,
    {
        if len - i >= 9 && str_eq(s.substring_char(i, i + 9), "\n==END==\n") {
            proof {
                assert(sep_at(s@, i as int));
                lemma_blk_run(s@, from as int, i - from);
            }
            return i;
        }
        proof {
            assert(!sep_at(s@, i as int));
        }
        i = i + 1;
    }
    proof {
        lemma_blk_run(s@, from as int, len - from);
    }
    len
}

/// The commit blocks of the log text from position `i` on, split at the
/// block separator.
pub open spec fn spec_blocks_from(s: Seq<char>, i: int) -> Seq<Seq<char>>
    decreases s.len() - i,
{
    if i < 0 {
        Seq::empty()
    } else {
        let n = i + blk_run(s, i) as int;
        if n >= s.len() {
            seq![s.subrange(i, s.len() as int)]
        } else {
            let next = if n + 9 > s.len() {
                s.len() as int
            } else {
                n + 9
            };
            seq![s.subrange(i, n)] + spec_blocks_from(s, next)
        }
    }
}

/// The commit blocks of the log text.
pub open spec fn spec_blocks(s: Seq<char>) -> Seq<Seq<char>> {
    spec_blocks_from(s, 0)
}

/// Splits the raw log text into commit blocks at the block separator.
pub fn split_blocks(s: &str) -> (blocks: Vec<String>)
    ensures
        blocks.deep_view() == spec_blocks(s@),
{
    let len = s.unicode_len();
    let mut blocks: Vec<String> = Vec::new();
    let mut i: usize = 0;
    proof {
        assert(blocks.deep_view() =~= Seq::<Seq<char>>::empty());
    }
    loop
        invariant_except_break
            i <= len,
            len == s@.len(),
            blocks.deep_view() + spec_blocks_from(s@, i as int) == spec_blocks(s@),
        ensures
            blocks.deep_view() == spec_blocks(s@),
        decreases len - i,
    {
        let n = scan_sep(s, i);
        let piece = s.substring_char(i, n).to_owned();
        let ghost pre = blocks.deep_view();
        blocks.push(piece);
        proof {
            assert(blocks.deep_view() =~= pre.push(piece@));
        }
        if n < len {
            proof {
                assert(spec_blocks_from(s@, i as int) == seq![s@.subrange(i as int, n as int)]
                    + spec_blocks_from(s@, n + 9));
                assert(pre.push(piece@) + spec_blocks_from(s@, n + 9) =~= pre + (seq![piece@]
                    + spec_blocks_from(s@, n + 9)));
            }
            i = n + 9;
        } else {
            proof {
                assert(spec_blocks_from(s@, i as int) =~= seq![s@.subrange(i as int, len as int)]);
                assert(blocks.deep_view() =~= pre + seq![piece@]);
            }
            break ;
        }
    }
    blocks
}

/// The mathematical shape of one parsed commit.
pub ghost struct CommitRec {
    /// The hash line.
    pub hash: Seq<char>,
    /// The subject text after the header separator.
    pub subject: Seq<char>,
    /// The component named in the header, or empty.
    pub component: Seq<char>,
    /// The issue numbers closed by the body, in order of appearance.
    pub closes: Seq<Seq<char>>,
    /// The issues broken; the parser always leaves this empty.
    pub breaks: Seq<Seq<char>>,
    /// The section name the type token resolved to.
    pub commit_type: Seq<char>,
}

/// The issue numbers contributed by a sequence of body lines.
pub open spec fn spec_body_closes(lines: Seq<Seq<char>>) -> Seq<Seq<char>>
    decreases lines.len(),
{
    if lines.len() == 0 {
        Seq::empty()
    } else {
        spec_body_closes(lines.drop_last()) + line_closes(lines.last())
    }
}

/// What parsing one commit block yields, for a given registry: the first
/// line is the hash, the second the header, the rest the body.  A missing
/// or malformed header falls back to empty subject and component and the
/// type sentinel `unk`.
pub open spec fn spec_parse_commit(cats: Seq<Category>, s: Seq<char>) -> CommitRec {
    let lines = spec_lines(s);
    let hash = lines[0];
    let hdr = if lines.len() >= 2 {
        spec_header(lines[1])
    } else {
        None
    };
    let closes = if lines.len() >= 2 {
        spec_body_closes(lines.skip(2))
    } else {
        Seq::empty()
    };
    match hdr {
        Some(h) => CommitRec {
            hash: hash,
            subject: h.2,
            component: h.1,
            closes: closes,
            breaks: Seq::empty(),
            commit_type: spec_resolve(cats, h.0),
        },
        None => CommitRec {
            hash: hash,
            subject: Seq::empty(),
            component: Seq::empty(),
            closes: closes,
            breaks: Seq::empty(),
            commit_type: spec_resolve(cats, "unk"@),
        },
    }
}

/// Whether an executable commit record carries exactly the values of a
/// mathematical one.
pub open spec fn commit_matches(c: Commit, r: CommitRec) -> bool {
    &&& c.hash@ == r.hash
    &&& c.subject@ == r.subject
    &&& c.component@ == r.component
    &&& c.closes.deep_view() == r.closes
    &&& c.breaks.deep_view() == r.breaks
    &&& c.commit_type@ == r.commit_type
}

/// Parses one raw commit block into a commit record; parsing is total,
/// and every failure mode degrades to the `Unknown` fallback of the
/// registry rather than an error.
pub fn parse_commit(registry: &CategoryRegistry, commit_str: &str) -> (c: Commit)
    ensures
        commit_matches(c, spec_parse_commit(registry.categories@, commit_str@)),
{
    let lines = split_lines(commit_str);
    proof {
        assert(lines.deep_view()[0] == lines@[0]@);
    }
    let hash = lines[0].clone();
    let (commit_type, component, subject) = if lines.len() >= 2 {
        proof {
            assert(lines.deep_view()[1] == lines@[1]@);
        }
        match parse_header(lines[1].as_str()) {
            Some((t, comp, subj)) => {
                let ct = registry.resolve(t.as_str());
                (ct, comp, subj)
            },
            None => (registry.resolve("unk"), String::new(), String::new()),
        }
    } else {
        (registry.resolve("unk"), String::new(), String::new())
    };
    let mut closes: Vec<String> = Vec::new();
    proof {
        assert(closes.deep_view() =~= Seq::<Seq<char>>::empty());
    }
    if lines.len() >= 2 {
        let ghost body = lines.deep_view().skip(2);
        let mut li: usize = 2;
        proof {
            assert(body.take(0) =~= Seq::<Seq<char>>::empty());
        }
        while li < lines.len()
            invariant
                2 <= li <= lines@.len(),
                body == lines.deep_view().skip(2),
                closes.deep_view() == spec_body_closes(body.take(li - 2)),
            decreases lines@.len() - li,
        {
            proof {
                assert(lines.deep_view()[li as int] == lines@[li as int]@);
            }
            let mut one = parse_closes_line(lines[li].as_str());
            let ghost pre = closes.deep_view();
            let ghost one_view = one.deep_view();
            closes.append(&mut one);
            proof {
                assert(closes.deep_view() =~= pre + one_view);
                let k = li - 2;
                assert(body.take(k + 1).drop_last() =~= body.take(k));
                assert(body.take(k + 1).last() == body[k]);
                assert(body[k] == lines@[li as int]@);
            }
            li = li + 1;
        }
        proof {
            assert(body.take(lines@.len() - 2) =~= body);
        }
    }
    let c = Commit {
        hash,
        subject,
        component,
        closes,
        breaks: Vec::new(),
        commit_type,
    };
    proof {
        assert(c.breaks.deep_view() =~= Seq::<Seq<char>>::empty());
        if lines@.len() < 2 {
            assert(spec_lines(commit_str@).len() >= 2 ==> false);
        }
    }
    c
}

/// The records whose commit type is not the fallback section, in order.
pub open spec fn spec_keep_known(rs: Seq<CommitRec>) -> Seq<CommitRec>
    decreases rs.len(),
{
    if rs.len() == 0 {
        Seq::empty()
    } else {
        let rest = spec_keep_known(rs.drop_last());
        if rs.last().commit_type != "Unknown"@ {
            rest.push(rs.last())
        } else {
            rest
        }
    }
}

/// Whether a sequence of commit records carries exactly the values of a
/// sequence of mathematical ones.
pub open spec fn commits_match(cs: Seq<Commit>, rs: Seq<CommitRec>) -> bool {
    cs.len() == rs.len() && forall|i: int|
        0 <= i < cs.len() ==> commit_matches(#[trigger] cs[i], rs[i])
}

/// What the whole pipeline yields on a raw log text: each block parsed,
/// and the commits whose type stayed unresolved dropped.
pub open spec fn spec_log_commits(cats: Seq<Category>, s: Seq<char>) -> Seq<CommitRec> {
    spec_keep_known(spec_blocks(s).map_values(|b: Seq<char>| spec_parse_commit(cats, b)))
}

/// Splits a raw log text into blocks, parses each, and keeps the commits
/// whose type token resolved to a real section.
pub fn log_to_commits(registry: &CategoryRegistry, log: &str) -> (cs: Vec<Commit>)
    ensures
        commits_match(cs@, spec_log_commits(registry.categories@, log@)),
{
    let blocks = split_blocks(log);
    let ghost mapped = spec_blocks(log@).map_values(
        |b: Seq<char>| spec_parse_commit(registry.categories@, b),
    );
    let mut cs: Vec<Commit> = Vec::new();
    let mut bi: usize = 0;
    proof {
        assert(mapped.take(0) =~= Seq::<CommitRec>::empty());
    }
    while bi < blocks.len()
        invariant
            bi <= blocks@.len(),
            blocks.deep_view() == spec_blocks(log@),
            mapped == spec_blocks(log@).map_values(
                |b: Seq<char>| spec_parse_commit(registry.categories@, b),
            ),
            commits_match(cs@, spec_keep_known(mapped.take(bi as int))),
        decreases blocks@.len() - bi,
    {
        proof {
            assert(blocks.deep_view()[bi as int] == blocks@[bi as int]@);
        }
        let c = parse_commit(registry, blocks[bi].as_str());
        let ghost rec = mapped[bi as int];
        proof {
            assert(rec == spec_parse_commit(registry.categories@, blocks@[bi as int]@));
            assert(mapped.take(bi + 1).drop_last() =~= mapped.take(bi as int));
            assert(mapped.take(bi + 1).last() == rec);
        }
        if !str_eq(c.commit_type.as_str(), "Unknown") {
            let ghost pre = cs@;
            cs.push(c);
            proof {
                let kept = spec_keep_known(mapped.take(bi + 1));
                assert(kept == spec_keep_known(mapped.take(bi as int)).push(rec));
                assert forall|i: int| 0 <= i < cs@.len() implies commit_matches(
                    #[trigger] cs@[i],
                    kept[i],
                ) by {
                    if i < pre.len() {
                        assert(cs@[i] == pre[i]);
                    }
                }
            }
        } else {
            proof {
                assert(rec.commit_type == "Unknown"@);
            }
        }
        bi = bi + 1;
    }
    proof {
        assert(mapped.take(blocks@.len() as int) =~= mapped);
    }
    cs
}

/// Whatever a commit block parses to, its section is the fallback name or
/// the name of a registered category; with every category name non-empty,
/// the section of a parsed commit is never empty.
pub proof fn lemma_parse_category_nonempty(cats: Seq<Category>, s: Seq<char>)
    requires
        forall|i: int| 0 <= i < cats.len() ==> (#[trigger] cats[i].name@).len() > 0,
    ensures
        spec_parse_commit(cats, s).commit_type.len() > 0,
{
    let lines = spec_lines(s);
    let hdr = if lines.len() >= 2 {
        spec_header(lines[1])
    } else {
        None
    };
    match hdr {
        Some(h) => {
            lemma_resolve_nonempty(cats, h.0);
        },
        None => {
            lemma_resolve_nonempty(cats, "unk"@);
        },
    }
}

/// Resolution never yields the empty string when every category name is
/// non-empty: the result is a category name or the seven-character
/// fallback.
pub proof fn lemma_resolve_nonempty(cats: Seq<Category>, alias: Seq<char>)
    requires
        forall|i: int| 0 <= i < cats.len() ==> (#[trigger] cats[i].name@).len() > 0,
    ensures
        spec_resolve(cats, alias).len() > 0,
{
    crate::registry::lemma_resolve_in_names(cats, alias);
    if spec_resolve(cats, alias) == "Unknown"@ {
        reveal_strlit("Unknown");
        assert("Unknown"@.len() == 7);
    }
}

} // verus!
