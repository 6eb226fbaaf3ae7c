use vstd::prelude::*;

use crate::chars::{
    from_chars, is_space, is_unicode_space, spec_trim, to_chars, trim_chars,
};
use crate::entry::{spec_entry, Entry, EntryV, Error, ErrorV};

verus! {

// ---------------------------------------------------------------------------
// Splitting the store text into physical lines, as `str::lines` does it:
// lines end at `\n`, a `\r` just before the `\n` is dropped, and a final
// line needs no terminator.
// ---------------------------------------------------------------------------
/// `l` with one trailing carriage return removed, if it has one.
pub open spec fn spec_strip_cr(l: Seq<char>) -> Seq<char> {
    if l.len() > 0 && l[l.len() - 1] == '\r' {
        l.drop_last()
    } else {
        l
    }
}

/// The lines of `cur + s`, where `cur` is the still-open line that the
/// characters before `s` have built up.
pub open spec fn spec_lines_acc(s: Seq<char>, cur: Seq<char>) -> Seq<Seq<char>>
    decreases s.len(),
{
    if s.len() == 0 {
        if cur.len() == 0 {
            Seq::empty()
        } else {
            seq![cur]
        }
    } else if s[0] == '\n' {
        seq![spec_strip_cr(cur)] + spec_lines_acc(s.drop_first(), Seq::empty())
    } else {
        spec_lines_acc(s.drop_first(), cur.push(s[0]))
    }
}

/// The physical lines of the store text `s`.
pub open spec fn spec_lines(s: Seq<char>) -> Seq<Seq<char>> {
    spec_lines_acc(s, Seq::empty())
}

/// Splits `v` into its physical lines.
pub(crate) fn split_lines(v: &Vec<char>) -> (r: Vec<Vec<char>>)
    ensures
        r.deep_view() == spec_lines(v@),
{
    let mut out: Vec<Vec<char>> = Vec::new();
    let mut cur: Vec<char> = Vec::new();
    let mut i: usize = 0;
    proof {
        assert(v@.subrange(0, v@.len() as int) =~= v@);
        assert(out.deep_view() + spec_lines_acc(v@, cur@) =~~= spec_lines_acc(v@, cur@));
    }
    while i < v.len()
        invariant
            i <= v@.len(),
            spec_lines(v@) == out.deep_view() + spec_lines_acc(
                v@.subrange(i as int, v@.len() as int),
                cur@,
            ),
        decreases v@.len() - i,
    {
        let ghost rest = v@.subrange(i as int, v@.len() as int);
        let ghost out0 = out.deep_view();
        let ghost cur0 = cur@;
        proof {
            assert(rest.drop_first() =~= v@.subrange(i + 1, v@.len() as int));
            assert(rest[0] == v@[i as int]);
        }
        let c = v[i];
        if c == '\n' {
            let mut line = cur;
            cur = Vec::new();
            if line.len() > 0 && line[line.len() - 1] == '\r' {
                line.pop();
            }
            proof {
                assert(line@ == spec_strip_cr(cur0));
            }
            out.push(line);
            proof {
                assert(out.deep_view() =~~= out0 + seq![spec_strip_cr(cur0)]);
                assert((out0 + seq![spec_strip_cr(cur0)]) + spec_lines_acc(
                    rest.drop_first(),
                    Seq::empty(),
                ) =~~= out0 + spec_lines_acc(rest, cur0));
            }
        } else {
            cur.push(c);
            proof {
                assert(spec_lines_acc(rest, cur0) == spec_lines_acc(rest.drop_first(), cur@));
            }
        }
        i = i + 1;
    }
    proof {
        assert(v@.subrange(v@.len() as int, v@.len() as int) =~= Seq::<char>::empty());
    }
    if cur.len() > 0 {
        let ghost out0 = out.deep_view();
        let ghost cur0 = cur@;
        out.push(cur);
        proof {
            assert(out.deep_view() =~~= out0 + seq![cur0]);
        }
        out
    } else {
        proof {
            assert(out.deep_view() + Seq::<Seq<char>>::empty() =~~= out.deep_view());
        }
        out
    }
}

// ---------------------------------------------------------------------------
// Splitting a line into whitespace-separated tokens, as
// `str::split_whitespace` does it.
// ---------------------------------------------------------------------------
/// The tokens of `cur + s`, where `cur` is the still-open token that the
/// characters before `s` have built up.
pub open spec fn spec_tokens_acc(s: Seq<char>, cur: Seq<char>) -> Seq<Seq<char>>
    decreases s.len(),
{
    if s.len() == 0 {
        if cur.len() == 0 {
            Seq::empty()
        } else {
            seq![cur]
        }
    } else if is_unicode_space(s[0]) {
        if cur.len() == 0 {
            spec_tokens_acc(s.drop_first(), Seq::empty())
        } else {
            seq![cur] + spec_tokens_acc(s.drop_first(), Seq::empty())
        }
    } else {
        spec_tokens_acc(s.drop_first(), cur.push(s[0]))
    }
}

/// The whitespace-separated tokens of `s`: its maximal runs of
/// non-whitespace characters, in order.
pub open spec fn spec_tokens(s: Seq<char>) -> Seq<Seq<char>> {
    spec_tokens_acc(s, Seq::empty())
}

/// Splits `line` into its whitespace-separated tokens.
pub(crate) fn tokens_of_line(line: &Vec<char>) -> (r: Vec<String>)
    ensures
        r.deep_view() == spec_tokens(line@),
{
    let mut out: Vec<String> = Vec::new();
    let mut cur: Vec<char> = Vec::new();
    let mut i: usize = 0;
    proof {
        assert(line@.subrange(0, line@.len() as int) =~= line@);
        assert(out.deep_view() + spec_tokens_acc(line@, cur@) =~~= spec_tokens_acc(line@, cur@));
    }
    while i < line.len()
        invariant
            i <= line@.len(),
            spec_tokens(line@) == out.deep_view() + spec_tokens_acc(
                line@.subrange(i as int, line@.len() as int),
                cur@,
            ),
        decreases line@.len() - i,
    {
        let ghost rest = line@.subrange(i as int, line@.len() as int);
        let ghost out0 = out.deep_view();
        let ghost cur0 = cur@;
        proof {
            assert(rest.drop_first() =~= line@.subrange(i + 1, line@.len() as int));
            assert(rest[0] == line@[i as int]);
        }
        let c = line[i];
        if is_space(c) {
            proof {
                if cur0.len() == 0 {
                    assert(cur0 =~= Seq::<char>::empty());
                    assert(spec_tokens_acc(rest, cur0) == spec_tokens_acc(
                        rest.drop_first(),
                        Seq::empty(),
                    ));
                }
            }
            if cur.len() > 0 {
                let token = from_chars(&cur);
                cur = Vec::new();
                out.push(token);
                proof {
                    assert(out.deep_view() =~~= out0 + seq![cur0]);
                    assert((out0 + seq![cur0]) + spec_tokens_acc(rest.drop_first(), Seq::empty())
                        =~~= out0 + spec_tokens_acc(rest, cur0));
                }
            }
        } else {
            cur.push(c);
            proof {
                assert(spec_tokens_acc(rest, cur0) == spec_tokens_acc(rest.drop_first(), cur@));
            }
        }
        i = i + 1;
    }
    proof {
        assert(line@.subrange(line@.len() as int, line@.len() as int) =~= Seq::<char>::empty());
    }
    if cur.len() > 0 {
        let ghost out0 = out.deep_view();
        let ghost cur0 = cur@;
        let token = from_chars(&cur);
        out.push(token);
        proof {
            assert(out.deep_view() =~~= out0 + seq![cur0]);
        }
        out
    } else {
        proof {
            assert(out.deep_view() + Seq::<Seq<char>>::empty() =~~= out.deep_view());
        }
        out
    }
}

// ---------------------------------------------------------------------------
// Line classification and the full store parse.
// ---------------------------------------------------------------------------
/// Whether a physical line carries no record: its trimmed form is empty or
/// begins the `#` of a comment.
pub open spec fn spec_skippable(l: Seq<char>) -> bool {
    spec_trim(l).len() == 0 || spec_trim(l)[0] == '#'
}

/// Decides whether `line` is blank or a comment.
pub(crate) fn skippable(line: &Vec<char>) -> (r: bool)
    ensures
        r == spec_skippable(line@),
{
    let t = trim_chars(line);
    t.len() == 0 || t[0] == '#'
}

/// What one non-skippable line parses to; `num` is its 1-based position in
/// the store text.
pub open spec fn spec_parse_line(l: Seq<char>, num: int) -> Result<EntryV, ErrorV> {
    spec_entry(spec_tokens(l), num)
}

/// What the lines from position `i` on parse to: blank and comment lines
/// are skipped but keep their line numbers, and the first malformed line
/// aborts the whole read.
pub open spec fn spec_parse_from(lines: Seq<Seq<char>>, i: int) -> Result<Seq<EntryV>, ErrorV>
    decreases lines.len() - i,
{
    if i < 0 || i >= lines.len() {
        Ok(Seq::empty())
    } else if spec_skippable(lines[i]) {
        spec_parse_from(lines, i + 1)
    } else {
        match spec_parse_line(lines[i], i + 1) {
            Err(e) => Err(e),
            Ok(en) => match spec_parse_from(lines, i + 1) {
                Err(e) => Err(e),
                Ok(rest) => Ok(seq![en] + rest),
            },
        }
    }
}

/// What the whole store text parses to.
pub open spec fn spec_parse(s: Seq<char>) -> Result<Seq<EntryV>, ErrorV> {
    spec_parse_from(spec_lines(s), 0)
}

/// Parsing is line-independent: what a line parses to, and whether it is
/// skipped, depends only on that line's own content and position. Changing
/// any other line of the store cannot change this line's result.
pub proof fn lemma_parse_line_independent(lines1: Seq<Seq<char>>, lines2: Seq<Seq<char>>, m: int)
    requires
        0 <= m < lines1.len(),
        0 <= m < lines2.len(),
        lines1[m] == lines2[m],
    ensures
        spec_parse_line(lines1[m], m + 1) == spec_parse_line(lines2[m], m + 1),
        spec_skippable(lines1[m]) == spec_skippable(lines2[m]),
{
}

/// How many lines from position `i` on carry a record: the non-blank,
/// non-comment lines.
pub open spec fn count_effective_from(lines: Seq<Seq<char>>, i: int) -> int
    decreases lines.len() - i,
{
    if i < 0 || i >= lines.len() {
        0
    } else {
        (if spec_skippable(lines[i]) {
            0int
        } else {
            1int
        }) + count_effective_from(lines, i + 1)
    }
}

/// A successful parse yields exactly one record per non-blank, non-comment
/// line.
pub proof fn lemma_parse_len(lines: Seq<Seq<char>>, i: int)
    requires
        spec_parse_from(lines, i) is Ok,
    ensures
        spec_parse_from(lines, i)->Ok_0.len() == count_effective_from(lines, i),
    decreases lines.len() - i,
{
    if i < 0 || i >= lines.len() {
    } else if spec_skippable(lines[i]) {
        lemma_parse_len(lines, i + 1);
    } else {
        match spec_parse_line(lines[i], i + 1) {
            Err(_) => {
                assert(false);
            },
            Ok(en) => {
                lemma_parse_len(lines, i + 1);
            },
        }
    }
}

/// Parses the whole store text into its records, failing on the first
/// malformed line.
pub fn parse(data: &str) -> (r: Result<Vec<Entry>, Error>)
    ensures
        match r {
            Ok(es) => spec_parse(data@) == Ok::<Seq<EntryV>, ErrorV>(es.deep_view()),
            Err(e) => spec_parse(data@) == Err::<Seq<EntryV>, ErrorV>(e@),
        },
{
    let chars = to_chars(data);
    let lines = split_lines(&chars);
    let ghost linesv = lines.deep_view();
    let mut out: Vec<Entry> = Vec::new();
    let mut i: usize = 0;
    proof {
        assert(Seq::<EntryV>::empty() + Seq::<EntryV>::empty() =~= Seq::<EntryV>::empty());
    }
    while i < lines.len()
        invariant
            i <= linesv.len(),
            linesv == lines.deep_view(),
            linesv == spec_lines(data@),
            lines@.len() == linesv.len(),
            match spec_parse_from(linesv, i as int) {
                Ok(rest) => spec_parse_from(linesv, 0) == Ok::<Seq<EntryV>, ErrorV>(
                    out.deep_view() + rest,
                ),
                Err(e) => spec_parse_from(linesv, 0) == Err::<Seq<EntryV>, ErrorV>(e),
            },
        decreases linesv.len() - i,
    {
        proof {
            assert(lines@[i as int].deep_view() == linesv[i as int]);
            assert(lines@[i as int].deep_view() =~= lines@[i as int]@);
        }
        if !skippable(&lines[i]) {
            proof {
                assert(!spec_skippable(linesv[i as int]));
            }
            let tokens = tokens_of_line(&lines[i]);
            proof {
                assert(tokens.deep_view() == spec_tokens(linesv[i as int]));
            }
            match Entry::parse(i + 1, &tokens) {
                Err(e) => {
                    proof {
                        assert(spec_parse_line(linesv[i as int], i + 1) == Err::<EntryV, ErrorV>(
                            e@,
                        ));
                        assert(spec_parse_from(linesv, i as int) == Err::<Seq<EntryV>, ErrorV>(e@));
                    }
                    return Err(e);
                },
                Ok(en) => {
                    let ghost out0 = out.deep_view();
                    out.push(en);
                    proof {
                        assert(spec_parse_line(linesv[i as int], i + 1) == Ok::<EntryV, ErrorV>(
                            en@,
                        ));
                        assert(out.deep_view() =~= out0 + seq![en@]);
                        match spec_parse_from(linesv, i + 1) {
                            Ok(rest) => {
                                assert(spec_parse_from(linesv, i as int)
                                    == Ok::<Seq<EntryV>, ErrorV>(seq![en@] + rest));
                                assert((out0 + seq![en@]) + rest =~= out0 + (seq![en@] + rest));
                            },
                            Err(e2) => {
                                assert(spec_parse_from(linesv, i as int)
                                    == Err::<Seq<EntryV>, ErrorV>(e2));
                            },
                        }
                    }
                },
            }
        } else {
            proof {
                assert(spec_skippable(linesv[i as int]));
                assert(spec_parse_from(linesv, i as int) == spec_parse_from(linesv, i + 1));
            }
        }
        i = i + 1;
    }
    proof {
        assert(out.deep_view() + Seq::<EntryV>::empty() =~= out.deep_view());
    }
    Ok(out)
}

} // verus!
