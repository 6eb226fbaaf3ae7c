use vstd::prelude::*;

use zeroize::Zeroize;

use crate::chars::{contains_chars, lower_of, lowercase, spec_contains, str_eq, to_chars};
use crate::entry::{Entry, EntryDataV, EntryV, Error, ErrorV};
use crate::parse::{count_effective_from, lemma_parse_len, parse, spec_lines, spec_parse};
use crate::template::{fmt_entry, spec_fmt};

verus! {

/// Relies on zeroize's `Zeroize for String`: it wipes the string's bytes in
/// place and truncates it to length zero.
#[verifier::external_body]
fn scrub(s: &mut String)
    ensures
        final(s)@.len() == 0,
{
    s.zeroize()
}

// ---------------------------------------------------------------------------
// Tallying records by status.
// ---------------------------------------------------------------------------
/// The counts of the three record statuses over a whole store.
#[derive(Debug)]
pub struct Tally {
    pub valid: usize,
    pub invalid: usize,
    pub change: usize,
}

/// How many entries from position `i` on are current (`+`).
pub open spec fn count_valid_from(es: Seq<EntryV>, i: int) -> int
    decreases es.len() - i,
{
    if i < 0 || i >= es.len() {
        0
    } else {
        (if es[i] is Valid {
            1int
        } else {
            0int
        }) + count_valid_from(es, i + 1)
    }
}

/// How many entries from position `i` on are retired (`-`).
pub open spec fn count_invalid_from(es: Seq<EntryV>, i: int) -> int
    decreases es.len() - i,
{
    if i < 0 || i >= es.len() {
        0
    } else {
        (if es[i] is Invalid {
            1int
        } else {
            0int
        }) + count_invalid_from(es, i + 1)
    }
}

/// How many entries from position `i` on need changing (`*`).
pub open spec fn count_change_from(es: Seq<EntryV>, i: int) -> int
    decreases es.len() - i,
{
    if i < 0 || i >= es.len() {
        0
    } else {
        (if es[i] is Change {
            1int
        } else {
            0int
        }) + count_change_from(es, i + 1)
    }
}

/// How many entries of the store are current.
pub open spec fn count_valid(es: Seq<EntryV>) -> int {
    count_valid_from(es, 0)
}

/// How many entries of the store are retired.
pub open spec fn count_invalid(es: Seq<EntryV>) -> int {
    count_invalid_from(es, 0)
}

/// How many entries of the store need changing.
pub open spec fn count_change(es: Seq<EntryV>) -> int {
    count_change_from(es, 0)
}

/// Every entry has exactly one of the three statuses, so the three counts
/// are non-negative and partition the entries.
pub proof fn lemma_counts_partition(es: Seq<EntryV>, i: int)
    requires
        0 <= i <= es.len(),
    ensures
        count_valid_from(es, i) >= 0,
        count_invalid_from(es, i) >= 0,
        count_change_from(es, i) >= 0,
        count_valid_from(es, i) + count_invalid_from(es, i) + count_change_from(es, i) == es.len()
            - i,
    decreases es.len() - i,
{
    if i < es.len() {
        lemma_counts_partition(es, i + 1);
    }
}

/// The three tally counts of a well-formed store sum to its number of
/// non-blank, non-comment lines.
pub proof fn lemma_tally_counts_lines(s: Seq<char>)
    requires
        spec_parse(s) is Ok,
    ensures
        count_valid(spec_parse(s)->Ok_0) + count_invalid(spec_parse(s)->Ok_0) + count_change(
            spec_parse(s)->Ok_0,
        ) == count_effective_from(spec_lines(s), 0),
{
    let es = spec_parse(s)->Ok_0;
    lemma_counts_partition(es, 0);
    lemma_parse_len(spec_lines(s), 0);
}

/// Counts the store's records by status, then scrubs the store text.
/// The first malformed line aborts the count.
pub fn tally(data: &mut String) -> (r: Result<Tally, Error>)
    ensures
        final(data)@.len() == 0,
        match r {
            Ok(t) => spec_parse(old(data)@) matches Ok(es) && t.valid == count_valid(es)
                && t.invalid == count_invalid(es) && t.change == count_change(es) && t.valid
                + t.invalid + t.change == es.len(),
            Err(e) => spec_parse(old(data)@) == Err::<Seq<EntryV>, ErrorV>(e@),
        },
{
    let entries = match parse(data.as_str()) {
        Ok(es) => es,
        Err(e) => {
            scrub(data);
            return Err(e);
        },
    };
    let ghost esv = entries.deep_view();
    let n = entries.len();
    let mut valid: usize = 0;
    let mut invalid: usize = 0;
    let mut change: usize = 0;
    let mut i: usize = 0;
    proof {
        lemma_counts_partition(esv, 0);
    }
    while i < n
        invariant
            i <= n,
            n == esv.len(),
            esv == entries.deep_view(),
            count_valid(esv) == valid + count_valid_from(esv, i as int),
            count_invalid(esv) == invalid + count_invalid_from(esv, i as int),
            count_change(esv) == change + count_change_from(esv, i as int),
            valid + invalid + change <= i,
        decreases n - i,
    {
        proof {
            lemma_counts_partition(esv, i as int);
            lemma_counts_partition(esv, i + 1);
            assert(entries@[i as int].deep_view() == esv[i as int]);
        }
        match &entries[i] {
            Entry::Valid(_) => {
                valid = valid + 1;
            },
            Entry::Invalid(_) => {
                invalid = invalid + 1;
            },
            Entry::Change(_) => {
                change = change + 1;
            },
        }
        i = i + 1;
    }
    scrub(data);
    Ok(Tally { valid, invalid, change })
}

// ---------------------------------------------------------------------------
// Exact fetch.
// ---------------------------------------------------------------------------
/// The current entries from position `i` on whose name is exactly `acc`,
/// in store order.
pub open spec fn spec_matches_from(es: Seq<EntryV>, acc: Seq<char>, i: int) -> Seq<EntryDataV>
    decreases es.len() - i,
{
    if i < 0 || i >= es.len() {
        Seq::empty()
    } else {
        let rest = spec_matches_from(es, acc, i + 1);
        if es[i] is Valid && es[i]->Valid_0.name == acc {
            seq![es[i]->Valid_0] + rest
        } else {
            rest
        }
    }
}

/// The current entries of the store whose name is exactly `acc`.
pub open spec fn spec_matches(es: Seq<EntryV>, acc: Seq<char>) -> Seq<EntryDataV> {
    spec_matches_from(es, acc, 0)
}

/// Fetches the single current record named exactly `acc` and renders it
/// through `format`, then scrubs the store text. Zero matches and two or
/// more matches are distinct errors; retired and to-be-changed records
/// never match.
pub fn get(data: &mut String, acc: &String, format: &str) -> (r: Result<String, Error>)
    ensures
        final(data)@.len() == 0,
        match r {
            Ok(line) => spec_parse(old(data)@) matches Ok(es) && spec_matches(es, acc@).len() == 1
                && line@ == spec_fmt(format@, spec_matches(es, acc@)[0]),
            Err(e) => match spec_parse(old(data)@) {
                Err(pe) => e@ == pe,
                Ok(es) => (spec_matches(es, acc@).len() == 0 && e@ == ErrorV::NoMatches(acc@)) || (
                spec_matches(es, acc@).len() >= 2 && e@ == ErrorV::Mismatch(acc@)),
            },
        },
{
    let entries = match parse(data.as_str()) {
        Ok(es) => es,
        Err(e) => {
            scrub(data);
            return Err(e);
        },
    };
    let ghost esv = entries.deep_view();
    let n = entries.len();
    let mut found: Option<usize> = None;
    let mut i: usize = 0;
    while i < n
        invariant
            i <= n,
            n == esv.len(),
            esv == entries.deep_view(),
            data@ == old(data)@,
            spec_parse(old(data)@) == Ok::<Seq<EntryV>, ErrorV>(esv),
            match found {
                None => spec_matches(esv, acc@) == spec_matches_from(esv, acc@, i as int),
                Some(j) => j < i && esv[j as int] is Valid && esv[j as int]->Valid_0.name == acc@
                    && spec_matches(esv, acc@) == seq![esv[j as int]->Valid_0]
                    + spec_matches_from(esv, acc@, i as int),
            },
        decreases n - i,
    {
        proof {
            assert(entries@[i as int].deep_view() == esv[i as int]);
        }
        let is_match: bool = match &entries[i] {
            Entry::Valid(d) => str_eq(d.name.as_str(), acc.as_str()),
            _ => false,
        };
        if is_match {
            if found.is_some() {
                proof {
                    assert(spec_matches_from(esv, acc@, i as int) == seq![esv[i as int]->Valid_0]
                        + spec_matches_from(esv, acc@, i + 1));
                    assert(spec_matches(esv, acc@).len() >= 2);
                }
                scrub(data);
                return Err(Error::Mismatch(acc.clone()));
            }
            found = Some(i);
            proof {
                assert(spec_matches_from(esv, acc@, i as int) == seq![esv[i as int]->Valid_0]
                    + spec_matches_from(esv, acc@, i + 1));
            }
        } else {
            proof {
                assert(spec_matches_from(esv, acc@, i as int) == spec_matches_from(
                    esv,
                    acc@,
                    i + 1,
                ));
            }
        }
        i = i + 1;
    }
    proof {
        assert(spec_matches_from(esv, acc@, n as int) =~= Seq::<EntryDataV>::empty());
    }
    match found {
        None => {
            scrub(data);
            Err(Error::NoMatches(acc.clone()))
        },
        Some(j) => {
            proof {
                assert(spec_matches(esv, acc@) =~= seq![esv[j as int]->Valid_0]);
                assert(entries@[j as int].deep_view() == esv[j as int]);
            }
            match &entries[j] {
                Entry::Valid(d) => {
                    let line = fmt_entry(format, d.duplicate());
                    scrub(data);
                    Ok(line)
                },
                _ => unreached(),
            }
        },
    }
}

// ---------------------------------------------------------------------------
// Case-insensitive substring search.
// ---------------------------------------------------------------------------
/// What one record looks like under the fixed search template:
/// `name (link) username secret`.
pub open spec fn spec_render_default(d: EntryDataV) -> Seq<char> {
    spec_fmt("%N (%L) %U %P"@, d)
}

/// The rendered lines for the current entries from position `i` on whose
/// lowercased name contains the lowercased query `lq`, in store order.
pub open spec fn spec_list_from(es: Seq<EntryV>, lq: Seq<char>, i: int) -> Seq<Seq<char>>
    decreases es.len() - i,
{
    if i < 0 || i >= es.len() {
        Seq::empty()
    } else {
        let rest = spec_list_from(es, lq, i + 1);
        if es[i] is Valid && spec_contains(lower_of(es[i]->Valid_0.name), lq) {
            seq![spec_render_default(es[i]->Valid_0)] + rest
        } else {
            rest
        }
    }
}

/// The rendered lines for all current entries matching the lowercased
/// query `lq`.
pub open spec fn spec_list(es: Seq<EntryV>, lq: Seq<char>) -> Seq<Seq<char>> {
    spec_list_from(es, lq, 0)
}

/// The rendered lines for every current entry from position `i` on, in
/// store order, regardless of any query.
pub open spec fn spec_render_valid_from(es: Seq<EntryV>, i: int) -> Seq<Seq<char>>
    decreases es.len() - i,
{
    if i < 0 || i >= es.len() {
        Seq::empty()
    } else {
        let rest = spec_render_valid_from(es, i + 1);
        if es[i] is Valid {
            seq![spec_render_default(es[i]->Valid_0)] + rest
        } else {
            rest
        }
    }
}

/// An empty query matches every current record: the search then lists
/// exactly the store's current entries, in store order, and their number
/// is the tally's count of current records.
pub proof fn lemma_list_empty_query(es: Seq<EntryV>, lq: Seq<char>, i: int)
    requires
        lq.len() == 0,
        0 <= i <= es.len(),
    ensures
        spec_list_from(es, lq, i) == spec_render_valid_from(es, i),
        spec_list_from(es, lq, i).len() == count_valid_from(es, i),
    decreases es.len() - i,
{
    if i < es.len() {
        lemma_list_empty_query(es, lq, i + 1);
        if es[i] is Valid {
            let h = lower_of(es[i]->Valid_0.name);
            assert(spec_contains(h, lq)) by {
                assert(h.subrange(0, 0 + lq.len() as int) =~= lq);
            }
        }
    }
}

/// Renders every current record whose name contains `query` under a
/// case-insensitive comparison, in store order, then scrubs the store
/// text. An empty query lists every current record.
pub fn list(data: &mut String, query: &str) -> (r: Result<Vec<String>, Error>)
    ensures
        final(data)@.len() == 0,
        match r {
            Ok(lines) => spec_parse(old(data)@) matches Ok(es) && lines.deep_view() == spec_list(
                es,
                lower_of(query@),
            ) && (query@.len() == 0 ==> lines.deep_view() == spec_render_valid_from(es, 0)
                && lines@.len() == count_valid(es)),
            Err(e) => spec_parse(old(data)@) == Err::<Seq<EntryV>, ErrorV>(e@),
        },
{
    let entries = match parse(data.as_str()) {
        Ok(es) => es,
        Err(e) => {
            scrub(data);
            return Err(e);
        },
    };
    let ghost esv = entries.deep_view();
    let lq = lowercase(query);
    let lqc = to_chars(lq.as_str());
    let ghost lqv = lower_of(query@);
    let n = entries.len();
    let mut out: Vec<String> = Vec::new();
    let mut i: usize = 0;
    proof {
        assert(Seq::<Seq<char>>::empty() + spec_list(esv, lqv) =~~= spec_list(esv, lqv));
    }
    while i < n
        invariant
            i <= n,
            n == esv.len(),
            esv == entries.deep_view(),
            lqc@ == lqv,
            spec_list(esv, lqv) == out.deep_view() + spec_list_from(esv, lqv, i as int),
        decreases n - i,
    {
        proof {
            assert(entries@[i as int].deep_view() == esv[i as int]);
        }
        let ghost out0 = out.deep_view();
        match &entries[i] {
            Entry::Valid(d) => {
                let ln = lowercase(d.name.as_str());
                let lnc = to_chars(ln.as_str());
                if contains_chars(&lnc, &lqc) {
                    let line = fmt_entry("%N (%L) %U %P", d.duplicate());
                    out.push(line);
                    proof {
                        let dv = esv[i as int]->Valid_0;
                        assert(spec_list_from(esv, lqv, i as int) == seq![spec_render_default(dv)]
                            + spec_list_from(esv, lqv, i + 1));
                        assert(out.deep_view() =~~= out0 + seq![spec_render_default(dv)]);
                        assert((out0 + seq![spec_render_default(dv)]) + spec_list_from(
                            esv,
                            lqv,
                            i + 1,
                        ) =~~= out0 + spec_list_from(esv, lqv, i as int));
                    }
                } else {
                    proof {
                        assert(spec_list_from(esv, lqv, i as int) == spec_list_from(
                            esv,
                            lqv,
                            i + 1,
                        ));
                    }
                }
            },
            _ => {
                proof {
                    assert(spec_list_from(esv, lqv, i as int) == spec_list_from(esv, lqv, i + 1));
                }
            },
        }
        i = i + 1;
    }
    proof {
        assert(spec_list_from(esv, lqv, n as int) =~~= Seq::<Seq<char>>::empty());
        assert(out.deep_view() + Seq::<Seq<char>>::empty() =~~= out.deep_view());
        if query@.len() == 0 {
            lemma_list_empty_query(esv, lqv, 0);
        }
    }
    scrub(data);
    Ok(out)
}

} // verus!
