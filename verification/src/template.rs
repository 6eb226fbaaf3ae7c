use vstd::prelude::*;

use crate::chars::{push_char, to_chars};
use crate::entry::{EntryData, EntryDataV};

verus! {

/// What rendering the template `f` against the record `e` yields, scanning
/// left to right: `%N`, `%L`, `%U`, `%P` substitute the record's fields,
/// `%` before any other character passes both through unchanged, a lone
/// trailing `%` is kept, and every other character is copied verbatim.
pub open spec fn spec_fmt(f: Seq<char>, e: EntryDataV) -> Seq<char>
    decreases f.len(),
{
    if f.len() == 0 {
        Seq::empty()
    } else if f[0] != '%' {
        seq![f[0]] + spec_fmt(f.drop_first(), e)
    } else if f.len() == 1 {
        seq!['%']
    } else {
        let c = f[1];
        let rest = f.subrange(2, f.len() as int);
        if c == 'N' {
            e.name + spec_fmt(rest, e)
        } else if c == 'L' {
            e.link + spec_fmt(rest, e)
        } else if c == 'U' {
            e.username + spec_fmt(rest, e)
        } else if c == 'P' {
            e.password + spec_fmt(rest, e)
        } else {
            seq!['%', c] + spec_fmt(rest, e)
        }
    }
}

/// Renders the template `fmt` against one record.
pub fn fmt_entry(fmt: &str, entry: EntryData) -> (out: String)
    ensures
        out@ == spec_fmt(fmt@, entry@),
{
    let f = to_chars(fmt);
    let mut out = String::new();
    let mut i: usize = 0;
    proof {
        assert(f@.subrange(0, f@.len() as int) =~= f@);
        assert(Seq::<char>::empty() + spec_fmt(f@, entry@) =~= spec_fmt(f@, entry@));
    }
    while i < f.len()
        invariant
            i <= f@.len(),
            f@ == fmt@,
            spec_fmt(fmt@, entry@) == out@ + spec_fmt(
                f@.subrange(i as int, f@.len() as int),
                entry@,
            ),
        decreases f@.len() - i,
    {
        let ghost rest = f@.subrange(i as int, f@.len() as int);
        let ghost out0 = out@;
        proof {
            assert(rest[0] == f@[i as int]);
            assert(rest.drop_first() =~= f@.subrange(i + 1, f@.len() as int));
        }
        let c = f[i];
        if c == '%' {
            if i + 1 < f.len() {
                proof {
                    assert(rest.subrange(2, rest.len() as int) =~= f@.subrange(
                        i + 2,
                        f@.len() as int,
                    ));
                    assert(rest[1] == f@[i + 1]);
                }
                let c2 = f[i + 1];
                let ghost tail = spec_fmt(f@.subrange(i + 2, f@.len() as int), entry@);
                if c2 == 'N' {
                    out.append(entry.name.as_str());
                    proof {
                        assert((out0 + entry@.name) + tail =~= out0 + (entry@.name + tail));
                    }
                } else if c2 == 'L' {
                    out.append(entry.link.as_str());
                    proof {
                        assert((out0 + entry@.link) + tail =~= out0 + (entry@.link + tail));
                    }
                } else if c2 == 'U' {
                    out.append(entry.username.as_str());
                    proof {
                        assert((out0 + entry@.username) + tail =~= out0 + (entry@.username + tail));
                    }
                } else if c2 == 'P' {
                    out.append(entry.password.as_str());
                    proof {
                        assert((out0 + entry@.password) + tail =~= out0 + (entry@.password + tail));
                    }
                } else {
                    push_char(&mut out, c);
                    push_char(&mut out, c2);
                    proof {
                        assert(out@ =~= out0 + seq!['%', c2]);
                        assert((out0 + seq!['%', c2]) + tail =~= out0 + (seq!['%', c2] + tail));
                    }
                }
                i = i + 2;
            } else {
                push_char(&mut out, '%');
                proof {
                    assert(rest =~= seq!['%']);
                    assert(out@ =~= out0 + seq!['%']);
                    assert(f@.subrange(i + 1, f@.len() as int) =~= Seq::<char>::empty());
                    assert(out@ + spec_fmt(Seq::<char>::empty(), entry@) =~= out@);
                }
                i = i + 1;
            }
        } else {
            push_char(&mut out, c);
            proof {
                assert(out@ =~= out0 + seq![c]);
                assert((out0 + seq![c]) + spec_fmt(rest.drop_first(), entry@) =~= out0 + (
                seq![c] + spec_fmt(rest.drop_first(), entry@)));
            }
            i = i + 1;
        }
    }
    proof {
        assert(f@.subrange(f@.len() as int, f@.len() as int) =~= Seq::<char>::empty());
        assert(out@ + Seq::<char>::empty() =~= out@);
    }
    out
}

/// Rendering is the identity on templates without a `%`: every character is
/// copied verbatim and no substitution takes place.
pub proof fn lemma_fmt_no_percent(f: Seq<char>, e: EntryDataV)
    requires
        forall|k: int| 0 <= k < f.len() ==> f[k] != '%',
    ensures
        spec_fmt(f, e) == f,
    decreases f.len(),
{
    if f.len() == 0 {
        assert(spec_fmt(f, e) =~= f);
    } else {
        assert(forall|k: int|
            0 <= k < f.drop_first().len() ==> #[trigger] f.drop_first()[k] == f[k + 1]);
        lemma_fmt_no_percent(f.drop_first(), e);
        assert(seq![f[0]] + f.drop_first() =~= f);
    }
}

/// A lone `%` at the end of a template is preserved unchanged: rendering a
/// percent-free template followed by one `%` yields exactly that text.
pub proof fn lemma_fmt_trailing_percent(f: Seq<char>, e: EntryDataV)
    requires
        forall|k: int| 0 <= k < f.len() ==> f[k] != '%',
    ensures
        spec_fmt(f.push('%'), e) == f.push('%'),
    decreases f.len(),
{
    let g = f.push('%');
    if f.len() == 0 {
        assert(g =~= seq!['%']);
    } else {
        assert(g[0] == f[0]);
        assert(forall|k: int|
            0 <= k < f.drop_first().len() ==> #[trigger] f.drop_first()[k] == f[k + 1]);
        lemma_fmt_trailing_percent(f.drop_first(), e);
        assert(g.drop_first() =~= f.drop_first().push('%'));
        assert(seq![f[0]] + f.drop_first().push('%') =~= g);
    }
}

/// `%%` is no substitution: it renders as the two characters `%%`, followed
/// by the rendering of whatever comes after them.
pub proof fn lemma_fmt_double_percent(rest: Seq<char>, e: EntryDataV)
    ensures
        spec_fmt(seq!['%', '%'] + rest, e) == seq!['%', '%'] + spec_fmt(rest, e),
{
    let g = seq!['%', '%'] + rest;
    assert(g[0] == '%');
    assert(g[1] == '%');
    assert(g.subrange(2, g.len() as int) =~= rest);
}

} // verus!
