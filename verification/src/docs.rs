//! Documentation lines attached to a declaration: trimming and joining them
//! into the summary and description of a descriptor.

use vstd::prelude::*;
use vstd::string::StrSliceExecFns;
use vstd::string::StringExecFns;
use crate::text::{chars_to_string, str_to_chars};

verus! {

/// ASCII whitespace as trimming removes it.
pub open spec fn is_space(c: char) -> bool {
    c == ' ' || c == '\t' || c == '\r' || c == '\n'
}

/// The string without its leading whitespace.
pub open spec fn trim_start_spec(s: Seq<char>) -> Seq<char>
    decreases s.len(),
{
    if s.len() > 0 && is_space(s[0]) {
        trim_start_spec(s.drop_first())
    } else {
        s
    }
}

/// The string without its trailing whitespace.
pub open spec fn trim_end_spec(s: Seq<char>) -> Seq<char>
    decreases s.len(),
{
    if s.len() > 0 && is_space(s.last()) {
        trim_end_spec(s.drop_last())
    } else {
        s
    }
}

/// The string without leading or trailing whitespace.
pub open spec fn trim_spec(s: Seq<char>) -> Seq<char> {
    trim_end_spec(trim_start_spec(s))
}

fn space_at(cs: &Vec<char>, i: usize) -> (r: bool)
    requires
        i < cs@.len(),
    ensures
        r == is_space(cs@[i as int]),
{
    let c = cs[i];
    c == ' ' || c == '\t' || c == '\r' || c == '\n'
}

fn space_at_offset(cs: &Vec<char>, a: usize, b: usize) -> (r: bool)
    requires
        a + b < cs@.len(),
        cs@.len() <= usize::MAX,
    ensures
        r == is_space(cs@[a + b]),
{
    space_at(cs, a + b)
}

/// Trims leading and trailing whitespace from a line.
pub fn trim_chars(cs: &Vec<char>) -> (r: Vec<char>)
    ensures
        r@ == trim_spec(cs@),
{
    let mut start: usize = 0;
    proof {
        assert(cs@.skip(0) =~= cs@);
    }
    while start < cs.len() && space_at(cs, start)
        invariant
            start <= cs@.len(),
            trim_start_spec(cs@) == trim_start_spec(cs@.skip(start as int)),
        decreases cs@.len() - start,
    {
        proof {
            assert(cs@.skip(start as int).drop_first() =~= cs@.skip(start as int + 1));
        }
        start = start + 1;
    }
    let ghost t = cs@.skip(start as int);
    proof {
        assert(trim_start_spec(cs@) == t);
        assert(t.take(t.len() as int) =~= t);
    }
    let mut end: usize = cs.len() - start;
    while end > 0 && space_at_offset(cs, start, end - 1)
        invariant
            end <= t.len(),
            t == cs@.skip(start as int),
            start + t.len() == cs@.len(),
            cs@.len() <= usize::MAX,
            trim_end_spec(t) == trim_end_spec(t.take(end as int)),
        decreases end,
    {
        proof {
            assert(t.take(end as int).drop_last() =~= t.take(end as int - 1));
            assert(t.take(end as int).last() == cs@[start + end - 1]);
        }
        end = end - 1;
    }
    proof {
        assert(trim_end_spec(t.take(end as int)) == t.take(end as int));
    }
    let mut out: Vec<char> = Vec::new();
    let mut j: usize = 0;
    while j < end
        invariant
            j <= end,
            end <= t.len(),
            t == cs@.skip(start as int),
            start + t.len() == cs@.len(),
            cs@.len() <= usize::MAX,
            out@ == t.take(end as int).take(j as int),
        decreases end - j,
    {
        let idx: usize = start + j;
        out.push(cs[idx]);
        j = j + 1;
        proof {
            assert(out@ =~= t.take(end as int).take(j as int));
        }
    }
    proof {
        assert(t.take(end as int).take(end as int) =~= t.take(end as int));
    }
    out
}

/// Folds the trimmed documentation lines from `i` on into `acc`: a line is
/// appended after a newline once something has accumulated; an empty
/// accumulation takes the line as it is.
pub open spec fn desc_acc(lines: Seq<String>, i: int, acc: Seq<char>) -> Seq<char>
    decreases lines.len() - i,
{
    if i < 0 || i >= lines.len() {
        acc
    } else {
        let t = trim_spec(lines[i]@);
        let acc2 = if acc.len() > 0 {
            acc + seq!['\n'] + t
        } else {
            t
        };
        desc_acc(lines, i + 1, acc2)
    }
}

/// The description attached to a field: all its documentation lines trimmed
/// and joined by newlines, or nothing when that comes out empty.
pub open spec fn description_of(lines: Seq<String>) -> Option<Seq<char>> {
    let full = desc_acc(lines, 0, Seq::<char>::empty());
    if full.len() == 0 {
        None
    } else {
        Some(full)
    }
}

/// Joins a declaration's documentation lines into one description.
pub fn get_description(docs: &Vec<String>) -> (r: Option<String>)
    ensures
        match r {
            Some(s) => description_of(docs@) == Some(s@),
            None => description_of(docs@) is None,
        },
{
    let mut acc = String::new();
    let mut i: usize = 0;
    while i < docs.len()
        invariant
            i <= docs@.len(),
            desc_acc(docs@, 0, Seq::<char>::empty()) == desc_acc(docs@, i as int, acc@),
        decreases docs@.len() - i,
    {
        let ghost old_acc = acc@;
        let cs = str_to_chars(docs[i].as_str());
        let trimmed = trim_chars(&cs);
        if acc.as_str().is_empty() {
            let t = chars_to_string(&trimmed);
            acc = t;
        } else {
            acc.append("\n");
            let t = chars_to_string(&trimmed);
            acc.append(t.as_str());
        }
        proof {
            reveal_strlit("\n");
            assert("\n"@ =~= seq!['\n']);
            assert(desc_acc(docs@, i as int, old_acc) == desc_acc(docs@, i as int + 1, acc@));
        }
        i = i + 1;
    }
    if acc.as_str().is_empty() {
        None
    } else {
        Some(acc)
    }
}

/// Folds the trimmed documentation lines from `i` on into a summary (the
/// first non-empty line) and a description (the later non-empty lines joined
/// by newlines).
pub open spec fn sum_desc_acc(lines: Seq<String>, i: int, summary: Seq<char>, acc: Seq<char>) -> (
    Seq<char>,
    Seq<char>,
)
    decreases lines.len() - i,
{
    if i < 0 || i >= lines.len() {
        (summary, acc)
    } else {
        let t = trim_spec(lines[i]@);
        if t.len() == 0 {
            sum_desc_acc(lines, i + 1, summary, acc)
        } else if summary.len() == 0 {
            sum_desc_acc(lines, i + 1, t, acc)
        } else {
            let acc2 = if acc.len() > 0 {
                acc + seq!['\n'] + t
            } else {
                t
            };
            sum_desc_acc(lines, i + 1, summary, acc2)
        }
    }
}

/// The summary of a declaration: its first non-empty documentation line.
pub open spec fn summary_of(lines: Seq<String>) -> Option<Seq<char>> {
    let s = sum_desc_acc(lines, 0, Seq::<char>::empty(), Seq::<char>::empty()).0;
    if s.len() == 0 {
        None
    } else {
        Some(s)
    }
}

/// The long description of a declaration: its non-empty documentation lines
/// after the first, joined by newlines.
pub open spec fn long_description_of(lines: Seq<String>) -> Option<Seq<char>> {
    let d = sum_desc_acc(lines, 0, Seq::<char>::empty(), Seq::<char>::empty()).1;
    if d.len() == 0 {
        None
    } else {
        Some(d)
    }
}

/// Splits a declaration's documentation lines into the summary and the
/// description.
pub fn get_summary_and_description(docs: &Vec<String>) -> (r: (Option<String>, Option<String>))
    ensures
        match r.0 {
            Some(s) => summary_of(docs@) == Some(s@),
            None => summary_of(docs@) is None,
        },
        match r.1 {
            Some(s) => long_description_of(docs@) == Some(s@),
            None => long_description_of(docs@) is None,
        },
{
    let mut summary = String::new();
    let mut acc = String::new();
    let mut i: usize = 0;
    while i < docs.len()
        invariant
            i <= docs@.len(),
            sum_desc_acc(docs@, 0, Seq::<char>::empty(), Seq::<char>::empty()) == sum_desc_acc(
                docs@,
                i as int,
                summary@,
                acc@,
            ),
        decreases docs@.len() - i,
    {
        let ghost old_summary = summary@;
        let ghost old_acc = acc@;
        let cs = str_to_chars(docs[i].as_str());
        let trimmed = trim_chars(&cs);
        if trimmed.len() > 0 {
            let t = chars_to_string(&trimmed);
            if summary.as_str().is_empty() {
                summary = t;
            } else if acc.as_str().is_empty() {
                acc = t;
            } else {
                acc.append("\n");
                acc.append(t.as_str());
            }
        }
        proof {
            reveal_strlit("\n");
            assert("\n"@ =~= seq!['\n']);
            assert(sum_desc_acc(docs@, i as int, old_summary, old_acc) == sum_desc_acc(
                docs@,
                i as int + 1,
                summary@,
                acc@,
            ));
        }
        i = i + 1;
    }
    let s = if summary.as_str().is_empty() {
        None
    } else {
        Some(summary)
    };
    let d = if acc.as_str().is_empty() {
        None
    } else {
        Some(acc)
    };
    (s, d)
}

/// The name generated code refers to the framework by: the enclosing unit
/// itself when the declaration is internal, else the package name the build
/// resolved, falling back to the canonical one.
pub fn get_crate_name(internal: bool, found: &Option<String>) -> (r: String)
    ensures
        r@ == if internal {
            "crate"@
        } else {
            match found {
                Some(n) => n@,
                None => "poem"@,
            }
        },
{
    if internal {
        String::from_str("crate")
    } else {
        match found {
            Some(n) => n.clone(),
            None => String::from_str("poem"),
        }
    }
}

} // verus!
