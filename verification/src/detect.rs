//! Binary and shell detection, the peripheral collaborator of the service.
//!
//! The directory scans and subprocess probes run in the application layer;
//! here live the report types and the pure decisions: executability from
//! permission bits, the first line of a version probe's output, category
//! filtering, and the final pruning of reports.

use vstd::prelude::*;

use crate::text::{
    chars_eq, lemma_lex_le_antisym, lemma_lex_le_total, lemma_lex_le_trans, lex_le, lower_seq,
    str_lex_le, str_trim, to_lower_chars, trim_spec,
};

verus! {

/// One detected (or missing) binary.
pub struct BinaryReport {
    pub name: String,
    pub category: String,
    pub found: bool,
    pub path: Option<String>,
    pub version: Option<String>,
    pub error: Option<String>,
}

/// One available shell.
pub struct ShellInfo {
    pub name: String,
    pub path: String,
    pub version: Option<String>,
}

/// A file is executable when any of its execute permission bits is set.
pub fn is_executable(mode: u32) -> (r: bool)
    ensures
        r == (mode & 0o111u32 != 0),
{
    mode & 0o111 != 0
}

/// The position of the first newline (the length when there is none).
pub open spec fn first_newline(s: Seq<char>) -> int
    decreases s.len(),
{
    if s.len() == 0 {
        0
    } else if s[0] == '\n' {
        0
    } else {
        1 + first_newline(s.drop_first())
    }
}

/// The version a probe's output denotes: its first line, without a
/// carriage return, trimmed; none when that leaves nothing.
pub open spec fn first_version_line_spec(s: Seq<char>) -> Option<Seq<char>> {
    let line = s.subrange(0, first_newline(s));
    let bare = if line.len() > 0 && line.last() == '\r' {
        line.drop_last()
    } else {
        line
    };
    let t = trim_spec(bare);
    if t.len() == 0 {
        None
    } else {
        Some(t)
    }
}

/// Extract the version line from a probe's output.
pub fn first_version_line(text: &str) -> (r: Option<String>)
    ensures
        match r {
            Some(v) => first_version_line_spec(text@) == Some(v@),
            None => first_version_line_spec(text@) is None,
        },
{
    let n = text.unicode_len();
    let mut i: usize = 0;
    proof {
        assert(text@.subrange(0, text@.len() as int) =~= text@);
    }
    while i < n && !(text.get_char(i) == '\n')
        invariant
            i <= n,
            n == text@.len(),
            first_newline(text@) == i + first_newline(text@.subrange(i as int, text@.len() as int)),
        decreases n - i,
    {
        proof {
            let sub = text@.subrange(i as int, text@.len() as int);
            assert(sub[0] == text@[i as int]);
            assert(sub.drop_first() =~= text@.subrange(i + 1, text@.len() as int));
        }
        i = i + 1;
    }
    proof {
        let sub = text@.subrange(i as int, text@.len() as int);
        if i < n {
            assert(sub[0] == '\n');
        }
        assert(first_newline(text@) == i);
    }
    let end = if i > 0 && text.get_char(i - 1) == '\r' {
        i - 1
    } else {
        i
    };
    proof {
        let line = text@.subrange(0, i as int);
        if i > 0 && text@[i - 1] == '\r' {
            assert(line.drop_last() =~= text@.subrange(0, i - 1));
        }
    }
    let bare = text.substring_char(0, end);
    let t = str_trim(bare);
    if t.unicode_len() == 0 {
        None
    } else {
        Some(String::from_str(t))
    }
}

/// The category passes the filter when some (case-folded) entry matches
/// it; an absent filter passes everything.
pub open spec fn names_match(fs: Seq<Seq<char>>, category: Seq<char>) -> bool {
    exists|k: int| 0 <= k < fs.len() && lower_seq(#[trigger] fs[k]) == lower_seq(category)
}

pub open spec fn spec_category_selected(filter: Option<Seq<Seq<char>>>, category: Seq<char>) -> bool {
    match filter {
        None => true,
        Some(fs) => names_match(fs, category),
    }
}

/// The deep view of an optional name list.
pub open spec fn opt_names_view(o: Option<Vec<String>>) -> Option<Seq<Seq<char>>> {
    match o {
        Some(v) => Some(v.deep_view()),
        None => None,
    }
}

/// Does the category pass the (case-folded) filter?
pub fn category_selected(filter_categories: &Option<Vec<String>>, category: &str) -> (r: bool)
    ensures
        r == spec_category_selected(opt_names_view(*filter_categories), category@),
{
    match filter_categories {
        None => true,
        Some(f) => {
            let ghost fs = f.deep_view();
            assert(opt_names_view(*filter_categories) == Some(fs));
            let cat = to_lower_chars(category);
            let n = f.len();
            let mut i: usize = 0;
            while i < n
                invariant
                    i <= n,
                    n == f@.len(),
                    fs == f.deep_view(),
                    opt_names_view(*filter_categories) == Some(fs),
                    fs.len() == n,
                    cat@ == lower_seq(category@),
                    forall|k: int|
                        0 <= k < i ==> lower_seq(#[trigger] fs[k]) != lower_seq(category@),
                decreases n - i,
            {
                let low = to_lower_chars(f[i].as_str());
                assert(low@ == lower_seq(fs[i as int]));
                if chars_eq(&low, &cat) {
                    proof {
                        assert(names_match(fs, category@)) by {
                            assert(0 <= (i as int) && (i as int) < fs.len());
                            assert(lower_seq(fs[i as int]) == lower_seq(category@));
                        }
                    }
                    return true;
                }
                i = i + 1;
            }
            assert(!names_match(fs, category@));
            false
        },
    }
}

/// Keep every report, or only the found ones.
pub fn retain_found(reports: Vec<BinaryReport>, include_missing: bool) -> (r: Vec<BinaryReport>)
    ensures
        include_missing ==> r@ == reports@,
        !include_missing ==> r@ == reports@.filter(|b: BinaryReport| b.found),
{
    if include_missing {
        return reports;
    }
    let mut out: Vec<BinaryReport> = Vec::new();
    let mut rest = reports;
    let ghost input = rest@;
    let n = rest.len();
    let mut i: usize = 0;
    proof {
        reveal(Seq::filter);
        assert(input.subrange(0, 0) =~= Seq::<BinaryReport>::empty());
        assert(out@ =~= input.subrange(0, 0).filter(|b: BinaryReport| b.found));
    }
    while i < n
        invariant
            i <= n,
            n == rest@.len(),
            input == rest@,
            out@ == input.subrange(0, i as int).filter(|b: BinaryReport| b.found),
        decreases n - i,
    {
        let ghost o0 = out@;
        let keep = rest[i].found;
        proof {
            reveal(Seq::filter);
            let prev = input.subrange(0, i as int);
            let cur = input.subrange(0, i + 1);
            assert(cur.drop_last() =~= prev);
            assert(cur.last() == input[i as int]);
            assert(cur.filter(|b: BinaryReport| b.found) == if input[i as int].found {
                prev.filter(|b: BinaryReport| b.found).push(input[i as int])
            } else {
                prev.filter(|b: BinaryReport| b.found)
            });
        }
        if keep {
            out.push(clone_report(&rest[i]));
            proof {
                assert(out@ =~= o0.push(input[i as int]));
            }
        }
        i = i + 1;
    }
    proof {
        assert(input.subrange(0, n as int) =~= input);
    }
    out
}

/// A copy of an optional string.
fn clone_opt_string(o: &Option<String>) -> (r: Option<String>)
    ensures
        r == *o,
{
    match o {
        Some(s) => Some(s.clone()),
        None => None,
    }
}

/// A copy of a report.
fn clone_report(b: &BinaryReport) -> (r: BinaryReport)
    ensures
        r == *b,
{
    BinaryReport {
        name: b.name.clone(),
        category: b.category.clone(),
        found: b.found,
        path: clone_opt_string(&b.path),
        version: clone_opt_string(&b.version),
        error: clone_opt_string(&b.error),
    }
}

// ---------------------------------------------------------------------------
// Report ordering
// ---------------------------------------------------------------------------

/// Reports ordered by category, then by name.
pub open spec fn report_le(a: BinaryReport, b: BinaryReport) -> bool {
    if a.category@ == b.category@ {
        lex_le(a.name@, b.name@)
    } else {
        lex_le(a.category@, b.category@)
    }
}

/// The report order is total.
pub proof fn lemma_report_le_total(a: BinaryReport, b: BinaryReport)
    ensures
        report_le(a, b) || report_le(b, a),
{
    lemma_lex_le_total(a.category@, b.category@);
    lemma_lex_le_total(a.name@, b.name@);
}

/// The report order is transitive.
pub proof fn lemma_report_le_trans(a: BinaryReport, b: BinaryReport, c: BinaryReport)
    requires
        report_le(a, b),
        report_le(b, c),
    ensures
        report_le(a, c),
{
    if a.category@ == b.category@ && b.category@ == c.category@ {
        lemma_lex_le_trans(a.name@, b.name@, c.name@);
    } else if a.category@ != b.category@ && b.category@ != c.category@ {
        if a.category@ == c.category@ {
            lemma_lex_le_antisym(a.category@, b.category@);
        } else {
            lemma_lex_le_trans(a.category@, b.category@, c.category@);
        }
    }
}

/// Sorted by category, then name.
pub open spec fn sorted_reports(reports: Seq<BinaryReport>) -> bool {
    forall|i: int, j: int|
        0 <= i < j < reports.len() ==> report_le(#[trigger] reports[i], #[trigger] reports[j])
}

/// Compare two reports.
fn report_le_exec(a: &BinaryReport, b: &BinaryReport) -> (r: bool)
    ensures
        r == report_le(*a, *b),
{
    if crate::text::str_eq(a.category.as_str(), b.category.as_str()) {
        str_lex_le(a.name.as_str(), b.name.as_str())
    } else {
        str_lex_le(a.category.as_str(), b.category.as_str())
    }
}

/// Selection sort of reports by category, then name.  The result holds the
/// same reports, in sorted order.
pub fn sort_reports(input: Vec<BinaryReport>) -> (r: Vec<BinaryReport>)
    ensures
        r@.to_multiset() == input@.to_multiset(),
        sorted_reports(r@),
{
    broadcast use vstd::seq_lib::group_to_multiset_ensures;
    broadcast use vstd::multiset::group_multiset_axioms;

    let mut working = input;
    let mut out: Vec<BinaryReport> = Vec::new();
    proof {
        assert(out@ =~= Seq::<BinaryReport>::empty());
        assert(out@.to_multiset().add(working@.to_multiset()) =~= working@.to_multiset());
    }
    let ghost input_view = working@;
    while working.len() > 0
        invariant
            out@.to_multiset().add(working@.to_multiset()) == input_view.to_multiset(),
            sorted_reports(out@),
            forall|a: int, b: int|
                0 <= a < out@.len() && 0 <= b < working@.len() ==> report_le(
                    #[trigger] out@[a],
                    #[trigger] working@[b],
                ),
        decreases working@.len(),
    {
        let mut best: usize = 0;
        proof {
            lemma_report_le_total(working@[0], working@[0]);
        }
        let mut k: usize = 1;
        while k < working.len()
            invariant
                working@.len() > 0,
                best < working@.len(),
                k <= working@.len(),
                forall|j: int| 0 <= j < k ==> report_le(working@[best as int], #[trigger] working@[j]),
            decreases working@.len() - k,
        {
            proof {
                lemma_report_le_total(working@[best as int], working@[k as int]);
            }
            if !report_le_exec(&working[best], &working[k]) {
                proof {
                    assert(report_le(working@[k as int], working@[best as int]));
                    assert forall|j: int| 0 <= j < k + 1 implies report_le(
                        working@[k as int],
                        #[trigger] working@[j],
                    ) by {
                        if j < k {
                            lemma_report_le_trans(
                                working@[k as int],
                                working@[best as int],
                                working@[j],
                            );
                        } else {
                            lemma_report_le_total(working@[k as int], working@[k as int]);
                        }
                    }
                }
                best = k;
            } else {
                proof {
                    lemma_report_le_total(working@[best as int], working@[best as int]);
                }
            }
            k = k + 1;
        }
        proof {
            lemma_report_le_total(working@[best as int], working@[best as int]);
        }
        let ghost w0 = working@;
        let ghost out0 = out@;
        let rec = working.remove(best);
        out.push(rec);
        proof {
            assert(working@ =~= w0.remove(best as int));
            assert(out@ =~= out0.push(w0[best as int]));
            assert(w0.contains(w0[best as int]));
            vstd::seq_lib::to_multiset_contains(w0, w0[best as int]);
            vstd::seq_lib::to_multiset_build(out0, w0[best as int]);
            vstd::seq_lib::to_multiset_remove(w0, best as int);
            assert(w0.to_multiset().count(w0[best as int]) > 0);
            assert(out@.to_multiset().add(working@.to_multiset())
                =~= input_view.to_multiset());
            assert forall|a: int, b: int|
                0 <= a < out@.len() && 0 <= b < working@.len() implies report_le(
                #[trigger] out@[a],
                #[trigger] working@[b],
            ) by {
                assert(working@[b] == if b < best { w0[b] } else { w0[b + 1] });
            }
        }
    }
    proof {
        assert(working@ =~= Seq::<BinaryReport>::empty());
        assert(out@.to_multiset() =~= input_view.to_multiset());
    }
    out
}

} // verus!
