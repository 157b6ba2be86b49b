//! What the query layer asks of a fetched source file: its analysis sections, and
//! the procedures whose names contain a search string.
use vstd::prelude::*;
use crate::analysis_suspend::{CodeBlockType, CodeBlockTypeView};
use crate::error::Error;
use crate::preprocessor::{lex, lex_error, preprocessed_progress};
use crate::sections::{assemble, sections_view, PreprocessorAnalysisSection, SectionView};
use crate::text::chars_of;
use crate::util::{u8_ref_to_string, utf8_lossy};

verus! {

/// The sections of a source text: its nodes, grouped; or the first error of either
/// step.
pub open spec fn sections_of(text: Seq<char>) -> Result<Seq<SectionView>, Error> {
    match lex(text) {
        Some(nodes) => assemble(nodes),
        None => Err(lex_error(text)),
    }
}

/// The analysis sections of a file's raw bytes, decoded as UTF-8 with invalid
/// sequences replaced.
pub fn analysis_sections(contents: &[u8]) -> (r: Result<Vec<PreprocessorAnalysisSection>, Error>)
    ensures
        match r {
            Ok(v) => sections_of(utf8_lossy(contents@)) == Ok::<Seq<SectionView>, Error>(
                sections_view(v@),
            ),
            Err(e) => sections_of(utf8_lossy(contents@)) == Err::<Seq<SectionView>, Error>(e),
        },
{
    let text = u8_ref_to_string(contents);
    let nodes = match preprocessed_progress(text.as_str()) {
        Ok(nodes) => nodes,
        Err(e) => return Err(e),
    };
    PreprocessorAnalysisSection::from(nodes)
}

/// Whether `needle` occurs in `haystack` starting at `k`.
pub open spec fn occurs_at(haystack: Seq<char>, needle: Seq<char>, k: int) -> bool {
    0 <= k && k + needle.len() <= haystack.len() && haystack.subrange(k, k + needle.len())
        == needle
}

/// Whether `needle` occurs anywhere in `haystack`.
pub open spec fn contains(haystack: Seq<char>, needle: Seq<char>) -> bool {
    exists|k: int| occurs_at(haystack, needle, k)
}

/// Whether `needle` occurs in `haystack`; the empty string occurs everywhere.
pub fn str_contains(haystack: &str, needle: &str) -> (r: bool)
    ensures
        r == contains(haystack@, needle@),
{
    let h = chars_of(haystack);
    let n = chars_of(needle);
    if n.len() > h.len() {
        assert forall|k: int| !occurs_at(haystack@, needle@, k) by {}
        return false;
    }
    let hl = h.len();
    let last = hl - n.len();
    let mut k: usize = 0;
    loop
        invariant
            h@ == haystack@,
            n@ == needle@,
            hl == h@.len(),
            last == h@.len() - n@.len(),
            k <= last,
            forall|q: int| 0 <= q < k ==> !occurs_at(haystack@, needle@, q),
        ensures
            forall|q: int| 0 <= q <= last ==> !occurs_at(haystack@, needle@, q),
        decreases last - k,
    {
        let mut j: usize = 0;
        while j < n.len() && h[k + j] == n[j]
            invariant
                h@ == haystack@,
                n@ == needle@,
                hl == h@.len(),
                last == h@.len() - n@.len(),
                k <= last,
                j <= n@.len(),
                forall|m: int| 0 <= m < j ==> h@[k + m] == n@[m],
            decreases n@.len() - j,
        {
            j += 1;
        }
        if j == n.len() {
            assert(h@.subrange(k as int, k + n@.len()) =~= n@);
            assert(occurs_at(haystack@, needle@, k as int));
            return true;
        }
        assert(h@.subrange(k as int, k + n@.len())[j as int] != n@[j as int]);
        assert(!occurs_at(haystack@, needle@, k as int));
        if k == last {
            break;
        }
        k += 1;
    }
    assert forall|q: int| !occurs_at(haystack@, needle@, q) by {
        if 0 <= q && q + needle@.len() <= haystack@.len() {
            assert(q <= last);
        }
    }
    false
}

/// The names of the procedure code blocks among `sections` whose name contains
/// `query`, in order.
pub open spec fn procedures_matching(sections: Seq<SectionView>, query: Seq<char>) -> Seq<Seq<char>>
    decreases sections.len(),
{
    if sections.len() == 0 {
        Seq::empty()
    } else {
        let rest = procedures_matching(sections.drop_last(), query);
        match sections.last() {
            SectionView::CodeBlock {
                block_type: CodeBlockTypeView::Procedure { name, .. },
                ..
            } => if contains(name, query) {
                rest.push(name)
            } else {
                rest
            },
            _ => rest,
        }
    }
}

/// The names of the procedure code blocks whose name contains `query`, in the
/// order of the sections.
pub fn find_inner_procedures(sections: &Vec<PreprocessorAnalysisSection>, query: &str) -> (r: Vec<
    String,
>)
    ensures
        r@.map_values(|s: String| s@) == procedures_matching(sections_view(sections@), query@),
{
    let ghost all = sections_view(sections@);
    let mut out: Vec<String> = Vec::new();
    let mut i: usize = 0;
    proof {
        assert(all.take(0) =~= Seq::<SectionView>::empty());
        assert(out@.map_values(|s: String| s@) =~= Seq::<Seq<char>>::empty());
    }
    while i < sections.len()
        invariant
            all == sections_view(sections@),
            i <= sections@.len(),
            out@.map_values(|s: String| s@) == procedures_matching(all.take(i as int), query@),
        decreases sections@.len() - i,
    {
        proof {
            assert(all.take(i + 1).drop_last() =~= all.take(i as int));
            assert(all.take(i + 1).last() == sections@[i as int]@);
        }
        if let PreprocessorAnalysisSection::CodeBlock {
            block_type: CodeBlockType::Procedure { name, .. },
            ..
        } = &sections[i] {
            if str_contains(name.as_str(), query) {
                let found = name.clone();
                proof {
                    assert(out@.push(found).map_values(|s: String| s@) =~= out@.map_values(
                        |s: String| s@,
                    ).push(name@));
                }
                out.push(found);
            }
        }
        i += 1;
    }
    assert(all.take(sections@.len() as int) =~= all);
    out
}

} // verus!
