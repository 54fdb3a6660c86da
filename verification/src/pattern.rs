use vstd::prelude::*;

use crate::paths::{is_comp_prefix, join_comps, LexPath, LexPathV};

verus! {

/// Whether `pat` is a well-formed shell-glob pattern (`glob::Pattern::new`
/// accepts it).
pub uninterp spec fn glob_parses(pat: Seq<char>) -> bool;

/// Whether the well-formed glob `pat` matches the text `path`, with `*` and
/// `?` free to span separators and a leading dot needing no special pattern.
pub uninterp spec fn glob_matched(pat: Seq<char>, path: Seq<char>) -> bool;

/// Relies on glob::Pattern::new, which errors exactly on ill-formed pattern
/// strings, and glob::Pattern::matches_with, whose result depends only on the
/// pattern, the text and the options; the options here allow `*` to cross
/// separators and a leading dot to match, and compare case-sensitively.
/// The compiled pattern never leaves this body — nothing can be stated about
/// it in between — so the two calls stand together behind one contract.
#[verifier::external_body]
fn glob_match_str(pat: &str, path: &str) -> (r: Option<bool>)
    ensures
        (r is Some) == glob_parses(pat@),
        r matches Some(m) ==> m == glob_matched(pat@, path@),
{
    let options = glob::MatchOptions {
        case_sensitive: true,
        require_literal_separator: false,
        require_literal_leading_dot: false,
    };
    match glob::Pattern::new(pat) {
        Ok(p) => Some(p.matches_with(path, options)),
        Err(_) => None,
    }
}

/// Whether the text names an absolute path: it starts with `/`.
pub open spec fn is_abs_str(s: Seq<char>) -> bool {
    s.len() > 0 && s[0] == '/'
}

/// Whether the text names an absolute path.
pub fn is_absolute_str(s: &str) -> (r: bool)
    ensures
        r == is_abs_str(s@),
{
    if s.unicode_len() == 0 {
        false
    } else {
        s.get_char(0) == '/'
    }
}

/// Whether one pattern selects the relative path `rel`: it is not an
/// absolute-path string (those are never evaluated), it is well formed
/// (ill-formed patterns are silently skipped), and it matches.
pub open spec fn pat_selects(pat: Seq<char>, rel: Seq<char>) -> bool {
    &&& !is_abs_str(pat)
    &&& glob_parses(pat)
    &&& glob_matched(pat, rel)
}

/// Whether any pattern of the set selects `rel`.
pub open spec fn any_match(pats: Seq<Seq<char>>, rel: Seq<char>) -> bool {
    exists|i: int| 0 <= i < pats.len() && pat_selects(pats[i], rel)
}

fn matches_any(pats: &Vec<String>, rel: &str) -> (r: bool)
    ensures
        r == any_match(pats.deep_view(), rel@),
{
    let mut i: usize = 0;
    while i < pats.len()
        invariant
            i <= pats.len(),
            forall|j: int| 0 <= j < i ==> !pat_selects(pats.deep_view()[j], rel@),
        decreases pats.len() - i,
    {
        if !is_absolute_str(pats[i].as_str()) {
            match glob_match_str(pats[i].as_str(), rel) {
                Some(m) => {
                    if m {
                        assert(pat_selects(pats.deep_view()[i as int], rel@));
                        return true;
                    }
                },
                None => {},
            }
        }
        i += 1;
    }
    false
}

/// The decision for a root-relative path against the two pattern sets.
/// A non-empty exclude set is the sole criterion: the path is selected
/// exactly when no exclude pattern matches, and includes are never consulted.
/// Only with no exclude patterns at all does a non-empty include set decide,
/// selecting the path exactly when some include pattern matches. With both
/// sets empty every path is selected.
pub open spec fn interested(rel: Seq<char>, inc: Seq<Seq<char>>, exc: Seq<Seq<char>>) -> bool {
    if exc.len() > 0 {
        !any_match(exc, rel)
    } else if inc.len() > 0 {
        any_match(inc, rel)
    } else {
        true
    }
}

/// Law: whenever the exclude set is non-empty, a path that matches some
/// exclude pattern is rejected, regardless of any include matches.
pub proof fn lemma_exclude_precedence(rel: Seq<char>, inc: Seq<Seq<char>>, exc: Seq<Seq<char>>)
    requires
        exc.len() > 0,
        any_match(exc, rel),
    ensures
        !interested(rel, inc, exc),
{
}

proof fn lemma_any_match_insert_skipped(
    pats: Seq<Seq<char>>,
    rel: Seq<char>,
    p: Seq<char>,
    i: int,
)
    requires
        0 <= i <= pats.len(),
        !pat_selects(p, rel),
    ensures
        any_match(pats.insert(i, p), rel) == any_match(pats, rel),
{
    let with = pats.insert(i, p);
    pats.insert_ensures(i, p);
    if any_match(with, rel) {
        let j = choose|j: int| 0 <= j < with.len() && pat_selects(with[j], rel);
        if j < i {
            assert(pat_selects(pats[j], rel));
        } else if j == i {
            assert(false);
        } else {
            assert(with[(j - 1) + 1] == pats[j - 1]);
            assert(pat_selects(pats[j - 1], rel));
        }
        assert(any_match(pats, rel));
    }
    if any_match(pats, rel) {
        let j = choose|j: int| 0 <= j < pats.len() && pat_selects(pats[j], rel);
        if j < i {
            assert(pat_selects(with[j], rel));
        } else {
            assert(with[j + 1] == pats[j]);
            assert(pat_selects(with[j + 1], rel));
        }
        assert(any_match(with, rel));
    }
}

/// Law: an absolute-path string placed anywhere in the include set leaves the
/// decision as it was, provided some pattern was already configured. (With
/// both sets empty the decision is an unconditional yes, and making the
/// include set non-empty withdraws that default, so that one starting point
/// is left out here.)
pub proof fn lemma_abs_include_inert(
    rel: Seq<char>,
    inc: Seq<Seq<char>>,
    exc: Seq<Seq<char>>,
    p: Seq<char>,
    i: int,
)
    requires
        is_abs_str(p),
        0 <= i <= inc.len(),
        inc.len() > 0 || exc.len() > 0,
    ensures
        interested(rel, inc.insert(i, p), exc) == interested(rel, inc, exc),
{
    inc.insert_ensures(i, p);
    lemma_any_match_insert_skipped(inc, rel, p, i);
}

/// Law: an absolute-path string placed anywhere in a non-empty exclude set
/// leaves the decision as it was. (Placed into an empty exclude set it is not
/// inert: a non-empty exclude set, even one whose patterns are never
/// evaluated, makes the excludes the sole criterion.)
pub proof fn lemma_abs_exclude_inert(
    rel: Seq<char>,
    inc: Seq<Seq<char>>,
    exc: Seq<Seq<char>>,
    p: Seq<char>,
    i: int,
)
    requires
        is_abs_str(p),
        0 <= i <= exc.len(),
        exc.len() > 0,
    ensures
        interested(rel, inc, exc.insert(i, p)) == interested(rel, inc, exc),
{
    exc.insert_ensures(i, p);
    lemma_any_match_insert_skipped(exc, rel, p, i);
}

/// The path that the patterns are matched against: an absolute file path is
/// stripped of the root prefix (failure to strip rejects the file), a
/// relative one is used as it is; the result is rendered with `/` between
/// components.
pub open spec fn rel_text(root: LexPathV, file: LexPathV) -> Option<Seq<char>> {
    if file.absolute {
        if root.absolute && is_comp_prefix(root.comps, file.comps) {
            Some(join_comps(file.comps.skip(root.comps.len() as int)))
        } else {
            None
        }
    } else {
        Some(join_comps(file.comps))
    }
}

/// The full decision of `is_interested_file`: only an existing regular file
/// can be selected, it must yield a root-relative text, and that text must
/// pass the pattern rules.
pub open spec fn interested_file_spec(
    root: LexPathV,
    file: LexPathV,
    is_file: bool,
    inc: Seq<Seq<char>>,
    exc: Seq<Seq<char>>,
) -> bool {
    &&& is_file
    &&& match rel_text(root, file) {
        Some(rel) => interested(rel, inc, exc),
        None => false,
    }
}

/// Law: with no patterns configured at all, an existing regular file that
/// yields a root-relative path is selected, and anything that is not a
/// regular file is rejected.
pub proof fn lemma_empty_patterns_default(root: LexPathV, file: LexPathV, is_file: bool)
    ensures
        rel_text(root, file) is Some ==> interested_file_spec(
            root,
            file,
            is_file,
            Seq::empty(),
            Seq::empty(),
        ) == is_file,
        !is_file ==> !interested_file_spec(root, file, is_file, Seq::empty(), Seq::empty()),
{
}

/// Decides whether the file at `file_path` under `root` is wanted under the
/// include and exclude pattern sets. `is_file` says whether the path denotes
/// an existing regular file; anything else is never wanted.
pub fn is_interested_file(
    root: &LexPath,
    file_path: &LexPath,
    is_file: bool,
    include_patterns: &Vec<String>,
    exclude_patterns: &Vec<String>,
) -> (r: bool)
    ensures
        r == interested_file_spec(
            root@,
            file_path@,
            is_file,
            include_patterns.deep_view(),
            exclude_patterns.deep_view(),
        ),
{
    if !is_file {
        return false;
    }
    let rel: String;
    if file_path.absolute {
        match file_path.strip_prefix(root) {
            Some(stripped) => {
                rel = stripped.render();
            },
            None => {
                return false;
            },
        }
    } else {
        rel = file_path.render();
    }
    if exclude_patterns.len() > 0 {
        !matches_any(exclude_patterns, rel.as_str())
    } else if include_patterns.len() > 0 {
        matches_any(include_patterns, rel.as_str())
    } else {
        true
    }
}

} // verus!
