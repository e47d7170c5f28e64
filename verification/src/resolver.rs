//! The module resolver's pure half: turning a dotted module path and an
//! ordered list of search roots into the ordered list of candidate files,
//! and picking the first candidate that exists.  Reading the file system
//! is left to the caller, who reports which candidates exist.
//!
//! For each search root, in order, the candidates are: the package's
//! `__init__.pyi`, then `__init__.py`; then the flat module file `.pyi`,
//! then `.py`; and, when the path has more than one component, the last
//! component as a module inside the parent package, `.pyi` then `.py`.
//! A stub always stands immediately before its implementation twin.

use vstd::prelude::*;
use vstd::string::StrSliceExecFns;
use vstd::string::StringExecFns;

verus! {

/// The dotted path as a directory path: dots become slashes.
pub open spec fn slashed_path(m: Seq<char>) -> Seq<char> {
    Seq::new(
        m.len(),
        |i: int|
            if m[i] == '.' {
                '/'
            } else {
                m[i]
            },
    )
}

/// Whether the dotted path has more than one component.
pub open spec fn has_dot(m: Seq<char>) -> bool {
    exists|i: int| 0 <= i < m.len() && m[i] == '.'
}

/// The candidate files one search root contributes, in priority order.
pub open spec fn root_candidates(root: Seq<char>, m: Seq<char>) -> Seq<Seq<char>> {
    let base = root + "/"@ + slashed_path(m);
    let four = seq![
        base + "/__init__.pyi"@,
        base + "/__init__.py"@,
        base + ".pyi"@,
        base + ".py"@,
    ];
    if has_dot(m) {
        four + seq![base + ".pyi"@, base + ".py"@]
    } else {
        four
    }
}

/// The candidate files of all search roots from index `k` on, in order.
pub open spec fn all_candidates(m: Seq<char>, roots: Seq<Seq<char>>, k: int) -> Seq<Seq<char>>
    decreases roots.len() - k,
{
    if k < 0 || k >= roots.len() {
        Seq::empty()
    } else {
        root_candidates(roots[k], m) + all_candidates(m, roots, k + 1)
    }
}

/// The views of a list of strings, in order.
pub open spec fn strings_model(v: Seq<String>) -> Seq<Seq<char>> {
    Seq::new(v.len(), |i: int| v[i]@)
}

/// The first index at or after `i` whose flag is set.
pub open spec fn first_true_from(ex: Seq<bool>, i: int) -> Option<int>
    decreases ex.len() - i,
{
    if i < 0 || i >= ex.len() {
        None
    } else if ex[i] {
        Some(i)
    } else {
        first_true_from(ex, i + 1)
    }
}

/// The dotted path with dots replaced by slashes.
#[verifier::loop_isolation(false)]
fn slashed_of(m: &str) -> (r: String)
    ensures
        r@ == slashed_path(m@),
{
    let n = m.unicode_len();
    let mut out = String::new();
    let mut i: usize = 0;
    proof {
        assert(out@ =~= slashed_path(m@).take(0));
    }
    while i < n
        invariant
            i <= n,
            n == m@.len(),
            out@ == slashed_path(m@).take(i as int),
        decreases n - i,
    {
        let c = m.get_char(i);
        if c == '.' {
            out.append("/");
        } else {
            let piece = m.substring_char(i, i + 1);
            out.append(piece);
        }
        i = i + 1;
        proof {
            reveal_strlit("/");
            assert(out@ =~= slashed_path(m@).take(i as int));
        }
    }
    proof {
        assert(slashed_path(m@).take(n as int) =~= slashed_path(m@));
    }
    out
}

/// Builds the ordered candidate file list for a dotted module path over
/// the given search roots.
#[verifier::loop_isolation(false)]
pub fn module_candidates(dotted_path: &str, search_roots: &Vec<String>) -> (r: Vec<String>)
    ensures
        strings_model(r@) == all_candidates(dotted_path@, strings_model(search_roots@), 0),
{
    let ghost mm = dotted_path@;
    let ghost rootsm = strings_model(search_roots@);
    let slashed = slashed_of(dotted_path);
    let dotted = match crate::python_analyzer::PythonAnalyzer::split_target(dotted_path) {
        Ok(_) => true,
        Err(_) => false,
    };
    proof {
        assert(dotted == has_dot(mm));
    }
    let mut out: Vec<String> = Vec::new();
    let mut k: usize = 0;
    proof {
        assert(strings_model(out@) =~= Seq::<Seq<char>>::empty());
    }
    while k < search_roots.len()
        invariant
            k <= search_roots@.len(),
            strings_model(out@) + all_candidates(mm, rootsm, k as int) == all_candidates(
                mm,
                rootsm,
                0,
            ),
        decreases search_roots@.len() - k,
    {
        let ghost out_before = strings_model(out@);
        let mut base = search_roots[k].clone();
        base.append("/");
        base.append(slashed.as_str());
        proof {
            assert(base@ =~= rootsm[k as int] + "/"@ + slashed_path(mm));
        }
        let mut c1 = base.clone();
        c1.append("/__init__.pyi");
        out.push(c1);
        let mut c2 = base.clone();
        c2.append("/__init__.py");
        out.push(c2);
        let mut c3 = base.clone();
        c3.append(".pyi");
        out.push(c3);
        let mut c4 = base.clone();
        c4.append(".py");
        out.push(c4);
        if dotted {
            let mut c5 = base.clone();
            c5.append(".pyi");
            out.push(c5);
            let mut c6 = base.clone();
            c6.append(".py");
            out.push(c6);
        }
        k = k + 1;
        proof {
            assert(strings_model(out@) =~= out_before + root_candidates(rootsm[k - 1], mm));
            assert((out_before + root_candidates(rootsm[k - 1], mm)) + all_candidates(
                mm,
                rootsm,
                k as int,
            ) =~= out_before + (root_candidates(rootsm[k - 1], mm) + all_candidates(
                mm,
                rootsm,
                k as int,
            )));
        }
    }
    proof {
        assert(all_candidates(mm, rootsm, search_roots@.len() as int) =~= Seq::<Seq<char>>::empty());
        assert(strings_model(out@) + Seq::<Seq<char>>::empty() =~= strings_model(out@));
    }
    out
}

/// Picks the first candidate that exists: `exists` reports, for each
/// candidate in order, whether the file is on disk.
pub fn first_existing(exists: &Vec<bool>) -> (r: Option<usize>)
    ensures
        match r {
            Some(i) => i < exists@.len() && Some(i as int) == first_true_from(exists@, 0),
            None => first_true_from(exists@, 0) is None,
        },
{
    let mut i: usize = 0;
    let n = exists.len();
    while i < n
        invariant
            i <= n,
            n == exists@.len(),
            first_true_from(exists@, i as int) == first_true_from(exists@, 0),
        decreases n - i,
    {
        if exists[i] {
            return Some(i);
        }
        i = i + 1;
    }
    None
}

/// In every candidate list, each stub candidate is its implementation
/// twin with a trailing `i`, and stands immediately before it: candidates
/// pair up, stub first.
pub proof fn lemma_candidates_paired(m: Seq<char>, roots: Seq<Seq<char>>, k: int, p: int)
    requires
        0 <= k,
        0 <= 2 * p,
        2 * p + 1 < all_candidates(m, roots, k).len(),
    ensures
        all_candidates(m, roots, k)[2 * p] == all_candidates(m, roots, k)[2 * p + 1] + "i"@,
    decreases roots.len() - k,
{
    let whole = all_candidates(m, roots, k);
    let head = root_candidates(roots[k], m);
    let tail = all_candidates(m, roots, k + 1);
    let base = roots[k] + "/"@ + slashed_path(m);
    reveal_strlit("/__init__.pyi");
    reveal_strlit("/__init__.py");
    reveal_strlit(".pyi");
    reveal_strlit(".py");
    reveal_strlit("i");
    assert(base + "/__init__.pyi"@ =~= (base + "/__init__.py"@) + "i"@);
    assert(base + ".pyi"@ =~= (base + ".py"@) + "i"@);
    if 2 * p + 1 < head.len() {
        assert(whole[2 * p] == head[2 * p]);
        assert(whole[2 * p + 1] == head[2 * p + 1]);
    } else {
        if has_dot(m) {
            assert(head.len() == 6);
        } else {
            assert(head.len() == 4);
        }
        lemma_candidates_paired(m, roots, k + 1, p - head.len() / 2);
        assert(whole[2 * p] == tail[2 * p - head.len()]);
        assert(whole[2 * p + 1] == tail[2 * p + 1 - head.len()]);
    }
}

/// A stub file that exists shadows its implementation twin: the selection
/// never lands on the twin standing right after an existing candidate.
pub proof fn lemma_stub_preferred(exists: Seq<bool>, p: int)
    requires
        0 <= 2 * p,
        2 * p + 1 < exists.len(),
        exists[2 * p],
    ensures
        first_true_from(exists, 0) != Some(2 * p + 1),
{
    lemma_first_true_min(exists, 0, 2 * p);
}

/// Whatever the selection returns, no earlier flag is set.
pub proof fn lemma_first_true_min(exists: Seq<bool>, i: int, j: int)
    requires
        0 <= i <= j < exists.len(),
        exists[j],
    ensures
        first_true_from(exists, i) matches Some(r) && r <= j,
    decreases j - i,
{
    if !exists[i] && i < j {
        lemma_first_true_min(exists, i + 1, j);
    }
}

} // verus!
