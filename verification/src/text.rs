//! Character-level text utilities: the whole library measures positions in
//! character columns, so documents are handled as vectors of `char`.

use vstd::prelude::*;
use vstd::string::StrSliceExecFns;
use vstd::string::StringExecFns;

verus! {

/// Whitespace inside a line: blanks and tabs.
pub open spec fn is_ws(c: char) -> bool {
    c == ' ' || c == '\t'
}

/// `pat` occurs in `hay` at position `i`.
pub open spec fn match_at(hay: Seq<char>, pat: Seq<char>, i: int) -> bool {
    &&& 0 <= i
    &&& i + pat.len() <= hay.len()
    &&& hay.subrange(i, i + pat.len()) == pat
}

/// `pat` occurs somewhere in `hay[from..to]` (the match must start in the
/// window and may extend to the window's end only).
pub open spec fn match_in(hay: Seq<char>, pat: Seq<char>, from: int, to: int) -> bool {
    exists|i: int| from <= i && i + pat.len() <= to && match_at(hay, pat, i)
}

/// The characters of `s`, in order.
pub fn chars_of(s: &str) -> (v: Vec<char>)
    ensures
        v@ == s@,
{
    let n: usize = s.unicode_len();
    let mut v: Vec<char> = Vec::new();
    let mut i: usize = 0;
    while i < n
        invariant
            n == s@.len(),
            i <= n,
            v@ == s@.take(i as int),
        decreases n - i,
    {
        let c = s.get_char(i);
        v.push(c);
        i = i + 1;
        proof {
            assert(v@ =~= s@.take(i as int));
        }
    }
    proof {
        assert(v@ =~= s@);
    }
    v
}

/// Whether two string slices hold the same characters.
pub fn str_view_eq(a: &str, b: &str) -> (r: bool)
    ensures
        r == (a@ == b@),
{
    let n: usize = a.unicode_len();
    let m: usize = b.unicode_len();
    if n != m {
        return false;
    }
    let mut i: usize = 0;
    while i < n
        invariant
            n == a@.len(),
            n == b@.len(),
            i <= n,
            forall|j: int| 0 <= j < i ==> a@[j] == b@[j],
        decreases n - i,
    {
        if a.get_char(i) != b.get_char(i) {
            return false;
        }
        i = i + 1;
    }
    proof {
        assert(a@ =~= b@);
    }
    true
}

/// Whether `pat` occurs in `hay` exactly at position `at`.
pub fn occurs_at(hay: &Vec<char>, pat: &Vec<char>, at: usize) -> (r: bool)
    ensures
        r == match_at(hay@, pat@, at as int),
{
    if at > hay.len() || pat.len() > hay.len() - at {
        proof {
            assert(!match_at(hay@, pat@, at as int));
        }
        return false;
    }
    let mut k: usize = 0;
    while k < pat.len()
        invariant
            at + pat.len() <= hay.len(),
            k <= pat.len(),
            forall|j: int| 0 <= j < k ==> hay@[at + j] == pat@[j],
        decreases pat.len() - k,
    {
        if hay[at + k] != pat[k] {
            proof {
                assert(hay@.subrange(at as int, at + pat@.len())[k as int] == hay@[at + k]);
            }
            return false;
        }
        k = k + 1;
    }
    proof {
        assert(hay@.subrange(at as int, at + pat@.len()) =~= pat@);
    }
    true
}

/// The first position in `hay[from..to]` where `pat` occurs, if any.
pub fn find_in(hay: &Vec<char>, pat: &Vec<char>, from: usize, to: usize) -> (r: Option<usize>)
    requires
        from <= to <= hay@.len(),
    ensures
        match r {
            Some(i) => {
                &&& from <= i
                &&& i + pat@.len() <= to
                &&& match_at(hay@, pat@, i as int)
                &&& forall|j: int|
                    from <= j < i ==> !(j + pat@.len() <= to && match_at(hay@, pat@, j))
            },
            None => !match_in(hay@, pat@, from as int, to as int),
        },
{
    let mut i: usize = from;
    loop
        invariant
            from <= i <= to + 1,
            to <= hay@.len(),
            forall|j: int| from <= j < i ==> !(j + pat@.len() <= to && match_at(hay@, pat@, j)),
        decreases to + 1 - i,
    {
        if i > to || pat.len() > to - i {
            return None;
        }
        if occurs_at(hay, pat, i) {
            return Some(i);
        }
        proof {
            if pat@.len() == 0 {
                assert(hay@.subrange(i as int, i as int) =~= pat@);
            }
            assert(pat@.len() >= 1 && i + pat@.len() <= to);
        }
        i = i + 1;
    }
}

/// The character for one decimal digit.
pub open spec fn digit_char(d: nat) -> char {
    if d == 0 {
        '0'
    } else if d == 1 {
        '1'
    } else if d == 2 {
        '2'
    } else if d == 3 {
        '3'
    } else if d == 4 {
        '4'
    } else if d == 5 {
        '5'
    } else if d == 6 {
        '6'
    } else if d == 7 {
        '7'
    } else if d == 8 {
        '8'
    } else {
        '9'
    }
}

/// The decimal digits of `n`, most significant first.
pub open spec fn dec_digits(n: nat) -> Seq<char>
    decreases n,
{
    if n < 10 {
        seq![digit_char(n)]
    } else {
        dec_digits(n / 10).push(digit_char(n % 10))
    }
}

/// One decimal digit as text.
pub fn digit_str(d: u64) -> (r: &'static str)
    requires
        d < 10,
    ensures
        r@ == seq![digit_char(d as nat)],
{
    proof {
        reveal_strlit("0");
        reveal_strlit("1");
        reveal_strlit("2");
        reveal_strlit("3");
        reveal_strlit("4");
        reveal_strlit("5");
        reveal_strlit("6");
        reveal_strlit("7");
        reveal_strlit("8");
        reveal_strlit("9");
    }
    let r = if d == 0 {
        "0"
    } else if d == 1 {
        "1"
    } else if d == 2 {
        "2"
    } else if d == 3 {
        "3"
    } else if d == 4 {
        "4"
    } else if d == 5 {
        "5"
    } else if d == 6 {
        "6"
    } else if d == 7 {
        "7"
    } else if d == 8 {
        "8"
    } else {
        "9"
    };
    proof {
        assert(r@ =~= seq![digit_char(d as nat)]);
    }
    r
}

/// Renders `n` in decimal.
pub fn dec_u64(n: u64) -> (s: String)
    ensures
        s@ == dec_digits(n as nat),
    decreases n,
{
    if n < 10 {
        digit_str(n).to_owned()
    } else {
        let mut s = dec_u64(n / 10);
        s.append(digit_str(n % 10));
        s
    }
}

/// `r` lists, in order, the line windows of `s`: each entry `(a, b)` is one
/// line's characters `s[a..b]`, excluding the terminating `'\n'` and a `'\r'`
/// directly before it, and excluding a trailing empty line after a final
/// line break.  These conditions determine the windows uniquely.
pub open spec fn is_line_partition(s: Seq<char>, r: Seq<(usize, usize)>) -> bool {
    &&& (r.len() == 0 <==> s.len() == 0)
    &&& forall|k: int| 0 <= k < r.len() ==> (#[trigger] r[k]).0 <= r[k].1 <= s.len()
    &&& (r.len() > 0 ==> r[0].0 == 0)
    &&& forall|k: int, j: int|
        #![trigger r[k], s[j]]
        0 <= k < r.len() && r[k].0 <= j < r[k].1 ==> s[j] != '\n' && !(s[j] == '\r' && j + 1
            < s.len() && s[j + 1] == '\n')
    &&& forall|k: int|
        0 <= k < r.len() - 1 ==> {
            let e = (#[trigger] r[k]).1 as int;
            (s[e] == '\n' && r[k + 1].0 == e + 1) || (s[e] == '\r' && e + 1 < s.len() && s[e + 1]
                == '\n' && r[k + 1].0 == e + 2)
        }
    &&& (r.len() > 0 ==> {
        let e = r[r.len() - 1].1 as int;
        ||| e == s.len()
        ||| (s[e] == '\n' && e + 1 == s.len())
        ||| (s[e] == '\r' && e + 1 < s.len() && s[e + 1] == '\n' && e + 2 == s.len())
    })
    &&& (r.len() > 0 ==> r[r.len() - 1].0 < s.len())
}

/// Two line partitions of one text agree on every common index.
#[verifier::spinoff_prover]
#[verifier::rlimit(100)]
pub proof fn lemma_line_partition_prefix(
    s: Seq<char>,
    r1: Seq<(usize, usize)>,
    r2: Seq<(usize, usize)>,
    k: int,
)
    requires
        is_line_partition(s, r1),
        is_line_partition(s, r2),
        0 <= k < r1.len(),
        k < r2.len(),
    ensures
        r1[k] == r2[k],
    decreases k,
{
    if k > 0 {
        lemma_line_partition_prefix(s, r1, r2, k - 1);
    }
    assert(r1[k].0 == r2[k].0);
    let a = r1[k].0;
    let e1 = r1[k].1 as int;
    let e2 = r2[k].1 as int;
    if e1 < e2 {
        assert(a <= e1 < e2);
        assert(s[e1] != '\n' && !(s[e1] == '\r' && e1 + 1 < s.len() && s[e1 + 1] == '\n'));
        if k < r1.len() - 1 {
            assert(false);
        } else {
            assert(e1 < e2 <= s.len());
            assert(false);
        }
    }
    if e2 < e1 {
        assert(a <= e2 < e1);
        assert(s[e2] != '\n' && !(s[e2] == '\r' && e2 + 1 < s.len() && s[e2 + 1] == '\n'));
        if k < r2.len() - 1 {
            assert(false);
        } else {
            assert(e2 < e1 <= s.len());
            assert(false);
        }
    }
}

/// A line partition is never a proper prefix of another.
proof fn lemma_line_partition_not_shorter(
    s: Seq<char>,
    r1: Seq<(usize, usize)>,
    r2: Seq<(usize, usize)>,
)
    requires
        is_line_partition(s, r1),
        is_line_partition(s, r2),
    ensures
        r1.len() >= r2.len(),
{
    if r1.len() < r2.len() {
        assert(r2.len() > 0);
        assert(s.len() > 0);
        assert(r1.len() > 0);
        let k = r1.len() - 1;
        lemma_line_partition_prefix(s, r1, r2, k);
        let e = r1[k].1 as int;
        assert(k < r2.len() - 1);
        if e == s.len() {
            assert(r2[k + 1].0 <= r2[k + 1].1 <= s.len());
            assert(false);
        } else {
            assert(r2[k + 1].0 as int == s.len());
            if k + 1 < r2.len() - 1 {
                assert(r2[k + 2].0 <= r2[k + 2].1 <= s.len());
                assert(r2[k + 1].1 as int == s.len());
                assert(false);
            } else {
                assert(r2[r2.len() - 1].0 < s.len());
                assert(false);
            }
        }
    }
}

/// A text has exactly one line partition.
pub proof fn lemma_line_partition_unique(
    s: Seq<char>,
    r1: Seq<(usize, usize)>,
    r2: Seq<(usize, usize)>,
)
    requires
        is_line_partition(s, r1),
        is_line_partition(s, r2),
    ensures
        r1 == r2,
{
    lemma_line_partition_not_shorter(s, r1, r2);
    lemma_line_partition_not_shorter(s, r2, r1);
    assert forall|k: int| 0 <= k < r1.len() implies r1[k] == r2[k] by {
        lemma_line_partition_prefix(s, r1, r2, k);
    }
    assert(r1 =~= r2);
}

/// Splits a document into its line windows.
pub fn line_ranges(v: &Vec<char>) -> (r: Vec<(usize, usize)>)
    ensures
        is_line_partition(v@, r@),
{
    let n: usize = v.len();
    let mut r: Vec<(usize, usize)> = Vec::new();
    let mut start: usize = 0;
    let mut i: usize = 0;
    while i < n
        invariant
            start <= i <= n,
            n == v@.len(),
            forall|k: int| 0 <= k < r@.len() ==> (#[trigger] r@[k]).0 <= r@[k].1 <= i,
            (r@.len() > 0 ==> r@[0].0 == 0),
            (r@.len() == 0 ==> start == 0),
            forall|k: int, j: int|
                #![trigger r@[k], v@[j]]
                0 <= k < r@.len() && r@[k].0 <= j < r@[k].1 ==> v@[j] != '\n' && !(v@[j] == '\r'
                && j + 1 < v@.len() && v@[j + 1] == '\n')
            ,
            forall|k: int|
                0 <= k < r@.len() ==> {
                    let e = (#[trigger] r@[k]).1 as int;
                    let nxt = if k + 1 < r@.len() {
                        r@[k + 1].0 as int
                    } else {
                        start as int
                    };
                    (v@[e] == '\n' && nxt == e + 1) || (v@[e] == '\r' && e + 1 < v@.len() && v@[e
                        + 1] == '\n' && nxt == e + 2)
                }
            ,
            forall|j: int|
                start <= j < i ==> #[trigger] v@[j] != '\n' && !(v@[j] == '\r' && j + 1 < v@.len()
                    && v@[j + 1] == '\n')
            ,
        decreases n - i,
    {
        let c = v[i];
        if c == '\n' {
            r.push((start, i));
            start = i + 1;
        } else if c == '\r' && i + 1 < n && v[i + 1] == '\n' {
            r.push((start, i));
            start = i + 2;
            i = i + 1;
        }
        i = i + 1;
    }
    if start < n {
        r.push((start, n));
    }
    proof {
        assert(is_line_partition(v@, r@));
    }
    r
}

} // verus!
