//! Character-level text operations with exact specifications.
//!
//! Request paths, cookie headers and file names are handled as sequences of
//! `char`.  The spec functions here describe `str::split` with a non-empty
//! pattern (leftmost, non-overlapping matches), `str::starts_with` and
//! decimal rendering of integers; the executable functions are proved to
//! compute exactly these.
use vstd::prelude::*;
use vstd::string::*;

verus! {

/// `pat` occurs in `s` starting at index `i`.
pub open spec fn matches_at(s: Seq<char>, pat: Seq<char>, i: int) -> bool {
    0 <= i && i + pat.len() <= s.len() && s.subrange(i, i + pat.len()) =~= pat
}

/// `s` begins with `prefix`.
pub open spec fn has_prefix(s: Seq<char>, prefix: Seq<char>) -> bool {
    matches_at(s, prefix, 0)
}

/// The first index `i >= start` at which `pat` occurs in `s`.
pub open spec fn find_from(s: Seq<char>, pat: Seq<char>, start: int) -> Option<int>
    decreases s.len() - start,
{
    if start < 0 || start + pat.len() > s.len() {
        None
    } else if matches_at(s, pat, start) {
        Some(start)
    } else {
        find_from(s, pat, start + 1)
    }
}

pub proof fn lemma_find_from(s: Seq<char>, pat: Seq<char>, start: int)
    requires
        0 <= start,
    ensures
        find_from(s, pat, start) matches Some(i) ==> start <= i && matches_at(s, pat, i) && (
        forall|j: int| start <= j < i ==> !matches_at(s, pat, j)),
        find_from(s, pat, start) is None ==> forall|j: int| start <= j ==> !matches_at(s, pat, j),
    decreases s.len() - start,
{
    if start + pat.len() > s.len() {
    } else if matches_at(s, pat, start) {
    } else {
        lemma_find_from(s, pat, start + 1);
        assert forall|j: int| start <= j && find_from(s, pat, start) is None implies !matches_at(
            s,
            pat,
            j,
        ) by {
            if j > start {
            }
        }
    }
}

/// The pieces of `s` between successive leftmost, non-overlapping
/// occurrences of `pat`, scanning from `start` (what `str::split` yields).
pub open spec fn split_from(s: Seq<char>, pat: Seq<char>, start: int) -> Seq<Seq<char>>
    decreases s.len() - start,
{
    if pat.len() == 0 || start < 0 || start > s.len() {
        seq![s.subrange(start, s.len() as int)]
    } else {
        match find_from(s, pat, start) {
            Some(i) => {
                proof {
                    lemma_find_from(s, pat, start);
                }
                seq![s.subrange(start, i)] + split_from(s, pat, i + pat.len())
            },
            None => seq![s.subrange(start, s.len() as int)],
        }
    }
}

/// `s.split(pat)` collected, for a non-empty pattern.
pub open spec fn split(s: Seq<char>, pat: Seq<char>) -> Seq<Seq<char>> {
    split_from(s, pat, 0)
}

/// `s.split(pat).nth(n)`.
pub open spec fn split_nth(s: Seq<char>, pat: Seq<char>, n: int) -> Option<Seq<char>> {
    if 0 <= n < split(s, pat).len() {
        Some(split(s, pat)[n])
    } else {
        None
    }
}

pub proof fn lemma_split_from_nonempty(s: Seq<char>, pat: Seq<char>, start: int)
    ensures
        split_from(s, pat, start).len() >= 1,
    decreases s.len() - start,
{
    if pat.len() == 0 || start < 0 || start > s.len() {
    } else {
        match find_from(s, pat, start) {
            Some(i) => {
                lemma_find_from(s, pat, start);
                lemma_split_from_nonempty(s, pat, i + pat.len());
            },
            None => {},
        }
    }
}

/// `s` holds no `c`.
pub open spec fn free_of(s: Seq<char>, c: char) -> bool {
    forall|i: int| 0 <= i < s.len() ==> s[i] != c
}

proof fn lemma_find_char(s: Seq<char>, c: char, start: int, at: int)
    requires
        0 <= start <= at < s.len(),
        s[at] == c,
        forall|i: int| start <= i < at ==> s[i] != c,
    ensures
        find_from(s, seq![c], start) == Some(at),
    decreases at - start,
{
    if start < at {
        assert(!matches_at(s, seq![c], start)) by {
            assert(s.subrange(start, start + 1)[0] != c);
        }
        lemma_find_char(s, c, start + 1, at);
    } else {
        assert(s.subrange(at, at + 1) =~= seq![c]);
    }
}

proof fn lemma_no_char(s: Seq<char>, c: char, start: int)
    requires
        0 <= start <= s.len(),
        forall|i: int| start <= i < s.len() ==> s[i] != c,
    ensures
        find_from(s, seq![c], start) is None,
    decreases s.len() - start,
{
    if start + 1 <= s.len() {
        assert(!matches_at(s, seq![c], start)) by {
            assert(s.subrange(start, start + 1)[0] != c);
        }
        lemma_no_char(s, c, start + 1);
    }
}

/// Splitting at a character that the text lacks gives the whole text.
pub proof fn lemma_split_free(s: Seq<char>, c: char)
    requires
        free_of(s, c),
    ensures
        split(s, seq![c]) == seq![s],
{
    lemma_no_char(s, c, 0);
    assert(s.subrange(0, s.len() as int) =~= s);
}

/// Splitting `a + c + b` at `c`, where `a` lacks `c`, gives `a` and then the
/// pieces of `b`.
pub proof fn lemma_split_first(a: Seq<char>, c: char, b: Seq<char>)
    requires
        free_of(a, c),
    ensures
        split(a + seq![c] + b, seq![c]) == seq![a] + split(b, seq![c]),
{
    let s = a + seq![c] + b;
    let n = a.len() as int;
    assert(s[n] == c);
    assert forall|i: int| 0 <= i < n implies s[i] != c by {
        assert(s[i] == a[i]);
    }
    lemma_find_char(s, c, 0, n);
    assert(s.subrange(0, n) =~= a);
    lemma_split_shift(a + seq![c], b, seq![c], 0);
    assert(split_from(s, seq![c], n + 1) == split_from(b, seq![c], 0));
}

/// Splitting the tail of `p + b` from the end of `p` is splitting `b`.
pub proof fn lemma_split_shift(p: Seq<char>, b: Seq<char>, pat: Seq<char>, start: int)
    requires
        0 <= start <= b.len(),
        pat.len() > 0,
    ensures
        split_from(p + b, pat, p.len() + start) == split_from(b, pat, start),
    decreases b.len() - start,
{
    let s = p + b;
    let off = p.len() as int;
    assert forall|j: int| start <= j ==> #[trigger] matches_at(s, pat, off + j) == matches_at(b, pat, j) by {
        if 0 <= j && j + pat.len() <= b.len() {
            assert(s.subrange(off + j, off + j + pat.len()) =~= b.subrange(j, j + pat.len()));
        }
    }
    lemma_find_shift(p, b, pat, start);
    lemma_find_from(b, pat, start);
    match find_from(b, pat, start) {
        Some(i) => {
            lemma_split_shift(p, b, pat, i + pat.len());
            assert(s.subrange(off + start, off + i) =~= b.subrange(start, i));
        },
        None => {
            assert(s.subrange(off + start, s.len() as int) =~= b.subrange(start, b.len() as int));
        },
    }
}

proof fn lemma_find_shift(p: Seq<char>, b: Seq<char>, pat: Seq<char>, start: int)
    requires
        0 <= start,
    ensures
        find_from(p + b, pat, p.len() + start) == match find_from(b, pat, start) {
            Some(i) => Some(p.len() + i),
            None => None,
        },
    decreases b.len() - start,
{
    let s = p + b;
    let off = p.len() as int;
    if start + pat.len() > b.len() {
    } else {
        if 0 <= start && start + pat.len() <= b.len() {
            assert(s.subrange(off + start, off + start + pat.len()) =~= b.subrange(
                start,
                start + pat.len(),
            ));
        }
        if !matches_at(b, pat, start) {
            lemma_find_shift(p, b, pat, start + 1);
        }
    }
}

/// Views of a vector of strings.
pub open spec fn views(v: Seq<String>) -> Seq<Seq<char>> {
    Seq::new(v.len(), |i: int| v[i]@)
}

/// Decimal digits of a natural number, most significant first.
pub open spec fn decimal(n: nat) -> Seq<char>
    decreases n,
{
    if n < 10 {
        seq![digit_char(n)]
    } else {
        decimal(n / 10) + seq![digit_char(n % 10)]
    }
}

pub open spec fn digit_char(d: nat) -> char {
    if d == 0 {
        '0'
    } else if d == 1 {
        '1'
    } else if d == 2 {
        '2'
    } else if d == 3 {
        '3'
    } else if d == 4 {
        '4'
    } else if d == 5 {
        '5'
    } else if d == 6 {
        '6'
    } else if d == 7 {
        '7'
    } else if d == 8 {
        '8'
    } else {
        '9'
    }
}

/// The characters of `s`.
pub fn chars_of(s: &str) -> (v: Vec<char>)
    ensures
        v@ == s@,
{
    let n = s.unicode_len();
    let mut v: Vec<char> = Vec::new();
    let mut i: usize = 0;
    while i < n
        invariant
            i <= n,
            n == s@.len(),
            v@ =~= s@.subrange(0, i as int),
        decreases n - i,
    {
        v.push(s.get_char(i));
        i += 1;
    }
    v
}

/// Whether `pat` occurs in `s` at index `i`.
pub fn matches_at_exec(s: &Vec<char>, pat: &Vec<char>, i: usize) -> (b: bool)
    ensures
        b == matches_at(s@, pat@, i as int),
{
    if i > s.len() || pat.len() > s.len() - i {
        return false;
    }
    let mut j: usize = 0;
    while j < pat.len()
        invariant
            i + pat@.len() <= s@.len(),
            j <= pat@.len(),
            forall|k: int| 0 <= k < j ==> s@[i + k] == pat@[k],
        decreases pat.len() - j,
    {
        assert(i + j < s.len());
        if s[i + j] != pat[j] {
            assert(s@.subrange(i as int, i + pat@.len())[j as int] != pat@[j as int]);
            return false;
        }
        j += 1;
    }
    assert(s@.subrange(i as int, i + pat@.len()) =~= pat@);
    true
}

/// The first occurrence of `pat` in `s` at or after `start`.
pub fn find_from_exec(s: &Vec<char>, pat: &Vec<char>, start: usize) -> (r: Option<usize>)
    ensures
        match r {
            Some(i) => find_from(s@, pat@, start as int) == Some(i as int),
            None => find_from(s@, pat@, start as int) is None,
        },
{
    let mut i = start;
    while i <= s.len() && pat.len() <= s.len() - i
        invariant
            start <= i,
            find_from(s@, pat@, start as int) == find_from(s@, pat@, i as int),
        decreases s.len() + 1 - i,
    {
        if matches_at_exec(s, pat, i) {
            return Some(i);
        }
        i += 1;
    }
    None
}

/// The characters `v[from..to]` as a string.
pub fn substring(s: &str, from: usize, to: usize) -> (r: String)
    requires
        from <= to <= s@.len(),
    ensures
        r@ == s@.subrange(from as int, to as int),
{
    s.substring_char(from, to).to_owned()
}

/// `s.split(pat)` collected into owned strings.
pub fn split_exec(s: &str, pat: &str) -> (r: Vec<String>)
    requires
        pat@.len() > 0,
    ensures
        views(r@) == split(s@, pat@),
{
    let cs = chars_of(s);
    let ps = chars_of(pat);
    let mut r: Vec<String> = Vec::new();
    let mut start: usize = 0;
    loop
        invariant
            cs@ == s@,
            ps@ == pat@,
            ps@.len() > 0,
            start <= cs@.len(),
            views(r@) + split_from(s@, pat@, start as int) == split_from(s@, pat@, 0),
        decreases cs@.len() - start,
    {
        proof {
            lemma_find_from(s@, pat@, start as int);
        }
        match find_from_exec(&cs, &ps, start) {
            Some(i) => {
                let piece = substring(s, start, i);
                let ghost old_r = r@;
                r.push(piece);
                proof {
                    assert(views(r@) =~= views(old_r) + seq![piece@]);
                    assert(views(r@) + split_from(s@, pat@, (i + ps@.len()) as int) =~= views(old_r)
                        + split_from(s@, pat@, start as int));
                }
                assert(i + ps.len() <= cs.len());
                start = i + ps.len();
            },
            None => {
                let piece = substring(s, start, cs.len());
                let ghost old_r = r@;
                r.push(piece);
                proof {
                    assert(views(r@) =~= views(old_r) + split_from(s@, pat@, start as int));
                }
                return r;
            },
        }
    }
}

/// `s.split(pat).nth(n)`.
pub fn split_nth_exec(s: &str, pat: &str, n: usize) -> (r: Option<String>)
    requires
        pat@.len() > 0,
    ensures
        match r {
            Some(x) => split_nth(s@, pat@, n as int) == Some(x@),
            None => split_nth(s@, pat@, n as int) is None,
        },
{
    let mut pieces = split_exec(s, pat);
    if n < pieces.len() {
        let ghost vs = views(pieces@);
        assert(vs[n as int] == pieces@[n as int]@);
        Some(pieces.swap_remove(n))
    } else {
        None
    }
}

/// `s.starts_with(prefix)`.
pub fn starts_with(s: &str, prefix: &str) -> (b: bool)
    ensures
        b == has_prefix(s@, prefix@),
{
    let cs = chars_of(s);
    let ps = chars_of(prefix);
    matches_at_exec(&cs, &ps, 0)
}

/// `a == b` on strings.
pub fn str_eq(a: &str, b: &str) -> (r: bool)
    ensures
        r == (a@ == b@),
{
    let ca = chars_of(a);
    let cb = chars_of(b);
    if ca.len() != cb.len() {
        return false;
    }
    let r = matches_at_exec(&ca, &cb, 0);
    proof {
        if r {
            assert(a@ =~= b@.subrange(0, b@.len() as int));
            assert(a@.subrange(0, b@.len() as int) =~= a@);
        }
    }
    r
}

fn digit_string(d: u64) -> (r: String)
    requires
        d < 10,
    ensures
        r@ == seq![digit_char(d as nat)],
{
    let s = if d == 0 {
        "0"
    } else if d == 1 {
        "1"
    } else if d == 2 {
        "2"
    } else if d == 3 {
        "3"
    } else if d == 4 {
        "4"
    } else if d == 5 {
        "5"
    } else if d == 6 {
        "6"
    } else if d == 7 {
        "7"
    } else if d == 8 {
        "8"
    } else {
        "9"
    };
    proof {
        reveal_strlit("0");
        reveal_strlit("1");
        reveal_strlit("2");
        reveal_strlit("3");
        reveal_strlit("4");
        reveal_strlit("5");
        reveal_strlit("6");
        reveal_strlit("7");
        reveal_strlit("8");
        reveal_strlit("9");
    }
    s.to_owned()
}

/// The decimal rendering of `n` (what `n.to_string()` gives).
pub fn decimal_string(n: u64) -> (r: String)
    ensures
        r@ == decimal(n as nat),
    decreases n,
{
    if n < 10 {
        digit_string(n)
    } else {
        let head = decimal_string(n / 10);
        let tail = digit_string(n % 10);
        head.concat(tail.as_str())
    }
}

} // verus!
