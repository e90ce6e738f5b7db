use vstd::prelude::*;
use vstd::string::StrSliceExecFns;

verus! {

/// Index of the first occurrence of `c` in `s` at or after `from`, or
/// `s.len()` when there is none (or when `from` is out of range).
pub open spec fn find_from(s: Seq<char>, c: char, from: int) -> int
    decreases s.len() - from,
{
    if from < 0 || from >= s.len() {
        s.len() as int
    } else if s[from] == c {
        from
    } else {
        find_from(s, c, from + 1)
    }
}

pub proof fn lemma_find_from(s: Seq<char>, c: char, from: int)
    requires
        0 <= from <= s.len(),
    ensures
        from <= find_from(s, c, from) <= s.len(),
        find_from(s, c, from) < s.len() ==> s[find_from(s, c, from)] == c,
        forall|k: int| from <= k < find_from(s, c, from) ==> s[k] != c,
    decreases s.len() - from,
{
    if from < s.len() && s[from] != c {
        lemma_find_from(s, c, from + 1);
    }
}

/// `find_from` never finds `c` in a range known to be free of it.
pub proof fn lemma_find_from_none(s: Seq<char>, c: char, from: int)
    requires
        0 <= from <= s.len(),
        forall|k: int| from <= k < s.len() ==> s[k] != c,
    ensures
        find_from(s, c, from) == s.len(),
    decreases s.len() - from,
{
    if from < s.len() {
        lemma_find_from_none(s, c, from + 1);
    }
}

/// A position that holds `c`, with nothing but other characters before it,
/// is what `find_from` returns.
pub proof fn lemma_find_from_is(s: Seq<char>, c: char, from: int, r: int)
    requires
        0 <= from <= r < s.len(),
        s[r] == c,
        forall|k: int| from <= k < r ==> s[k] != c,
    ensures
        find_from(s, c, from) == r,
    decreases r - from,
{
    if from < r {
        lemma_find_from_is(s, c, from + 1, r);
    }
}

/// Exec counterpart of `find_from`.
pub fn find_char(s: &str, c: char, from: usize) -> (r: usize)
    requires
        from <= s@.len(),
    ensures
        r as int == find_from(s@, c, from as int),
{
    let n = s.unicode_len();
    let mut i = from;
    while i < n
        invariant
            from <= i <= n,
            n == s@.len(),
            find_from(s@, c, from as int) == find_from(s@, c, i as int),
        decreases n - i,
    {
        if s.get_char(i) == c {
            proof {
                assert(find_from(s@, c, i as int) == i);
            }
            return i;
        }
        proof {
            assert(find_from(s@, c, i as int) == find_from(s@, c, i + 1));
        }
        i = i + 1;
    }
    proof {
        assert(find_from(s@, c, n as int) == n);
    }
    n
}

/// The blank characters that surround items in comma-separated header
/// values.
pub open spec fn is_blank(c: char) -> bool {
    c == ' ' || c == '\t'
}

/// `s` without its leading blanks.
pub open spec fn trim_start_blanks(s: Seq<char>) -> Seq<char>
    decreases s.len(),
{
    if s.len() > 0 && is_blank(s.first()) {
        trim_start_blanks(s.drop_first())
    } else {
        s
    }
}

/// `s` without its trailing blanks.
pub open spec fn trim_end_blanks(s: Seq<char>) -> Seq<char>
    decreases s.len(),
{
    if s.len() > 0 && is_blank(s.last()) {
        trim_end_blanks(s.drop_last())
    } else {
        s
    }
}

/// `s` without leading or trailing blanks.
pub open spec fn trim_blanks(s: Seq<char>) -> Seq<char> {
    trim_end_blanks(trim_start_blanks(s))
}

pub proof fn lemma_trim_start_at(s: Seq<char>, k: int)
    requires
        0 <= k <= s.len(),
        forall|i: int| 0 <= i < k ==> is_blank(#[trigger] s[i]),
        k == s.len() || !is_blank(s[k]),
    ensures
        trim_start_blanks(s) == s.subrange(k, s.len() as int),
    decreases k,
{
    if k == 0 {
        assert(s.subrange(0, s.len() as int) =~= s);
    } else {
        assert(is_blank(s.first()));
        assert(s.drop_first() =~= s.subrange(1, s.len() as int));
        lemma_trim_start_at(s.drop_first(), k - 1);
        assert(s.drop_first().subrange(k - 1, s.drop_first().len() as int) =~= s.subrange(
            k,
            s.len() as int,
        ));
    }
}

pub proof fn lemma_trim_end_at(s: Seq<char>, h: int)
    requires
        0 <= h <= s.len(),
        forall|i: int| h <= i < s.len() ==> is_blank(#[trigger] s[i]),
        h == 0 || !is_blank(s[h - 1]),
    ensures
        trim_end_blanks(s) == s.subrange(0, h),
    decreases s.len(),
{
    if h == s.len() {
        if s.len() > 0 {
            assert(!is_blank(s.last()));
        }
        assert(s.subrange(0, s.len() as int) =~= s);
    } else {
        assert(is_blank(s.last()));
        assert(s.drop_last() =~= s.subrange(0, s.len() - 1));
        lemma_trim_end_at(s.drop_last(), h);
        assert(s.drop_last().subrange(0, h) =~= s.subrange(0, h));
    }
}

/// Exec counterpart of `trim_blanks`.
pub fn trim_str<'a>(s: &'a str) -> (r: &'a str)
    ensures
        r@ == trim_blanks(s@),
{
    let n = s.unicode_len();
    let mut lo: usize = 0;
    while lo < n
        invariant_except_break
            lo <= n,
            n == s@.len(),
            forall|k: int| 0 <= k < lo ==> is_blank(#[trigger] s@[k]),
        ensures
            lo <= n,
            n == s@.len(),
            forall|k: int| 0 <= k < lo ==> is_blank(#[trigger] s@[k]),
            lo == n || !is_blank(s@[lo as int]),
        decreases n - lo,
    {
        let c = s.get_char(lo);
        if c == ' ' || c == '\t' {
            lo = lo + 1;
        } else {
            break ;
        }
    }
    let mut hi: usize = n;
    while hi > lo
        invariant_except_break
            lo <= hi <= n,
            n == s@.len(),
            forall|k: int| hi <= k < n ==> is_blank(#[trigger] s@[k]),
        ensures
            lo <= hi <= n,
            n == s@.len(),
            forall|k: int| hi <= k < n ==> is_blank(#[trigger] s@[k]),
            hi == lo || !is_blank(s@[hi - 1]),
        decreases hi,
    {
        let c = s.get_char(hi - 1);
        if c == ' ' || c == '\t' {
            hi = hi - 1;
        } else {
            break ;
        }
    }
    proof {
        lemma_trim_start_at(s@, lo as int);
        let t = s@.subrange(lo as int, n as int);
        assert forall|i: int| hi - lo <= i < t.len() implies is_blank(#[trigger] t[i]) by {
            assert(t[i] == s@[lo + i]);
        }
        if hi > lo {
            assert(t[hi - lo - 1] == s@[hi - 1]);
        }
        lemma_trim_end_at(t, hi - lo);
        assert(t.subrange(0, hi - lo) =~= s@.subrange(lo as int, hi as int));
    }
    s.substring_char(lo, hi)
}

/// The comma-separated pieces of `s` from `from` on, untrimmed.
pub open spec fn split_commas(s: Seq<char>, from: int) -> Seq<Seq<char>>
    decreases s.len() - from,
{
    let j = find_from(s, ',', from);
    if j < from || j >= s.len() {
        seq![s.subrange(from, s.len() as int)]
    } else {
        seq![s.subrange(from, j)] + split_commas(s, j + 1)
    }
}

/// The comma-separated items of `s`, each without surrounding blanks.
pub fn split_trimmed(s: &str) -> (r: Vec<String>)
    ensures
        r.deep_view() == split_commas(s@, 0).map_values(|x: Seq<char>| trim_blanks(x)),
{
    let n = s.unicode_len();
    let mut r: Vec<String> = Vec::new();
    let mut from: usize = 0;
    proof {
        assert(r.deep_view() =~= Seq::<Seq<char>>::empty());
    }
    loop
        invariant_except_break
            from <= n,
            n == s@.len(),
            split_commas(s@, 0).map_values(|x: Seq<char>| trim_blanks(x)) == r.deep_view()
                + split_commas(s@, from as int).map_values(|x: Seq<char>| trim_blanks(x)),
        ensures
            r.deep_view() == split_commas(s@, 0).map_values(|x: Seq<char>| trim_blanks(x)),
        decreases n - from,
    {
        let ghost prefix = r.deep_view();
        let j = find_char(s, ',', from);
        proof {
            lemma_find_from(s@, ',', from as int);
        }
        let piece = trim_str(s.substring_char(from, j));
        r.push(piece.to_owned());
        proof {
            assert(r.deep_view() =~= prefix.push(trim_blanks(s@.subrange(from as int, j as int))));
        }
        if j < n {
            proof {
                let f = |x: Seq<char>| trim_blanks(x);
                let tail = split_commas(s@, from as int);
                assert(tail == seq![s@.subrange(from as int, j as int)] + split_commas(
                    s@,
                    j + 1,
                ));
                assert(tail.map_values(f) =~= seq![trim_blanks(
                    s@.subrange(from as int, j as int),
                )] + split_commas(s@, j + 1).map_values(f));
                assert(prefix + tail.map_values(f) =~= r.deep_view() + split_commas(
                    s@,
                    j + 1,
                ).map_values(f));
            }
            from = j + 1;
        } else {
            proof {
                let f = |x: Seq<char>| trim_blanks(x);
                let tail = split_commas(s@, from as int);
                assert(tail == seq![s@.subrange(from as int, n as int)]);
                assert(tail.map_values(f) =~= seq![trim_blanks(
                    s@.subrange(from as int, n as int),
                )]);
                assert(prefix + tail.map_values(f) =~= r.deep_view());
            }
            break ;
        }
    }
    r
}

/// Character-for-character string equality, giving `==` on the views.
pub fn str_eq(a: &str, b: &str) -> (r: bool)
    ensures
        r == (a@ == b@),
{
    let na = a.unicode_len();
    let nb = b.unicode_len();
    if na != nb {
        return false;
    }
    let mut i: usize = 0;
    while i < na
        invariant
            i <= na,
            na == a@.len(),
            na == b@.len(),
            forall|k: int| 0 <= k < i ==> a@[k] == b@[k],
        decreases na - i,
    {
        if a.get_char(i) != b.get_char(i) {
            return false;
        }
        i = i + 1;
    }
    proof {
        assert(a@ =~= b@);
    }
    true
}

} // verus!
