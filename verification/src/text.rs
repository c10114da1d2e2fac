//! Character-level helpers on strings: whitespace, trimming, first line.
use vstd::prelude::*;

verus! {

/// The view of an optional string.
pub open spec fn opt_chars(o: Option<String>) -> Option<Seq<char>> {
    match o {
        Some(s) => Some(s@),
        None => None,
    }
}

/// The Unicode `White_Space` property, which `char::is_whitespace` tests.
pub open spec fn is_ws(c: char) -> bool {
    let u = c as u32;
    ||| 0x09 <= u <= 0x0d
    ||| u == 0x20
    ||| u == 0x85
    ||| u == 0xa0
    ||| u == 0x1680
    ||| 0x2000 <= u <= 0x200a
    ||| u == 0x2028
    ||| u == 0x2029
    ||| u == 0x202f
    ||| u == 0x205f
    ||| u == 0x3000
}

/// Whether `c` is white space.
pub fn is_whitespace(c: char) -> (r: bool)
    ensures
        r == is_ws(c),
{
    let u = c as u32;
    (0x09 <= u && u <= 0x0d) || u == 0x20 || u == 0x85 || u == 0xa0 || u == 0x1680 || (0x2000
        <= u && u <= 0x200a) || u == 0x2028 || u == 0x2029 || u == 0x202f || u == 0x205f || u
        == 0x3000
}

/// The characters of a string, in order.
pub fn chars_of(s: &str) -> (v: Vec<char>)
    ensures
        v@ == s@,
{
    let mut v: Vec<char> = Vec::new();
    for c in iter: s.chars()
        invariant
            v@ == iter.seq().take(iter.index() as int),
            iter.seq() == s@,
    {
        v.push(c);
    }
    v
}


/// `s` without its leading white space.
pub open spec fn trim_start(s: Seq<char>) -> Seq<char>
    decreases s.len(),
{
    if s.len() > 0 && is_ws(s[0]) {
        trim_start(s.drop_first())
    } else {
        s
    }
}

/// `s` without its trailing white space.
pub open spec fn trim_end(s: Seq<char>) -> Seq<char>
    decreases s.len(),
{
    if s.len() > 0 && is_ws(s.last()) {
        trim_end(s.drop_last())
    } else {
        s
    }
}

/// `s` without leading and trailing white space, as `str::trim` gives it.
pub open spec fn trim(s: Seq<char>) -> Seq<char> {
    trim_end(trim_start(s))
}

/// The characters of `s` before its first line feed (all of `s` if it has none).
pub open spec fn first_line(s: Seq<char>) -> Seq<char>
    decreases s.len(),
{
    if s.len() == 0 || s[0] == '\n' {
        Seq::empty()
    } else {
        seq![s[0]] + first_line(s.drop_first())
    }
}

/// At most the first `n` characters of `s`, as `chars().take(n)` gives them.
pub open spec fn take_chars(s: Seq<char>, n: nat) -> Seq<char> {
    if s.len() <= n {
        s
    } else {
        s.take(n as int)
    }
}

proof fn lemma_trim_start(s: Seq<char>, i: int)
    requires
        0 <= i <= s.len(),
        forall|k: int| 0 <= k < i ==> is_ws(#[trigger] s[k]),
        i == s.len() || !is_ws(s[i]),
    ensures
        trim_start(s) == s.subrange(i, s.len() as int),
    decreases i,
{
    if i == 0 {
        assert(s.subrange(0, s.len() as int) =~= s);
    } else {
        let t = s.drop_first();
        assert forall|k: int| 0 <= k < i - 1 implies is_ws(#[trigger] t[k]) by {
            assert(t[k] == s[k + 1]);
        }
        lemma_trim_start(t, i - 1);
        assert(t.subrange(i - 1, t.len() as int) =~= s.subrange(i, s.len() as int));
    }
}

proof fn lemma_trim_end(s: Seq<char>, j: int)
    requires
        0 <= j <= s.len(),
        forall|k: int| j <= k < s.len() ==> is_ws(#[trigger] s[k]),
        j == 0 || !is_ws(s[j - 1]),
    ensures
        trim_end(s) == s.subrange(0, j),
    decreases s.len() - j,
{
    if j == s.len() {
        assert(s.subrange(0, j) =~= s);
    } else {
        let t = s.drop_last();
        assert(is_ws(s[s.len() - 1]));
        assert forall|k: int| j <= k < t.len() implies is_ws(#[trigger] t[k]) by {
            assert(t[k] == s[k]);
        }
        lemma_trim_end(t, j);
        assert(t.subrange(0, j) =~= s.subrange(0, j));
    }
}

proof fn lemma_first_line(s: Seq<char>, k: int)
    requires
        0 <= k <= s.len(),
        forall|m: int| 0 <= m < k ==> #[trigger] s[m] != '\n',
        k == s.len() || s[k] == '\n',
    ensures
        first_line(s) == s.take(k),
    decreases k,
{
    if k == 0 {
        assert(s.take(0) =~= Seq::<char>::empty());
    } else {
        let t = s.drop_first();
        assert forall|m: int| 0 <= m < k - 1 implies #[trigger] t[m] != '\n' by {
            assert(t[m] == s[m + 1]);
        }
        assert(s[0] != '\n');
        lemma_first_line(t, k - 1);
        assert(seq![s[0]] + t.take(k - 1) =~= s.take(k));
    }
}

proof fn lemma_trim_start_shape(x: Seq<char>)
    ensures
        trim_start(x).len() <= x.len(),
        trim_start(x) == x.subrange(x.len() - trim_start(x).len(), x.len() as int),
        trim_start(x).len() == 0 || !is_ws(trim_start(x)[0]),
        forall|k: int| 0 <= k < x.len() - trim_start(x).len() ==> is_ws(#[trigger] x[k]),
    decreases x.len(),
{
    if x.len() > 0 && is_ws(x[0]) {
        let t = x.drop_first();
        lemma_trim_start_shape(t);
        assert(t.subrange(t.len() - trim_start(t).len(), t.len() as int) =~= x.subrange(
            x.len() - trim_start(t).len(),
            x.len() as int,
        ));
        assert forall|k: int| 0 <= k < x.len() - trim_start(x).len() implies is_ws(
            #[trigger] x[k],
        ) by {
            if k > 0 {
                assert(x[k] == t[k - 1]);
            }
        }
    } else {
        assert(x.subrange(0, x.len() as int) =~= x);
    }
}

proof fn lemma_trim_end_shape(x: Seq<char>)
    ensures
        trim_end(x).len() <= x.len(),
        trim_end(x) == x.take(trim_end(x).len() as int),
        trim_end(x).len() == 0 || !is_ws(trim_end(x).last()),
        forall|k: int| trim_end(x).len() <= k < x.len() ==> is_ws(#[trigger] x[k]),
    decreases x.len(),
{
    if x.len() > 0 && is_ws(x.last()) {
        let t = x.drop_last();
        lemma_trim_end_shape(t);
        assert(t.take(trim_end(t).len() as int) =~= x.take(trim_end(t).len() as int));
        assert forall|k: int| trim_end(x).len() <= k < x.len() implies is_ws(#[trigger] x[k]) by {
            if k < x.len() - 1 {
                assert(x[k] == t[k]);
            }
        }
    } else {
        assert(x.take(x.len() as int) =~= x);
    }
}

/// Trimming keeps a contiguous run of `s`, from position `trim_offset(s)`:
/// everything before and after it is white space, and the run itself neither
/// begins nor ends with white space.
pub proof fn lemma_trim_is_core(s: Seq<char>)
    ensures
        0 <= trim_offset(s) <= trim_offset(s) + trim(s).len() <= s.len(),
        trim(s) == s.subrange(trim_offset(s), trim_offset(s) + trim(s).len()),
        forall|k: int| 0 <= k < trim_offset(s) ==> is_ws(#[trigger] s[k]),
        forall|k: int| trim_offset(s) + trim(s).len() <= k < s.len() ==> is_ws(#[trigger] s[k]),
        trim(s).len() > 0 ==> !is_ws(trim(s)[0]) && !is_ws(trim(s).last()),
{
    let y = trim_start(s);
    let i = s.len() - y.len();
    lemma_trim_start_shape(s);
    lemma_trim_end_shape(y);
    let t = trim(s);
    assert(t =~= s.subrange(i, i + t.len()));
    assert forall|k: int| i + t.len() <= k < s.len() implies is_ws(#[trigger] s[k]) by {
        assert(s[k] == y[k - i]);
    }
    if t.len() > 0 {
        assert(t[0] == y[0]);
    }
}

/// Where the trimmed part of `s` begins.
pub open spec fn trim_offset(s: Seq<char>) -> int {
    s.len() - trim_start(s).len()
}

/// What trimming leaves neither begins nor ends with white space.
pub proof fn lemma_trim_shape(s: Seq<char>)
    ensures
        trim(s).len() <= s.len(),
        trim(s).len() > 0 ==> !is_ws(trim(s)[0]) && !is_ws(trim(s).last()),
{
    let y = trim_start(s);
    lemma_trim_start_shape(s);
    lemma_trim_end_shape(y);
    if trim(s).len() > 0 {
        assert(trim(s)[0] == y.take(trim(s).len() as int)[0]);
    }
}

/// Whether every character of `s` is white space (so also when `s` is empty).
pub open spec fn all_ws(s: Seq<char>) -> bool {
    forall|i: int| 0 <= i < s.len() ==> is_ws(#[trigger] s[i])
}

proof fn lemma_trim_start_all_ws(s: Seq<char>)
    ensures
        trim_start(s).len() == 0 <==> all_ws(s),
    decreases s.len(),
{
    if s.len() > 0 {
        let t = s.drop_first();
        lemma_trim_start_all_ws(t);
        if is_ws(s[0]) {
            if all_ws(t) {
                assert forall|i: int| 0 <= i < s.len() implies is_ws(#[trigger] s[i]) by {
                    if i > 0 {
                        assert(s[i] == t[i - 1]);
                    }
                }
            } else {
                let k = choose|k: int| 0 <= k < t.len() && !is_ws(#[trigger] t[k]);
                assert(s[k + 1] == t[k]);
            }
        }
    }
}

proof fn lemma_trim_end_keeps_first(y: Seq<char>)
    requires
        y.len() > 0,
        !is_ws(y[0]),
    ensures
        trim_end(y).len() > 0,
    decreases y.len(),
{
    if is_ws(y.last()) {
        let t = y.drop_last();
        assert(t.len() > 0);
        assert(t[0] == y[0]);
        lemma_trim_end_keeps_first(t);
    }
}

/// Trimming leaves nothing exactly when every character is white space.
pub proof fn lemma_trim_empty_iff_all_ws(s: Seq<char>)
    ensures
        trim(s).len() == 0 <==> all_ws(s),
{
    lemma_trim_start_all_ws(s);
    lemma_trim_start_shape(s);
    let y = trim_start(s);
    if y.len() > 0 {
        lemma_trim_end_keeps_first(y);
    }
}

/// Trimming twice is trimming once.
pub proof fn lemma_trim_idempotent(s: Seq<char>)
    ensures
        trim(trim(s)) == trim(s),
{
    let t = trim(s);
    lemma_trim_shape(s);
    if t.len() == 0 {
        assert(trim_start(t) == t);
    } else {
        assert(trim_start(t) == t);
        assert(trim_end(t) == t);
    }
}

/// The first line of a text is everything before its first line feed: a
/// text without line feed is its own first line, and whatever follows the
/// first line feed does not matter.
pub proof fn lemma_first_line_stops_at_line_feed(a: Seq<char>, b: Seq<char>)
    requires
        forall|i: int| 0 <= i < a.len() ==> #[trigger] a[i] != '\n',
    ensures
        first_line(a) == a,
        first_line(a + seq!['\n'] + b) == a,
{
    lemma_first_line(a, a.len() as int);
    assert(a.take(a.len() as int) =~= a);
    let s = a + seq!['\n'] + b;
    assert forall|m: int| 0 <= m < a.len() implies #[trigger] s[m] != '\n' by {
        assert(s[m] == a[m]);
    }
    assert(s[a.len() as int] == '\n');
    lemma_first_line(s, a.len() as int);
    assert(s.take(a.len() as int) =~= a);
}

/// Taking at most `n` characters keeps the first `min(n, len)` characters, in order.
pub proof fn lemma_take_chars(s: Seq<char>, n: nat)
    ensures
        take_chars(s, n).len() == if s.len() <= n {
            s.len()
        } else {
            n
        },
        forall|i: int| 0 <= i < take_chars(s, n).len() ==> #[trigger] take_chars(s, n)[i] == s[i],
{
}

/// The bounds of the trimmed part of `v[lo..hi]`.
pub fn trim_range(v: &Vec<char>, lo: usize, hi: usize) -> (r: (usize, usize))
    requires
        lo <= hi <= v.len(),
    ensures
        lo <= r.0 <= r.1 <= hi,
        v@.subrange(r.0 as int, r.1 as int) == trim(v@.subrange(lo as int, hi as int)),
{
    let mut i = lo;
    while i < hi && is_whitespace(v[i])
        invariant
            lo <= i <= hi <= v.len(),
            forall|k: int| lo <= k < i ==> is_ws(#[trigger] v@[k]),
        decreases hi - i,
    {
        i = i + 1;
    }
    let mut j = hi;
    while j > i && is_whitespace(v[j - 1])
        invariant
            lo <= i <= j <= hi <= v.len(),
            forall|k: int| j <= k < hi ==> is_ws(#[trigger] v@[k]),
        decreases j,
    {
        j = j - 1;
    }
    proof {
        let s = v@.subrange(lo as int, hi as int);
        assert forall|k: int| 0 <= k < i - lo implies is_ws(#[trigger] s[k]) by {
            assert(s[k] == v@[lo + k]);
        }
        lemma_trim_start(s, i - lo);
        let t = s.subrange(i - lo, s.len() as int);
        assert forall|k: int| j - i <= k < t.len() implies is_ws(#[trigger] t[k]) by {
            assert(t[k] == v@[i + k]);
        }
        if j > i {
            assert(t[j - i - 1] == v@[j - 1]);
        }
        lemma_trim_end(t, j - i);
        assert(t.subrange(0, j - i) =~= v@.subrange(i as int, j as int));
    }
    (i, j)
}

/// The index of the first line feed in `v`, or its length if it has none.
pub fn line_end(v: &Vec<char>) -> (k: usize)
    ensures
        k <= v.len(),
        v@.take(k as int) == first_line(v@),
{
    let mut k: usize = 0;
    while k < v.len() && v[k] != '\n'
        invariant
            k <= v.len(),
            forall|m: int| 0 <= m < k ==> #[trigger] v@[m] != '\n',
        decreases v.len() - k,
    {
        k = k + 1;
    }
    proof {
        lemma_first_line(v@, k as int);
    }
    k
}

/// `s` without leading and trailing white space, and its length in characters.
pub fn trimmed_with_len(s: &str) -> (r: (String, usize))
    ensures
        r.0@ == trim(s@),
        r.1 == trim(s@).len(),
{
    let v = chars_of(s);
    let (a, b) = trim_range(&v, 0, v.len());
    assert(v@.subrange(0, v@.len() as int) =~= v@);
    (String::from_str(s.substring_char(a, b)), b - a)
}

/// `s` without leading and trailing white space.
pub fn trimmed(s: &str) -> (r: String)
    ensures
        r@ == trim(s@),
{
    trimmed_with_len(s).0
}

/// Whether `s` holds only white space (or nothing).
pub fn is_blank(s: &str) -> (r: bool)
    ensures
        r == (trim(s@).len() == 0),
{
    let v = chars_of(s);
    let (a, b) = trim_range(&v, 0, v.len());
    assert(v@.subrange(0, v@.len() as int) =~= v@);
    a == b
}

} // verus!
