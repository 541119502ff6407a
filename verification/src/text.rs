use vstd::prelude::*;

verus! {

/// The Unicode `White_Space` property: the characters that `char::is_whitespace`
/// and the regular-expression class `\s` both accept.
pub open spec fn is_space(c: char) -> bool {
    let u = c as u32;
    ||| 0x09 <= u <= 0x0d
    ||| u == 0x20
    ||| u == 0x85
    ||| u == 0xa0
    ||| u == 0x1680
    ||| 0x2000 <= u <= 0x200a
    ||| u == 0x2028
    ||| u == 0x2029
    ||| u == 0x202f
    ||| u == 0x205f
    ||| u == 0x3000
}

/// Whether `c` is a white-space character.
pub fn is_white_space(c: char) -> (r: bool)
    ensures
        r == is_space(c),
{
    let u = c as u32;
    (0x09 <= u && u <= 0x0d) || u == 0x20 || u == 0x85 || u == 0xa0 || u == 0x1680 || (0x2000
        <= u && u <= 0x200a) || u == 0x2028 || u == 0x2029 || u == 0x202f || u == 0x205f || u
        == 0x3000
}

/// The characters of `s`, in order.
pub fn chars_of(s: &str) -> (v: Vec<char>)
    ensures
        v@ == s@,
{
    let mut v: Vec<char> = Vec::new();
    for c in it: s.chars()
        invariant
            v@ == it.seq().take(it.index() as int),
    {
        v.push(c);
    }
    v
}

/// Every character of `line` is white space (so `line.trim()` is empty).
pub open spec fn is_blank(line: Seq<char>) -> bool {
    forall|i: int| 0 <= i < line.len() ==> is_space(#[trigger] line[i])
}

/// `s` without its leading white space.
pub open spec fn trim_start(s: Seq<char>) -> Seq<char>
    decreases s.len(),
{
    if s.len() > 0 && is_space(s[0]) {
        trim_start(s.drop_first())
    } else {
        s
    }
}

/// `s` without its trailing white space.
pub open spec fn trim_end(s: Seq<char>) -> Seq<char>
    decreases s.len(),
{
    if s.len() > 0 && is_space(s.last()) {
        trim_end(s.drop_last())
    } else {
        s
    }
}

/// `s` without leading and trailing white space, as `str::trim` gives it.
pub open spec fn trim(s: Seq<char>) -> Seq<char> {
    trim_end(trim_start(s))
}

/// The pieces of `s` between the occurrences of `sep`, as `str::split` gives
/// them: one more piece than there are separators.
pub open spec fn split_on(s: Seq<char>, sep: char) -> Seq<Seq<char>>
    decreases s.len(),
{
    if s.len() == 0 {
        seq![Seq::<char>::empty()]
    } else {
        let r = split_on(s.drop_last(), sep);
        if s.last() == sep {
            r.push(Seq::<char>::empty())
        } else {
            r.update(r.len() - 1, r.last().push(s.last()))
        }
    }
}

/// `line` without one trailing carriage return.
pub open spec fn strip_cr(line: Seq<char>) -> Seq<char> {
    if line.len() > 0 && line.last() == '\r' {
        line.drop_last()
    } else {
        line
    }
}

/// The lines of `s`, as `str::lines` gives them: split at '\n', a '\r' before
/// a '\n' dropped, and no empty line after a final '\n'.
pub open spec fn lines_of(s: Seq<char>) -> Seq<Seq<char>> {
    let p = split_on(s, '\n');
    let body = Seq::new((p.len() - 1) as nat, |i: int| strip_cr(p[i]));
    if p.last().len() == 0 {
        body
    } else {
        body.push(p.last())
    }
}

/// The slices of `s` that the index ranges `r` mark out.
pub open spec fn pieces(s: Seq<char>, r: Seq<(usize, usize)>) -> Seq<Seq<char>> {
    Seq::new(r.len(), |i: int| s.subrange(r[i].0 as int, r[i].1 as int))
}

/// Every range of `r` is ordered and lies within `lo..hi`.
pub open spec fn ranges_within(r: Seq<(usize, usize)>, lo: int, hi: int) -> bool {
    forall|i: int| 0 <= i < r.len() ==> lo <= (#[trigger] r[i]).0 <= r[i].1 <= hi
}

/// `split_on` always gives at least one piece.
pub proof fn lemma_split_nonempty(s: Seq<char>, sep: char)
    ensures
        split_on(s, sep).len() >= 1,
    decreases s.len(),
{
    if s.len() > 0 {
        lemma_split_nonempty(s.drop_last(), sep);
    }
}

/// The ranges of the pieces of `s[lo..hi]` between occurrences of `sep`.
pub fn split_ranges(s: &Vec<char>, lo: usize, hi: usize, sep: char) -> (r: Vec<(usize, usize)>)
    requires
        lo <= hi <= s@.len(),
    ensures
        ranges_within(r@, lo as int, hi as int),
        pieces(s@, r@) == split_on(s@.subrange(lo as int, hi as int), sep),
{
    let mut r: Vec<(usize, usize)> = Vec::new();
    let mut start: usize = lo;
    let mut i: usize = lo;
    assert(s@.subrange(lo as int, lo as int) =~= Seq::<char>::empty());
    assert(pieces(s@, r@).push(s@.subrange(start as int, i as int)) =~= seq![
        Seq::<char>::empty(),
    ]);
    while i < hi
        invariant
            lo <= start <= i <= hi <= s@.len(),
            ranges_within(r@, lo as int, start as int),
            split_on(s@.subrange(lo as int, i as int), sep) == pieces(s@, r@).push(
                s@.subrange(start as int, i as int),
            ),
        decreases hi - i,
    {
        let ghost t = s@.subrange(lo as int, i as int + 1);
        assert(t.drop_last() =~= s@.subrange(lo as int, i as int));
        assert(t.last() == s@[i as int]);
        if s[i] == sep {
            let ghost before = pieces(s@, r@);
            r.push((start, i));
            assert(pieces(s@, r@) =~= before.push(s@.subrange(start as int, i as int)));
            start = i + 1;
            assert(s@.subrange(start as int, i as int + 1) =~= Seq::<char>::empty());
            assert(pieces(s@, r@).push(s@.subrange(start as int, i as int + 1)) =~= split_on(
                s@.subrange(lo as int, i as int),
                sep,
            ).push(Seq::<char>::empty()));
        } else {
            assert(s@.subrange(start as int, i as int).push(s@[i as int]) =~= s@.subrange(
                start as int,
                i as int + 1,
            ));
            assert(pieces(s@, r@).push(s@.subrange(start as int, i as int + 1)) =~= split_on(
                s@.subrange(lo as int, i as int),
                sep,
            ).update(
                split_on(s@.subrange(lo as int, i as int), sep).len() - 1,
                s@.subrange(start as int, i as int + 1),
            ));
        }
        i = i + 1;
    }
    r.push((start, hi));
    assert(pieces(s@, r@) =~= split_on(s@.subrange(lo as int, hi as int), sep));
    r
}

/// The ranges of the lines of `s[lo..hi]`.
pub fn line_ranges(s: &Vec<char>, lo: usize, hi: usize) -> (r: Vec<(usize, usize)>)
    requires
        lo <= hi <= s@.len(),
    ensures
        ranges_within(r@, lo as int, hi as int),
        pieces(s@, r@) == lines_of(s@.subrange(lo as int, hi as int)),
{
    let p = split_ranges(s, lo, hi, '\n');
    let ghost sp = split_on(s@.subrange(lo as int, hi as int), '\n');
    proof {
        lemma_split_nonempty(s@.subrange(lo as int, hi as int), '\n');
    }
    let n = p.len();
    let mut r: Vec<(usize, usize)> = Vec::new();
    let mut i: usize = 0;
    while i + 1 < n
        invariant
            n == p@.len() == sp.len() >= 1,
            lo <= hi <= s@.len(),
            ranges_within(p@, lo as int, hi as int),
            pieces(s@, p@) == sp,
            i <= n - 1,
            r@.len() == i,
            ranges_within(r@, lo as int, hi as int),
            forall|j: int| 0 <= j < i ==> #[trigger] pieces(s@, r@)[j] == strip_cr(sp[j]),
        decreases n - i,
    {
        let (a, b) = p[i];
        assert(pieces(s@, p@)[i as int] == s@.subrange(a as int, b as int));
        let ghost before = pieces(s@, r@);
        if b > a && s[b - 1] == '\r' {
            r.push((a, b - 1));
            assert(s@.subrange(a as int, b as int).drop_last() =~= s@.subrange(
                a as int,
                b as int - 1,
            ));
        } else {
            r.push((a, b));
        }
        assert forall|j: int| 0 <= j < i + 1 implies #[trigger] pieces(s@, r@)[j] == strip_cr(
            sp[j],
        ) by {
            if j < i {
                assert(pieces(s@, r@)[j] == before[j]);
            }
        }
        i = i + 1;
    }
    let (a, b) = p[n - 1];
    assert(pieces(s@, p@)[n - 1] == s@.subrange(a as int, b as int));
    let ghost body = pieces(s@, r@);
    assert(body =~= Seq::new((sp.len() - 1) as nat, |j: int| strip_cr(sp[j])));
    if b > a {
        r.push((a, b));
        assert(pieces(s@, r@) =~= body.push(sp.last()));
    }
    r
}

/// Whether `s[a..b]` holds only white space.
pub fn range_is_blank(s: &Vec<char>, a: usize, b: usize) -> (r: bool)
    requires
        a <= b <= s@.len(),
    ensures
        r == is_blank(s@.subrange(a as int, b as int)),
{
    let mut i: usize = a;
    while i < b
        invariant
            a <= i <= b <= s@.len(),
            forall|j: int| a <= j < i ==> is_space(#[trigger] s@[j]),
        decreases b - i,
    {
        if !is_white_space(s[i]) {
            assert(s@.subrange(a as int, b as int)[i - a] == s@[i as int]);
            return false;
        }
        i = i + 1;
    }
    assert forall|j: int| 0 <= j < b - a implies is_space(
        #[trigger] s@.subrange(a as int, b as int)[j],
    ) by {
        assert(s@.subrange(a as int, b as int)[j] == s@[a + j]);
    }
    true
}

/// Dropping the first `k` characters, all white space and followed by none or
/// by a character that is not, is what `trim_start` does.
pub proof fn lemma_trim_start(s: Seq<char>, k: int)
    requires
        0 <= k <= s.len(),
        forall|i: int| 0 <= i < k ==> is_space(#[trigger] s[i]),
        k == s.len() || !is_space(s[k]),
    ensures
        trim_start(s) == s.subrange(k, s.len() as int),
    decreases k,
{
    if k == 0 {
        assert(s.subrange(0, s.len() as int) =~= s);
    } else {
        let t = s.drop_first();
        assert forall|i: int| 0 <= i < k - 1 implies is_space(#[trigger] t[i]) by {
            assert(t[i] == s[i + 1]);
        }
        lemma_trim_start(t, k - 1);
        assert(t.subrange(k - 1, t.len() as int) =~= s.subrange(k, s.len() as int));
    }
}

/// Keeping the first `m` characters, when all that follow are white space and
/// the last kept one is not, is what `trim_end` does.
pub proof fn lemma_trim_end(s: Seq<char>, m: int)
    requires
        0 <= m <= s.len(),
        forall|i: int| m <= i < s.len() ==> is_space(#[trigger] s[i]),
        m == 0 || !is_space(s[m - 1]),
    ensures
        trim_end(s) == s.subrange(0, m),
    decreases s.len() - m,
{
    if m == s.len() {
        assert(s.subrange(0, m) =~= s);
    } else {
        let t = s.drop_last();
        lemma_trim_end(t, m);
        assert(t.subrange(0, m) =~= s.subrange(0, m));
    }
}

/// The range of `s` that `trim` keeps.
pub fn trim_range(s: &Vec<char>) -> (r: (usize, usize))
    ensures
        r.0 <= r.1 <= s@.len(),
        s@.subrange(r.0 as int, r.1 as int) == trim(s@),
{
    let n = s.len();
    let mut a: usize = 0;
    while a < n && is_white_space(s[a])
        invariant
            a <= n == s@.len(),
            forall|i: int| 0 <= i < a ==> is_space(#[trigger] s@[i]),
        decreases n - a,
    {
        a = a + 1;
    }
    let mut b: usize = n;
    while b > a && is_white_space(s[b - 1])
        invariant
            a <= b <= n == s@.len(),
            forall|i: int| b <= i < n ==> is_space(#[trigger] s@[i]),
        decreases b,
    {
        b = b - 1;
    }
    proof {
        lemma_trim_start(s@, a as int);
        let t = s@.subrange(a as int, n as int);
        assert forall|i: int| b - a <= i < t.len() implies is_space(#[trigger] t[i]) by {
            assert(t[i] == s@[a + i]);
        }
        if b > a {
            assert(t[b - a - 1] == s@[b - 1]);
        }
        lemma_trim_end(t, b - a);
        assert(t.subrange(0, b - a) =~= s@.subrange(a as int, b as int));
    }
    (a, b)
}

} // verus!
