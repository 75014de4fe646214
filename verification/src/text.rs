use vstd::prelude::*;

verus! {

/// Appends one character to a string.
#[verifier::external_body]
pub(crate) fn push_char(s: &mut String, c: char)
    ensures
        final(s)@ == old(s)@.push(c),
{
    s.push(c);
}

/// The characters of a string slice, in order.
pub fn to_chars(s: &str) -> (v: Vec<char>)
    ensures
        v@ == s@,
{
    let mut v: Vec<char> = Vec::new();
    for c in it: s.chars()
        invariant
            v@ == it.seq().take(it.index()),
    {
        v.push(c);
    }
    v
}

/// Appends the characters `v[from..to]` to `out`.
pub fn push_chars(out: &mut String, v: &Vec<char>, from: usize, to: usize)
    requires
        from <= to <= v@.len(),
    ensures
        final(out)@ == old(out)@ + v@.subrange(from as int, to as int),
{
    let mut i = from;
    while i < to
        invariant
            from <= i <= to <= v@.len(),
            out@ == old(out)@ + v@.subrange(from as int, i as int),
        decreases to - i,
    {
        push_char(out, v[i]);
        assert(v@.subrange(from as int, i + 1) == v@.subrange(from as int, i as int).push(v@[i as int]));
        i = i + 1;
    }
}

/// A string holding exactly the given characters.
pub fn from_chars(v: &Vec<char>) -> (s: String)
    ensures
        s@ == v@,
{
    let mut s = String::new();
    push_chars(&mut s, v, 0, v.len());
    assert(v@.subrange(0, v@.len() as int) == v@);
    s
}

/// Whether `v[at..at + p.len()]` equals `p`.
pub fn matches_at(v: &Vec<char>, at: usize, p: &Vec<char>) -> (b: bool)
    requires
        at <= v@.len(),
    ensures
        b == (at + p@.len() <= v@.len() && v@.subrange(at as int, at + p@.len()) == p@),
{
    if p.len() > v.len() - at {
        return false;
    }
    let mut j: usize = 0;
    while j < p.len()
        invariant
            at + p@.len() <= v@.len(),
            j <= p@.len(),
            forall|k: int| 0 <= k < j ==> v@[at + k] == p@[k],
        decreases p@.len() - j,
    {
        assert(at + j < v.len());
        if v[at + j] != p[j] {
            assert(v@.subrange(at as int, at + p@.len())[j as int] != p@[j as int]);
            return false;
        }
        j = j + 1;
    }
    assert(v@.subrange(at as int, at + p@.len()) =~= p@);
    true
}

/// Whether two strings hold the same characters.
pub fn str_eq(a: &str, b: &str) -> (r: bool)
    ensures
        r == (a@ == b@),
{
    let va = to_chars(a);
    let vb = to_chars(b);
    if va.len() != vb.len() {
        return false;
    }
    let r = matches_at(&va, 0, &vb);
    assert(va@.subrange(0, vb@.len() as int) == va@);
    r
}

/// Whether `p` is a prefix of `s`.
pub open spec fn has_prefix(s: Seq<char>, p: Seq<char>) -> bool {
    p.len() <= s.len() && s.subrange(0, p.len() as int) == p
}

/// Whether `s` starts with `p`.
pub fn starts_with(s: &str, p: &str) -> (r: bool)
    ensures
        r == has_prefix(s@, p@),
{
    let vs = to_chars(s);
    let vp = to_chars(p);
    matches_at(&vs, 0, &vp)
}


/// `s` with every non-overlapping occurrence of `pat`, scanning from the
/// left, replaced by `rep`; an empty `pat` matches before every character
/// and at the end.
pub open spec fn spec_replace_all(s: Seq<char>, pat: Seq<char>, rep: Seq<char>) -> Seq<char>
    decreases s.len(),
{
    if pat.len() == 0 {
        if s.len() == 0 {
            rep
        } else {
            rep + seq![s[0]] + spec_replace_all(s.subrange(1, s.len() as int), pat, rep)
        }
    } else if s.len() < pat.len() {
        s
    } else if s.subrange(0, pat.len() as int) == pat {
        rep + spec_replace_all(s.subrange(pat.len() as int, s.len() as int), pat, rep)
    } else {
        seq![s[0]] + spec_replace_all(s.subrange(1, s.len() as int), pat, rep)
    }
}

/// `s` with its leftmost occurrence of `pat` replaced by `rep`; unchanged
/// when `pat` does not occur; an empty `pat` occurs at the start.
pub open spec fn spec_replace_first(s: Seq<char>, pat: Seq<char>, rep: Seq<char>) -> Seq<char>
    decreases s.len(),
{
    if pat.len() == 0 {
        rep + s
    } else if s.len() < pat.len() {
        s
    } else if s.subrange(0, pat.len() as int) == pat {
        rep + s.subrange(pat.len() as int, s.len() as int)
    } else {
        seq![s[0]] + spec_replace_first(s.subrange(1, s.len() as int), pat, rep)
    }
}

proof fn lemma_skip_skip(s: Seq<char>, i: int, k: int)
    requires
        0 <= i,
        0 <= k,
        i + k <= s.len(),
    ensures
        s.subrange(i, s.len() as int).subrange(k, s.len() - i) == s.subrange(i + k, s.len() as int),
{
    assert(s.subrange(i, s.len() as int).subrange(k, s.len() - i) =~= s.subrange(i + k, s.len() as int));
}

/// Replaces every occurrence of `pat` in `s` by `rep`.
pub fn replace_all(s: &str, pat: &str, rep: &str) -> (r: String)
    ensures
        r@ == spec_replace_all(s@, pat@, rep@),
{
    let v = to_chars(s);
    let p = to_chars(pat);
    let n = v.len();
    let mut out = String::new();
    let mut i: usize = 0;
    assert(v@.subrange(0, n as int) == v@);
    while i < n
        invariant
            n == v@.len(),
            i <= n,
            out@ + spec_replace_all(v@.subrange(i as int, n as int), p@, rep@)
                == spec_replace_all(v@, p@, rep@),
        decreases n - i,
    {
        let ghost rest = v@.subrange(i as int, n as int);
        let ghost before = out@;
        if p.len() == 0 {
            out.append(rep);
            push_char(&mut out, v[i]);
            proof {
                lemma_skip_skip(v@, i as int, 1);
                assert(rest[0] == v@[i as int]);
                let tail = spec_replace_all(v@.subrange(i + 1, n as int), p@, rep@);
                assert(out@ + tail =~= before + (rep@ + seq![rest[0]] + tail));
            }
            i = i + 1;
        } else if matches_at(&v, i, &p) {
            out.append(rep);
            proof {
                lemma_skip_skip(v@, i as int, p@.len() as int);
                assert(rest.subrange(0, p@.len() as int) =~= v@.subrange(i as int, i + p@.len()));
                let tail = spec_replace_all(v@.subrange(i + p@.len(), n as int), p@, rep@);
                assert(out@ + tail =~= before + (rep@ + tail));
            }
            i = i + p.len();
        } else {
            push_char(&mut out, v[i]);
            proof {
                lemma_skip_skip(v@, i as int, 1);
                if rest.len() >= p@.len() {
                    assert(rest.subrange(0, p@.len() as int) =~= v@.subrange(i as int, i + p@.len()));
                    let tail = spec_replace_all(v@.subrange(i + 1, n as int), p@, rep@);
                    assert(out@ + tail =~= before + (seq![rest[0]] + tail));
                } else {
                    let tail = v@.subrange(i + 1, n as int);
                    assert(spec_replace_all(tail, p@, rep@) == tail);
                    assert(rest =~= seq![rest[0]] + tail);
                    assert(out@ + tail =~= before + rest);
                }
            }
            i = i + 1;
        }
    }
    if p.len() == 0 {
        out.append(rep);
    }
    assert(v@.subrange(n as int, n as int) =~= Seq::<char>::empty());
    out
}


proof fn lemma_replace_first_skips(s: Seq<char>, pat: Seq<char>, rep: Seq<char>, i: int)
    requires
        pat.len() > 0,
        0 <= i < s.len(),
        !(i + pat.len() <= s.len() && s.subrange(i, i + pat.len()) == pat),
    ensures
        spec_replace_first(s.subrange(i, s.len() as int), pat, rep)
            == seq![s[i]] + spec_replace_first(s.subrange(i + 1, s.len() as int), pat, rep),
{
    let rest = s.subrange(i, s.len() as int);
    lemma_skip_skip(s, i, 1);
    if rest.len() >= pat.len() {
        assert(rest.subrange(0, pat.len() as int) =~= s.subrange(i, i + pat.len()));
    } else {
        let tail = s.subrange(i + 1, s.len() as int);
        assert(rest =~= seq![s[i]] + tail);
    }
}

/// Replaces the leftmost occurrence of `pat` in `s` by `rep`.
pub fn replace_first(s: &str, pat: &str, rep: &str) -> (r: String)
    ensures
        r@ == spec_replace_first(s@, pat@, rep@),
{
    let v = to_chars(s);
    let p = to_chars(pat);
    let n = v.len();
    let mut out = String::new();
    if p.len() == 0 {
        out.append(rep);
        out.append(s);
        return out;
    }
    let mut i: usize = 0;
    assert(v@.subrange(0, n as int) == v@);
    while i < n
        invariant
            n == v@.len(),
            i <= n,
            p@.len() > 0,
            v@ == s@,
            p@ == pat@,
            out@ == v@.subrange(0, i as int),
            out@ + spec_replace_first(v@.subrange(i as int, n as int), p@, rep@)
                == spec_replace_first(v@, p@, rep@),
        decreases n - i,
    {
        if matches_at(&v, i, &p) {
            let ghost rest = v@.subrange(i as int, n as int);
            proof {
                assert(rest.subrange(0, p@.len() as int) =~= v@.subrange(i as int, i + p@.len()));
                lemma_skip_skip(v@, i as int, p@.len() as int);
            }
            out.append(rep);
            push_chars(&mut out, &v, i + p.len(), n);
            proof {
                assert(spec_replace_first(rest, p@, rep@)
                    == rep@ + rest.subrange(p@.len() as int, rest.len() as int));
                assert(out@ =~= v@.subrange(0, i as int) + spec_replace_first(rest, p@, rep@));
            }
            return out;
        }
        proof {
            lemma_replace_first_skips(v@, p@, rep@, i as int);
        }
        push_char(&mut out, v[i]);
        proof {
            assert(v@.subrange(0, i + 1) =~= v@.subrange(0, i as int).push(v@[i as int]));
            let tail = spec_replace_first(v@.subrange(i + 1, n as int), p@, rep@);
            assert(out@ + tail =~= v@.subrange(0, i as int) + (seq![v@[i as int]] + tail));
        }
        i = i + 1;
    }
    assert(v@.subrange(n as int, n as int) =~= Seq::<char>::empty());
    out
}

/// The pieces of `s` between the occurrences of `c`: always at least one,
/// with an empty piece before a leading, after a trailing, and between two
/// adjacent separators.
pub open spec fn spec_split(s: Seq<char>, c: char) -> Seq<Seq<char>>
    decreases s.len(),
{
    if s.len() == 0 {
        seq![Seq::<char>::empty()]
    } else {
        let r = spec_split(s.drop_last(), c);
        if s.last() == c {
            r.push(Seq::<char>::empty())
        } else {
            r.update(r.len() - 1, r.last().push(s.last()))
        }
    }
}

/// The number of pieces is never zero.
pub proof fn lemma_split_nonempty(s: Seq<char>, c: char)
    ensures
        spec_split(s, c).len() >= 1,
    decreases s.len(),
{
    if s.len() > 0 {
        lemma_split_nonempty(s.drop_last(), c);
    }
}

/// Splits `s` at every occurrence of the character `c`.
pub fn split_char(s: &str, c: char) -> (pieces: Vec<String>)
    ensures
        pieces@.len() == spec_split(s@, c).len(),
        forall|k: int| 0 <= k < pieces@.len() ==> #[trigger] pieces@[k]@ == spec_split(s@, c)[k],
{
    let v = to_chars(s);
    let n = v.len();
    let mut pieces: Vec<String> = Vec::new();
    let mut cur = String::new();
    let mut i: usize = 0;
    while i < n
        invariant
            n == v@.len(),
            i <= n,
            pieces@.len() + 1 == spec_split(v@.subrange(0, i as int), c).len(),
            forall|k: int| 0 <= k < pieces@.len()
                ==> #[trigger] pieces@[k]@ == spec_split(v@.subrange(0, i as int), c)[k],
            cur@ == spec_split(v@.subrange(0, i as int), c).last(),
        decreases n - i,
    {
        let ghost pre = v@.subrange(0, i as int);
        let ghost next = v@.subrange(0, i + 1);
        proof {
            assert(next.drop_last() =~= pre);
            assert(next.last() == v@[i as int]);
            lemma_split_nonempty(pre, c);
        }
        if v[i] == c {
            let done = cur;
            pieces.push(done);
            cur = String::new();
        } else {
            push_char(&mut cur, v[i]);
        }
        i = i + 1;
    }
    assert(v@.subrange(0, n as int) =~= v@);
    pieces.push(cur);
    pieces
}


/// Whether some string of `v` equals `s`.
pub open spec fn seq_has_text(v: Seq<String>, s: Seq<char>) -> bool {
    exists|i: int| 0 <= i < v.len() && #[trigger] v[i]@ == s
}

/// Whether `v` holds a string equal to `s`.
pub fn contains_text(v: &Vec<String>, s: &str) -> (r: bool)
    ensures
        r == seq_has_text(v@, s@),
{
    let mut i: usize = 0;
    while i < v.len()
        invariant
            i <= v@.len(),
            forall|k: int| 0 <= k < i ==> #[trigger] v@[k]@ != s@,
        decreases v@.len() - i,
    {
        if str_eq(v[i].as_str(), s) {
            return true;
        }
        i = i + 1;
    }
    false
}


/// A separator at the end closes the last piece and opens an empty one.
pub proof fn lemma_split_push_sep(s: Seq<char>, c: char)
    ensures
        spec_split(s.push(c), c) == spec_split(s, c).push(Seq::<char>::empty()),
{
    assert(s.push(c).drop_last() =~= s);
}

/// Characters other than the separator extend the last piece.
pub proof fn lemma_split_extend(x: Seq<char>, d: Seq<char>, c: char)
    requires
        !d.contains(c),
    ensures
        spec_split(x + d, c).len() == spec_split(x, c).len(),
        spec_split(x + d, c).drop_last() == spec_split(x, c).drop_last(),
        spec_split(x + d, c).last() == spec_split(x, c).last() + d,
    decreases d.len(),
{
    lemma_split_nonempty(x, c);
    if d.len() == 0 {
        assert(x + d =~= x);
        assert(spec_split(x, c).last() + d =~= spec_split(x, c).last());
    } else {
        let d0 = d.drop_last();
        assert(!d0.contains(c)) by {
            if d0.contains(c) {
                let i = choose|i: int| 0 <= i < d0.len() && d0[i] == c;
                assert(d[i] == c);
            }
        }
        lemma_split_extend(x, d0, c);
        assert((x + d).drop_last() =~= x + d0);
        assert((x + d).last() == d.last());
        assert(d.last() != c) by {
            assert(d[d.len() - 1] == d.last());
        }
        lemma_split_nonempty(x + d0, c);
        let r = spec_split(x + d0, c);
        assert(spec_split(x + d, c) == r.update(r.len() - 1, r.last().push(d.last())));
        assert(spec_split(x + d, c).drop_last() =~= r.drop_last());
        assert(spec_split(x, c).last() + d =~= (spec_split(x, c).last() + d0).push(d.last()));
    }
}

/// A text without the separator is a single piece.
pub proof fn lemma_split_whole(s: Seq<char>, c: char)
    requires
        !s.contains(c),
    ensures
        spec_split(s, c) == seq![s],
{
    lemma_split_extend(Seq::<char>::empty(), s, c);
    assert(Seq::<char>::empty() + s =~= s);
    assert(spec_split(s, c) =~= seq![s]);
}

/// Appending text never loses pieces.
pub proof fn lemma_split_len_grows(x: Seq<char>, y: Seq<char>, c: char)
    ensures
        spec_split(x + y, c).len() >= spec_split(x, c).len(),
    decreases y.len(),
{
    if y.len() == 0 {
        assert(x + y =~= x);
    } else {
        lemma_split_len_grows(x, y.drop_last(), c);
        assert((x + y).drop_last() =~= x + y.drop_last());
        lemma_split_nonempty(x + y.drop_last(), c);
    }
}

/// `a`, the separator and `b` make at least two pieces; exactly `a` and `b`
/// when neither holds the separator.
pub proof fn lemma_split_pair(a: Seq<char>, b: Seq<char>, c: char)
    ensures
        spec_split(a.push(c) + b, c).len() >= 2,
        !a.contains(c) && !b.contains(c) ==> spec_split(a.push(c) + b, c) == seq![a, b],
{
    lemma_split_push_sep(a, c);
    lemma_split_nonempty(a, c);
    lemma_split_len_grows(a.push(c), b, c);
    if !a.contains(c) && !b.contains(c) {
        lemma_split_whole(a, c);
        lemma_split_extend(a.push(c), b, c);
        let r = spec_split(a.push(c) + b, c);
        assert(r.len() == 2);
        assert(r.drop_last() =~= seq![a]);
        assert(r[0] == r.drop_last()[0]);
        assert(r[1] == r.last());
        assert(Seq::<char>::empty() + b =~= b);
        assert(r =~= seq![a, b]);
    }
}


/// A copy of a list of strings.
pub fn clone_texts(v: &Vec<String>) -> (r: Vec<String>)
    ensures
        r@ == v@,
{
    let mut r: Vec<String> = Vec::new();
    let mut i: usize = 0;
    while i < v.len()
        invariant
            i <= v@.len(),
            r@ == v@.take(i as int),
        decreases v@.len() - i,
    {
        r.push(v[i].clone());
        assert(v@.take(i + 1) =~= v@.take(i as int).push(v@[i as int]));
        i = i + 1;
    }
    assert(v@.take(v@.len() as int) =~= v@);
    r
}


/// The decimal digit of a number below ten.
pub open spec fn digit_char(d: nat) -> char {
    if d == 0 { '0' }
    else if d == 1 { '1' }
    else if d == 2 { '2' }
    else if d == 3 { '3' }
    else if d == 4 { '4' }
    else if d == 5 { '5' }
    else if d == 6 { '6' }
    else if d == 7 { '7' }
    else if d == 8 { '8' }
    else { '9' }
}

/// The decimal text of a number, without leading zeros.
pub open spec fn decimal(n: nat) -> Seq<char>
    decreases n,
{
    if n < 10 {
        seq![digit_char(n)]
    } else {
        decimal(n / 10).push(digit_char(n % 10))
    }
}

fn digit(d: u64) -> (c: char)
    requires
        d < 10,
    ensures
        c == digit_char(d as nat),
{
    if d == 0 { '0' }
    else if d == 1 { '1' }
    else if d == 2 { '2' }
    else if d == 3 { '3' }
    else if d == 4 { '4' }
    else if d == 5 { '5' }
    else if d == 6 { '6' }
    else if d == 7 { '7' }
    else if d == 8 { '8' }
    else { '9' }
}

/// The decimal text of `n`.
pub fn decimal_text(n: u64) -> (s: String)
    ensures
        s@ == decimal(n as nat),
{
    let mut low_first: Vec<char> = Vec::new();
    let mut m = n;
    while m >= 10
        invariant
            decimal(n as nat) == decimal(m as nat) + low_first@.reverse(),
        decreases m,
    {
        let ghost before = low_first@;
        low_first.push(digit(m % 10));
        proof {
            assert(low_first@.reverse() =~= seq![digit_char((m % 10) as nat)] + before.reverse());
            assert(decimal(m as nat) == decimal((m / 10) as nat).push(digit_char((m % 10) as nat)));
            assert(decimal((m / 10) as nat).push(digit_char((m % 10) as nat)) + before.reverse()
                =~= decimal((m / 10) as nat) + low_first@.reverse());
        }
        m = m / 10;
    }
    let ghost before = low_first@;
    low_first.push(digit(m));
    proof {
        assert(low_first@.reverse() =~= seq![digit_char(m as nat)] + before.reverse());
        assert(decimal(n as nat) =~= low_first@.reverse());
    }
    let mut s = String::new();
    let mut i = low_first.len();
    while i > 0
        invariant
            i <= low_first@.len(),
            s@ == low_first@.reverse().subrange(0, low_first@.len() - i),
        decreases i,
    {
        i = i - 1;
        push_char(&mut s, low_first[i]);
        proof {
            let r = low_first@.reverse();
            assert(r[low_first@.len() - 1 - i] == low_first@[i as int]);
            assert(r.subrange(0, low_first@.len() - i) =~= r.subrange(0, low_first@.len() - i - 1).push(low_first@[i as int]));
        }
    }
    proof {
        assert(low_first@.reverse().subrange(0, low_first@.len() as int) =~= low_first@.reverse());
    }
    s
}

} // verus!
