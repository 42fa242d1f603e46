use vstd::prelude::*;

verus! {

/// Unicode `White_Space`, the set that `char::is_whitespace` tests for.
pub open spec fn is_ws(c: char) -> bool {
    let u = c as int;
    ||| 0x09 <= u <= 0x0D
    ||| u == 0x20
    ||| u == 0x85
    ||| u == 0xA0
    ||| u == 0x1680
    ||| 0x2000 <= u <= 0x200A
    ||| u == 0x2028
    ||| u == 0x2029
    ||| u == 0x202F
    ||| u == 0x205F
    ||| u == 0x3000
}

/// Tests a character for Unicode `White_Space`.
pub fn is_whitespace(c: char) -> (res: bool)
    ensures
        res == is_ws(c),
{
    let u = c as u32;
    (0x09 <= u && u <= 0x0D) || u == 0x20 || u == 0x85 || u == 0xA0 || u == 0x1680 || (0x2000
        <= u && u <= 0x200A) || u == 0x2028 || u == 0x2029 || u == 0x202F || u == 0x205F || u
        == 0x3000
}

/// The characters of a string, one by one.
pub fn chars_of(s: &str) -> (res: Vec<char>)
    ensures
        res@ == s@,
{
    let n = s.unicode_len();
    let mut v: Vec<char> = Vec::new();
    for i in 0..n
        invariant
            n == s@.len(),
            v@ == s@.take(i as int),
    {
        let c = s.get_char(i);
        v.push(c);
        assert(v@ =~= s@.take(i + 1));
    }
    assert(v@ =~= s@);
    v
}


/// The maximal runs of non-whitespace characters of `s`, in order: what
/// `str::split_whitespace` yields.
pub open spec fn split_ws(s: Seq<char>) -> Seq<Seq<char>>
    decreases s.len(),
{
    if s.len() == 0 {
        seq![]
    } else {
        let p = s.drop_last();
        let c = s.last();
        let f = split_ws(p);
        if is_ws(c) {
            f
        } else if p.len() == 0 || is_ws(p.last()) {
            f.push(seq![c])
        } else {
            f.drop_last().push(f.last().push(c))
        }
    }
}

/// The pieces of `s` that a list of half-open character ranges cut out.
pub open spec fn pieces(s: Seq<char>, spans: Seq<(usize, usize)>) -> Seq<Seq<char>> {
    spans.map_values(|sp: (usize, usize)| s.subrange(sp.0 as int, sp.1 as int))
}

/// Every range lies within `0..bound`, is non-empty, and they follow each other.
pub open spec fn spans_ordered(spans: Seq<(usize, usize)>, bound: int) -> bool {
    &&& forall|k: int| 0 <= k < spans.len() ==> #[trigger] spans[k].0 < spans[k].1 <= bound
    &&& forall|k: int| 0 < k < spans.len() ==> spans[k - 1].1 < #[trigger] spans[k].0
}

/// The character ranges of the whitespace-separated fields of `cs`.
pub fn split_whitespace_spans(cs: &Vec<char>) -> (spans: Vec<(usize, usize)>)
    ensures
        pieces(cs@, spans@) == split_ws(cs@),
        spans_ordered(spans@, cs@.len() as int),
{
    let n = cs.len();
    let mut spans: Vec<(usize, usize)> = Vec::new();
    let mut in_run = false;
    let mut start: usize = 0;
    for i in 0..n
        invariant
            n == cs@.len(),
            start <= i,
            in_run <==> (i > 0 && !is_ws(cs@[i - 1])),
            in_run ==> start < i,
            spans_ordered(spans@, start as int),
            !in_run ==> start == i,
            forall|k: int| 0 <= k < spans@.len() ==> #[trigger] spans@[k].1 < start,
            pieces(cs@, spans@) + (if in_run {
                seq![cs@.subrange(start as int, i as int)]
            } else {
                Seq::<Seq<char>>::empty()
            }) == split_ws(cs@.take(i as int)),
    {
        let c = cs[i];
        let ghost before = cs@.take(i as int);
        assert(cs@.take(i + 1).drop_last() =~= before);
        assert(cs@.take(i + 1).last() == c);
        if is_whitespace(c) {
            if in_run {
                let ghost old_spans = spans@;
                spans.push((start, i));
                assert(pieces(cs@, spans@) =~= pieces(cs@, old_spans).push(
                    cs@.subrange(start as int, i as int),
                ));
                in_run = false;
                start = i + 1;
            } else {
                start = i + 1;
            }
        } else {
            if !in_run {
                assert(cs@.subrange(i as int, i + 1) =~= seq![c]);
                start = i;
                in_run = true;
            } else {
                assert(cs@.subrange(start as int, i + 1) =~= cs@.subrange(
                    start as int,
                    i as int,
                ).push(c));
            }
        }
    }
    if in_run {
        let ghost old_spans = spans@;
        spans.push((start, n));
        assert(pieces(cs@, spans@) =~= pieces(cs@, old_spans).push(
            cs@.subrange(start as int, n as int),
        ));
    }
    assert(cs@.take(n as int) =~= cs@);
    spans
}

/// A non-empty run of characters none of which is whitespace.
pub open spec fn is_field(w: Seq<char>) -> bool {
    w.len() > 0 && forall|i: int| 0 <= i < w.len() ==> !is_ws(#[trigger] w[i])
}

/// The fields written one after another, a single space between two of them.
pub open spec fn join_ws(f: Seq<Seq<char>>) -> Seq<char>
    decreases f.len(),
{
    if f.len() == 0 {
        seq![]
    } else if f.len() == 1 {
        f[0]
    } else {
        join_ws(f.drop_last()) + seq![' '] + f.last()
    }
}

/// A string that ends in a character other than whitespace has at least one field.
pub proof fn lemma_split_ws_nonempty(s: Seq<char>)
    requires
        s.len() > 0,
        !is_ws(s.last()),
    ensures
        split_ws(s).len() > 0,
    decreases s.len(),
{
    let p = s.drop_last();
    if p.len() > 0 && !is_ws(p.last()) {
        lemma_split_ws_nonempty(p);
    }
}

/// Splitting after a whitespace character splits the two sides apart.
pub proof fn lemma_split_ws_concat(p: Seq<char>, q: Seq<char>)
    requires
        p.len() == 0 || is_ws(p.last()),
    ensures
        split_ws(p + q) == split_ws(p) + split_ws(q),
    decreases q.len(),
{
    if q.len() == 0 {
        assert(p + q =~= p);
        assert(split_ws(p) + split_ws(q) =~= split_ws(p));
    } else {
        let q1 = q.drop_last();
        let c = q.last();
        let r = p + q;
        assert(r.drop_last() =~= p + q1);
        assert(r.last() == c);
        lemma_split_ws_concat(p, q1);
        let a = split_ws(p);
        let b = split_ws(q1);
        if is_ws(c) {
        } else if (p + q1).len() == 0 || is_ws((p + q1).last()) {
            if q1.len() > 0 {
                assert((p + q1).last() == q1.last());
            }
            assert((a + b).push(seq![c]) =~= a + b.push(seq![c]));
        } else {
            if q1.len() == 0 {
                assert(p + q1 =~= p);
                assert(false);
            }
            assert((p + q1).last() == q1.last());
            lemma_split_ws_nonempty(q1);
            assert((a + b).drop_last().push((a + b).last().push(c)) =~= a + b.drop_last().push(
                b.last().push(c),
            ));
        }
    }
}

/// A single field splits into itself.
pub proof fn lemma_split_ws_field(w: Seq<char>)
    requires
        is_field(w),
    ensures
        split_ws(w) == seq![w],
    decreases w.len(),
{
    let p = w.drop_last();
    let c = w.last();
    assert(!is_ws(w[w.len() - 1]));
    if p.len() == 0 {
        assert(split_ws(p) =~= Seq::<Seq<char>>::empty());
        assert(seq![c] =~= w);
    } else {
        assert forall|i: int| 0 <= i < p.len() implies !is_ws(#[trigger] p[i]) by {
            assert(p[i] == w[i]);
        }
        lemma_split_ws_field(p);
        assert(!is_ws(p.last())) by {
            assert(p.last() == w[p.len() - 1]);
        }
        assert(p.push(c) =~= w);
        assert(seq![p].drop_last().push(seq![p].last().push(c)) =~= seq![w]);
    }
}

/// Fields joined by single spaces split back into the same fields.
pub proof fn lemma_split_join(f: Seq<Seq<char>>)
    requires
        forall|k: int| 0 <= k < f.len() ==> is_field(#[trigger] f[k]),
    ensures
        split_ws(join_ws(f)) == f,
    decreases f.len(),
{
    if f.len() == 0 {
        assert(split_ws(join_ws(f)) =~= f);
    } else if f.len() == 1 {
        lemma_split_ws_field(f[0]);
        assert(seq![f[0]] =~= f);
    } else {
        let f1 = f.drop_last();
        assert forall|k: int| 0 <= k < f1.len() implies is_field(#[trigger] f1[k]) by {
            assert(f1[k] == f[k]);
        }
        lemma_split_join(f1);
        let x = join_ws(f1);
        let p = x + seq![' '];
        assert(p.drop_last() =~= x);
        assert(is_ws(p.last()));
        assert(split_ws(p) == split_ws(x));
        assert(f.last() == f[f.len() - 1]);
        lemma_split_ws_field(f.last());
        lemma_split_ws_concat(p, f.last());
        assert(f1 + seq![f.last()] =~= f);
    }
}

/// Every piece that splitting yields is a field.
pub proof fn lemma_split_ws_fields(s: Seq<char>)
    ensures
        forall|k: int| 0 <= k < split_ws(s).len() ==> is_field(#[trigger] split_ws(s)[k]),
    decreases s.len(),
{
    if s.len() > 0 {
        let p = s.drop_last();
        let c = s.last();
        lemma_split_ws_fields(p);
        let f = split_ws(p);
        if is_ws(c) {
        } else if p.len() == 0 || is_ws(p.last()) {
            let g = f.push(seq![c]);
            assert forall|k: int| 0 <= k < g.len() implies is_field(#[trigger] g[k]) by {
                if k < f.len() {
                    assert(g[k] == f[k]);
                } else {
                    assert(g[k] == seq![c]);
                }
            }
        } else {
            lemma_split_ws_nonempty(p);
            let w = f.last().push(c);
            let g = f.drop_last().push(w);
            assert(is_field(f[f.len() - 1]));
            assert forall|i: int| 0 <= i < w.len() implies !is_ws(#[trigger] w[i]) by {
                if i < w.len() - 1 {
                    assert(w[i] == f[f.len() - 1][i]);
                }
            }
            assert forall|k: int| 0 <= k < g.len() implies is_field(#[trigger] g[k]) by {
                if k < f.len() - 1 {
                    assert(g[k] == f[k]);
                } else {
                    assert(g[k] == w);
                }
            }
        }
    }
}

/// `needle` occurs somewhere in `hay` as a run of consecutive characters.
pub open spec fn seq_contains(hay: Seq<char>, needle: Seq<char>) -> bool {
    exists|i: int|
        0 <= i && i + needle.len() <= hay.len() && #[trigger] hay.subrange(i, i + needle.len())
            == needle
}

/// Whether `n` occurs in `h` starting at position `i`.
fn occurs_at(h: &Vec<char>, n: &Vec<char>, i: usize) -> (res: bool)
    requires
        i + n@.len() <= h@.len(),
    ensures
        res == (h@.subrange(i as int, i + n@.len()) == n@),
{
    let m = n.len();
    let mut k: usize = 0;
    while k < m
        invariant
            m == n@.len(),
            i + m <= h.len(),
            k <= m,
            forall|j: int| 0 <= j < k ==> h@[i + j] == n@[j],
        decreases m - k,
    {
        if h[i + k] != n[k] {
            assert(h@.subrange(i as int, i + m)[k as int] != n@[k as int]);
            return false;
        }
        k = k + 1;
    }
    assert(h@.subrange(i as int, i + m) =~= n@);
    true
}

/// Whether `needle` occurs in `hay`, as `str::contains` with a string pattern tells.
pub fn str_contains(hay: &str, needle: &str) -> (res: bool)
    ensures
        res == seq_contains(hay@, needle@),
{
    let h = chars_of(hay);
    let n = chars_of(needle);
    if n.len() > h.len() {
        return false;
    }
    let last = h.len() - n.len();
    let mut i: usize = 0;
    loop
        invariant
            h@ == hay@,
            n@ == needle@,
            last == h@.len() - n@.len(),
            i <= last,
            forall|j: int| 0 <= j < i ==> #[trigger] h@.subrange(j, j + n@.len()) != n@,
        decreases last - i,
    {
        if occurs_at(&h, &n, i) {
            return true;
        }
        if i == last {
            return false;
        }
        i = i + 1;
    }
}

} // verus!
