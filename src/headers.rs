use vstd::prelude::*;

verus! {

/// A header as plain text: name and value.
pub type HeaderSpec = (Seq<char>, Seq<char>);

/// Lexicographic order on text, character by character (which is also the
/// byte order of the UTF-8 encoding).
pub open spec fn text_lt(a: Seq<char>, b: Seq<char>) -> bool
    decreases a.len(),
{
    if a.len() == 0 {
        b.len() > 0
    } else if b.len() == 0 {
        false
    } else if a[0] == b[0] {
        text_lt(a.drop_first(), b.drop_first())
    } else {
        (a[0] as u32) < (b[0] as u32)
    }
}

/// Each header name is strictly smaller than the next one.
pub open spec fn sorted_by_name(h: Seq<HeaderSpec>) -> bool {
    forall|i: int| 0 <= i < h.len() - 1 ==> #[trigger] text_lt(h[i].0, h[i + 1].0)
}

/// No two headers share a name.
pub open spec fn names_unique(h: Seq<HeaderSpec>) -> bool {
    forall|i: int, j: int| 0 <= i < h.len() && 0 <= j < h.len() && i != j ==> h[i].0 != h[j].0
}

pub open spec fn pair_view(p: (String, String)) -> HeaderSpec {
    (p.0@, p.1@)
}

/// An ordered list of headers; names may repeat.
pub struct Headers {
    pub pairs: Vec<(String, String)>,
}

impl View for Headers {
    type V = Seq<HeaderSpec>;

    open spec fn view(&self) -> Seq<HeaderSpec> {
        self.pairs@.map_values(|p: (String, String)| pair_view(p))
    }
}

impl Default for Headers {
    fn default() -> (r: Headers)
        ensures
            r@ == Seq::<HeaderSpec>::empty(),
    {
        Headers { pairs: Vec::new() }
    }
}

impl From<Vec<(String, String)>> for Headers {
    /// Headers in exactly the given order, duplicates kept.
    fn from(pairs: Vec<(String, String)>) -> (r: Headers) {
        Headers { pairs }
    }
}

impl vstd::std_specs::convert::FromSpecImpl<Vec<(String, String)>> for Headers {
    open spec fn obeys_from_spec() -> bool {
        true
    }

    open spec fn from_spec(pairs: Vec<(String, String)>) -> Headers {
        Headers { pairs }
    }
}

impl From<Headers> for Vec<(String, String)> {
    /// The headers as an ordered list of pairs.
    fn from(headers: Headers) -> (r: Vec<(String, String)>) {
        headers.pairs
    }
}

impl vstd::std_specs::convert::FromSpecImpl<Headers> for Vec<(String, String)> {
    open spec fn obeys_from_spec() -> bool {
        true
    }

    open spec fn from_spec(headers: Headers) -> Vec<(String, String)> {
        headers.pairs
    }
}

proof fn lemma_text_lt_total(a: Seq<char>, b: Seq<char>)
    requires
        a != b,
    ensures
        text_lt(a, b) || text_lt(b, a),
    decreases a.len(),
{
    if a.len() == 0 || b.len() == 0 {
        if a.len() == 0 && b.len() == 0 {
            assert(a =~= b);
        }
    } else if a[0] == b[0] {
        if a.drop_first() == b.drop_first() {
            assert(a =~= seq![a[0]] + a.drop_first());
            assert(b =~= seq![b[0]] + b.drop_first());
        }
        lemma_text_lt_total(a.drop_first(), b.drop_first());
    } else {
        lemma_char_u32_injective(a[0], b[0]);
    }
}

proof fn lemma_char_u32_injective(c: char, d: char)
    requires
        c != d,
    ensures
        (c as u32) != (d as u32),
{
}

/// Whether `a` comes strictly before `b` in character order.
pub fn name_lt(a: &String, b: &String) -> (r: bool)
    ensures
        r == text_lt(a@, b@),
{
    let la = a.as_str().unicode_len();
    let lb = b.as_str().unicode_len();
    let mut i: usize = 0;
    assert(a@.skip(0) =~= a@);
    assert(b@.skip(0) =~= b@);
    while i < la && i < lb && a.as_str().get_char(i) == b.as_str().get_char(i)
        invariant
            la == a@.len(),
            lb == b@.len(),
            i <= la,
            i <= lb,
            text_lt(a@, b@) == text_lt(a@.skip(i as int), b@.skip(i as int)),
        decreases la - i,
    {
        assert(a@.skip(i as int).drop_first() =~= a@.skip(i + 1));
        assert(b@.skip(i as int).drop_first() =~= b@.skip(i + 1));
        i = i + 1;
    }
    if i == la {
        i < lb
    } else if i == lb {
        false
    } else {
        (a.as_str().get_char(i) as u32) < (b.as_str().get_char(i) as u32)
    }
}

impl Headers {
    /// Headers in exactly the given order, duplicates kept.
    pub fn from_pairs(pairs: Vec<(String, String)>) -> (r: Headers)
        ensures
            r.pairs@ == pairs@,
            r@ == pairs@.map_values(|p: (String, String)| pair_view(p)),
    {
        Headers { pairs }
    }

    /// The headers as an ordered list of pairs.
    pub fn into_pairs(self) -> (r: Vec<(String, String)>)
        ensures
            r@ == self.pairs@,
    {
        self.pairs
    }

    /// Headers from a mapping with unique names, ordered by name.
    pub fn from_mapping(entries: Vec<(String, String)>) -> (r: Headers)
        requires
            names_unique(entries@.map_values(|p: (String, String)| pair_view(p))),
        ensures
            r@.len() == entries@.len(),
            sorted_by_name(r@),
            forall|h: HeaderSpec|
                r@.contains(h) <==> entries@.map_values(|p: (String, String)| pair_view(p)).contains(h),
    {
        let ghost src = entries@.map_values(|p: (String, String)| pair_view(p));
        let mut out: Vec<(String, String)> = Vec::new();
        let mut k: usize = 0;
        let n = entries.len();
        let mut rest = entries;
        while k < n
            invariant
                n == src.len(),
                k <= n,
                rest@.len() == n,
                rest@.map_values(|p: (String, String)| pair_view(p)) == src,
                out@.len() == k,
                sorted_by_name(out@.map_values(|p: (String, String)| pair_view(p))),
                forall|h: HeaderSpec|
                    out@.map_values(|p: (String, String)| pair_view(p)).contains(h) <==> src.subrange(
                        0,
                        k as int,
                    ).contains(h),
                names_unique(src),
            decreases n - k,
        {
            let ghost before = out@.map_values(|p: (String, String)| pair_view(p));
            let name = rest[k].0.clone();
            let value = rest[k].1.clone();
            let ghost x: HeaderSpec = (name@, value@);
            assert(x == src[k as int]);
            let mut p: usize = 0;
            while p < out.len() && !name_lt(&name, &out[p].0)
                invariant
                    p <= out@.len(),
                    x.0 == name@,
                    before == out@.map_values(|p: (String, String)| pair_view(p)),
                    forall|q: int| 0 <= q < p ==> !text_lt(x.0, #[trigger] before[q].0),
                decreases out@.len() - p,
            {
                assert(before[p as int] == pair_view(out@[p as int]));
                p = p + 1;
            }
            proof {
                if p < before.len() {
                    assert(before[p as int] == pair_view(out@[p as int]));
                    assert(text_lt(x.0, before[p as int].0));
                }
                assert forall|q: int| 0 <= q < before.len() implies before[q].0 != x.0 by {
                    assert(before.contains(before[q]));
                    let pre = src.subrange(0, k as int);
                    assert(pre.contains(before[q]));
                    let j = choose|j: int| 0 <= j < pre.len() && #[trigger] pre[j] == before[q];
                    assert(src[j] == before[q]);
                }
                if p > 0 {
                    lemma_text_lt_total(x.0, before[p - 1].0);
                    assert(text_lt(before[p - 1].0, x.0));
                }
            }
            out.insert(p, (name, value));
            proof {
                let after = out@.map_values(|p: (String, String)| pair_view(p));
                let ins = before.insert(p as int, x);
                assert(after =~= ins);
                assert forall|i: int| 0 <= i < after.len() - 1 implies #[trigger] text_lt(
                    after[i].0,
                    after[i + 1].0,
                ) by {
                    if i < p as int - 1 {
                        assert(after[i] == before[i] && after[i + 1] == before[i + 1]);
                        assert(text_lt(before[i].0, before[i + 1].0));
                    } else if i == p as int - 1 {
                        assert(after[i] == before[i] && after[i + 1] == x);
                    } else if i == p as int {
                        assert(after[i] == x && after[i + 1] == before[i]);
                    } else {
                        assert(after[i] == before[i - 1] && after[i + 1] == before[i]);
                        let j = i - 1;
                        assert(text_lt(before[j].0, before[j + 1].0));
                    }
                }
                let pre = src.subrange(0, k as int);
                let pre1 = src.subrange(0, k + 1);
                assert(pre1 =~= pre.push(x));
                assert forall|h: HeaderSpec| after.contains(h) implies pre1.contains(h) by {
                    let i = choose|i: int| 0 <= i < after.len() && after[i] == h;
                    if i < p {
                        assert(before[i] == h);
                        assert(before.contains(h));
                        assert(pre.contains(h));
                        let j = choose|j: int| 0 <= j < pre.len() && #[trigger] pre[j] == h;
                        assert(pre1[j] == h);
                    } else if i > p {
                        assert(before[i - 1] == h);
                        assert(before.contains(h));
                        assert(pre.contains(h));
                        let j = choose|j: int| 0 <= j < pre.len() && #[trigger] pre[j] == h;
                        assert(pre1[j] == h);
                    } else {
                        assert(pre1[k as int] == h);
                    }
                }
                assert forall|h: HeaderSpec| pre1.contains(h) implies after.contains(h) by {
                    let j = choose|j: int| 0 <= j < pre1.len() && #[trigger] pre1[j] == h;
                    if j == k {
                        assert(after[p as int] == h);
                    } else {
                        assert(pre[j] == h);
                        assert(pre.contains(h));
                        assert(before.contains(h));
                        let i = choose|i: int| 0 <= i < before.len() && before[i] == h;
                        if i < p {
                            assert(after[i] == h);
                        } else {
                            assert(after[i + 1] == h);
                        }
                    }
                }
            }
            k = k + 1;
        }
        assert(src.subrange(0, n as int) =~= src);
        Headers { pairs: out }
    }
}

} // verus!
