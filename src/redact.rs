//! Literal substring replacement and per-line redaction of secrets.
use vstd::prelude::*;
use vstd::string::*;

verus! {

/// The text that replaces every occurrence of a secret.
pub open spec fn placeholder() -> Seq<char> {
    seq!['[', 'r', 'e', 'd', 'a', 'c', 't', 'e', 'd', ']']
}

/// `p` occurs in `s` starting at index `i`.
pub open spec fn occurs_at(s: Seq<char>, p: Seq<char>, i: int) -> bool {
    0 <= i && i + p.len() <= s.len() && s.subrange(i, i + p.len()) == p
}

/// `p` occurs somewhere in `s`.
pub open spec fn contains(s: Seq<char>, p: Seq<char>) -> bool {
    exists|i: int| occurs_at(s, p, i)
}

/// `x` can overlap an occurrence of `p` in some text: one lies inside the
/// other, or a proper part at one end of `x` is the part of `p` at the other end.
pub open spec fn overlaps(x: Seq<char>, p: Seq<char>) -> bool {
    ||| contains(p, x)
    ||| contains(x, p)
    ||| exists|k: int| 0 < k < x.len() && occurs_at(p, x.subrange(k, x.len() as int), 0)
    ||| exists|k: int| 0 < k < x.len() && occurs_at(p, x.subrange(0, k), p.len() - k)
}

/// The pieces of `s` between the non-overlapping occurrences of a non-empty
/// `p`, found left to right: `start` is where the current piece begins, `k`
/// where the next occurrence is looked for.
pub open spec fn pieces(s: Seq<char>, p: Seq<char>, start: int, k: int) -> Seq<Seq<char>>
    decreases s.len() - k,
{
    if !(0 <= start <= k <= s.len()) || p.len() == 0 {
        Seq::empty()
    } else if k + p.len() > s.len() {
        seq![s.subrange(start, s.len() as int)]
    } else if occurs_at(s, p, k) {
        seq![s.subrange(start, k)] + pieces(s, p, k + p.len(), k + p.len())
    } else {
        pieces(s, p, start, k + 1)
    }
}

/// `s` cut at every occurrence of `p`, as `str::split` cuts it: the empty
/// pattern occurs before every character and at the end.
pub open spec fn split_spec(s: Seq<char>, p: Seq<char>) -> Seq<Seq<char>> {
    if p.len() == 0 {
        seq![Seq::<char>::empty()] + Seq::new(s.len(), |i: int| seq![s[i]]) + seq![
            Seq::<char>::empty(),
        ]
    } else {
        pieces(s, p, 0, 0)
    }
}

/// Every text cut at the occurrences of `p`, the pieces kept in order.
pub open spec fn split_all(ts: Seq<Seq<char>>, p: Seq<char>) -> Seq<Seq<char>>
    decreases ts.len(),
{
    if ts.len() == 0 {
        Seq::empty()
    } else {
        split_all(ts.drop_last(), p) + split_spec(ts.last(), p)
    }
}

/// The texts joined, with `sep` between each two.
pub open spec fn join_with(ts: Seq<Seq<char>>, sep: Seq<char>) -> Seq<char>
    decreases ts.len(),
{
    if ts.len() == 0 {
        Seq::empty()
    } else if ts.len() == 1 {
        ts[0]
    } else {
        join_with(ts.drop_last(), sep) + sep + ts.last()
    }
}

/// The text between the placeholders once the secrets are applied in order:
/// each secret cuts only the text left by the secrets before it, so it never
/// matches inside a placeholder, nor across one.
pub open spec fn redact_texts(line: Seq<char>, secrets: Seq<Seq<char>>) -> Seq<Seq<char>>
    decreases secrets.len(),
{
    if secrets.len() == 0 {
        seq![line]
    } else {
        split_all(redact_texts(line, secrets.drop_last()), secrets.last())
    }
}

/// The redacted line: the remaining text with a placeholder where each secret was.
pub open spec fn redact_spec(line: Seq<char>, secrets: Seq<Seq<char>>) -> Seq<char> {
    join_with(redact_texts(line, secrets), placeholder())
}

/// The views of a list of strings.
pub open spec fn views(v: Seq<String>) -> Seq<Seq<char>> {
    v.map_values(|s: String| s@)
}

/// No text of `ts` contains `x`.
pub open spec fn none_contains(ts: Seq<Seq<char>>, x: Seq<char>) -> bool {
    forall|j: int| 0 <= j < ts.len() ==> !contains(#[trigger] ts[j], x)
}

/// No piece holds `x`: either `x` is the pattern and no occurrence of it starts
/// in the part passed over, or `x` occurs nowhere from `start` on.
proof fn lemma_pieces_avoid(s: Seq<char>, p: Seq<char>, start: int, k: int, x: Seq<char>)
    requires
        p.len() > 0,
        0 <= start <= k <= s.len(),
        (x == p && forall|i: int| start <= i < k ==> !occurs_at(s, p, i)) || (forall|i: int|
            start <= i ==> !occurs_at(s, x, i)),
    ensures
        none_contains(pieces(s, p, start, k), x),
    decreases s.len() - k,
{
    let ps = pieces(s, p, start, k);
    if k + p.len() > s.len() {
        let a = s.subrange(start, s.len() as int);
        assert forall|i: int| !occurs_at(a, x, i) by {
            if occurs_at(a, x, i) {
                assert(a.subrange(i, i + x.len()) =~= s.subrange(start + i, start + i + x.len()));
                assert(occurs_at(s, x, start + i));
            }
        }
        assert forall|j: int| 0 <= j < ps.len() implies !contains(#[trigger] ps[j], x) by {
            assert(ps[j] == a);
        }
    } else if occurs_at(s, p, k) {
        let k2 = k + p.len();
        lemma_pieces_avoid(s, p, k2, k2, x);
        let a = s.subrange(start, k);
        let rest = pieces(s, p, k2, k2);
        assert forall|i: int| !occurs_at(a, x, i) by {
            if occurs_at(a, x, i) {
                assert(a.subrange(i, i + x.len()) =~= s.subrange(start + i, start + i + x.len()));
                assert(occurs_at(s, x, start + i));
            }
        }
        assert forall|j: int| 0 <= j < ps.len() implies !contains(#[trigger] ps[j], x) by {
            if j == 0 {
                assert(ps[j] == a);
            } else {
                assert(ps[j] == rest[j - 1]);
            }
        }
    } else {
        lemma_pieces_avoid(s, p, start, k + 1, x);
    }
}

/// Cutting every text at a non-empty pattern leaves no piece holding the
/// pattern, nor a text that no text held before.
proof fn lemma_split_all_avoids(ts: Seq<Seq<char>>, p: Seq<char>, x: Seq<char>)
    requires
        p.len() > 0,
        x == p || none_contains(ts, x),
    ensures
        none_contains(split_all(ts, p), x),
    decreases ts.len(),
{
    if ts.len() > 0 {
        let init = ts.drop_last();
        assert(x == p || none_contains(init, x)) by {
            if x != p {
                assert forall|j: int| 0 <= j < init.len() implies !contains(#[trigger] init[j], x) by {
                    assert(init[j] == ts[j]);
                }
            }
        }
        lemma_split_all_avoids(init, p, x);
        let t = ts.last();
        if x != p {
            assert(!contains(t, x));
            assert forall|i: int| 0 <= i implies !occurs_at(t, x, i) by {
                assert(!occurs_at(t, x, i));
            }
        }
        lemma_pieces_avoid(t, p, 0, 0, x);
        let left = split_all(init, p);
        let right = pieces(t, p, 0, 0);
        let all = split_all(ts, p);
        assert(all == left + right);
        assert forall|j: int| 0 <= j < all.len() implies !contains(#[trigger] all[j], x) by {
            if j < left.len() {
                assert(all[j] == left[j]);
            } else {
                assert(all[j] == right[j - left.len()]);
            }
        }
    }
}

/// Joining texts that do not hold `x` with a separator that `x` cannot
/// overlap makes no occurrence of `x`.
proof fn lemma_join_avoids(ts: Seq<Seq<char>>, sep: Seq<char>, x: Seq<char>)
    requires
        none_contains(ts, x),
        x.len() > 0,
        !overlaps(x, sep),
    ensures
        !contains(join_with(ts, sep), x),
    decreases ts.len(),
{
    if ts.len() == 1 {
        assert(!contains(ts[0], x));
    } else if ts.len() > 1 {
        let init = ts.drop_last();
        assert forall|j: int| 0 <= j < init.len() implies !contains(#[trigger] init[j], x) by {
            assert(init[j] == ts[j]);
        }
        lemma_join_avoids(init, sep, x);
        let a = join_with(init, sep);
        let b = ts.last();
        assert(!contains(b, x));
        let res = join_with(ts, sep);
        assert(res == a + sep + b);
        assert forall|i: int| !occurs_at(res, x, i) by {
            if occurs_at(res, x, i) {
                if i + x.len() <= a.len() {
                    assert(res.subrange(i, i + x.len()) =~= a.subrange(i, i + x.len()));
                    assert(occurs_at(a, x, i));
                } else if i >= a.len() + sep.len() {
                    let j = i - a.len() - sep.len();
                    assert(res.subrange(i, i + x.len()) =~= b.subrange(j, j + x.len()));
                    assert(occurs_at(b, x, j));
                } else if i >= a.len() && i + x.len() <= a.len() + sep.len() {
                    let j = i - a.len();
                    assert(sep.subrange(j, j + x.len()) =~= res.subrange(i, i + x.len()));
                    assert(occurs_at(sep, x, j));
                } else if i < a.len() && i + x.len() >= a.len() + sep.len() {
                    let j = a.len() - i;
                    assert(res.subrange(a.len() as int, (a.len() + sep.len()) as int) =~= sep);
                    assert(x.subrange(j, j + sep.len()) =~= res.subrange(a.len() as int, (a.len() + sep.len()) as int));
                    assert(occurs_at(x, sep, j));
                } else if i < a.len() {
                    let k = a.len() - i;
                    assert(sep.subrange(0, x.len() - k) =~= x.subrange(k, x.len() as int));
                    assert(occurs_at(sep, x.subrange(k, x.len() as int), 0));
                } else {
                    let k = a.len() + sep.len() - i;
                    assert(sep.subrange(sep.len() - k, sep.len() as int) =~= x.subrange(0, k));
                    assert(occurs_at(sep, x.subrange(0, k), sep.len() - k));
                }
            }
        }
    }
}

/// After the secrets are applied, no text left between placeholders holds one.
proof fn lemma_texts_hide_secrets(line: Seq<char>, secrets: Seq<Seq<char>>)
    requires
        forall|k: int| 0 <= k < secrets.len() ==> (#[trigger] secrets[k]).len() > 0,
    ensures
        forall|k: int|
            0 <= k < secrets.len() ==> none_contains(redact_texts(line, secrets), #[trigger] secrets[k]),
    decreases secrets.len(),
{
    if secrets.len() > 0 {
        let n = secrets.len() - 1;
        let init = secrets.drop_last();
        assert forall|k: int| 0 <= k < init.len() implies (#[trigger] init[k]).len() > 0 by {
            assert(init[k] == secrets[k]);
        }
        lemma_texts_hide_secrets(line, init);
        let prev = redact_texts(line, init);
        assert forall|k: int| 0 <= k < secrets.len() implies none_contains(
            redact_texts(line, secrets),
            #[trigger] secrets[k],
        ) by {
            if k < n {
                assert(init[k] == secrets[k]);
            }
            lemma_split_all_avoids(prev, secrets.last(), secrets[k]);
        }
    }
}

/// After redaction no secret occurs in the line, for non-empty secrets that
/// cannot overlap the placeholder.
pub proof fn lemma_redact_hides_secrets(line: Seq<char>, secrets: Seq<Seq<char>>)
    requires
        forall|k: int|
            0 <= k < secrets.len() ==> (#[trigger] secrets[k]).len() > 0 && !overlaps(
                secrets[k],
                placeholder(),
            ),
    ensures
        forall|k: int| 0 <= k < secrets.len() ==> !contains(redact_spec(line, secrets), #[trigger] secrets[k]),
{
    lemma_texts_hide_secrets(line, secrets);
    assert forall|k: int| 0 <= k < secrets.len() implies !contains(
        redact_spec(line, secrets),
        #[trigger] secrets[k],
    ) by {
        assert(none_contains(redact_texts(line, secrets), secrets[k]));
        lemma_join_avoids(redact_texts(line, secrets), placeholder(), secrets[k]);
    }
}

fn chars_of(s: &str) -> (r: Vec<char>)
    ensures
        r@ == s@,
{
    let n = s.unicode_len();
    let mut r: Vec<char> = Vec::new();
    let mut i: usize = 0;
    while i < n
        invariant
            n == s@.len(),
            i <= n,
            r@ == s@.subrange(0, i as int),
        decreases n - i,
    {
        r.push(s.get_char(i));
        i = i + 1;
        assert(r@ =~= s@.subrange(0, i as int));
    }
    assert(r@ =~= s@);
    r
}

fn matches_at(s: &Vec<char>, p: &Vec<char>, k: usize) -> (r: bool)
    requires
        k + p@.len() <= s@.len(),
    ensures
        r == occurs_at(s@, p@, k as int),
{
    let m = p.len();
    let n = s.len();
    let mut j: usize = 0;
    while j < m
        invariant
            m == p@.len(),
            n == s@.len(),
            k + m <= s@.len(),
            j <= m,
            forall|t: int| 0 <= t < j ==> s@[k + t] == p@[t],
        decreases m - j,
    {
        if s[k + j] != p[j] {
            assert(s@.subrange(k as int, k + m)[j as int] != p@[j as int]);
            return false;
        }
        j = j + 1;
    }
    assert(s@.subrange(k as int, k + m) =~= p@);
    true
}

/// `s` begins with `p`, as `str::starts_with` decides for a string pattern.
pub fn has_prefix(s: &str, p: &str) -> (r: bool)
    ensures
        r == occurs_at(s@, p@, 0),
{
    let n = s.unicode_len();
    let m = p.unicode_len();
    if m > n {
        return false;
    }
    let sc = chars_of(s);
    let pc = chars_of(p);
    matches_at(&sc, &pc, 0)
}

/// Cuts `s` at every occurrence of `pat`, as `str::split` does.
pub fn split_text(s: &str, pat: &str) -> (r: Vec<String>)
    ensures
        views(r@) == split_spec(s@, pat@),
{
    let n = s.unicode_len();
    let m = pat.unicode_len();
    let mut out: Vec<String> = Vec::new();
    if m == 0 {
        out.push(String::new());
        let mut i: usize = 0;
        while i < n
            invariant
                n == s@.len(),
                i <= n,
                views(out@) == seq![Seq::<char>::empty()] + Seq::new(
                    i as nat,
                    |j: int| seq![s@[j]],
                ),
            decreases n - i,
        {
            let piece = s.substring_char(i, i + 1);
            assert(piece@ =~= seq![s@[i as int]]);
            let ghost prev = out@;
            out.push(String::from_str(piece));
            assert(views(out@) =~= views(prev).push(seq![s@[i as int]]));
            i = i + 1;
            assert(views(out@) =~= seq![Seq::<char>::empty()] + Seq::new(
                i as nat,
                |j: int| seq![s@[j]],
            ));
        }
        out.push(String::new());
        assert(views(out@) =~= split_spec(s@, pat@));
        return out;
    }
    let sc = chars_of(s);
    let pc = chars_of(pat);
    let mut start: usize = 0;
    let mut k: usize = 0;
    while k <= n && m <= n - k
        invariant
            n == s@.len(),
            m == pat@.len(),
            m > 0,
            sc@ == s@,
            pc@ == pat@,
            start <= k <= n,
            views(out@) + pieces(s@, pat@, start as int, k as int) == pieces(s@, pat@, 0, 0),
        decreases n - k,
    {
        if matches_at(&sc, &pc, k) {
            let ghost before = out@;
            out.push(String::from_str(s.substring_char(start, k)));
            assert(views(out@) =~= views(before).push(s@.subrange(start as int, k as int)));
            k = k + m;
            start = k;
        } else {
            k = k + 1;
        }
        proof {
            assert(views(out@) + pieces(s@, pat@, start as int, k as int) =~= pieces(s@, pat@, 0, 0));
        }
    }
    let ghost before = out@;
    out.push(String::from_str(s.substring_char(start, n)));
    assert(views(out@) =~= views(before) + pieces(s@, pat@, start as int, k as int));
    out
}

/// Replaces every occurrence of each secret, in order, by `[redacted]`; a
/// placeholder already put in is not looked into by later secrets.
pub fn redact(line: &str, secrets: &Vec<String>) -> (r: String)
    ensures
        r@ == redact_spec(line@, views(secrets@)),
{
    let mut texts: Vec<String> = Vec::new();
    texts.push(String::from_str(line));
    assert(views(texts@) =~= seq![line@]);
    let mut i: usize = 0;
    while i < secrets.len()
        invariant
            i <= secrets@.len(),
            views(texts@) == redact_texts(line@, views(secrets@.subrange(0, i as int))),
        decreases secrets@.len() - i,
    {
        let p = secrets[i].as_str();
        let mut next: Vec<String> = Vec::new();
        let mut j: usize = 0;
        while j < texts.len()
            invariant
                j <= texts@.len(),
                i < secrets@.len(),
                p@ == secrets@[i as int]@,
                views(next@) == split_all(views(texts@).subrange(0, j as int), p@),
            decreases texts@.len() - j,
        {
            let cut = split_text(texts[j].as_str(), p);
            let ghost before = next@;
            let mut c: usize = 0;
            while c < cut.len()
                invariant
                    c <= cut@.len(),
                    views(next@) == views(before) + views(cut@).subrange(0, c as int),
                decreases cut@.len() - c,
            {
                let ghost prev = next@;
                next.push(cut[c].clone());
                assert(views(next@) =~= views(prev).push(cut@[c as int]@));
                c = c + 1;
                assert(views(next@) =~= views(before) + views(cut@).subrange(0, c as int));
            }
            proof {
                let tj = views(texts@).subrange(0, j + 1);
                assert(tj.drop_last() =~= views(texts@).subrange(0, j as int));
                assert(views(cut@).subrange(0, c as int) =~= views(cut@));
            }
            j = j + 1;
        }
        proof {
            let pre = views(secrets@.subrange(0, i + 1));
            assert(pre.drop_last() =~= views(secrets@.subrange(0, i as int)));
            assert(views(texts@).subrange(0, texts@.len() as int) =~= views(texts@));
        }
        texts = next;
        i = i + 1;
    }
    assert(secrets@.subrange(0, secrets@.len() as int) =~= secrets@);
    let marker = "[redacted]";
    proof {
        reveal_strlit("[redacted]");
        assert(marker@ =~= placeholder());
    }
    join_texts(&texts, marker)
}

/// The texts joined, with `sep` between each two.
pub fn join_texts(ts: &Vec<String>, sep: &str) -> (r: String)
    ensures
        r@ == join_with(views(ts@), sep@),
{
    let mut out = String::new();
    let mut i: usize = 0;
    while i < ts.len()
        invariant
            i <= ts@.len(),
            out@ == join_with(views(ts@.subrange(0, i as int)), sep@),
        decreases ts@.len() - i,
    {
        let ghost pre = views(ts@.subrange(0, i + 1));
        assert(pre.drop_last() =~= views(ts@.subrange(0, i as int)));
        if i > 0 {
            out.append(sep);
        } else {
            assert(pre =~= seq![ts@[0]@]);
        }
        out.append(ts[i].as_str());
        i = i + 1;
    }
    assert(ts@.subrange(0, ts@.len() as int) =~= ts@);
    out
}

} // verus!
