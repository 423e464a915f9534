//! Patterns for addresses: a star stands for any characters, and what is written may stand
//! anywhere in the address.
use crate::text;
use crate::text::chars_of;
use vstd::prelude::*;

verus! {

/// Whether a pattern holds wildcards only, or nothing.
pub open spec fn blank(pattern: Seq<char>) -> bool {
    forall|i: int| 0 <= i < pattern.len() ==> pattern[i] == '*'
}

/// Whether the front of a text is what a pattern describes. A star stands for no character, or for
/// one and whatever a star stands for behind it.
pub open spec fn fits(pattern: Seq<char>, s: Seq<char>) -> bool
    decreases pattern.len(), s.len(),
{
    if pattern.len() == 0 {
        true
    } else if pattern[0] == '*' {
        fits(pattern.skip(1), s) || (s.len() > 0 && fits(pattern, s.skip(1)))
    } else {
        s.len() > 0 && s[0] == pattern[0] && fits(pattern.skip(1), s.skip(1))
    }
}

/// Whether what a pattern describes stands anywhere in a text.
pub open spec fn found(pattern: Seq<char>, s: Seq<char>) -> bool {
    exists|k: int| 0 <= k <= s.len() && #[trigger] fits(pattern, s.skip(k))
}

/// Whether a pattern holds wildcards only, or nothing: it would match every address.
pub fn is_blank(pattern: &str) -> (r: bool)
    ensures
        r == blank(pattern@),
{
    let chars = chars_of(pattern);
    for i in 0..chars.len()
        invariant
            chars@ == pattern@,
            forall|j: int| 0 <= j < i ==> pattern@[j] == '*',
    {
        if chars[i] != '*' {
            return false;
        }
    }
    true
}

/// Whether an address matches a pattern.
pub fn matches(pattern: &str, url: &str) -> (r: bool)
    ensures
        r == found(pattern@, url@),
{
    let p = chars_of(pattern);
    let s = chars_of(url);
    let n: usize = s.len();
    // Whether the rest of the pattern fits at each place of the address.
    let mut here: Vec<bool> = Vec::new();
    for k in 0..n
        invariant
            here@.len() == k,
            forall|j: int| 0 <= j < k ==> here@[j],
    {
        here.push(true);
    }
    here.push(true);
    let mut i: usize = p.len();
    while i > 0
        invariant
            i <= p@.len(),
            n == s@.len(),
            here@.len() == n + 1,
            forall|k: int|
                0 <= k <= n ==> here@[k] == fits(p@.skip(i as int), #[trigger] s@.skip(k)),
        decreases i,
    {
        i -= 1;
        let ghost rest = p@.skip(i + 1);
        let ghost now = p@.skip(i as int);
        let ghost before = here@;
        assert(now.skip(1) =~= rest);
        assert(now[0] == p@[i as int]);
        if p[i] == '*' {
            let mut k: usize = n;
            assert(s@.skip(n as int).len() == 0);
            while k > 0
                invariant
                    k <= n,
                    n == s@.len(),
                    here@.len() == n + 1,
                    before.len() == n + 1,
                    now.len() > 0,
                    now[0] == '*',
                    now.skip(1) == rest,
                    forall|j: int| 0 <= j < k ==> here@[j] == before[j],
                    forall|j: int|
                        0 <= j <= n ==> before[j] == fits(rest, #[trigger] s@.skip(j)),
                    forall|j: int| k <= j <= n ==> here@[j] == fits(now, #[trigger] s@.skip(j)),
                decreases k,
            {
                k -= 1;
                let either = here[k] || here[k + 1];
                proof {
                    assert(s@.skip(k as int).skip(1) =~= s@.skip(k + 1));
                    assert(here@[k as int] == fits(rest, s@.skip(k as int)));
                    assert(here@[k + 1] == fits(now, s@.skip(k + 1)));
                }
                here.set(k, either);
            }
        } else {
            for k in 0..n
                invariant
                    n == s@.len(),
                    here@.len() == n + 1,
                    before.len() == n + 1,
                    i < p@.len(),
                    now.len() > 0,
                    now[0] == p@[i as int],
                    now[0] != '*',
                    now.skip(1) == rest,
                    forall|j: int| k <= j <= n ==> here@[j] == before[j],
                    forall|j: int|
                        0 <= j <= n ==> before[j] == fits(rest, #[trigger] s@.skip(j)),
                    forall|j: int| 0 <= j < k ==> here@[j] == fits(now, #[trigger] s@.skip(j)),
            {
                let both = s[k] == p[i] && here[k + 1];
                proof {
                    assert(s@.skip(k as int).skip(1) =~= s@.skip(k + 1));
                    assert(before[k + 1] == fits(rest, s@.skip(k + 1)));
                }
                here.set(k, both);
            }
            here.set(n, false);
            assert(s@.skip(n as int).len() == 0);
        }
    }
    assert(p@.skip(0) =~= p@);
    for k in 0..here.len()
        invariant
            n == s@.len(),
            here@.len() == n + 1,
            p@ == pattern@,
            s@ == url@,
            forall|j: int| 0 <= j <= n ==> here@[j] == fits(p@, #[trigger] s@.skip(j)),
            forall|j: int| 0 <= j < k ==> !here@[j],
    {
        if here[k] {
            assert(fits(pattern@, url@.skip(k as int)));
            return true;
        }
    }
    proof {
        if found(pattern@, url@) {
            let j = choose|j: int|
                0 <= j <= url@.len() && #[trigger] fits(pattern@, url@.skip(j));
            assert(here@[j] == fits(p@, s@.skip(j)));
        }
    }
    false
}

/// A blank pattern matches every address: it tells none from another.
pub proof fn law_blank_matches_all(pattern: Seq<char>, url: Seq<char>)
    requires
        blank(pattern),
    ensures
        found(pattern, url),
{
    lemma_blank_fits(pattern, url);
    assert(url.skip(0) =~= url);
    assert(fits(pattern, url.skip(0)));
}

proof fn lemma_blank_fits(pattern: Seq<char>, s: Seq<char>)
    requires
        blank(pattern),
    ensures
        fits(pattern, s),
    decreases pattern.len(),
{
    if pattern.len() > 0 {
        lemma_blank_fits(pattern.skip(1), s);
    }
}

/// A pattern without a star matches the addresses that hold it.
pub proof fn law_plain_patterns_are_parts(pattern: Seq<char>, url: Seq<char>)
    requires
        forall|i: int| 0 <= i < pattern.len() ==> pattern[i] != '*',
    ensures
        found(pattern, url) <==> text::holds(url, pattern),
{
    assert forall|k: int| 0 <= k <= url.len() implies fits(pattern, #[trigger] url.skip(k))
        == text::stands_at(url, pattern, k) by {
        lemma_plain(pattern, url, k);
    }
    if found(pattern, url) {
        let k = choose|k: int| 0 <= k <= url.len() && #[trigger] fits(pattern, url.skip(k));
        assert(text::stands_at(url, pattern, k));
    }
    if text::holds(url, pattern) {
        let k = choose|k: int| text::stands_at(url, pattern, k);
        assert(fits(pattern, url.skip(k)));
    }
}

proof fn lemma_plain(pattern: Seq<char>, url: Seq<char>, at: int)
    requires
        forall|i: int| 0 <= i < pattern.len() ==> pattern[i] != '*',
        0 <= at <= url.len(),
    ensures
        fits(pattern, url.skip(at)) == text::stands_at(url, pattern, at),
    decreases pattern.len(),
{
    if pattern.len() == 0 {
        assert(url.subrange(at, at) =~= pattern);
    } else if at < url.len() {
        let rest = pattern.skip(1);
        lemma_plain(rest, url, at + 1);
        assert(url.skip(at).skip(1) =~= url.skip(at + 1));
        if text::stands_at(url, pattern, at) {
            assert(url.subrange(at + 1, at + 1 + rest.len()) =~= rest);
            assert(url.subrange(at, at + pattern.len())[0] == pattern[0]);
        }
        if url[at] == pattern[0] && text::stands_at(url, rest, at + 1) {
            let tail = url.subrange(at + 1, at + 1 + rest.len());
            assert forall|j: int| 0 <= j < pattern.len() implies url[at + j] == pattern[j] by {
                if j > 0 {
                    assert(tail[j - 1] == rest[j - 1]);
                }
            }
            assert(url.subrange(at, at + pattern.len()) =~= pattern);
        }
    }
}

/// A star stands for any characters: a pattern with one matches where what is written before it
/// stands in the address and what follows it matches behind that.
pub proof fn law_stars_stand_for_anything(front: Seq<char>, rest: Seq<char>, url: Seq<char>)
    requires
        forall|i: int| 0 <= i < front.len() ==> front[i] != '*',
    ensures
        found(front + seq!['*'] + rest, url) <==> exists|i: int|
            0 <= i && i + front.len() <= url.len() && url.subrange(i, i + front.len()) == front
                && #[trigger] found(rest, url.skip(i + front.len())),
{
    let pattern = front + seq!['*'] + rest;
    if found(pattern, url) {
        let k = choose|k: int| 0 <= k <= url.len() && #[trigger] fits(pattern, url.skip(k));
        lemma_star(front, rest, url.skip(k));
        assert(url.skip(k).skip(front.len() as int) =~= url.skip(k + front.len()));
        assert(url.skip(k).take(front.len() as int) =~= url.subrange(k, k + front.len()));
        assert(found(rest, url.skip(k + front.len())));
    }
    if exists|i: int|
        0 <= i && i + front.len() <= url.len() && url.subrange(i, i + front.len()) == front
            && #[trigger] found(rest, url.skip(i + front.len())) {
        let i = choose|i: int|
            0 <= i && i + front.len() <= url.len() && url.subrange(i, i + front.len()) == front
                && #[trigger] found(rest, url.skip(i + front.len()));
        assert(url.skip(i).skip(front.len() as int) =~= url.skip(i + front.len()));
        assert(url.skip(i).take(front.len() as int) =~= url.subrange(i, i + front.len()));
        lemma_star(front, rest, url.skip(i));
        assert(fits(pattern, url.skip(i)));
    }
}

proof fn lemma_star(front: Seq<char>, rest: Seq<char>, s: Seq<char>)
    requires
        forall|i: int| 0 <= i < front.len() ==> front[i] != '*',
    ensures
        fits(front + seq!['*'] + rest, s) <==> front.len() <= s.len() && s.take(front.len() as int)
            == front && found(rest, s.skip(front.len() as int)),
    decreases front.len(),
{
    let pattern = front + seq!['*'] + rest;
    if front.len() == 0 {
        assert(pattern =~= seq!['*'] + rest);
        assert(s.take(0) =~= front);
        assert(s.skip(0) =~= s);
        lemma_leading_star(rest, s);
    } else {
        let f = front.skip(1);
        assert(pattern.skip(1) =~= f + seq!['*'] + rest);
        assert(pattern[0] == front[0]);
        if s.len() > 0 {
            let t = s.skip(1);
            lemma_star(f, rest, t);
            if s.len() >= front.len() {
                assert(t.skip(f.len() as int) =~= s.skip(front.len() as int));
                if s.take(front.len() as int) == front {
                    assert(s.take(front.len() as int)[0] == front[0]);
                    assert(t.take(f.len() as int) =~= s.take(front.len() as int).skip(1));
                }
                if s[0] == front[0] && t.take(f.len() as int) == f {
                    assert(s.take(front.len() as int) =~= seq![s[0]] + t.take(f.len() as int));
                    assert(front =~= seq![front[0]] + f);
                }
            }
        }
    }
}

proof fn lemma_leading_star(rest: Seq<char>, s: Seq<char>)
    ensures
        fits(seq!['*'] + rest, s) <==> found(rest, s),
    decreases s.len(),
{
    let pattern = seq!['*'] + rest;
    assert(pattern.skip(1) =~= rest);
    assert(s.skip(0) =~= s);
    if s.len() > 0 {
        let t = s.skip(1);
        lemma_leading_star(rest, t);
        if found(rest, t) {
            let k = choose|k: int| 0 <= k <= t.len() && #[trigger] fits(rest, t.skip(k));
            assert(t.skip(k) =~= s.skip(k + 1));
            assert(fits(rest, s.skip(k + 1)));
        }
        if found(rest, s) {
            let k = choose|k: int| 0 <= k <= s.len() && #[trigger] fits(rest, s.skip(k));
            if k > 0 {
                assert(s.skip(k) =~= t.skip(k - 1));
                assert(fits(rest, t.skip(k - 1)));
            }
        }
        if fits(rest, s) {
            assert(fits(rest, s.skip(0)));
        }
    } else {
        if found(rest, s) {
            let k = choose|k: int| 0 <= k <= s.len() && #[trigger] fits(rest, s.skip(k));
            assert(s.skip(k) =~= s);
        }
        if fits(rest, s) {
            assert(fits(rest, s.skip(0)));
        }
    }
}

/// A pattern is blank where it holds nothing besides stars; an address matches as the pattern describes
/// a part of it. Without a star that is to hold the pattern as it stands.
pub proof fn law_patterns_are_matched(pattern: &str, url: &str, blank_one: bool, r: bool)
    requires
        call_ensures(is_blank, (pattern,), blank_one),
        call_ensures(matches, (pattern, url), r),
    ensures
        blank_one <==> forall|i: int| 0 <= i < pattern@.len() ==> #[trigger] pattern@[i] == '*',
        blank_one ==> r,
        (forall|i: int| 0 <= i < pattern@.len() ==> #[trigger] pattern@[i] != '*') ==> (r
            <==> exists|at: int|
            0 <= at && at + pattern@.len() <= url@.len() && #[trigger] url@.skip(at).take(
                pattern@.len() as int,
            ) == pattern@),
{
    if blank_one {
        lemma_blank_fits(pattern@, url@.skip(0));
    }
    if forall|i: int| 0 <= i < pattern@.len() ==> #[trigger] pattern@[i] != '*' {
        if r {
            let k = choose|k: int| 0 <= k <= url@.len() && #[trigger] fits(pattern@, url@.skip(k));
            lemma_plain_fits(pattern@, url@.skip(k));
        }
        if exists|at: int|
            0 <= at && at + pattern@.len() <= url@.len() && #[trigger] url@.skip(at).take(
                pattern@.len() as int,
            ) == pattern@ {
            let at = choose|at: int|
                0 <= at && at + pattern@.len() <= url@.len() && #[trigger] url@.skip(at).take(
                    pattern@.len() as int,
                ) == pattern@;
            lemma_plain_fits(pattern@, url@.skip(at));
        }
    }
}

proof fn lemma_plain_fits(pattern: Seq<char>, s: Seq<char>)
    requires
        forall|i: int| 0 <= i < pattern.len() ==> #[trigger] pattern[i] != '*',
    ensures
        fits(pattern, s) <==> pattern.len() <= s.len() && s.take(pattern.len() as int) == pattern,
    decreases pattern.len(),
{
    if pattern.len() == 0 {
        assert(s.take(0) =~= pattern);
    } else {
        assert(pattern[0] != '*');
        let rest = pattern.skip(1);
        assert forall|i: int| 0 <= i < rest.len() implies #[trigger] rest[i] != '*' by {
            assert(rest[i] == pattern[i + 1]);
        }
        if s.len() > 0 {
            lemma_plain_fits(rest, s.skip(1));
            if s.skip(1).len() >= rest.len() {
                let (x, y) = (s.take(pattern.len() as int), pattern);
                assert(x.drop_first() =~= s.skip(1).take(rest.len() as int));
                if x[0] == y[0] && x.drop_first() == y.drop_first() {
                    assert(x =~= seq![x[0]] + x.drop_first());
                    assert(y =~= seq![y[0]] + y.drop_first());
                }
                assert(x[0] == s[0]);
            }
        }
    }
}

} // verus!
