//! Cleaning of numbers typed on the command line.
use vstd::prelude::*;

verus! {

/// `s` with every underscore removed (underscores group digits, as in
/// `67_500`).
pub open spec fn without_underscores(s: Seq<char>) -> Seq<char>
    decreases s.len(),
{
    if s.len() == 0 {
        Seq::empty()
    } else if s.last() == '_' {
        without_underscores(s.drop_last())
    } else {
        without_underscores(s.drop_last()).push(s.last())
    }
}

/// Removes the digit-grouping underscores from a number typed by the user,
/// so that `"67_500.5"` reads as `"67500.5"`.
pub fn strip_underscores(s: &str) -> (r: String)
    ensures
        r@ == without_underscores(s@),
{
    let n = s.unicode_len();
    let mut r = String::new();
    let mut i: usize = 0;
    assert(s@.take(0) =~= Seq::<char>::empty());
    while i < n
        invariant
            n == s@.len(),
            0 <= i <= n,
            r@ == without_underscores(s@.take(i as int)),
        decreases n - i,
    {
        let c = s.get_char(i);
        assert(s@.take(i + 1).drop_last() =~= s@.take(i as int));
        assert(s@.take(i + 1).last() == c);
        if c != '_' {
            let piece = s.substring_char(i, i + 1);
            assert(piece@ =~= seq![c]);
            r.append(piece);
            assert(r@ =~= without_underscores(s@.take(i as int)).push(c));
        }
        i = i + 1;
    }
    assert(s@.take(n as int) =~= s@);
    r
}

/// Removing underscores leaves no underscore behind and never lengthens the
/// text; text without underscores is left unchanged.
pub proof fn lemma_without_underscores(s: Seq<char>)
    ensures
        !without_underscores(s).contains('_'),
        without_underscores(s).len() <= s.len(),
        !s.contains('_') ==> without_underscores(s) == s,
    decreases s.len(),
{
    if s.len() > 0 {
        let p = s.drop_last();
        lemma_without_underscores(p);
        if !s.contains('_') {
            assert(!p.contains('_')) by {
                if p.contains('_') {
                    let j = choose|j: int| 0 <= j < p.len() && p[j] == '_';
                    assert(s[j] == '_');
                }
            }
            assert(s.last() != '_') by {
                assert(s[s.len() - 1] == s.last());
            }
            assert(p.push(s.last()) =~= s);
        }
        let w = without_underscores(p);
        if s.last() != '_' {
            assert(!w.push(s.last()).contains('_')) by {
                if w.push(s.last()).contains('_') {
                    let j = choose|j: int| 0 <= j < w.len() + 1 && w.push(s.last())[j] == '_';
                    if j < w.len() {
                        assert(w[j] == '_');
                    }
                }
            }
        }
    }
}

/// Removing underscores from joined text is joining the stripped parts.
pub proof fn lemma_without_underscores_concat(a: Seq<char>, b: Seq<char>)
    ensures
        without_underscores(a + b) == without_underscores(a) + without_underscores(b),
    decreases b.len(),
{
    if b.len() == 0 {
        assert(a + b =~= a);
        assert(without_underscores(a) + without_underscores(b) =~= without_underscores(a));
    } else {
        let bp = b.drop_last();
        lemma_without_underscores_concat(a, bp);
        assert((a + b).drop_last() =~= a + bp);
        assert((a + b).last() == b.last());
        if b.last() != '_' {
            assert(without_underscores(a) + without_underscores(bp).push(b.last()) =~= (
            without_underscores(a) + without_underscores(bp)).push(b.last()));
        }
    }
}

/// Underscores typed anywhere in a number do not change what is read:
/// inserting one at position `k` leaves the stripped text as it was.
pub proof fn lemma_insert_underscore(s: Seq<char>, k: int)
    requires
        0 <= k <= s.len(),
    ensures
        without_underscores(s.take(k) + seq!['_'] + s.skip(k)) == without_underscores(s),
{
    let a = s.take(k);
    let b = s.skip(k);
    lemma_without_underscores_concat(a + seq!['_'], b);
    lemma_without_underscores_concat(a, seq!['_']);
    lemma_without_underscores_concat(a, b);
    let u = seq!['_'];
    assert(u.len() == 1 && u.last() == '_');
    assert(u.drop_last() =~= Seq::<char>::empty());
    assert(without_underscores(u.drop_last()) =~= Seq::<char>::empty());
    assert(without_underscores(u) == without_underscores(u.drop_last()));
    assert(without_underscores(u) =~= Seq::<char>::empty());
    assert(without_underscores(a) + without_underscores(u) =~= without_underscores(a));
    assert(a + b =~= s);
}

} // verus!
