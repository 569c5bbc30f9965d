//! Czech-style grouping of the digits of formatted amounts.
use vstd::prelude::*;

use crate::text::{chars_of, push_char};

verus! {

/// The separator placed between groups of three digits: a non-breaking space.
pub open spec fn nbsp() -> char {
    '\u{a0}'
}

/// The separator, if any, that precedes character `i` of an `n`-character
/// number: one before every position that leaves a multiple of three
/// characters to its right.
pub open spec fn separator_before(n: int, i: int) -> Seq<char> {
    if i > 0 && (n - i) % 3 == 0 {
        seq![nbsp()]
    } else {
        Seq::empty()
    }
}

/// The first `k` characters of `s` with their group separators.
pub open spec fn grouped_prefix(s: Seq<char>, k: int) -> Seq<char>
    decreases k,
{
    if k <= 0 {
        Seq::empty()
    } else {
        grouped_prefix(s, k - 1) + separator_before(s.len() as int, k - 1) + seq![s[k - 1]]
    }
}

/// `digits` grouped in threes from the right, after a minus sign when
/// `negative`.
pub open spec fn grouped(digits: Seq<char>, negative: bool) -> Seq<char> {
    (if negative {
        seq!['-']
    } else {
        Seq::empty()
    }) + grouped_prefix(digits, digits.len() as int)
}

/// Inserts a non-breaking space between groups of three characters of the
/// formatted magnitude `digits`, counted from the right, and puts a minus
/// sign in front when `negative`.
pub fn group_thousands(digits: &str, negative: bool) -> (s: String)
    ensures
        s@ == grouped(digits@, negative),
{
    let v = chars_of(digits);
    let n = v.len();
    let mut s = String::new();
    if negative {
        push_char(&mut s, '-');
    }
    let ghost start = s@;
    let mut i: usize = 0;
    while i < n
        invariant
            n == v.len(),
            i <= n,
            s@ == start + grouped_prefix(v@, i as int),
        decreases n - i,
    {
        if i > 0 && (n - i) % 3 == 0 {
            push_char(&mut s, '\u{a0}');
        }
        push_char(&mut s, v[i]);
        i = i + 1;
        assert(s@ =~= start + grouped_prefix(v@, i as int));
    }
    assert(s@ =~= grouped(digits@, negative));
    s
}

/// Removing the separators from a grouped number gives back its characters.
pub proof fn lemma_grouping_keeps_digits(s: Seq<char>, k: int)
    requires
        0 <= k <= s.len(),
        forall|i: int| 0 <= i < s.len() ==> #[trigger] s[i] != nbsp(),
    ensures
        grouped_prefix(s, k).filter(|c: char| c != nbsp()) == s.take(k),
    decreases k,
{
    reveal(Seq::filter);
    if k > 0 {
        lemma_grouping_keeps_digits(s, k - 1);
        let f = |c: char| c != nbsp();
        let a = grouped_prefix(s, k - 1);
        let b = separator_before(s.len() as int, k - 1);
        let c = seq![s[k - 1]];
        Seq::filter_distributes_over_add(a + b, c, f);
        Seq::filter_distributes_over_add(a, b, f);
        assert(b.filter(f) =~= Seq::<char>::empty()) by {
            if b.len() > 0 {
                assert(b.drop_last() =~= Seq::<char>::empty());
            }
        }
        assert(c.drop_last() =~= Seq::<char>::empty());
        assert(c.filter(f) =~= c);
        assert(s.take(k) =~= s.take(k - 1) + c);
    } else {
        assert(s.take(k) =~= Seq::<char>::empty());
    }
}


/// Positions of the separators in a grouped prefix: every separator, and no
/// digit, has a length to the end of the whole grouped number that is a
/// multiple of four (three digits and a separator per group).
proof fn lemma_grouped_prefix_positions(s: Seq<char>, k: int)
    requires
        1 <= k <= s.len(),
        forall|i: int| 0 <= i < s.len() ==> #[trigger] s[i] != nbsp(),
    ensures
        ({
            let n = s.len() as int;
            let g = grouped_prefix(s, k);
            let rem = n - k;
            let total = n + (n - 1) / 3;
            &&& g.len() + rem + rem / 3 == total
            &&& forall|p: int|
                0 <= p < g.len() ==> (#[trigger] g[p] == nbsp() <==> (p > 0 && (total - p) % 4
                    == 0))
        }),
    decreases k,
{
    let n = s.len() as int;
    let total = n + (n - 1) / 3;
    if k == 1 {
        assert(grouped_prefix(s, 0) =~= Seq::<char>::empty());
        assert(grouped_prefix(s, 1) =~= seq![s[0]]);
    } else {
        lemma_grouped_prefix_positions(s, k - 1);
        let prev = grouped_prefix(s, k - 1);
        let sep = separator_before(n, k - 1);
        let g = grouped_prefix(s, k);
        assert(g == prev + sep + seq![s[k - 1]]);
        let rem = n - (k - 1);
        assert(prev.len() + rem + rem / 3 == total);
        assert(sep.len() == (if rem % 3 == 0 { 1int } else { 0int }));
        assert forall|p: int| 0 <= p < g.len() implies (#[trigger] g[p] == nbsp() <==> (p > 0
            && (total - p) % 4 == 0)) by {
            if p < prev.len() {
                assert(g[p] == prev[p]);
            } else if p == g.len() - 1 {
                assert(g[p] == s[k - 1]);
                assert(prev.len() >= 1) by {
                    if k - 1 >= 1 {
                        lemma_grouped_prefix_positions(s, k - 1);
                    }
                }
            } else {
                assert(sep.len() == 1);
                assert(g[p] == sep[0]);
                assert(prev.len() >= 1);
            }
        }
    }
}

/// Czech grouping puts the separators exactly where the groups of three
/// digits, counted from the right, begin: a grouped number of `n >= 1`
/// digits has `(n - 1) / 3` separators, a character after the sign is a
/// separator if and only if it is not the first digit and the rest of the
/// number from it on is whole groups (its length a multiple of four), and
/// the digits themselves are kept in order.
pub proof fn lemma_grouping_positions(digits: Seq<char>, negative: bool)
    requires
        digits.len() >= 1,
        forall|i: int| 0 <= i < digits.len() ==> #[trigger] digits[i] != nbsp(),
    ensures
        ({
            let n = digits.len() as int;
            let r = grouped(digits, negative);
            let off: int = if negative { 1 } else { 0 };
            &&& r.len() == off + n + (n - 1) / 3
            &&& negative ==> r[0] == '-'
            &&& forall|p: int|
                off <= p < r.len() ==> (#[trigger] r[p] == nbsp() <==> (p > off && (r.len() - p)
                    % 4 == 0))
            &&& r.skip(off).filter(|c: char| c != nbsp()) == digits
        }),
{
    let n = digits.len() as int;
    lemma_grouped_prefix_positions(digits, n);
    lemma_grouping_keeps_digits(digits, n);
    assert(digits.take(n) =~= digits);
    let off: int = if negative { 1 } else { 0 };
    let pre: Seq<char> = if negative { seq!['-'] } else { Seq::empty() };
    let g = grouped_prefix(digits, n);
    let r = grouped(digits, negative);
    assert(r == pre + g);
    assert(r.skip(off) =~= g);
    assert forall|p: int| off <= p < r.len() implies (#[trigger] r[p] == nbsp() <==> (p > off && (
    r.len() - p) % 4 == 0)) by {
        assert(r[p] == g[p - off]);
    }
}

} // verus!
