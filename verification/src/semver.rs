//! Ordering of release versions such as `0.1.2` or `1.4.0-beta`.

use std::cmp::Ordering;
use vstd::prelude::*;

use crate::text::{
    before, before_char, chars_of, copy_range, decimal, find_char, index_of, is_digit,
    lemma_decimal_digits, lemma_index_of, lemma_index_of_props, parse_decimal_law, parse_u64,
    parse_u64_spec,
};

verus! {

/// The number a dot-separated part stands for: the digits before any `-`
/// (`2-beta` counts as 2); `None` when they do not form a number.
pub open spec fn segment_number(seg: Seq<char>) -> Option<u64> {
    parse_u64_spec(before(seg, '-'))
}

/// The numbers of a version: its `.`-separated parts that are numbers, in
/// order; the other parts are skipped.
pub open spec fn version_numbers(s: Seq<char>) -> Seq<u64>
    decreases s.len(),
{
    let k = index_of(s, '.');
    let head = match segment_number(s.take(k as int)) {
        Some(n) => seq![n],
        None => Seq::empty(),
    };
    if k < s.len() {
        head + version_numbers(s.skip(k as int + 1))
    } else {
        head
    }
}

/// Lexicographic order of number lists, as `Vec<u64>` compares them:
/// -1, 0 or 1. A proper prefix comes first.
pub open spec fn lex_order(a: Seq<u64>, b: Seq<u64>) -> int
    decreases a.len(),
{
    if a.len() == 0 {
        if b.len() == 0 {
            0
        } else {
            -1
        }
    } else if b.len() == 0 {
        1
    } else if a[0] < b[0] {
        -1
    } else if a[0] > b[0] {
        1
    } else {
        lex_order(a.drop_first(), b.drop_first())
    }
}

/// How version `a` compares with version `b`: -1, 0 or 1.
pub open spec fn semver_order(a: Seq<char>, b: Seq<char>) -> int {
    lex_order(version_numbers(a), version_numbers(b))
}

/// The numbers of a version (see [`version_numbers`]).
pub fn version_numbers_of(v: &[char]) -> (r: Vec<u64>)
    ensures
        r@ == version_numbers(v@),
{
    let n = v.len();
    let mut r: Vec<u64> = Vec::new();
    let mut i: usize = 0;
    assert(v@.subrange(0, n as int) =~= v@);
    loop
        invariant
            i <= n == v.len(),
            version_numbers(v@) == r@ + version_numbers(v@.subrange(i as int, n as int)),
        decreases n - i,
    {
        let rest = copy_range(v, i, n);
        let k = find_char(rest.as_slice(), '.');
        proof {
            lemma_index_of_props(rest@, '.');
        }
        let seg = copy_range(rest.as_slice(), 0, k);
        let head = before_char(seg.as_slice(), '-');
        let num = parse_u64(head.as_slice());
        let ghost before_r = r@;
        assert(seg@ =~= rest@.take(k as int));
        match num {
            Some(x) => {
                r.push(x);
            },
            None => {},
        }
        if k == rest.len() {
            assert(r@ =~= before_r + version_numbers(rest@));
            return r;
        }
        assert(rest@.skip(k as int + 1) =~= v@.subrange(i + k + 1, n as int));
        assert(r@ + version_numbers(v@.subrange(i + k + 1, n as int)) =~= before_r
            + version_numbers(rest@));
        i = i + k + 1;
    }
}

/// Compares two number lists lexicographically.
pub fn lex_order_of(a: &Vec<u64>, b: &Vec<u64>) -> (r: i8)
    ensures
        r == lex_order(a@, b@),
{
    let mut i: usize = 0;
    assert(a@.skip(0) =~= a@);
    assert(b@.skip(0) =~= b@);
    while i < a.len() && i < b.len() && a[i] == b[i]
        invariant
            i <= a.len(),
            i <= b.len(),
            lex_order(a@, b@) == lex_order(a@.skip(i as int), b@.skip(i as int)),
        decreases a.len() - i,
    {
        assert(a@.skip(i as int).drop_first() =~= a@.skip(i + 1));
        assert(b@.skip(i as int).drop_first() =~= b@.skip(i + 1));
        i = i + 1;
    }
    if i == a.len() {
        if i == b.len() {
            0
        } else {
            -1
        }
    } else if i == b.len() {
        1
    } else if a[i] < b[i] {
        -1
    } else {
        1
    }
}

/// Compares two release versions by their numbers (see [`semver_order`]).
pub fn compare_semver(a: &str, b: &str) -> (r: Ordering)
    ensures
        (r == Ordering::Less) == (semver_order(a@, b@) == -1),
        (r == Ordering::Equal) == (semver_order(a@, b@) == 0),
        (r == Ordering::Greater) == (semver_order(a@, b@) == 1),
{
    let ac = chars_of(a);
    let bc = chars_of(b);
    let an = version_numbers_of(ac.as_slice());
    let bn = version_numbers_of(bc.as_slice());
    let o = lex_order_of(&an, &bn);
    proof {
        lex_order_laws(an@, bn@);
    }
    if o < 0 {
        Ordering::Less
    } else if o == 0 {
        Ordering::Equal
    } else {
        Ordering::Greater
    }
}

/// The order is one of -1, 0, 1, swapping the arguments negates it, and it
/// is 0 exactly for equal lists.
pub proof fn lex_order_laws(a: Seq<u64>, b: Seq<u64>)
    ensures
        lex_order(a, b) == -1 || lex_order(a, b) == 0 || lex_order(a, b) == 1,
        lex_order(a, b) == -lex_order(b, a),
        lex_order(a, b) == 0 <==> a == b,
    decreases a.len(),
{
    if a.len() > 0 && b.len() > 0 && a[0] == b[0] {
        lex_order_laws(a.drop_first(), b.drop_first());
        if a.drop_first() == b.drop_first() {
            assert(a =~= seq![a[0]] + a.drop_first());
            assert(b =~= seq![b[0]] + b.drop_first());
        }
    }
    if a.len() > 0 && b.len() > 0 && a[0] != b[0] {
        assert(a[0] != b[0]);
    }
    if a.len() == 0 && b.len() == 0 {
        assert(a =~= b);
    }
}

/// The first position where two number lists differ decides their order,
/// whatever their lengths; a list that is a proper prefix of the other comes
/// first. (This is how `Vec<u64>` compares.)
pub proof fn lex_order_first_difference(a: Seq<u64>, b: Seq<u64>, i: int)
    requires
        0 <= i <= a.len(),
        i <= b.len(),
        a.take(i) == b.take(i),
    ensures
        i < a.len() && i < b.len() && a[i] < b[i] ==> lex_order(a, b) == -1,
        i < a.len() && i < b.len() && a[i] > b[i] ==> lex_order(a, b) == 1,
        i == a.len() && i < b.len() ==> lex_order(a, b) == -1,
        i < a.len() && i == b.len() ==> lex_order(a, b) == 1,
    decreases i,
{
    if i > 0 {
        assert(a[0] == a.take(i)[0] && b[0] == b.take(i)[0]);
        assert(a.drop_first().take(i - 1) =~= a.take(i).drop_first());
        assert(b.drop_first().take(i - 1) =~= b.take(i).drop_first());
        lex_order_first_difference(a.drop_first(), b.drop_first(), i - 1);
    }
}

/// Versions compare by their first differing number: when the first
/// numbers differ, the larger first number is the later version.
pub proof fn semver_first_number_law(a: Seq<char>, b: Seq<char>)
    requires
        version_numbers(a).len() > 0,
        version_numbers(b).len() > 0,
    ensures
        version_numbers(a)[0] > version_numbers(b)[0] ==> semver_order(a, b) == 1,
        version_numbers(a)[0] < version_numbers(b)[0] ==> semver_order(a, b) == -1,
{
    assert(version_numbers(a).take(0) =~= version_numbers(b).take(0));
    lex_order_first_difference(version_numbers(a), version_numbers(b), 0);
}

/// A version written as decimal numbers joined by dots reads back as those
/// numbers: the text of `n` alone gives `[n]`; followed by a dot and more
/// text it gives `n` and then the numbers of the rest; and a `-` suffix
/// without dots after the digits (`2-beta`) still counts as `n`.
pub proof fn version_numbers_law(n: nat, rest: Seq<char>, tag: Seq<char>)
    requires
        n <= u64::MAX,
    ensures
        version_numbers(decimal(n)) == seq![n as u64],
        version_numbers(decimal(n) + seq!['.'] + rest) == seq![n as u64] + version_numbers(rest),
        (forall|j: int| 0 <= j < tag.len() ==> tag[j] != '.') ==> version_numbers(
            decimal(n) + seq!['-'] + tag,
        ) == seq![n as u64],
{
    let d = decimal(n);
    lemma_decimal_digits(n);
    parse_decimal_law(n);
    assert forall|j: int| 0 <= j < d.len() implies d[j] != '.' && d[j] != '-' by {
        assert(is_digit(d[j]));
    }
    lemma_index_of(d, '.', d.len() as int);
    lemma_index_of(d, '-', d.len() as int);
    assert(d.take(d.len() as int) =~= d);
    assert(before(d, '-') == d);
    assert(version_numbers(d) =~= seq![n as u64]);
    let s = d + seq!['.'] + rest;
    lemma_index_of(s, '.', d.len() as int);
    assert(s.take(d.len() as int) =~= d);
    assert(s.skip(d.len() as int + 1) =~= rest);
    if forall|j: int| 0 <= j < tag.len() ==> tag[j] != '.' {
        let t = d + seq!['-'] + tag;
        lemma_index_of(t, '.', t.len() as int);
        assert(t.take(t.len() as int) =~= t);
        lemma_index_of(t, '-', d.len() as int);
        assert(t.take(d.len() as int) =~= d);
        assert(before(t, '-') == d);
        assert(version_numbers(t) =~= seq![n as u64]);
    }
}

/// The order is transitive.
pub proof fn lex_order_transitive(a: Seq<u64>, b: Seq<u64>, c: Seq<u64>)
    requires
        lex_order(a, b) <= 0,
        lex_order(b, c) <= 0,
    ensures
        lex_order(a, c) <= 0,
    decreases a.len(),
{
    if a.len() > 0 && b.len() > 0 && c.len() > 0 && a[0] == b[0] && b[0] == c[0] {
        lex_order_transitive(a.drop_first(), b.drop_first(), c.drop_first());
    }
}

/// Comparing versions is antisymmetric and reflexive: `compare_semver(a, b)`
/// is the reverse of `compare_semver(b, a)`, and every version equals itself.
pub proof fn semver_order_laws(a: Seq<char>, b: Seq<char>)
    ensures
        semver_order(a, b) == -semver_order(b, a),
        semver_order(a, a) == 0,
        semver_order(a, b) == -1 || semver_order(a, b) == 0 || semver_order(a, b) == 1,
{
    lex_order_laws(version_numbers(a), version_numbers(b));
    lex_order_laws(version_numbers(a), version_numbers(a));
}

} // verus!
