//! Byte strings compared and ordered without regard to ASCII case.
//!
//! Two names are ordered by comparing their bytes one by one after folding
//! `A..=Z` to `a..=z`; a proper prefix orders before the longer name.

use vstd::prelude::*;

verus! {

/// ASCII `A`.
pub const UPPER_A: u8 = 0x41;

/// ASCII `Z`.
pub const UPPER_Z: u8 = 0x5a;

/// The outcome of a three-way comparison.
#[derive(Copy, Clone, Debug, PartialEq, Eq, Structural)]
pub enum CaseOrder {
    Less,
    Equal,
    Greater,
}

/// ASCII lower-case folding of one byte.
pub open spec fn fold(b: u8) -> u8 {
    if UPPER_A <= b && b <= UPPER_Z {
        (b + 32) as u8
    } else {
        b
    }
}

/// A byte string with every ASCII upper-case letter folded to lower case.
pub open spec fn folded(s: Seq<u8>) -> Seq<u8> {
    s.map_values(|b: u8| fold(b))
}

/// Strict lexicographic order on byte strings.
pub open spec fn lex_lt(a: Seq<u8>, b: Seq<u8>) -> bool
    decreases a.len(),
{
    if a.len() == 0 {
        b.len() > 0
    } else if b.len() == 0 {
        false
    } else if a[0] != b[0] {
        a[0] < b[0]
    } else {
        lex_lt(a.drop_first(), b.drop_first())
    }
}

/// `a` orders strictly before `b` when ASCII case is ignored.
pub open spec fn ci_lt(a: Seq<u8>, b: Seq<u8>) -> bool {
    lex_lt(folded(a), folded(b))
}

/// `a` and `b` are equal when ASCII case is ignored.
pub open spec fn ci_eq(a: Seq<u8>, b: Seq<u8>) -> bool {
    folded(a) == folded(b)
}

/// The comparison result that `compare_ignore_case` gives on `a` and `b`.
pub open spec fn spec_compare_ignore_case(a: Seq<u8>, b: Seq<u8>) -> CaseOrder {
    if ci_lt(a, b) {
        CaseOrder::Less
    } else if ci_eq(a, b) {
        CaseOrder::Equal
    } else {
        CaseOrder::Greater
    }
}

proof fn lemma_lex_irreflexive(a: Seq<u8>)
    ensures
        !lex_lt(a, a),
    decreases a.len(),
{
    if a.len() > 0 {
        lemma_lex_irreflexive(a.drop_first());
    }
}

proof fn lemma_lex_transitive(a: Seq<u8>, b: Seq<u8>, c: Seq<u8>)
    requires
        lex_lt(a, b),
        lex_lt(b, c),
    ensures
        lex_lt(a, c),
    decreases a.len(),
{
    if a.len() > 0 && b.len() > 0 && c.len() > 0 {
        if a[0] == b[0] && b[0] == c[0] {
            lemma_lex_transitive(a.drop_first(), b.drop_first(), c.drop_first());
        }
    }
}

proof fn lemma_lex_total(a: Seq<u8>, b: Seq<u8>)
    ensures
        a == b || lex_lt(a, b) || lex_lt(b, a),
    decreases a.len(),
{
    if a.len() > 0 && b.len() > 0 && a[0] == b[0] {
        lemma_lex_total(a.drop_first(), b.drop_first());
        if a.drop_first() == b.drop_first() {
            assert(a =~= seq![a[0]] + a.drop_first());
            assert(b =~= seq![b[0]] + b.drop_first());
        }
    } else if a.len() == 0 && b.len() == 0 {
        assert(a =~= b);
    }
}

proof fn lemma_lex_asymmetric(a: Seq<u8>, b: Seq<u8>)
    requires
        lex_lt(a, b),
    ensures
        !lex_lt(b, a),
{
    if lex_lt(b, a) {
        lemma_lex_transitive(a, b, a);
        lemma_lex_irreflexive(a);
    }
}

/// The case-insensitive order is a strict weak order: irreflexive,
/// asymmetric, transitive, and any two names are either equal up to case or
/// ordered one way.
pub proof fn lemma_ci_order(a: Seq<u8>, b: Seq<u8>, c: Seq<u8>)
    ensures
        !ci_lt(a, a),
        ci_lt(a, b) ==> !ci_lt(b, a),
        ci_lt(a, b) && ci_lt(b, c) ==> ci_lt(a, c),
        ci_eq(a, b) || ci_lt(a, b) || ci_lt(b, a),
        ci_eq(a, b) ==> !ci_lt(a, b),
        !ci_lt(b, a) && ci_lt(b, c) ==> ci_lt(a, c),
        ci_lt(a, b) && !ci_lt(c, b) ==> ci_lt(a, c),
{
    let (fa, fb, fc) = (folded(a), folded(b), folded(c));
    lemma_lex_irreflexive(fa);
    if lex_lt(fa, fb) {
        lemma_lex_asymmetric(fa, fb);
    }
    if lex_lt(fa, fb) && lex_lt(fb, fc) {
        lemma_lex_transitive(fa, fb, fc);
    }
    lemma_lex_total(fa, fb);
    lemma_lex_total(fb, fc);
    if !lex_lt(fb, fa) && lex_lt(fb, fc) {
        if fa != fb {
            lemma_lex_transitive(fa, fb, fc);
        }
    }
    if lex_lt(fa, fb) && !lex_lt(fc, fb) {
        if fb != fc {
            lemma_lex_transitive(fa, fb, fc);
        }
    }
}

/// ASCII lower-case folding of one byte.
pub fn fold_byte(b: u8) -> (r: u8)
    ensures
        r == fold(b),
{
    if UPPER_A <= b && b <= UPPER_Z {
        b + 32
    } else {
        b
    }
}

/// Compares two byte strings ignoring ASCII case.
pub fn compare_ignore_case(a: &[u8], b: &[u8]) -> (r: CaseOrder)
    ensures
        r == spec_compare_ignore_case(a@, b@),
{
    let ghost fa = folded(a@);
    let ghost fb = folded(b@);
    let mut i: usize = 0;
    assert(fa.skip(0) =~= fa);
    assert(fb.skip(0) =~= fb);
    while i < a.len() && i < b.len()
        invariant
            i <= a@.len(),
            i <= b@.len(),
            fa == folded(a@),
            fb == folded(b@),
            fa.subrange(0, i as int) == fb.subrange(0, i as int),
            lex_lt(fa, fb) == lex_lt(fa.skip(i as int), fb.skip(i as int)),
            lex_lt(fb, fa) == lex_lt(fb.skip(i as int), fa.skip(i as int)),
        decreases a.len() - i,
    {
        let x = fold_byte(a[i]);
        let y = fold_byte(b[i]);
        assert(fa.skip(i as int)[0] == x);
        assert(fb.skip(i as int)[0] == y);
        if x < y {
            proof {
                lemma_ci_order(a@, b@, b@);
                if fa == fb {
                    assert(fa[i as int] == fb[i as int]);
                }
            }
            return CaseOrder::Less;
        }
        if x > y {
            proof {
                lemma_ci_order(b@, a@, a@);
                if fa == fb {
                    assert(fa[i as int] == fb[i as int]);
                }
            }
            return CaseOrder::Greater;
        }
        assert(fa.skip(i as int).drop_first() =~= fa.skip(i + 1));
        assert(fb.skip(i as int).drop_first() =~= fb.skip(i + 1));
        assert(fa.subrange(0, i + 1) =~= fa.subrange(0, i as int).push(x));
        assert(fb.subrange(0, i + 1) =~= fb.subrange(0, i as int).push(y));
        i += 1;
    }
    proof {
        lemma_ci_order(a@, b@, b@);
    }
    if a.len() < b.len() {
        assert(fa.skip(i as int).len() == 0);
        CaseOrder::Less
    } else if b.len() < a.len() {
        assert(fb.skip(i as int).len() == 0);
        CaseOrder::Greater
    } else {
        assert(fa =~= fa.subrange(0, i as int));
        assert(fb =~= fb.subrange(0, i as int));
        CaseOrder::Equal
    }
}

} // verus!
