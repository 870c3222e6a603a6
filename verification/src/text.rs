use vstd::prelude::*;

verus! {

/// Character-by-character string equality, proved equivalent to equality
/// of the string views.
pub fn str_eq(a: &str, b: &str) -> (r: bool)
    ensures
        r == (a@ == b@),
{
    let na = a.unicode_len();
    let nb = b.unicode_len();
    if na != nb {
        return false;
    }
    let mut i: usize = 0;
    while i < na
        invariant
            i <= na,
            na == a@.len(),
            nb == b@.len(),
            na == nb,
            forall|j: int| 0 <= j < i ==> a@[j] == b@[j],
        decreases na - i,
    {
        if a.get_char(i) != b.get_char(i) {
            return false;
        }
        i = i + 1;
    }
    proof {
        assert(a@ =~= b@);
    }
    true
}

/// Lexicographic order on character sequences, by code point.
pub open spec fn chars_le(x: Seq<char>, y: Seq<char>) -> bool
    decreases x.len(),
{
    if x.len() == 0 {
        true
    } else if y.len() == 0 {
        false
    } else if (x[0] as int) < (y[0] as int) {
        true
    } else if (x[0] as int) > (y[0] as int) {
        false
    } else {
        chars_le(x.drop_first(), y.drop_first())
    }
}

/// Any two character sequences are ordered.
pub proof fn lemma_chars_le_total(x: Seq<char>, y: Seq<char>)
    ensures
        chars_le(x, y) || chars_le(y, x),
    decreases x.len(),
{
    if x.len() > 0 && y.len() > 0 && x[0] as int == y[0] as int {
        lemma_chars_le_total(x.drop_first(), y.drop_first());
    }
}

/// The order is transitive.
pub proof fn lemma_chars_le_trans(x: Seq<char>, y: Seq<char>, z: Seq<char>)
    requires
        chars_le(x, y),
        chars_le(y, z),
    ensures
        chars_le(x, z),
    decreases x.len(),
{
    if x.len() > 0 && y.len() > 0 && z.len() > 0 && x[0] as int == y[0] as int && y[0] as int == z[
        0
    ] as int {
        lemma_chars_le_trans(x.drop_first(), y.drop_first(), z.drop_first());
    }
}

/// The order is antisymmetric: sequences ordered both ways are equal.
pub proof fn lemma_chars_le_antisym(x: Seq<char>, y: Seq<char>)
    requires
        chars_le(x, y),
        chars_le(y, x),
    ensures
        x == y,
    decreases x.len(),
{
    if x.len() == 0 {
        assert(y.len() == 0);
        assert(x =~= y);
    } else {
        assert(y.len() > 0);
        assert(x[0] as int == y[0] as int);
        lemma_chars_le_antisym(x.drop_first(), y.drop_first());
        assert(x.drop_first() == y.drop_first());
        assert(x.len() == y.len());
        assert forall|j: int| 0 <= j < x.len() implies x[j] == y[j] by {
            if j == 0 {
                lemma_char_injective(x[0], y[0]);
            } else {
                assert(x.drop_first()[j - 1] == y.drop_first()[j - 1]);
            }
        }
        assert(x =~= y);
    }
}

proof fn lemma_char_injective(c: char, d: char)
    requires
        c as int == d as int,
    ensures
        c == d,
{
    assert(((c as u32) as char) == ((d as u32) as char));
}

/// Whether `a` precedes or equals `b` in lexicographic order by code point.
pub fn str_le(a: &str, b: &str) -> (r: bool)
    ensures
        r == chars_le(a@, b@),
{
    let na = a.unicode_len();
    let nb = b.unicode_len();
    proof {
        assert(a@.skip(0) =~= a@);
        assert(b@.skip(0) =~= b@);
    }
    let mut i: usize = 0;
    while i < na && i < nb
        invariant
            i <= na,
            i <= nb,
            na == a@.len(),
            nb == b@.len(),
            chars_le(a@, b@) == chars_le(a@.skip(i as int), b@.skip(i as int)),
        decreases na - i,
    {
        let ca = a.get_char(i);
        let cb = b.get_char(i);
        if ca != cb {
            return (ca as u32) < (cb as u32);
        }
        proof {
            assert(a@.skip(i as int).drop_first() =~= a@.skip(i + 1));
            assert(b@.skip(i as int).drop_first() =~= b@.skip(i + 1));
        }
        i = i + 1;
    }
    i >= na
}

} // verus!
