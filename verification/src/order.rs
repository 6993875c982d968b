//! Lexicographic order over task names, compared character by character by
//! Unicode scalar value, together with the order laws the sorting engine
//! needs: totality, antisymmetry and transitivity.

use vstd::prelude::*;

verus! {

/// `a` comes no later than `b` in lexicographic order: at the first position
/// where they differ the smaller character wins, and a proper prefix comes
/// before its extensions.
pub open spec fn lex_le(a: Seq<char>, b: Seq<char>) -> bool
    decreases a.len(),
{
    if a.len() == 0 {
        true
    } else if b.len() == 0 {
        false
    } else if a[0] < b[0] {
        true
    } else if b[0] < a[0] {
        false
    } else {
        lex_le(a.drop_first(), b.drop_first())
    }
}

/// Strictly earlier in lexicographic order.
pub open spec fn lex_lt(a: Seq<char>, b: Seq<char>) -> bool {
    lex_le(a, b) && a != b
}

/// Any two character sequences are comparable.
pub proof fn lemma_lex_total(a: Seq<char>, b: Seq<char>)
    ensures
        lex_le(a, b) || lex_le(b, a),
    decreases a.len(),
{
    if a.len() > 0 && b.len() > 0 && a[0] == b[0] {
        lemma_lex_total(a.drop_first(), b.drop_first());
    }
}

/// Sequences earlier than each other are the same sequence.
pub proof fn lemma_lex_antisymmetric(a: Seq<char>, b: Seq<char>)
    ensures
        (lex_le(a, b) && lex_le(b, a)) ==> a == b,
    decreases a.len(),
{
    if lex_le(a, b) && lex_le(b, a) {
        if a.len() == 0 {
            assert(b.len() == 0);
            assert(a =~= b);
        } else {
            assert(a[0] == b[0]);
            lemma_lex_antisymmetric(a.drop_first(), b.drop_first());
            assert(a =~= seq![a[0]] + a.drop_first());
            assert(b =~= seq![b[0]] + b.drop_first());
        }
    }
}

/// Lexicographic order is transitive.
pub proof fn lemma_lex_transitive(a: Seq<char>, b: Seq<char>, c: Seq<char>)
    requires
        lex_le(a, b),
        lex_le(b, c),
    ensures
        lex_le(a, c),
    decreases a.len(),
{
    if a.len() > 0 && b.len() > 0 && c.len() > 0 {
        if a[0] == b[0] && b[0] == c[0] {
            lemma_lex_transitive(a.drop_first(), b.drop_first(), c.drop_first());
        }
    }
}

/// Three-way comparison of two names: 0 when `a` comes first, 1 when they
/// are the same text, 2 when `b` comes first.
pub fn lex_cmp(a: &str, b: &str) -> (r: u8)
    ensures
        r == 0 ==> lex_lt(a@, b@),
        r == 1 ==> a@ == b@,
        r == 2 ==> lex_lt(b@, a@),
        r == 0 || r == 1 || r == 2,
{
    let a_len = a.unicode_len();
    let b_len = b.unicode_len();
    let mut i: usize = 0;
    loop
        invariant_except_break
            i <= a_len,
            i <= b_len,
            a_len == a@.len(),
            b_len == b@.len(),
            a@.subrange(0, i as int) == b@.subrange(0, i as int),
        ensures
            ({
                let r: u8 = if i < a_len && i < b_len {
                    if a.view()[i as int] < b.view()[i as int] {
                        0u8
                    } else {
                        2u8
                    }
                } else if a_len == b_len {
                    1u8
                } else if a_len < b_len {
                    0u8
                } else {
                    2u8
                };
                ((r == 0 ==> lex_lt(a@, b@)) && (r == 1 ==> a@ == b@) && (r == 2 ==> lex_lt(
                    b@,
                    a@,
                )))
            }),
            i <= a_len && i <= b_len,
            a@.subrange(0, i as int) == b@.subrange(0, i as int),
            !(i < a_len && i < b_len && a@[i as int] == b@[i as int]),
        decreases a_len - i,
    {
        if i == a_len || i == b_len {
            proof {
                lemma_lex_prefix(a@, b@, i as int);
            }
            break;
        }
        let ca = a.get_char(i);
        let cb = b.get_char(i);
        if ca != cb {
            proof {
                lemma_lex_first_diff(a@, b@, i as int);
            }
            break;
        }
        proof {
            assert(a@.subrange(0, i + 1) =~= b@.subrange(0, i + 1));
        }
        i = i + 1;
    }
    if i < a_len && i < b_len {
        let ca = a.get_char(i);
        let cb = b.get_char(i);
        if ca < cb {
            0
        } else {
            2
        }
    } else if a_len == b_len {
        proof {
            assert(a@ =~= b@);
        }
        1
    } else if a_len < b_len {
        0
    } else {
        2
    }
}

/// When two sequences agree up to the length of the shorter, the shorter one
/// comes first, strictly so when it is properly shorter.
proof fn lemma_lex_prefix(a: Seq<char>, b: Seq<char>, i: int)
    requires
        0 <= i <= a.len(),
        i <= b.len(),
        i == a.len() || i == b.len(),
        a.subrange(0, i) == b.subrange(0, i),
    ensures
        a.len() <= b.len() ==> lex_le(a, b),
        a.len() < b.len() ==> lex_lt(a, b),
        a.len() == b.len() ==> a == b,
        b.len() < a.len() ==> lex_lt(b, a),
    decreases i,
{
    broadcast use vstd::seq::axiom_seq_subrange_index;

    if i == 0 {
        if a.len() == 0 && b.len() == 0 {
            assert(a =~= b);
        } else if a.len() == 0 {
            assert(a != b) by {
                assert(a.len() != b.len());
            }
        } else {
            assert(b.len() == 0);
            assert(b != a) by {
                assert(a.len() != b.len());
            }
        }
    } else {
        assert(a.subrange(0, i)[0] == a[0]);
        assert(b.subrange(0, i)[0] == b[0]);
        assert(a[0] == b[0]);
        assert(a.drop_first().subrange(0, i - 1) == b.drop_first().subrange(0, i - 1)) by {
            assert(a.drop_first().subrange(0, i - 1) =~= a.subrange(0, i).drop_first());
            assert(b.drop_first().subrange(0, i - 1) =~= b.subrange(0, i).drop_first());
        }
        lemma_lex_prefix(a.drop_first(), b.drop_first(), i - 1);
        if a.len() == b.len() {
            assert(a =~= seq![a[0]] + a.drop_first());
            assert(b =~= seq![b[0]] + b.drop_first());
        }
        if a.len() < b.len() {
            assert(a != b) by {
                assert(a.len() != b.len());
            }
        }
        if b.len() < a.len() {
            assert(b != a) by {
                assert(a.len() != b.len());
            }
        }
    }
}

/// At the first differing position, the sequence holding the smaller
/// character comes strictly first.
proof fn lemma_lex_first_diff(a: Seq<char>, b: Seq<char>, i: int)
    requires
        0 <= i < a.len(),
        i < b.len(),
        a.subrange(0, i) == b.subrange(0, i),
        a[i] != b[i],
    ensures
        a[i] < b[i] ==> lex_lt(a, b),
        b[i] < a[i] ==> lex_lt(b, a),
    decreases i,
{
    broadcast use vstd::seq::axiom_seq_subrange_index;

    if i == 0 {
        assert(a != b) by {
            assert(a[0] != b[0]);
        }
    } else {
        assert(a.subrange(0, i)[0] == a[0]);
        assert(b.subrange(0, i)[0] == b[0]);
        assert(a[0] == b[0]);
        assert(a.drop_first().subrange(0, i - 1) == b.drop_first().subrange(0, i - 1)) by {
            assert(a.drop_first().subrange(0, i - 1) =~= a.subrange(0, i).drop_first());
            assert(b.drop_first().subrange(0, i - 1) =~= b.subrange(0, i).drop_first());
        }
        lemma_lex_first_diff(a.drop_first(), b.drop_first(), i - 1);
        assert(a.drop_first()[i - 1] == a[i]);
        assert(b.drop_first()[i - 1] == b[i]);
        assert(a != b) by {
            assert(a[i] != b[i]);
        }
    }
}


} // verus!
