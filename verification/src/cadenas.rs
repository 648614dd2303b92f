//! String-length utilities over arrays of strings, counting characters.

use vstd::prelude::*;
use vstd::string::StrSliceExecFns;

verus! {

/// Number of strings in `s` with strictly more than `limite` characters.
pub open spec fn cuenta_mas_largas(s: Seq<String>, limite: i32) -> int
    decreases s.len(),
{
    if s.len() == 0 {
        0
    } else {
        cuenta_mas_largas(s.drop_last(), limite) + if s.last()@.len() > limite {
            1int
        } else {
            0int
        }
    }
}

proof fn lemma_cuenta_mas_largas_bound(s: Seq<String>, limite: i32)
    ensures
        0 <= cuenta_mas_largas(s, limite) <= s.len(),
    decreases s.len(),
{
    if s.len() > 0 {
        lemma_cuenta_mas_largas_bound(s.drop_last(), limite);
    }
}

/// The character count of each of the five strings, in order.
pub fn longitud_de_cadenas(cadenas: &[String; 5]) -> (r: [i32; 5])
    requires
        forall|i: int| 0 <= i < 5 ==> #[trigger] cadenas@[i]@.len() <= i32::MAX,
    ensures
        forall|i: int| 0 <= i < 5 ==> #[trigger] r@[i] == cadenas@[i]@.len(),
{
    let r = [
        cadenas[0].as_str().unicode_len() as i32,
        cadenas[1].as_str().unicode_len() as i32,
        cadenas[2].as_str().unicode_len() as i32,
        cadenas[3].as_str().unicode_len() as i32,
        cadenas[4].as_str().unicode_len() as i32,
    ];
    r
}

/// Number of strings with strictly more than `limite` characters.
pub fn cantidad_de_cadenas_mayor_a(cadenas: &[String], limite: i32) -> (r: i32)
    requires
        cadenas@.len() <= i32::MAX,
    ensures
        r == cuenta_mas_largas(cadenas@, limite),
{
    let mut cant_mayor_long: i32 = 0;
    let mut idx: usize = 0;
    while idx < cadenas.len()
        invariant
            0 <= idx <= cadenas@.len(),
            cadenas@.len() <= i32::MAX,
            cant_mayor_long == cuenta_mas_largas(cadenas@.take(idx as int), limite),
        decreases cadenas@.len() - idx,
    {
        assert(cadenas@.take(idx + 1).drop_last() =~= cadenas@.take(idx as int));
        assert(cadenas@.take(idx + 1).last() == cadenas@[idx as int]);
        proof {
            lemma_cuenta_mas_largas_bound(cadenas@.take(idx as int), limite);
        }
        let len = cadenas[idx].as_str().unicode_len();
        if limite >= 0 && len > limite as usize {
            cant_mayor_long = cant_mayor_long + 1;
        } else if limite < 0 {
            cant_mayor_long = cant_mayor_long + 1;
        }
        idx = idx + 1;
    }
    assert(cadenas@.take(cadenas@.len() as int) =~= cadenas@);
    cant_mayor_long
}


/// Lexicographic order on character sequences.  UTF-8 orders byte-wise
/// exactly as code points do, so this is also the byte order of the
/// underlying strings.
pub open spec fn lex_le(x: Seq<char>, y: Seq<char>) -> bool
    decreases x.len(),
{
    if x.len() == 0 {
        true
    } else if y.len() == 0 {
        false
    } else if x[0] != y[0] {
        x[0] < y[0]
    } else {
        lex_le(x.drop_first(), y.drop_first())
    }
}

/// Any two sequences compare one way or the other.
pub proof fn lemma_lex_le_total(x: Seq<char>, y: Seq<char>)
    ensures
        lex_le(x, y) || lex_le(y, x),
    decreases x.len(),
{
    if x.len() > 0 && y.len() > 0 && x[0] == y[0] {
        lemma_lex_le_total(x.drop_first(), y.drop_first());
    }
}

/// The order is transitive.
pub proof fn lemma_lex_le_trans(x: Seq<char>, y: Seq<char>, z: Seq<char>)
    requires
        lex_le(x, y),
        lex_le(y, z),
    ensures
        lex_le(x, z),
    decreases x.len(),
{
    if x.len() > 0 && y.len() > 0 && z.len() > 0 && x[0] == y[0] && y[0] == z[0] {
        lemma_lex_le_trans(x.drop_first(), y.drop_first(), z.drop_first());
    }
}

/// Equal prefixes of length `i` can be skipped without changing the
/// comparison.
proof fn lemma_lex_le_skip(x: Seq<char>, y: Seq<char>, i: int)
    requires
        0 <= i <= x.len(),
        i <= y.len(),
        forall|j: int| 0 <= j < i ==> x[j] == y[j],
    ensures
        lex_le(x, y) == lex_le(x.skip(i), y.skip(i)),
    decreases i,
{
    if i > 0 {
        assert(x.skip(i) =~= x.drop_first().skip(i - 1));
        assert(y.skip(i) =~= y.drop_first().skip(i - 1));
        lemma_lex_le_skip(x.drop_first(), y.drop_first(), i - 1);
    } else {
        assert(x.skip(0) =~= x);
        assert(y.skip(0) =~= y);
    }
}

/// Whether `a` sorts at or before `b`.
pub fn cadena_le(a: &String, b: &String) -> (r: bool)
    ensures
        r == lex_le(a@, b@),
{
    let a_str = a.as_str();
    let b_str = b.as_str();
    let a_len = a_str.unicode_len();
    let b_len = b_str.unicode_len();
    let mut i: usize = 0;
    while i < a_len && i < b_len
        invariant
            a_len == a@.len(),
            b_len == b@.len(),
            a_str@ == a@,
            b_str@ == b@,
            0 <= i <= a_len,
            i <= b_len,
            forall|j: int| 0 <= j < i ==> a@[j] == b@[j],
        decreases a_len - i,
    {
        let ca = a_str.get_char(i);
        let cb = b_str.get_char(i);
        if (ca as u32) < (cb as u32) {
            proof {
                lemma_lex_le_skip(a@, b@, i as int);
                assert(a@.skip(i as int)[0] == a@[i as int]);
                assert(b@.skip(i as int)[0] == b@[i as int]);
            }
            return true;
        }
        if (ca as u32) > (cb as u32) {
            proof {
                lemma_lex_le_skip(a@, b@, i as int);
                assert(a@.skip(i as int)[0] == a@[i as int]);
                assert(b@.skip(i as int)[0] == b@[i as int]);
            }
            return false;
        }
        i = i + 1;
    }
    proof {
        lemma_lex_le_skip(a@, b@, i as int);
    }
    a_len <= b_len
}

/// Sorts the names in place, in lexicographic order; the multiset of names
/// is kept.
pub fn ordenar_nombres(nombres: &mut Vec<String>)
    ensures
        final (nombres)@.len() == old(nombres)@.len(),
        forall|p: int, q: int|
            0 <= p < q < final (nombres)@.len() ==> lex_le(
                #[trigger] final (nombres)@[p]@,
                #[trigger] final (nombres)@[q]@,
            ),
        final (nombres)@.to_multiset() == old(nombres)@.to_multiset(),
{
    let ghost original = nombres@;
    if nombres.len() <= 1 {
        return ;
    }
    let mut i: usize = 1;
    while i < nombres.len()
        invariant
            original == old(nombres)@,
            nombres@.len() == original.len(),
            nombres@.to_multiset() == original.to_multiset(),
            1 <= i <= original.len(),
            forall|p: int, q: int|
                0 <= p < q < i && q < nombres@.len() ==> lex_le(
                    #[trigger] nombres@[p]@,
                    #[trigger] nombres@[q]@,
                ),
        decreases nombres@.len() - i,
    {
        let ghost antes = nombres@;
        let x = nombres.remove(i);
        let mut p: usize = 0;
        while p < i && cadena_le(&nombres[p], &x)
            invariant
                0 <= p <= i,
                i < antes.len(),
                nombres@ == antes.remove(i as int),
                forall|j: int| 0 <= j < p ==> lex_le(#[trigger] nombres@[j]@, x@),
            decreases i - p,
        {
            p = p + 1;
        }
        nombres.insert(p, x);
        proof {
            broadcast use vstd::seq_lib::group_to_multiset_ensures;

            let s = antes.remove(i as int);
            assert(nombres@.remove(p as int) =~= s);
            assert(s.to_multiset() =~= antes.to_multiset().remove(antes[i as int]));
            assert(nombres@[p as int] == x);
            assert(nombres@.to_multiset().remove(x) =~= s.to_multiset());
            assert(nombres@.to_multiset().contains(x));
            assert(nombres@.to_multiset() =~= s.to_multiset().insert(x));
            assert(antes.to_multiset().contains(antes[i as int]));
            assert(antes.to_multiset() =~= s.to_multiset().insert(x));
            assert(nombres@.to_multiset() == antes.to_multiset());
            // The enlarged prefix is sorted: everything before `p` was at
            // most `x`, and everything from `p` on is at least `x`.
            assert forall|a: int, b: int|
                0 <= a < b < i + 1 && b < nombres@.len() implies lex_le(
                #[trigger] nombres@[a]@,
                #[trigger] nombres@[b]@,
            ) by {
                if b < p {
                    assert(nombres@[a] == s[a] && nombres@[b] == s[b]);
                } else if b == p {
                    assert(nombres@[a] == s[a]);
                    assert(lex_le(s[a]@, x@));
                } else {
                    if a < p {
                        assert(nombres@[a] == s[a]);
                        assert(lex_le(s[a]@, x@));
                        if p < i {
                            lemma_lex_le_total(s[p as int]@, x@);
                            assert(lex_le(x@, s[p as int]@));
                        }
                        assert(nombres@[b] == s[b - 1]);
                        if b - 1 == p {
                            lemma_lex_le_total(s[p as int]@, x@);
                            lemma_lex_le_trans(nombres@[a]@, x@, s[b - 1]@);
                        } else {
                            lemma_lex_le_trans(s[a]@, s[p as int]@, s[b - 1]@);
                            assert(lex_le(s[a]@, s[b - 1]@));
                        }
                    } else if a == p {
                        assert(nombres@[a] == x);
                        assert(nombres@[b] == s[b - 1]);
                        lemma_lex_le_total(s[p as int]@, x@);
                        assert(lex_le(x@, s[p as int]@));
                        if b - 1 == p {
                        } else {
                            lemma_lex_le_trans(x@, s[p as int]@, s[b - 1]@);
                        }
                    } else {
                        assert(nombres@[a] == s[a - 1] && nombres@[b] == s[b - 1]);
                    }
                }
            }
        }
        i = i + 1;
    }
}

} // verus!
