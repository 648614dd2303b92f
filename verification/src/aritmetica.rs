//! Small verified array and number utilities: parity, primality tests,
//! element counts and in-place transformations over integer slices.

use vstd::prelude::*;

verus! {

/// Sum of the even elements of `s`.
pub open spec fn suma_de_pares(s: Seq<i32>) -> int
    decreases s.len(),
{
    if s.len() == 0 {
        0
    } else {
        suma_de_pares(s.drop_last()) + if s.last() % 2 == 0 {
            s.last() as int
        } else {
            0int
        }
    }
}

/// Number of odd elements of `s`.
pub open spec fn cantidad_de_impares(s: Seq<i32>) -> int
    decreases s.len(),
{
    if s.len() == 0 {
        0
    } else {
        cantidad_de_impares(s.drop_last()) + if s.last() % 2 != 0 {
            1int
        } else {
            0int
        }
    }
}

/// Number of elements of `s` strictly greater than `limite`.
pub open spec fn cantidad_mayores(s: Seq<i32>, limite: i32) -> int
    decreases s.len(),
{
    if s.len() == 0 {
        0
    } else {
        cantidad_mayores(s.drop_last(), limite) + if s.last() > limite {
            1int
        } else {
            0int
        }
    }
}

/// Number of elements of `s` inside the closed range `[inferior, superior]`.
pub open spec fn cantidad_rango(s: Seq<i32>, inferior: i32, superior: i32) -> int
    decreases s.len(),
{
    if s.len() == 0 {
        0
    } else {
        cantidad_rango(s.drop_last(), inferior, superior) + if inferior <= s.last() <= superior {
            1int
        } else {
            0int
        }
    }
}

proof fn lemma_cantidad_de_impares_bound(s: Seq<i32>)
    ensures
        0 <= cantidad_de_impares(s) <= s.len(),
    decreases s.len(),
{
    if s.len() > 0 {
        lemma_cantidad_de_impares_bound(s.drop_last());
    }
}

proof fn lemma_cantidad_mayores_bound(s: Seq<i32>, limite: i32)
    ensures
        0 <= cantidad_mayores(s, limite) <= s.len(),
    decreases s.len(),
{
    if s.len() > 0 {
        lemma_cantidad_mayores_bound(s.drop_last(), limite);
    }
}

proof fn lemma_cantidad_rango_bound(s: Seq<i32>, inferior: i32, superior: i32)
    ensures
        0 <= cantidad_rango(s, inferior, superior) <= s.len(),
    decreases s.len(),
{
    if s.len() > 0 {
        lemma_cantidad_rango_bound(s.drop_last(), inferior, superior);
    }
}

/// Whether `num` is even.
pub fn es_par(num: i32) -> (r: bool)
    ensures
        r == (num % 2 == 0),
{
    num % 2 == 0
}

/// Trial division over `2..num / 2`, exactly as the divisor range is stated;
/// the range never reaches `num / 2` itself, so e.g. `4` is reported prime.
pub open spec fn es_primo_spec(num: u32) -> bool {
    num > 1 && forall|k: int| 2 <= k < num / 2 ==> #[trigger] (num as int % k) != 0
}

pub fn es_primo(num: u32) -> (r: bool)
    ensures
        r == es_primo_spec(num),
{
    if num <= 1 {
        return false;
    }
    let mut n: u32 = 2;
    while n < num / 2
        invariant
            2 <= n,
            num > 1,
            forall|k: int| 2 <= k < n ==> #[trigger] (num as int % k) != 0,
        decreases num / 2 - n,
    {
        if num % n == 0 {
            return false;
        }
        n = n + 1;
    }
    true
}

/// Sum of the even elements; the running sum must stay within `i32` at every
/// prefix, as it does in the unchecked additions this mirrors.
pub fn suma_pares(numeros: &[i32]) -> (r: i32)
    requires
        forall|i: int|
            0 <= i <= numeros@.len() ==> i32::MIN <= #[trigger] suma_de_pares(numeros@.take(i))
                <= i32::MAX,
    ensures
        r == suma_de_pares(numeros@),
{
    let mut resultado: i32 = 0;
    let mut idx: usize = 0;
    while idx < numeros.len()
        invariant
            0 <= idx <= numeros@.len(),
            resultado == suma_de_pares(numeros@.take(idx as int)),
            forall|i: int|
                0 <= i <= numeros@.len() ==> i32::MIN <= #[trigger] suma_de_pares(numeros@.take(i))
                    <= i32::MAX,
        decreases numeros@.len() - idx,
    {
        assert(numeros@.take(idx + 1).drop_last() =~= numeros@.take(idx as int));
        assert(numeros@.take(idx + 1).last() == numeros@[idx as int]);
        if numeros[idx] % 2 == 0 {
            assert(i32::MIN <= suma_de_pares(numeros@.take(idx + 1)) <= i32::MAX);
            resultado = resultado + numeros[idx];
        }
        idx = idx + 1;
    }
    assert(numeros@.take(numeros@.len() as int) =~= numeros@);
    resultado
}

/// Number of odd elements.
pub fn cantidad_impares(numeros: &[i32]) -> (r: i32)
    requires
        numeros@.len() <= i32::MAX,
    ensures
        r == cantidad_de_impares(numeros@),
{
    let mut cant_impares: i32 = 0;
    let mut idx: usize = 0;
    while idx < numeros.len()
        invariant
            0 <= idx <= numeros@.len(),
            numeros@.len() <= i32::MAX,
            cant_impares == cantidad_de_impares(numeros@.take(idx as int)),
        decreases numeros@.len() - idx,
    {
        assert(numeros@.take(idx + 1).drop_last() =~= numeros@.take(idx as int));
        assert(numeros@.take(idx + 1).last() == numeros@[idx as int]);
        proof {
            lemma_cantidad_de_impares_bound(numeros@.take(idx as int));
        }
        if numeros[idx] % 2 != 0 {
            cant_impares = cant_impares + 1;
        }
        idx = idx + 1;
    }
    assert(numeros@.take(numeros@.len() as int) =~= numeros@);
    cant_impares
}

/// Number of elements strictly greater than `limite`.
pub fn cantidad_de_mayores(arreglo: &[i32], limite: i32) -> (r: i32)
    requires
        arreglo@.len() <= i32::MAX,
    ensures
        r == cantidad_mayores(arreglo@, limite),
{
    let mut cant_mayor: i32 = 0;
    let mut idx: usize = 0;
    while idx < arreglo.len()
        invariant
            0 <= idx <= arreglo@.len(),
            arreglo@.len() <= i32::MAX,
            cant_mayor == cantidad_mayores(arreglo@.take(idx as int), limite),
        decreases arreglo@.len() - idx,
    {
        assert(arreglo@.take(idx + 1).drop_last() =~= arreglo@.take(idx as int));
        assert(arreglo@.take(idx + 1).last() == arreglo@[idx as int]);
        proof {
            lemma_cantidad_mayores_bound(arreglo@.take(idx as int), limite);
        }
        if arreglo[idx] > limite {
            cant_mayor = cant_mayor + 1;
        }
        idx = idx + 1;
    }
    assert(arreglo@.take(arreglo@.len() as int) =~= arreglo@);
    cant_mayor
}

/// Number of elements inside the closed range `[inferior, superior]`;
/// an inverted range holds nothing.
pub fn cantidad_en_rango(array: &[i32], inferior: i32, superior: i32) -> (r: i32)
    requires
        array@.len() <= i32::MAX,
    ensures
        inferior > superior ==> r == 0,
        inferior <= superior ==> r == cantidad_rango(array@, inferior, superior),
{
    if inferior > superior {
        return 0;
    }
    let mut cant_num: i32 = 0;
    let mut idx: usize = 0;
    while idx < array.len()
        invariant
            0 <= idx <= array@.len(),
            array@.len() <= i32::MAX,
            cant_num == cantidad_rango(array@.take(idx as int), inferior, superior),
        decreases array@.len() - idx,
    {
        assert(array@.take(idx + 1).drop_last() =~= array@.take(idx as int));
        assert(array@.take(idx + 1).last() == array@[idx as int]);
        proof {
            lemma_cantidad_rango_bound(array@.take(idx as int), inferior, superior);
        }
        if array[idx] >= inferior && array[idx] <= superior {
            cant_num = cant_num + 1;
        }
        idx = idx + 1;
    }
    assert(array@.take(array@.len() as int) =~= array@);
    cant_num
}

/// Multiplies every element by `factor` in place; every product must fit in
/// `i32`.
pub fn multiplicar_valores(arreglo: &mut Vec<i32>, factor: i32)
    requires
        forall|i: int|
            0 <= i < old(arreglo)@.len() ==> i32::MIN <= #[trigger] (old(arreglo)@[i] * factor)
                <= i32::MAX,
    ensures
        final(arreglo)@.len() == old(arreglo)@.len(),
        forall|i: int|
            0 <= i < old(arreglo)@.len() ==> final(arreglo)@[i] == old(arreglo)@[i] * factor,
{
    let mut idx: usize = 0;
    while idx < arreglo.len()
        invariant
            0 <= idx <= arreglo@.len(),
            arreglo@.len() == old(arreglo)@.len(),
            forall|i: int|
                0 <= i < old(arreglo)@.len() ==> i32::MIN <= #[trigger] (old(arreglo)@[i] * factor)
                    <= i32::MAX,
            forall|i: int| 0 <= i < idx ==> arreglo@[i] == old(arreglo)@[i] * factor,
            forall|i: int| idx <= i < arreglo@.len() ==> arreglo@[i] == old(arreglo)@[i],
        decreases arreglo@.len() - idx,
    {
        let valor: i32 = arreglo[idx];
        arreglo.set(idx, valor * factor);
        idx = idx + 1;
    }
}

/// Replaces every even element by `-1` in place.
pub fn reemplazar_pares(enteros: &mut Vec<i32>)
    ensures
        final(enteros)@.len() == old(enteros)@.len(),
        forall|i: int|
            0 <= i < old(enteros)@.len() ==> final(enteros)@[i] == if old(enteros)@[i] % 2 == 0 {
                -1int
            } else {
                old(enteros)@[i] as int
            },
{
    let mut idx: usize = 0;
    while idx < enteros.len()
        invariant
            0 <= idx <= enteros@.len(),
            enteros@.len() == old(enteros)@.len(),
            forall|i: int|
                0 <= i < idx ==> enteros@[i] == if old(enteros)@[i] % 2 == 0 {
                    -1int
                } else {
                    old(enteros)@[i] as int
                },
            forall|i: int| idx <= i < enteros@.len() ==> enteros@[i] == old(enteros)@[i],
        decreases enteros@.len() - idx,
    {
        if enteros[idx] % 2 == 0 {
            enteros.set(idx, -1);
        }
        idx = idx + 1;
    }
}

} // verus!
