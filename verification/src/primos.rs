//! A primality trait with a specified test, and a count of primes in a
//! vector of any type that implements it.

use vstd::prelude::*;

verus! {

/// A type whose values can be tested for primality; the test must agree
/// with the type's own `primo_spec`.
pub trait Primo {
    spec fn primo_spec(&self) -> bool;

    fn es_primo(&self) -> (r: bool)
        ensures
            r == self.primo_spec(),
    ;
}

impl Primo for i32 {
    /// Trial division over `2..=self / 2`; values below two are not prime.
    open spec fn primo_spec(&self) -> bool {
        *self > 1 && forall|k: int| 2 <= k <= *self / 2 ==> #[trigger] (*self as int % k) != 0
    }

    fn es_primo(&self) -> (r: bool)
        ensures
            r == self.primo_spec(),
    {
        let num = *self;
        if num <= 1 {
            return false;
        }
        let mut n: i32 = 2;
        while n < num / 2 + 1
            invariant
                num == *self,
                2 <= n,
                1 < num,
                n <= num / 2 + 1,
                forall|k: int| 2 <= k < n ==> #[trigger] (num as int % k) != 0,
            decreases num / 2 + 1 - n,
        {
            if num % n == 0 {
                assert(!self.primo_spec()) by {
                    assert(2 <= n as int <= *self / 2);
                    assert((*self as int % (n as int)) == 0);
                };
                return false;
            }
            n = n + 1;
        }
        true
    }
}

/// Number of elements of `s` whose `primo_spec` holds.
pub open spec fn cuenta_primos<T: Primo>(s: Seq<T>) -> int
    decreases s.len(),
{
    if s.len() == 0 {
        0
    } else {
        cuenta_primos(s.drop_last()) + if s.last().primo_spec() {
            1int
        } else {
            0int
        }
    }
}

proof fn lemma_cuenta_primos_bound<T: Primo>(s: Seq<T>)
    ensures
        0 <= cuenta_primos(s) <= s.len(),
    decreases s.len(),
{
    if s.len() > 0 {
        lemma_cuenta_primos_bound(s.drop_last());
    }
}

/// Number of primes in the vector.
pub fn determinar_cantidad_primos<T: Primo>(numeros: &Vec<T>) -> (r: i32)
    requires
        numeros@.len() <= i32::MAX,
    ensures
        r == cuenta_primos(numeros@),
{
    let mut cant_primos: i32 = 0;
    let mut i: usize = 0;
    while i < numeros.len()
        invariant
            0 <= i <= numeros@.len(),
            numeros@.len() <= i32::MAX,
            cant_primos == cuenta_primos(numeros@.take(i as int)),
        decreases numeros@.len() - i,
    {
        assert(numeros@.take(i + 1).drop_last() =~= numeros@.take(i as int));
        assert(numeros@.take(i + 1).last() == numeros@[i as int]);
        proof {
            lemma_cuenta_primos_bound(numeros@.take(i as int));
        }
        if numeros[i].es_primo() {
            cant_primos = cant_primos + 1;
        }
        i = i + 1;
    }
    assert(numeros@.take(numeros@.len() as int) =~= numeros@);
    cant_primos
}

} // verus!
