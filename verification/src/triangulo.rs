//! A triangle with integer sides: classification and perimeter.  The
//! floating-point area computation lives outside the verified crate.

use vstd::prelude::*;

verus! {

#[derive(Debug, Clone, Copy, PartialEq, Eq, Structural)]
pub enum TipoTriangulo {
    Equilatero,
    Isosceles,
    Escaleno,
}

impl TipoTriangulo {
    /// The type's display name.
    pub open spec fn spec_nombre(self) -> Seq<char> {
        match self {
            TipoTriangulo::Equilatero => "Equilatero"@,
            TipoTriangulo::Isosceles => "Isosceles"@,
            TipoTriangulo::Escaleno => "Escaleno"@,
        }
    }

    pub fn to_string(&self) -> (s: String)
        ensures
            s@ == self.spec_nombre(),
    {
        match self {
            TipoTriangulo::Equilatero => "Equilatero".to_owned(),
            TipoTriangulo::Isosceles => "Isosceles".to_owned(),
            TipoTriangulo::Escaleno => "Escaleno".to_owned(),
        }
    }

    /// Variant equality.
    pub fn eq(&self, other: &Self) -> (r: bool)
        ensures
            r == (*self == *other),
    {
        match (self, other) {
            (TipoTriangulo::Equilatero, TipoTriangulo::Equilatero) => true,
            (TipoTriangulo::Isosceles, TipoTriangulo::Isosceles) => true,
            (TipoTriangulo::Escaleno, TipoTriangulo::Escaleno) => true,
            _ => false,
        }
    }
}

pub struct Triangulo {
    pub lado1: u32,
    pub lado2: u32,
    pub lado3: u32,
}

/// The classification, checking the first two sides first: a pair of equal
/// sides among those actually compared decides the type.
pub open spec fn tipo_de(t: Triangulo) -> TipoTriangulo {
    if t.lado1 == t.lado2 {
        if t.lado1 == t.lado3 {
            TipoTriangulo::Equilatero
        } else {
            TipoTriangulo::Isosceles
        }
    } else if t.lado2 == t.lado3 {
        TipoTriangulo::Isosceles
    } else {
        TipoTriangulo::Escaleno
    }
}

impl Triangulo {
    pub fn new(lado1: u32, lado2: u32, lado3: u32) -> (t: Triangulo)
        ensures
            t.lado1 == lado1,
            t.lado2 == lado2,
            t.lado3 == lado3,
    {
        Triangulo { lado1, lado2, lado3 }
    }

    pub fn determinar_tipo(&self) -> (r: TipoTriangulo)
        ensures
            r == tipo_de(*self),
    {
        if self.lado1 == self.lado2 {
            if self.lado1 == self.lado3 {
                TipoTriangulo::Equilatero
            } else {
                TipoTriangulo::Isosceles
            }
        } else if self.lado2 == self.lado3 {
            TipoTriangulo::Isosceles
        } else {
            TipoTriangulo::Escaleno
        }
    }

    /// Perimeter of the triangle; the sum must fit in `u32`.
    pub fn calcular_perimetro(&self) -> (r: u32)
        requires
            self.lado1 + self.lado2 + self.lado3 <= u32::MAX,
        ensures
            r == self.lado1 + self.lado2 + self.lado3,
    {
        self.lado1 + self.lado2 + self.lado3
    }
}

} // verus!
