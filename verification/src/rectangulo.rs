//! A rectangle with integer sides: area, perimeter and squareness.

use vstd::prelude::*;

verus! {

#[derive(Debug, Clone, Copy, PartialEq, Eq, Structural)]
pub struct Rectangulo {
    pub longitud: u32,
    pub ancho: u32,
}

impl Rectangulo {
    pub fn new(longitud: u32, ancho: u32) -> (r: Rectangulo)
        ensures
            r.longitud == longitud,
            r.ancho == ancho,
    {
        Rectangulo { longitud, ancho }
    }

    /// Area of the rectangle; the product must fit in `u32`.
    pub fn calcular_area(&self) -> (r: u32)
        requires
            self.longitud * self.ancho <= u32::MAX,
        ensures
            r == self.longitud * self.ancho,
    {
        self.longitud * self.ancho
    }

    /// Perimeter of the rectangle; the sum must fit in `u32`.
    pub fn calcular_perimetro(&self) -> (r: u32)
        requires
            2 * (self.longitud + self.ancho) <= u32::MAX,
        ensures
            r == 2 * (self.longitud + self.ancho),
    {
        2 * (self.longitud + self.ancho)
    }

    /// Both sides are equal.
    pub fn es_cuadrado(&self) -> (r: bool)
        ensures
            r == (self.longitud == self.ancho),
    {
        self.longitud == self.ancho
    }
}

} // verus!
