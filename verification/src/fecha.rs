//! Calendar dates with verified day arithmetic.
//!
//! A date is modelled by its *day index*: the signed count of days from an
//! arbitrary fixed origin, obtained by summing whole years, then the months
//! already completed in the current year, then the day of the month.  Adding
//! or subtracting days is specified as a pure shift of that index, which pins
//! the result down to a single valid date.

use vstd::prelude::*;
use vstd::string::StringExecFns;
use crate::texto::{dec_int, dec_nat, texto_i32, texto_u64};

verus! {

#[derive(Debug, Clone, Copy, PartialEq, Eq, Structural)]
pub struct Fecha {
    pub dia: u32,
    pub mes: u32,
    pub anio: i32,
}

/// A year divisible by 4 is a leap year, unless it is a century year not
/// divisible by 400.
pub open spec fn bisiesto(anio: int) -> bool {
    anio % 4 == 0 && (anio % 100 != 0 || anio % 400 == 0)
}

/// Days of `mes` in a non-leap year.
pub open spec fn tabla_dias(mes: int) -> int {
    if mes == 2 {
        28
    } else if mes == 4 || mes == 6 || mes == 9 || mes == 11 {
        30
    } else {
        31
    }
}

/// Days of `mes` in year `anio`.
pub open spec fn dias_del_mes(anio: int, mes: int) -> int {
    if mes == 2 && bisiesto(anio) {
        29
    } else {
        tabla_dias(mes)
    }
}

pub open spec fn dias_en_anio(anio: int) -> int {
    if bisiesto(anio) {
        366
    } else {
        365
    }
}

/// Signed count of days in the years between year 0 and year `anio`.
pub open spec fn dias_hasta_anio(anio: int) -> int
    decreases
            (if anio >= 0 {
                anio
            } else {
                -anio
            }),
{
    if anio == 0 {
        0
    } else if anio > 0 {
        dias_hasta_anio(anio - 1) + dias_en_anio(anio - 1)
    } else {
        dias_hasta_anio(anio + 1) - dias_en_anio(anio)
    }
}

/// Days of year `anio` spent in the months before `mes`.
pub open spec fn dias_hasta_mes(anio: int, mes: int) -> int
    decreases mes,
{
    if mes <= 1 {
        0
    } else {
        dias_hasta_mes(anio, mes - 1) + dias_del_mes(anio, mes - 1)
    }
}

/// Day index of the (not necessarily valid) calendar triple.
pub open spec fn indice_dia(anio: int, mes: int, dia: int) -> int {
    dias_hasta_anio(anio) + dias_hasta_mes(anio, mes) + dia
}

impl Fecha {
    /// Day index of this date.
    pub open spec fn indice(self) -> int {
        indice_dia(self.anio as int, self.mes as int, self.dia as int)
    }

    /// The triple names an existing calendar day.
    pub open spec fn es_valida(self) -> bool {
        1 <= self.mes <= 12 && 1 <= self.dia && self.dia <= dias_del_mes(
            self.anio as int,
            self.mes as int,
        )
    }

    /// Strictly later than `otra` in year/month/day lexicographic order.
    pub open spec fn es_posterior(self, otra: Fecha) -> bool {
        self.anio > otra.anio || (self.anio == otra.anio && self.mes > otra.mes) || (self.anio
            == otra.anio && self.mes == otra.mes && self.dia > otra.dia)
    }
}

proof fn lemma_paso_anio(anio: int)
    ensures
        dias_hasta_anio(anio + 1) == dias_hasta_anio(anio) + dias_en_anio(anio),
{
    if anio + 1 <= 0 {
        assert(dias_hasta_anio(anio) == dias_hasta_anio(anio + 1) - dias_en_anio(anio));
    }
}

proof fn lemma_dias_hasta_mes_en_rango(anio: int, mes: int)
    requires
        1 <= mes <= 13,
    ensures
        0 <= dias_hasta_mes(anio, mes) <= 31 * (mes - 1),
    decreases mes,
{
    if mes > 1 {
        lemma_dias_hasta_mes_en_rango(anio, mes - 1);
    }
}

/// Twelve months make a whole year.
proof fn lemma_meses_completan_anio(anio: int)
    ensures
        dias_hasta_mes(anio, 13) == dias_en_anio(anio),
{
    reveal_with_fuel(dias_hasta_mes, 14);
}

/// Later years can only push the year prefix of the index forward, by at
/// least 365 days each.
proof fn lemma_anios_crecen(a0: int, a1: int)
    requires
        a0 <= a1,
    ensures
        dias_hasta_anio(a1) - dias_hasta_anio(a0) >= 365 * (a1 - a0),
    decreases a1 - a0,
{
    if a1 > a0 {
        lemma_anios_crecen(a0, a1 - 1);
        lemma_paso_anio(a1 - 1);
    }
}

impl Fecha {
    /// Builds the date; the caller must name an existing calendar day, since
    /// an invalid triple is a programming error here.
    pub fn new(dia: u32, mes: u32, anio: i32) -> (f: Fecha)
        requires
            (Fecha { dia, mes, anio }).es_valida(),
        ensures
            f == (Fecha { dia, mes, anio }),
    {
        Fecha { dia, mes, anio }
    }

    /// Days of `mes` outside of any leap-year correction.
    fn get_dias_mes(mes: u32) -> (r: u32)
        requires
            1 <= mes <= 12,
        ensures
            r == tabla_dias(mes as int),
    {
        match mes {
            2 => 28,
            4 => 30,
            6 => 30,
            9 => 30,
            11 => 30,
            _ => 31,
        }
    }

    pub fn es_fecha_valida(&self) -> (r: bool)
        ensures
            r == self.es_valida(),
    {
        if self.mes >= 1 && self.mes <= 12 {
            if self.dia >= 1 && self.dia <= Fecha::get_dias_mes(self.mes) {
                true
            } else if self.es_bisiesto() && self.mes == 2 {
                self.dia >= 1 && self.dia <= 29
            } else {
                false
            }
        } else {
            false
        }
    }

    pub fn es_bisiesto(&self) -> (r: bool)
        ensures
            r == bisiesto(self.anio as int),
    {
        let anio = self.anio;
        if anio % 4 == 0 {
            if anio % 100 == 0 {
                anio % 400 == 0
            } else {
                true
            }
        } else {
            false
        }
    }

    /// Moves the date `dias` days forward: the day index shifts by exactly
    /// `dias` and the result is again a valid date.  The two bounds keep the
    /// running day counter inside `u32` and the year inside `i32`.
    pub fn sumar_dias(&mut self, dias: u32)
        requires
            old(self).es_valida(),
            old(self).dia + dias <= u32::MAX,
            old(self).anio + dias as int / 365 + 3 <= i32::MAX,
        ensures
            final (self).es_valida(),
            final (self).indice() == old(self).indice() + dias,
    {
        let ghost a0: int = self.anio as int;
        let ghost objetivo: int = old(self).indice() + dias as int;
        self.dia = self.dia + dias;
        assert(self.indice() == objetivo);
        while !self.es_fecha_valida()
            invariant
                1 <= self.mes <= 13,
                1 <= self.dia,
                self.dia <= old(self).dia + dias,
                a0 <= self.anio as int,
                self.anio as int <= a0 + dias as int / 365 + 2,
                self.indice() == objetivo,
                objetivo == old(self).indice() + dias,
                old(self).es_valida(),
                a0 == old(self).anio as int,
                a0 + dias as int / 365 + 3 <= i32::MAX,
            decreases self.dia, (if self.mes > 12 {
                1int
            } else {
                0int
            }),
        {
            if self.mes <= 12 {
                proof {
                    lemma_dias_hasta_mes_en_rango(self.anio as int, self.mes as int);
                }
                assert(self.dia > dias_del_mes(self.anio as int, self.mes as int));
                if self.mes == 2 && self.es_bisiesto() {
                    self.dia = self.dia - 29;
                } else {
                    self.dia = self.dia - Fecha::get_dias_mes(self.mes);
                }
                self.mes = self.mes + 1;
                assert(self.indice() == objetivo);
            } else {
                proof {
                    let a: int = self.anio as int;
                    lemma_meses_completan_anio(a);
                    lemma_paso_anio(a);
                    lemma_anios_crecen(a0, a);
                    lemma_dias_hasta_mes_en_rango(a0, old(self).mes as int);
                    lemma_dias_hasta_mes_en_rango(a, 13);
                    // The preserved day index bounds how far the year can
                    // already have advanced, which keeps `anio + 1` in `i32`.
                    assert(dias_hasta_anio(a) == objetivo - dias_hasta_mes(a, 13)
                        - self.dia as int);
                    assert(dias_hasta_mes(a, 13) >= 365);
                    assert(365 * (a - a0) <= dias_hasta_anio(a) - dias_hasta_anio(a0));
                    assert(365 * (a - a0) <= dias as int + 6);
                    assert(a - a0 <= dias as int / 365 + 1) by (nonlinear_arith)
                        requires
                            365 * (a - a0) <= dias as int + 6,
                            dias >= 0,
                    ;
                }
                self.anio = self.anio + 1;
                self.mes = 1;
                assert(self.indice() == objetivo);
            }
        }
    }

    /// Moves the date `dias` days backward: the mirror image of
    /// [`Self::sumar_dias`].
    pub fn restar_dias(&mut self, dias: u32)
        requires
            old(self).es_valida(),
            dias <= i32::MAX,
            old(self).anio - dias as int / 365 - 2 >= i32::MIN,
        ensures
            final (self).es_valida(),
            final (self).indice() == old(self).indice() - dias,
    {
        let ghost a0: int = self.anio as int;
        let ghost objetivo: int = old(self).indice() - dias as int;
        let mut dia: i32 = self.dia as i32;
        dia = dia - dias as i32;
        while dia < 1
            invariant
                1 <= self.mes <= 12,
                dia <= 31,
                dia as int <= dias_del_mes(self.anio as int, self.mes as int),
                self.anio as int <= a0,
                a0 - dias as int / 365 - 1 <= self.anio as int,
                indice_dia(self.anio as int, self.mes as int, dia as int) == objetivo,
                objetivo == old(self).indice() - dias,
                old(self).es_valida(),
                a0 == old(self).anio as int,
                a0 - dias as int / 365 - 2 >= i32::MIN,
                dias <= i32::MAX,
            decreases 32 - dia,
        {
            if self.mes > 1 {
                self.mes = self.mes - 1;
                if self.mes == 2 && self.es_bisiesto() {
                    dia = dia + 29;
                } else {
                    dia = dia + Fecha::get_dias_mes(self.mes) as i32;
                }
                assert(indice_dia(self.anio as int, self.mes as int, dia as int) == objetivo);
            } else {
                proof {
                    let a: int = self.anio as int;
                    lemma_anios_crecen(a, a0);
                    lemma_dias_hasta_mes_en_rango(a0, old(self).mes as int);
                    assert(dias_hasta_mes(a, 1) == 0);
                    // The preserved day index bounds how far the year can
                    // already have receded, which keeps `anio - 1` in `i32`.
                    assert(dias_hasta_anio(a) == objetivo - dia);
                    assert(365 * (a0 - a) <= dias_hasta_anio(a0) - dias_hasta_anio(a));
                    assert(365 * (a0 - a) <= dias as int - 1);
                    assert(a0 - a <= dias as int / 365) by (nonlinear_arith)
                        requires
                            365 * (a0 - a) <= dias as int - 1,
                            dias >= 0,
                    ;
                }
                // December of the previous year has 31 days.
                dia = dia + 31;
                self.anio = self.anio - 1;
                self.mes = 12;
                proof {
                    lemma_meses_completan_anio(self.anio as int);
                    lemma_paso_anio(self.anio as int);
                }
                assert(indice_dia(self.anio as int, self.mes as int, dia as int) == objetivo);
            }
        }
        self.dia = dia as u32;
    }

    /// Strict year/month/day comparison.
    pub fn es_mayor(&self, fecha: &Fecha) -> (r: bool)
        ensures
            r == self.es_posterior(*fecha),
    {
        if self.anio > fecha.anio {
            true
        } else if self.anio == fecha.anio && self.mes > fecha.mes {
            true
        } else if self.anio == fecha.anio && self.mes == fecha.mes && self.dia > fecha.dia {
            true
        } else {
            false
        }
    }

    /// Field-by-field equality.
    pub fn eq(&self, other: &Self) -> (r: bool)
        ensures
            r == (*self == *other),
    {
        self.dia == other.dia && self.mes == other.mes && self.anio == other.anio
    }
}


proof fn lemma_dias_hasta_mes_monotona(anio: int, m1: int, m2: int)
    requires
        1 <= m1 <= m2 <= 13,
    ensures
        dias_hasta_mes(anio, m1) <= dias_hasta_mes(anio, m2),
    decreases m2 - m1,
{
    if m1 < m2 {
        lemma_dias_hasta_mes_monotona(anio, m1, m2 - 1);
    }
}

/// A valid date's index stays inside its year: strictly after the last day
/// of the previous year, and no later than the last day of its own.
proof fn lemma_indice_dentro_del_anio(f: Fecha)
    requires
        f.es_valida(),
    ensures
        dias_hasta_anio(f.anio as int) < f.indice(),
        f.indice() <= dias_hasta_anio(f.anio as int) + dias_en_anio(f.anio as int),
{
    lemma_dias_hasta_mes_en_rango(f.anio as int, f.mes as int);
    assert(dias_hasta_mes(f.anio as int, f.mes as int + 1) == dias_hasta_mes(
        f.anio as int,
        f.mes as int,
    ) + dias_del_mes(f.anio as int, f.mes as int));
    lemma_dias_hasta_mes_monotona(f.anio as int, f.mes as int + 1, 13);
    lemma_meses_completan_anio(f.anio as int);
}

/// The year/month/day order agrees with the day index: of two valid dates,
/// the later one is exactly the one with the larger index.  In particular
/// the index determines a valid date uniquely.
pub proof fn lemma_es_posterior_es_indice_mayor(f1: Fecha, f2: Fecha)
    requires
        f1.es_valida(),
        f2.es_valida(),
    ensures
        f1.es_posterior(f2) <==> f1.indice() > f2.indice(),
        f1.indice() == f2.indice() ==> f1 == f2,
{
    if f2.es_posterior(f1) {
        lemma_fecha_menor_indice_menor(f1, f2);
    }
    if f1.es_posterior(f2) {
        lemma_fecha_menor_indice_menor(f2, f1);
    }
}

/// Strictly-earlier in year/month/day order means a strictly smaller index.
proof fn lemma_fecha_menor_indice_menor(f1: Fecha, f2: Fecha)
    requires
        f1.es_valida(),
        f2.es_valida(),
        f2.es_posterior(f1),
    ensures
        f1.indice() < f2.indice(),
{
    let (a1, m1, d1) = (f1.anio as int, f1.mes as int, f1.dia as int);
    let (a2, m2, d2) = (f2.anio as int, f2.mes as int, f2.dia as int);
    if a1 < a2 {
        lemma_indice_dentro_del_anio(f1);
        lemma_indice_dentro_del_anio(f2);
        lemma_paso_anio(a1);
        lemma_anios_crecen(a1 + 1, a2);
        assert(dias_hasta_anio(a1) + dias_en_anio(a1) <= dias_hasta_anio(a2));
    } else if m1 < m2 {
        lemma_dias_hasta_mes_en_rango(a1, m1);
        assert(dias_hasta_mes(a1, m1 + 1) == dias_hasta_mes(a1, m1) + dias_del_mes(a1, m1));
        lemma_dias_hasta_mes_monotona(a1, m1 + 1, m2);
        assert(dias_hasta_mes(a1, m1) + d1 <= dias_hasta_mes(a1, m1 + 1));
    } else {
    }
}


impl Fecha {
    /// The date, written out field by field.
    pub open spec fn spec_texto(self) -> Seq<char> {
        "Fecha { dia: "@ + dec_nat(self.dia as int) + ", mes: "@ + dec_nat(self.mes as int)
            + ", anio: "@ + dec_int(self.anio as int) + " }"@
    }

    pub fn to_string(&self) -> (s: String)
        ensures
            s@ == self.spec_texto(),
    {
        let mut s = "Fecha { dia: ".to_owned();
        let dia = texto_u64(self.dia as u64);
        s.append(dia.as_str());
        s.append(", mes: ");
        let mes = texto_u64(self.mes as u64);
        s.append(mes.as_str());
        s.append(", anio: ");
        let anio = texto_i32(self.anio);
        s.append(anio.as_str());
        s.append(" }");
        s
    }
}

} // verus!
