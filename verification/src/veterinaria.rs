//! A veterinary clinic: a waiting queue of pets, with priority admission,
//! and a registry of consultations that can be searched and amended.

use vstd::prelude::*;
use std::collections::VecDeque;
use crate::fecha::Fecha;

verus! {

#[derive(Debug, Clone, Copy, PartialEq, Eq, Structural)]
pub enum Animales {
    Perro,
    Gato,
    Caballo,
    Otros,
}

#[derive(Debug, Clone)]
pub struct Duenio {
    pub nombre: String,
    pub direccion: String,
    pub telefono: String,
}

#[derive(Debug, Clone)]
pub struct Mascota {
    pub nombre: String,
    pub edad: u32,
    pub tipo: Animales,
    pub duenio: Duenio,
}

#[derive(Debug, Clone)]
pub struct Atencion {
    pub mascota: Mascota,
    pub diagnostico: String,
    pub tratamiento: String,
    pub prox_visita: Option<Fecha>,
}

/// Owners compare by all three fields.
pub open spec fn mismo_duenio(a: Duenio, b: Duenio) -> bool {
    a.nombre@ == b.nombre@ && a.direccion@ == b.direccion@ && a.telefono@ == b.telefono@
}

/// Pets compare by every field, owner included.
pub open spec fn misma_mascota(a: Mascota, b: Mascota) -> bool {
    a.nombre@ == b.nombre@ && a.edad == b.edad && a.tipo == b.tipo && mismo_duenio(
        a.duenio,
        b.duenio,
    )
}

/// Consultations compare by every field, pet included.
pub open spec fn misma_atencion(a: Atencion, b: Atencion) -> bool {
    misma_mascota(a.mascota, b.mascota) && a.diagnostico@ == b.diagnostico@ && a.tratamiento@
        == b.tratamiento@ && a.prox_visita == b.prox_visita
}

impl Duenio {
    pub fn new(nombre: String, direccion: String, telefono: String) -> (d: Duenio)
        ensures
            d.nombre == nombre,
            d.direccion == direccion,
            d.telefono == telefono,
    {
        Duenio { nombre, direccion, telefono }
    }

    /// Field-by-field comparison.
    pub fn eq(&self, other: &Self) -> (r: bool)
        ensures
            r == mismo_duenio(*self, *other),
    {
        self.nombre == other.nombre && self.direccion == other.direccion && self.telefono
            == other.telefono
    }
}

impl Mascota {
    pub fn new(nombre: String, edad: u32, tipo: Animales, duenio: Duenio) -> (m: Mascota)
        ensures
            m.nombre == nombre,
            m.edad == edad,
            m.tipo == tipo,
            m.duenio == duenio,
    {
        Mascota { nombre, edad, tipo, duenio }
    }

    /// Field-by-field comparison, owner included.
    pub fn eq(&self, other: &Self) -> (r: bool)
        ensures
            r == misma_mascota(*self, *other),
    {
        self.nombre == other.nombre && self.edad == other.edad && self.tipo == other.tipo
            && self.duenio.eq(&other.duenio)
    }
}

impl Atencion {
    /// Builds a consultation record; a next-visit date, when given, must
    /// name an existing calendar day.
    pub fn new(mascota: Mascota, diagnostico: String, tratamiento: String, prox_visita: Option<
        Fecha,
    >) -> (a: Atencion)
        requires
            prox_visita matches Some(f) ==> f.es_valida(),
        ensures
            a.mascota == mascota,
            a.diagnostico == diagnostico,
            a.tratamiento == tratamiento,
            a.prox_visita == prox_visita,
    {
        Atencion { mascota, diagnostico, tratamiento, prox_visita }
    }

    /// The record is about the pet of that name, owner name and phone.
    pub fn comparar_atencion(&self, nombre_mascota: &String, nombre_duenio: &String, telefono:
        &String) -> (r: bool)
        ensures
            r == (self.mascota.nombre@ == nombre_mascota@ && self.mascota.duenio.nombre@
                == nombre_duenio@ && self.mascota.duenio.telefono@ == telefono@),
    {
        self.mascota.nombre == *nombre_mascota && self.mascota.duenio.nombre == *nombre_duenio
            && self.mascota.duenio.telefono == *telefono
    }

    pub fn set_diagnostico(&mut self, diagnostico: String)
        ensures
            *final (self) == (Atencion { diagnostico, ..*old(self) }),
    {
        self.diagnostico = diagnostico;
    }

    /// Replaces the next-visit date; a date, when given, must name an
    /// existing calendar day.
    pub fn set_prox_fecha(&mut self, fecha: Option<Fecha>)
        requires
            fecha matches Some(f) ==> f.es_valida(),
        ensures
            *final (self) == (Atencion { prox_visita: fecha, ..*old(self) }),
    {
        self.prox_visita = fecha;
    }

    /// Field-by-field comparison.
    pub fn eq(&self, other: &Self) -> (r: bool)
        ensures
            r == misma_atencion(*self, *other),
    {
        let fechas_iguales = match (&self.prox_visita, &other.prox_visita) {
            (Some(a), Some(b)) => a.eq(b),
            (None, None) => true,
            _ => false,
        };
        self.mascota.eq(&other.mascota) && self.diagnostico == other.diagnostico
            && self.tratamiento == other.tratamiento && fechas_iguales
    }
}

pub struct Veterinaria {
    pub nombre: String,
    pub direccion: String,
    pub id: u32,
    pub cola_atencion: VecDeque<Mascota>,
    pub registro_atencion: Vec<Atencion>,
}

impl Veterinaria {
    pub fn new(nombre: String, direccion: String, id: u32) -> (v: Veterinaria)
        ensures
            v.nombre == nombre,
            v.direccion == direccion,
            v.id == id,
            v.cola_atencion@.len() == 0,
            v.registro_atencion@.len() == 0,
    {
        Veterinaria { nombre, direccion, id, cola_atencion: VecDeque::new(), registro_atencion:
            Vec::new() }
    }

    /// Queues `mascota` at the back.
    pub fn agregar_mascota(&mut self, mascota: Mascota)
        ensures
            final (self).cola_atencion@ == old(self).cola_atencion@.push(mascota),
            final (self).registro_atencion == old(self).registro_atencion,
            final (self).nombre == old(self).nombre,
            final (self).direccion == old(self).direccion,
            final (self).id == old(self).id,
    {
        self.cola_atencion.push_back(mascota);
    }

    /// Queues `mascota` at the front, ahead of everyone waiting.
    pub fn agregar_mascota_prioritaria(&mut self, mascota: Mascota)
        ensures
            final (self).cola_atencion@ == seq![mascota] + old(self).cola_atencion@,
            final (self).registro_atencion == old(self).registro_atencion,
            final (self).nombre == old(self).nombre,
            final (self).direccion == old(self).direccion,
            final (self).id == old(self).id,
    {
        self.cola_atencion.push_front(mascota);
        assert(self.cola_atencion@ =~= seq![mascota] + old(self).cola_atencion@);
    }

    /// Takes the pet at the front of the queue, if any.
    pub fn atender_mascota(&mut self) -> (r: Option<Mascota>)
        ensures
            final (self).registro_atencion == old(self).registro_atencion,
            final (self).nombre == old(self).nombre,
            final (self).direccion == old(self).direccion,
            final (self).id == old(self).id,
            match r {
                Some(m) => old(self).cola_atencion@.len() > 0 && m == old(self).cola_atencion@[0]
                    && final (self).cola_atencion@ == old(self).cola_atencion@.drop_first(),
                None => old(self).cola_atencion@.len() == 0 && final (self).cola_atencion@ == old(
                    self,
                ).cola_atencion@,
            },
    {
        let r = self.cola_atencion.pop_front();
        proof {
            if r is Some {
                assert(self.cola_atencion@ =~= old(self).cola_atencion@.drop_first());
            }
        }
        r
    }

    /// Removes the first queued pet equal to `mascota`; reports whether one
    /// was waiting.
    pub fn retirar_mascota(&mut self, mascota: &Mascota) -> (r: bool)
        ensures
            final (self).registro_atencion == old(self).registro_atencion,
            final (self).nombre == old(self).nombre,
            final (self).direccion == old(self).direccion,
            final (self).id == old(self).id,
            r ==> exists|i: int|
                0 <= i < old(self).cola_atencion@.len() && misma_mascota(
                    old(self).cola_atencion@[i],
                    *mascota,
                ) && final (self).cola_atencion@ == old(self).cola_atencion@.remove(i),
            !r ==> *final (self) == *old(self) && forall|j: int|
                0 <= j < old(self).cola_atencion@.len() ==> !misma_mascota(
                    old(self).cola_atencion@[j],
                    *mascota,
                ),
    {
        let mut i: usize = 0;
        while i < self.cola_atencion.len()
            invariant
                0 <= i <= self.cola_atencion@.len(),
                forall|j: int| 0 <= j < i ==> !misma_mascota(self.cola_atencion@[j], *mascota),
                *self == *old(self),
            decreases self.cola_atencion@.len() - i,
        {
            if self.cola_atencion[i].eq(mascota) {
                self.cola_atencion.remove(i);
                return true;
            }
            i = i + 1;
        }
        false
    }

    /// Appends a consultation to the registry.
    pub fn registrar_atencion(&mut self, atencion: Atencion)
        ensures
            final (self).registro_atencion@ == old(self).registro_atencion@.push(atencion),
            final (self).cola_atencion == old(self).cola_atencion,
            final (self).nombre == old(self).nombre,
            final (self).direccion == old(self).direccion,
            final (self).id == old(self).id,
    {
        self.registro_atencion.push(atencion);
    }

    /// The first consultation about the pet of that name, owner name and
    /// phone, if any.
    pub fn buscar_atencion(&self, nombre_mascota: &String, nombre_duenio: &String, telefono:
        &String) -> (r: Option<&Atencion>)
        ensures
            match r {
                Some(a) => exists|i: int|
                    0 <= i < self.registro_atencion@.len() && *a == self.registro_atencion@[i]
                        && self.registro_atencion@[i].mascota.nombre@ == nombre_mascota@
                        && self.registro_atencion@[i].mascota.duenio.nombre@ == nombre_duenio@
                        && self.registro_atencion@[i].mascota.duenio.telefono@ == telefono@,
                None => forall|j: int|
                    0 <= j < self.registro_atencion@.len() ==> !(
                    #[trigger] self.registro_atencion@[j].mascota.nombre@ == nombre_mascota@
                        && self.registro_atencion@[j].mascota.duenio.nombre@ == nombre_duenio@
                        && self.registro_atencion@[j].mascota.duenio.telefono@ == telefono@),
            },
    {
        let mut i: usize = 0;
        while i < self.registro_atencion.len()
            invariant
                0 <= i <= self.registro_atencion@.len(),
                forall|j: int|
                    0 <= j < i ==> !(#[trigger] self.registro_atencion@[j].mascota.nombre@
                        == nombre_mascota@ && self.registro_atencion@[j].mascota.duenio.nombre@
                        == nombre_duenio@ && self.registro_atencion@[j].mascota.duenio.telefono@
                        == telefono@),
            decreases self.registro_atencion@.len() - i,
        {
            if self.registro_atencion[i].comparar_atencion(nombre_mascota, nombre_duenio, telefono)
             {
                return Some(&self.registro_atencion[i]);
            }
            i = i + 1;
        }
        None
    }

    /// Position of the first consultation equal to `atencion`, if any.
    pub fn get_pos_atencion(&self, atencion: &Atencion) -> (r: Option<usize>)
        ensures
            match r {
                Some(i) => i < self.registro_atencion@.len() && misma_atencion(
                    self.registro_atencion@[i as int],
                    *atencion,
                ) && forall|j: int|
                    0 <= j < i ==> !misma_atencion(self.registro_atencion@[j], *atencion),
                None => forall|j: int|
                    0 <= j < self.registro_atencion@.len() ==> !misma_atencion(
                        self.registro_atencion@[j],
                        *atencion,
                    ),
            },
    {
        let mut i: usize = 0;
        while i < self.registro_atencion.len()
            invariant
                0 <= i <= self.registro_atencion@.len(),
                forall|j: int| 0 <= j < i ==> !misma_atencion(self.registro_atencion@[j], *atencion),
            decreases self.registro_atencion@.len() - i,
        {
            if self.registro_atencion[i].eq(atencion) {
                return Some(i);
            }
            i = i + 1;
        }
        None
    }

    /// Rewrites the diagnosis of the first consultation equal to
    /// `atencion`; reports whether one was found.
    pub fn modificar_diagnostico(&mut self, atencion: &Atencion, nuevo_diagnostico: String) -> (r:
        bool)
        ensures
            final (self).cola_atencion == old(self).cola_atencion,
            final (self).nombre == old(self).nombre,
            final (self).direccion == old(self).direccion,
            final (self).id == old(self).id,
            r ==> exists|i: int|
                0 <= i < old(self).registro_atencion@.len() && misma_atencion(
                    old(self).registro_atencion@[i],
                    *atencion,
                ) && final (self).registro_atencion@ == old(self).registro_atencion@.update(
                    i,
                    (Atencion {
                        diagnostico: nuevo_diagnostico,
                        ..old(self).registro_atencion@[i]
                    }),
                ),
            !r ==> *final (self) == *old(self) && forall|j: int|
                0 <= j < old(self).registro_atencion@.len() ==> !misma_atencion(
                    old(self).registro_atencion@[j],
                    *atencion,
                ),
    {
        match self.get_pos_atencion(atencion) {
            Some(index) => {
                let mut at = self.registro_atencion.remove(index);
                at.set_diagnostico(nuevo_diagnostico);
                self.registro_atencion.insert(index, at);
                assert(self.registro_atencion@ =~= old(self).registro_atencion@.update(
                    index as int,
                    (Atencion {
                        diagnostico: nuevo_diagnostico,
                        ..old(self).registro_atencion@[index as int]
                    }),
                ));
                true
            },
            None => false,
        }
    }

    /// Rewrites the next-visit date of the first consultation equal to
    /// `atencion`; reports whether one was found.  A date, when given, must
    /// name an existing calendar day.
    pub fn modificar_fecha_visita(&mut self, atencion: &Atencion, nueva_fecha: Option<Fecha>) -> (r:
        bool)
        requires
            nueva_fecha matches Some(f) ==> f.es_valida(),
        ensures
            final (self).cola_atencion == old(self).cola_atencion,
            final (self).nombre == old(self).nombre,
            final (self).direccion == old(self).direccion,
            final (self).id == old(self).id,
            r ==> exists|i: int|
                0 <= i < old(self).registro_atencion@.len() && misma_atencion(
                    old(self).registro_atencion@[i],
                    *atencion,
                ) && final (self).registro_atencion@ == old(self).registro_atencion@.update(
                    i,
                    (Atencion { prox_visita: nueva_fecha, ..old(self).registro_atencion@[i] }),
                ),
            !r ==> *final (self) == *old(self) && forall|j: int|
                0 <= j < old(self).registro_atencion@.len() ==> !misma_atencion(
                    old(self).registro_atencion@[j],
                    *atencion,
                ),
    {
        match self.get_pos_atencion(atencion) {
            Some(index) => {
                let mut at = self.registro_atencion.remove(index);
                at.set_prox_fecha(nueva_fecha);
                self.registro_atencion.insert(index, at);
                assert(self.registro_atencion@ =~= old(self).registro_atencion@.update(
                    index as int,
                    (Atencion {
                        prox_visita: nueva_fecha,
                        ..old(self).registro_atencion@[index as int]
                    }),
                ));
                true
            },
            None => false,
        }
    }

    /// Removes the first consultation equal to `atencion`; reports whether
    /// one was found.
    pub fn eliminar_atencion(&mut self, atencion: &Atencion) -> (r: bool)
        ensures
            final (self).cola_atencion == old(self).cola_atencion,
            final (self).nombre == old(self).nombre,
            final (self).direccion == old(self).direccion,
            final (self).id == old(self).id,
            r ==> exists|i: int|
                0 <= i < old(self).registro_atencion@.len() && misma_atencion(
                    old(self).registro_atencion@[i],
                    *atencion,
                ) && final (self).registro_atencion@ == old(self).registro_atencion@.remove(i),
            !r ==> *final (self) == *old(self) && forall|j: int|
                0 <= j < old(self).registro_atencion@.len() ==> !misma_atencion(
                    old(self).registro_atencion@[j],
                    *atencion,
                ),
    {
        match self.get_pos_atencion(atencion) {
            Some(index) => {
                self.registro_atencion.remove(index);
                true
            },
            None => false,
        }
    }
}

} // verus!
