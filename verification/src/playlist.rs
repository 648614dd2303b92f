//! A playlist: a queue of songs with genre and artist filters, search by
//! title, removal and reordering.  New songs enter at the front.

use vstd::prelude::*;
use std::collections::VecDeque;

verus! {

#[derive(Debug, Clone, Copy, PartialEq, Eq, Structural)]
pub enum Generos {
    Rock,
    Pop,
    Rap,
    Jazz,
    Otros,
}

impl Generos {
    /// The genre's display name.
    pub open spec fn spec_nombre(self) -> Seq<char> {
        match self {
            Generos::Rock => "Rock"@,
            Generos::Pop => "Pop"@,
            Generos::Rap => "Rap"@,
            Generos::Jazz => "Jazz"@,
            Generos::Otros => "Otros"@,
        }
    }

    pub fn to_string(&self) -> (s: String)
        ensures
            s@ == self.spec_nombre(),
    {
        match self {
            Generos::Rock => "Rock".to_owned(),
            Generos::Pop => "Pop".to_owned(),
            Generos::Rap => "Rap".to_owned(),
            Generos::Jazz => "Jazz".to_owned(),
            Generos::Otros => "Otros".to_owned(),
        }
    }

    /// Variant equality.
    pub fn eq(&self, other: &Self) -> (r: bool)
        ensures
            r == (*self == *other),
    {
        *self == *other
    }
}

#[derive(Debug, Clone)]
pub struct Cancion {
    pub titulo: String,
    pub artista: String,
    pub genero: Generos,
}

/// Songs compare by all three fields.
pub open spec fn misma_cancion(a: Cancion, b: Cancion) -> bool {
    a.titulo@ == b.titulo@ && a.artista@ == b.artista@ && a.genero == b.genero
}

/// The songs of `s` whose genre is `g`, in order.
pub open spec fn filtrar_por_genero(s: Seq<Cancion>, g: Generos) -> Seq<Cancion>
    decreases s.len(),
{
    if s.len() == 0 {
        Seq::empty()
    } else if s.last().genero == g {
        filtrar_por_genero(s.drop_last(), g).push(s.last())
    } else {
        filtrar_por_genero(s.drop_last(), g)
    }
}

/// The songs of `s` whose artist reads `artista`, in order.
pub open spec fn filtrar_por_artista(s: Seq<Cancion>, artista: Seq<char>) -> Seq<Cancion>
    decreases s.len(),
{
    if s.len() == 0 {
        Seq::empty()
    } else if s.last().artista@ == artista {
        filtrar_por_artista(s.drop_last(), artista).push(s.last())
    } else {
        filtrar_por_artista(s.drop_last(), artista)
    }
}

impl Cancion {
    pub fn new(titulo: String, artista: String, genero: Generos) -> (c: Cancion)
        ensures
            c.titulo == titulo,
            c.artista == artista,
            c.genero == genero,
    {
        Cancion { titulo, artista, genero }
    }

    /// Field-by-field comparison.
    pub fn eq(&self, other: &Self) -> (r: bool)
        ensures
            r == misma_cancion(*self, *other),
    {
        self.titulo == other.titulo && self.artista == other.artista && self.genero.eq(
            &other.genero,
        )
    }
}

pub struct Playlist {
    pub nombre: String,
    pub canciones: VecDeque<Cancion>,
}

impl Playlist {
    pub fn new(nombre: String, canciones: VecDeque<Cancion>) -> (p: Playlist)
        ensures
            p.nombre == nombre,
            p.canciones == canciones,
    {
        Playlist { nombre, canciones }
    }

    /// Adds `cancion` at the front of the queue.
    pub fn agregar_cancion(&mut self, cancion: Cancion)
        ensures
            final (self).canciones@ == seq![cancion] + old(self).canciones@,
            final (self).nombre == old(self).nombre,
    {
        self.canciones.push_front(cancion);
        assert(self.canciones@ =~= seq![cancion] + old(self).canciones@);
    }

    /// Position of the first song equal to `cancion`, if any.
    pub fn buscar_cancion(&self, cancion: &Cancion) -> (r: Option<usize>)
        ensures
            match r {
                Some(i) => i < self.canciones@.len() && misma_cancion(
                    self.canciones@[i as int],
                    *cancion,
                ) && forall|j: int| 0 <= j < i ==> !misma_cancion(self.canciones@[j], *cancion),
                None => forall|j: int|
                    0 <= j < self.canciones@.len() ==> !misma_cancion(
                        self.canciones@[j],
                        *cancion,
                    ),
            },
    {
        let mut i: usize = 0;
        while i < self.canciones.len()
            invariant
                0 <= i <= self.canciones@.len(),
                forall|j: int| 0 <= j < i ==> !misma_cancion(self.canciones@[j], *cancion),
            decreases self.canciones@.len() - i,
        {
            if self.canciones[i].eq(cancion) {
                return Some(i);
            }
            i = i + 1;
        }
        None
    }

    /// Removes the first song equal to `cancion`; reports whether one was
    /// there.
    pub fn eliminar_cancion(&mut self, cancion: &Cancion) -> (r: bool)
        ensures
            final (self).nombre == old(self).nombre,
            r ==> exists|i: int|
                0 <= i < old(self).canciones@.len() && misma_cancion(
                    old(self).canciones@[i],
                    *cancion,
                ) && final (self).canciones@ == old(self).canciones@.remove(i),
            !r ==> *final (self) == *old(self) && forall|j: int|
                0 <= j < old(self).canciones@.len() ==> !misma_cancion(
                    old(self).canciones@[j],
                    *cancion,
                ),
    {
        match self.buscar_cancion(cancion) {
            Some(index) => {
                self.canciones.remove(index);
                true
            },
            None => false,
        }
    }

    /// Moves the first song equal to `cancion` to `new_index`, clamped to
    /// the back of the queue; reports whether the song was there.
    pub fn mover_cancion(&mut self, cancion: &Cancion, new_index: usize) -> (r: bool)
        ensures
            final (self).nombre == old(self).nombre,
            r ==> exists|i: int|
                0 <= i < old(self).canciones@.len() && misma_cancion(
                    old(self).canciones@[i],
                    *cancion,
                ) && final (self).canciones@ == (if new_index >= old(self).canciones@.len() - 1 {
                    old(self).canciones@.remove(i).push(old(self).canciones@[i])
                } else {
                    old(self).canciones@.remove(i).insert(
                        new_index as int,
                        old(self).canciones@[i],
                    )
                }),
            !r ==> *final (self) == *old(self) && forall|j: int|
                0 <= j < old(self).canciones@.len() ==> !misma_cancion(
                    old(self).canciones@[j],
                    *cancion,
                ),
    {
        match self.buscar_cancion(cancion) {
            Some(index) => {
                let song = self.canciones.remove(index);
                match song {
                    Some(song) => {
                        if new_index >= self.canciones.len() {
                            self.canciones.push_back(song);
                        } else {
                            self.canciones.insert(new_index, song);
                        }
                        true
                    },
                    None => false,
                }
            },
            None => false,
        }
    }

    /// The first song titled `titulo_cancion`, if any.
    pub fn buscar_cancion_por_nombre(&self, titulo_cancion: &String) -> (r: Option<&Cancion>)
        ensures
            match r {
                Some(c) => exists|i: int|
                    0 <= i < self.canciones@.len() && *c == self.canciones@[i]
                        && self.canciones@[i].titulo@ == titulo_cancion@,
                None => forall|j: int|
                    0 <= j < self.canciones@.len() ==> self.canciones@[j].titulo@
                        != titulo_cancion@,
            },
    {
        let mut i: usize = 0;
        while i < self.canciones.len()
            invariant
                0 <= i <= self.canciones@.len(),
                forall|j: int| 0 <= j < i ==> self.canciones@[j].titulo@ != titulo_cancion@,
            decreases self.canciones@.len() - i,
        {
            if self.canciones[i].titulo == *titulo_cancion {
                return Some(&self.canciones[i]);
            }
            i = i + 1;
        }
        None
    }

    /// The songs of genre `genero`, in queue order.
    pub fn get_canciones_por_genero(&self, genero: &Generos) -> (r: Vec<&Cancion>)
        ensures
            r@.len() == filtrar_por_genero(self.canciones@, *genero).len(),
            forall|m: int|
                0 <= m < r@.len() ==> *r@[m] == filtrar_por_genero(self.canciones@, *genero)[m],
    {
        let mut songs: Vec<&Cancion> = Vec::new();
        let mut i: usize = 0;
        while i < self.canciones.len()
            invariant
                0 <= i <= self.canciones@.len(),
                songs@.len() == filtrar_por_genero(self.canciones@.take(i as int), *genero).len(),
                forall|m: int|
                    0 <= m < songs@.len() ==> *songs@[m] == filtrar_por_genero(
                        self.canciones@.take(i as int),
                        *genero,
                    )[m],
            decreases self.canciones@.len() - i,
        {
            assert(self.canciones@.take(i + 1).drop_last() =~= self.canciones@.take(i as int));
            assert(self.canciones@.take(i + 1).last() == self.canciones@[i as int]);
            if self.canciones[i].genero.eq(genero) {
                songs.push(&self.canciones[i]);
            }
            i = i + 1;
        }
        assert(self.canciones@.take(self.canciones@.len() as int) =~= self.canciones@);
        songs
    }

    /// The songs by `artista`, in queue order.
    pub fn get_canciones_por_artista(&self, artista: &String) -> (r: Vec<&Cancion>)
        ensures
            r@.len() == filtrar_por_artista(self.canciones@, artista@).len(),
            forall|m: int|
                0 <= m < r@.len() ==> *r@[m] == filtrar_por_artista(self.canciones@, artista@)[m],
    {
        let mut songs: Vec<&Cancion> = Vec::new();
        let mut i: usize = 0;
        while i < self.canciones.len()
            invariant
                0 <= i <= self.canciones@.len(),
                songs@.len() == filtrar_por_artista(self.canciones@.take(i as int), artista@).len(),
                forall|m: int|
                    0 <= m < songs@.len() ==> *songs@[m] == filtrar_por_artista(
                        self.canciones@.take(i as int),
                        artista@,
                    )[m],
            decreases self.canciones@.len() - i,
        {
            assert(self.canciones@.take(i + 1).drop_last() =~= self.canciones@.take(i as int));
            assert(self.canciones@.take(i + 1).last() == self.canciones@[i as int]);
            if self.canciones[i].artista == *artista {
                songs.push(&self.canciones[i]);
            }
            i = i + 1;
        }
        assert(self.canciones@.take(self.canciones@.len() as int) =~= self.canciones@);
        songs
    }

    /// Renames the playlist.
    pub fn modificar_titulo(&mut self, new_title: String)
        ensures
            final (self).nombre == new_title,
            final (self).canciones == old(self).canciones,
    {
        self.nombre = new_title;
    }

    /// Empties the queue.
    pub fn clear(&mut self)
        ensures
            final (self).canciones@.len() == 0,
            final (self).nombre == old(self).nombre,
    {
        self.canciones.clear();
    }
}

} // verus!
