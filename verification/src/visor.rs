//! Lo que decide el visor 3D en cada fotograma: cuándo rehacer la escena,
//! cómo refrescar las texturas de la forma activa y de qué color se dibujan
//! los bordes de cada cara.

use vstd::prelude::*;
use crate::forma::{FormaTipo, face_count, num_caras};

verus! {

/// Cómo se ponen al día las texturas de la forma activa.
#[derive(Clone, Copy, Debug, PartialEq, Eq, Structural)]
pub enum Refresco {
    /// Nada cambió.
    Ninguno,
    /// Cambió el tamaño de las texturas: se crean de nuevo todas.
    RecrearTodas,
    /// Cambiaron píxeles: se vuelven a subir todas las texturas existentes.
    SubirTodas,
    /// Forma de una sola textura: se crea de nuevo la primera.
    RecrearPrimera,
}

/// Color del borde de una cara en el visor.
#[derive(Clone, Copy, Debug, PartialEq, Eq, Structural)]
pub enum Borde {
    /// Blanco: la cara seleccionada de la forma activa.
    Seleccionada,
    /// Cian: otra cara de la forma activa.
    Activa,
    /// Negro: una cara de otra forma.
    Inactiva,
}

/// El refresco que toca a una forma de tipo `tipo` cuando hay píxeles
/// cambiados (`sucio`) o un tamaño de textura nuevo (`tam_cambiado`).
pub open spec fn refresco(tipo: FormaTipo, sucio: bool, tam_cambiado: bool) -> Refresco {
    if !sucio && !tam_cambiado {
        Refresco::Ninguno
    } else if num_caras(tipo) > 1 {
        if tam_cambiado { Refresco::RecrearTodas } else { Refresco::SubirTodas }
    } else {
        Refresco::RecrearPrimera
    }
}

/// Decide cómo refrescar las texturas de la forma activa.
pub fn refresco_texturas(tipo: FormaTipo, sucio: bool, tam_cambiado: bool) -> (r: Refresco)
    ensures
        r == refresco(tipo, sucio, tam_cambiado),
{
    if !sucio && !tam_cambiado {
        Refresco::Ninguno
    } else if face_count(tipo) > 1 {
        if tam_cambiado { Refresco::RecrearTodas } else { Refresco::SubirTodas }
    } else {
        Refresco::RecrearPrimera
    }
}

/// Color del borde de la cara `cara` de la forma `forma`.
pub fn borde_cara(forma: usize, activa: usize, cara: usize, cara_sel: usize) -> (b: Borde)
    ensures
        b == if forma == activa && cara == cara_sel {
            Borde::Seleccionada
        } else if forma == activa {
            Borde::Activa
        } else {
            Borde::Inactiva
        },
{
    if forma == activa && cara == cara_sel {
        Borde::Seleccionada
    } else if forma == activa {
        Borde::Activa
    } else {
        Borde::Inactiva
    }
}

/// La escena del visor se rehace si cambió la forma de alguna pieza o si
/// cambió el número de formas o de grupos desde la última vez.
pub fn hay_que_reconstruir(forma_cambiada: bool, formas: usize, formas_antes: usize, grupos: usize,
    grupos_antes: usize) -> (r: bool)
    ensures
        r == (forma_cambiada || formas != formas_antes || grupos != grupos_antes),
{
    forma_cambiada || formas != formas_antes || grupos != grupos_antes
}

} // verus!
