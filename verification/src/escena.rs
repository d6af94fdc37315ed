//! La escena que se edita: formas con sus texturas por cara, la forma
//! activa y las agrupaciones. La geometría en números reales de cada forma
//! y la transformación de cada grupo son datos de quien dibuja: la escena
//! los guarda sin mirarlos (`G` y `T`).

use vstd::prelude::*;
use crate::forma::{FormaTipo, MaterialTipo, face_count, num_caras, caras_por_defecto, caras_tipo,
    vista_caras, cara_visible};
use crate::textura::{crear_pixeles, bytes_lienzo, uniforme_hasta, redimensionar_pixeles, redimensionada,
    cabe_redimension, pintar_pincel, en_pincel, desde_pincel, hasta_pincel, byte_en, rellenar_cara};
use crate::texto::{nombrar_grupo, nombre_grupo};

verus! {

/// Una forma de la escena.
#[derive(Clone)]
pub struct Forma<G> {
    pub nombre: String,
    pub tipo: FormaTipo,
    /// Caras del poliedro como listas de índices de vértice (vacía en formas curvas).
    pub caras: Vec<Vec<usize>>,
    /// Cara cuya textura se está pintando.
    pub cara_sel: usize,
    /// Una textura RGBA por cara.
    pub pixeles: Vec<Vec<u8>>,
    pub material: MaterialTipo,
    /// Grupo al que pertenece, por su posición en la lista de grupos.
    pub grupo: Option<usize>,
    pub bloqueada: bool,
    pub oculta: bool,
    /// Dimensiones, posición, rotación y vértices: lo guarda quien dibuja.
    pub geometria: G,
}

/// Un grupo de formas que se mueven juntas.
#[derive(Clone)]
pub struct Grupo<T> {
    pub nombre: String,
    /// Posición, rotación y escala del grupo: lo guarda quien dibuja.
    pub transformacion: T,
}

/// La escena completa que se edita.
pub struct Escena<G, T> {
    pub formas: Vec<Forma<G>>,
    pub forma_activa: usize,
    pub grupos: Vec<Grupo<T>>,
    /// Lado, en píxeles, de las texturas de todas las caras.
    pub tex_size: usize,
}

/// Gris con que nace cada cara.
pub open spec fn gris() -> Seq<u8> {
    seq![128u8, 128, 128, 255]
}

impl<G> Forma<G> {
    /// Una forma nueva del tipo dado: caras por defecto, texturas grises de
    /// `tex_size` píxeles de lado (una por cara), sin grupo, visible y editable.
    pub fn new(tipo: FormaTipo, tex_size: usize, nombre: String, geometria: G) -> (f: Self)
        requires
            bytes_lienzo(tex_size as int) <= usize::MAX,
        ensures
            f.nombre@ == nombre@,
            f.tipo == tipo,
            vista_caras(f.caras@) == caras_tipo(tipo),
            f.cara_sel == 0,
            f.pixeles@.len() == num_caras(tipo),
            forall|j: int| 0 <= j < f.pixeles@.len() ==> #[trigger] f.pixeles@[j]@.len() == bytes_lienzo(
                tex_size as int),
            forall|j: int| 0 <= j < f.pixeles@.len() ==> uniforme_hasta(#[trigger] f.pixeles@[j]@,
                bytes_lienzo(tex_size as int), gris()),
            f.material == MaterialTipo::Plastico,
            f.grupo is None,
            !f.bloqueada,
            !f.oculta,
            f.geometria == geometria,
    {
        let caras = caras_por_defecto(tipo);
        let count = face_count(tipo);
        let color: [u8; 4] = [128, 128, 128, 255];
        assert(color@ =~= gris());
        let pixeles = crear_pixeles(&color, tex_size, count);
        Forma {
            nombre,
            tipo,
            caras,
            cara_sel: 0,
            pixeles,
            material: MaterialTipo::Plastico,
            grupo: None,
            bloqueada: false,
            oculta: false,
            geometria,
        }
    }
}

/// El grupo de una forma después de borrar el grupo `idx`: los posteriores
/// bajan un puesto y el borrado deja la forma sin grupo.
pub open spec fn grupo_tras_borrar(g: Option<usize>, idx: usize) -> Option<usize> {
    match g {
        Some(x) => if x == idx {
            None
        } else if x > idx {
            Some((x - 1) as usize)
        } else {
            Some(x)
        },
        None => None,
    }
}

/// Las formas después de borrar el grupo `idx`.
pub open spec fn formas_tras_borrar_grupo<G>(formas: Seq<Forma<G>>, idx: usize) -> Seq<Forma<G>> {
    Seq::new(formas.len(), |i: int| Forma { grupo: grupo_tras_borrar(formas[i].grupo, idx), ..formas[i] })
}

/// Todas las formas de `formas` que tienen grupo lo tienen entre los `n` que hay.
pub open spec fn refs_validas<G>(formas: Seq<Forma<G>>, n: int) -> bool {
    forall|i: int| 0 <= i < formas.len() ==> match #[trigger] formas[i].grupo {
        Some(g) => g < n,
        None => true,
    }
}

/// Forma activa tras borrar la forma `i` de una lista de `n` formas.
pub open spec fn activa_tras_borrar(activa: int, i: int, n: int) -> int {
    if i < activa {
        activa - 1
    } else if i == activa {
        let tope = if n >= 2 { n - 2 } else { 0 };
        if activa < tope { activa } else { tope }
    } else {
        activa
    }
}

impl<G, T> Escena<G, T> {
    /// Todas las referencias de formas a grupos nombran un grupo existente.
    pub open spec fn grupos_validos(&self) -> bool {
        refs_validas(self.formas@, self.grupos@.len() as int)
    }

    /// Hay formas y la activa es una de ellas.
    pub open spec fn activa_valida(&self) -> bool {
        self.formas@.len() > 0 && self.forma_activa < self.formas@.len()
    }

    /// Todas las caras de todas las formas tienen el tamaño de textura de la escena.
    pub open spec fn texturas_validas(&self) -> bool {
        forall|i: int, j: int| 0 <= i < self.formas@.len() && 0 <= j < self.formas@[i].pixeles@.len()
            ==> (#[trigger] self.formas@[i].pixeles@[j])@.len() == bytes_lienzo(self.tex_size as int)
    }

    /// Una escena con una forma y sin grupos.
    pub fn new(forma: Forma<G>, tex_size: usize) -> (e: Self)
        ensures
            e.formas@ == seq![forma],
            e.forma_activa == 0,
            e.grupos@.len() == 0,
            e.tex_size == tex_size,
    {
        let mut formas: Vec<Forma<G>> = Vec::new();
        formas.push(forma);
        assert(formas@ =~= seq![forma]);
        Escena { formas, forma_activa: 0, grupos: Vec::new(), tex_size }
    }

    /// La forma activa.
    pub fn forma(&self) -> (f: &Forma<G>)
        requires
            self.forma_activa < self.formas@.len(),
        ensures
            *f == self.formas@[self.forma_activa as int],
    {
        &self.formas[self.forma_activa]
    }

    /// Crea el grupo `Grupo n` (n = número de grupos tras crearlo) y devuelve su posición.
    pub fn crear_grupo(&mut self, transformacion: T) -> (idx: usize)
        requires
            old(self).grupos@.len() < usize::MAX,
        ensures
            old(self).texturas_validas() ==> final(self).texturas_validas(),
            old(self).grupos_validos() ==> final(self).grupos_validos(),
            idx == old(self).grupos@.len(),
            final(self).grupos@.len() == old(self).grupos@.len() + 1,
            final(self).grupos@.subrange(0, idx as int) == old(self).grupos@,
            final(self).grupos@[idx as int].nombre@ == nombre_grupo((idx + 1) as nat),
            final(self).grupos@[idx as int].transformacion == transformacion,
            final(self).formas@ == old(self).formas@,
            final(self).forma_activa == old(self).forma_activa,
            final(self).tex_size == old(self).tex_size,
    {
        let n = self.grupos.len() + 1;
        let g = Grupo { nombre: nombrar_grupo(n), transformacion };
        self.grupos.push(g);
        assert(self.grupos@.subrange(0, (n - 1) as int) =~= old(self).grupos@);
        self.grupos.len() - 1
    }

    /// Borra el grupo `idx`: sus formas quedan sin grupo y las de grupos
    /// posteriores siguen en el suyo, que baja un puesto. Un índice fuera de
    /// rango no hace nada.
    pub fn borrar_grupo(&mut self, idx: usize)
        ensures
            old(self).texturas_validas() ==> final(self).texturas_validas(),
            old(self).grupos_validos() ==> final(self).grupos_validos(),
            idx >= old(self).grupos@.len() ==> final(self).grupos@ == old(self).grupos@
                && final(self).formas@ == old(self).formas@,
            idx < old(self).grupos@.len() ==> final(self).grupos@ == old(self).grupos@.remove(idx as int),
            idx < old(self).grupos@.len() ==> final(self).formas@ == formas_tras_borrar_grupo(old(self).formas@, idx),
            final(self).forma_activa == old(self).forma_activa,
            final(self).tex_size == old(self).tex_size,
    {
        if idx >= self.grupos.len() {
            return;
        }
        self.grupos.remove(idx);
        let mut i: usize = 0;
        while i < self.formas.len()
            invariant
                i <= self.formas@.len(),
                self.formas@.len() == old(self).formas@.len(),
                self.grupos@ == old(self).grupos@.remove(idx as int),
                self.forma_activa == old(self).forma_activa,
                self.tex_size == old(self).tex_size,
                forall|k: int| i <= k < self.formas@.len() ==> #[trigger] self.formas@[k] == old(self).formas@[k],
                forall|k: int| 0 <= k < i ==> #[trigger] self.formas@[k] == (Forma {
                    grupo: grupo_tras_borrar(old(self).formas@[k].grupo, idx),
                    ..old(self).formas@[k]
                }),
            decreases self.formas@.len() - i,
        {
            let nuevo = match self.formas[i].grupo {
                Some(g) => if g == idx {
                    None
                } else if g > idx {
                    Some(g - 1)
                } else {
                    Some(g)
                },
                None => None,
            };
            self.formas[i].grupo = nuevo;
            i = i + 1;
        }
        assert(self.formas@ =~= formas_tras_borrar_grupo(old(self).formas@, idx));
    }

    /// Asigna la forma `forma_idx` al grupo dado (o a ninguno); un índice de
    /// forma fuera de rango no hace nada.
    pub fn asignar_grupo(&mut self, forma_idx: usize, grupo: Option<usize>)
        ensures
            old(self).texturas_validas() ==> final(self).texturas_validas(),
            old(self).grupos_validos() && (grupo matches Some(g) ==> g < old(self).grupos@.len()) ==> final(self).grupos_validos(),
            final(self).grupos@ == old(self).grupos@,
            final(self).forma_activa == old(self).forma_activa,
            final(self).tex_size == old(self).tex_size,
            forma_idx < old(self).formas@.len() ==> final(self).formas@ == old(self).formas@.update(
                forma_idx as int, Forma { grupo, ..old(self).formas@[forma_idx as int] }),
            forma_idx >= old(self).formas@.len() ==> final(self).formas@ == old(self).formas@,
    {
        if forma_idx < self.formas.len() {
            self.formas[forma_idx].grupo = grupo;
            assert(self.formas@ =~= old(self).formas@.update(
                forma_idx as int, Forma { grupo, ..old(self).formas@[forma_idx as int] }));
        }
    }

    /// Añade una forma al final y la deja activa.
    pub fn agregar_forma(&mut self, forma: Forma<G>)
        requires
            old(self).formas@.len() < usize::MAX,
        ensures
            final(self).formas@ == old(self).formas@.push(forma),
            final(self).forma_activa == old(self).formas@.len(),
            final(self).activa_valida(),
            final(self).grupos@ == old(self).grupos@,
            final(self).tex_size == old(self).tex_size,
    {
        self.formas.push(forma);
        self.forma_activa = self.formas.len() - 1;
    }

    /// Inserta `copia` justo después de la forma `i` y la deja activa.
    pub fn insertar_copia(&mut self, i: usize, copia: Forma<G>)
        requires
            i < old(self).formas@.len(),
        ensures
            final(self).formas@ == old(self).formas@.insert(i + 1, copia),
            final(self).forma_activa == i + 1,
            final(self).activa_valida(),
            final(self).grupos@ == old(self).grupos@,
            final(self).tex_size == old(self).tex_size,
    {
        assert(self.formas.len() <= usize::MAX);
        self.formas.insert(i + 1, copia);
        self.forma_activa = i + 1;
    }

    /// Borra la forma `i`; la activa sigue siendo la misma forma si no era
    /// la borrada, y si lo era pasa a la siguiente (o a la anterior si era la última).
    pub fn borrar_forma(&mut self, i: usize)
        requires
            i < old(self).formas@.len(),
        ensures
            old(self).texturas_validas() ==> final(self).texturas_validas(),
            old(self).grupos_validos() ==> final(self).grupos_validos(),
            final(self).formas@ == old(self).formas@.remove(i as int),
            final(self).forma_activa == activa_tras_borrar(old(self).forma_activa as int, i as int,
                old(self).formas@.len() as int),
            old(self).activa_valida() && old(self).formas@.len() >= 2 ==> final(self).activa_valida(),
            final(self).grupos@ == old(self).grupos@,
            final(self).tex_size == old(self).tex_size,
    {
        let n = self.formas.len();
        if i < self.forma_activa {
            self.forma_activa = self.forma_activa - 1;
        } else if i == self.forma_activa {
            let tope: usize = if n >= 2 { n - 2 } else { 0 };
            self.forma_activa = if self.forma_activa < tope { self.forma_activa } else { tope };
        }
        self.formas.remove(i);
    }

    /// Toma las formas, grupos y tamaño de textura de un proyecto cargado;
    /// la forma activa se recorta a la última que exista.
    pub fn aplicar_proyecto(&mut self, formas: Vec<Forma<G>>, forma_activa: usize, grupos: Vec<Grupo<T>>,
        tex_size: usize)
        ensures
            final(self).formas@ == formas@,
            final(self).grupos@ == grupos@,
            final(self).tex_size == tex_size,
            final(self).forma_activa == if forma_activa as int <= formas@.len() - 1 {
                forma_activa as int
            } else if formas@.len() > 0 {
                formas@.len() - 1
            } else {
                0
            },
            formas@.len() > 0 ==> final(self).activa_valida(),
    {
        let tope: usize = if formas.len() > 0 { formas.len() - 1 } else { 0 };
        self.forma_activa = if forma_activa < tope { forma_activa } else { tope };
        self.formas = formas;
        self.grupos = grupos;
        self.tex_size = tex_size;
    }

    /// Cambia el lado de todas las texturas y las redimensiona.
    pub fn cambiar_tex_size(&mut self, nuevo: usize)
        requires
            forall|i: int, j: int| 0 <= i < old(self).formas@.len() && 0 <= j < old(self).formas@[i].pixeles@.len()
                ==> cabe_redimension((#[trigger] old(self).formas@[i].pixeles@[j])@,
                    old(self).tex_size as int, nuevo as int),
            bytes_lienzo(nuevo as int) <= usize::MAX,
        ensures
            final(self).tex_size == nuevo,
            final(self).texturas_validas(),
            final(self).grupos@ == old(self).grupos@,
            final(self).forma_activa == old(self).forma_activa,
            final(self).formas@.len() == old(self).formas@.len(),
            forall|i: int| 0 <= i < old(self).formas@.len() ==> (#[trigger] final(self).formas@[i]).pixeles@.len()
                == old(self).formas@[i].pixeles@.len(),
            forall|i: int| 0 <= i < old(self).formas@.len() ==> #[trigger] final(self).formas@[i] == (Forma {
                pixeles: final(self).formas@[i].pixeles,
                ..old(self).formas@[i]
            }),
            forall|i: int, j: int| 0 <= i < old(self).formas@.len() && 0 <= j < old(self).formas@[i].pixeles@.len()
                ==> (#[trigger] final(self).formas@[i].pixeles@[j])@ == redimensionada(
                    old(self).formas@[i].pixeles@[j]@, old(self).tex_size as int, nuevo as int),
    {
        let viejo = self.tex_size;
        let mut i: usize = 0;
        while i < self.formas.len()
            invariant
                i <= self.formas@.len(),
                self.formas@.len() == old(self).formas@.len(),
                self.tex_size == viejo,
                viejo == old(self).tex_size,
                self.grupos@ == old(self).grupos@,
                self.forma_activa == old(self).forma_activa,
                bytes_lienzo(nuevo as int) <= usize::MAX,
                forall|a: int, j: int| 0 <= a < old(self).formas@.len() && 0 <= j < old(self).formas@[a].pixeles@.len()
                    ==> cabe_redimension((#[trigger] old(self).formas@[a].pixeles@[j])@, viejo as int, nuevo as int),
                forall|k: int| i <= k < self.formas@.len() ==> #[trigger] self.formas@[k] == old(self).formas@[k],
                forall|k: int| 0 <= k < i ==> (#[trigger] self.formas@[k]).pixeles@.len()
                    == old(self).formas@[k].pixeles@.len(),
                forall|k: int| 0 <= k < i ==> #[trigger] self.formas@[k] == (Forma {
                    pixeles: self.formas@[k].pixeles,
                    ..old(self).formas@[k]
                }),
                forall|k: int, j: int| 0 <= k < i && 0 <= j < old(self).formas@[k].pixeles@.len()
                    ==> (#[trigger] self.formas@[k].pixeles@[j])@ == redimensionada(
                        old(self).formas@[k].pixeles@[j]@, viejo as int, nuevo as int),
            decreases self.formas@.len() - i,
        {
            assert(forall|j: int| 0 <= j < self.formas@[i as int].pixeles@.len() ==> cabe_redimension(
                (#[trigger] self.formas@[i as int].pixeles@[j])@, viejo as int, nuevo as int));
            redimensionar_pixeles(&mut self.formas[i].pixeles, viejo, nuevo);
            i = i + 1;
        }
        self.tex_size = nuevo;
    }

    /// Cara de la forma activa cuya textura se pinta: la seleccionada, o la
    /// última si la selección se pasa.
    pub open spec fn cara_pintada(&self) -> int {
        let f = self.formas@[self.forma_activa as int];
        if f.cara_sel < f.pixeles@.len() - 1 { f.cara_sel as int } else { f.pixeles@.len() - 1 }
    }

    /// La forma activa existe y tiene al menos una textura.
    pub open spec fn activa_con_textura(&self) -> bool {
        self.forma_activa < self.formas@.len() && self.formas@[self.forma_activa as int].pixeles@.len() > 0
    }

    /// Pasa el pincel de `t` píxeles por `(px, py)` sobre la cara seleccionada
    /// de la forma activa, salvo que esté bloqueada.
    pub fn pintar(&mut self, px: usize, py: usize, t: usize, color: &[u8; 4])
        requires
            old(self).forma_activa < old(self).formas@.len(),
            !old(self).formas@[old(self).forma_activa as int].bloqueada ==> {
                &&& old(self).activa_con_textura()
                &&& px + t / 2 + t % 2 <= usize::MAX
                &&& py + t / 2 + t % 2 <= usize::MAX
                &&& desde_pincel(px as int, t as int) < hasta_pincel(px as int, t as int, old(self).tex_size as int)
                    && desde_pincel(py as int, t as int) < hasta_pincel(py as int, t as int,
                    old(self).tex_size as int) ==> byte_en(old(self).tex_size as int, hasta_pincel(px as int,
                    t as int, old(self).tex_size as int) - 1, hasta_pincel(py as int, t as int,
                    old(self).tex_size as int) - 1, 3)
                    < old(self).formas@[old(self).forma_activa as int].pixeles@[old(self).cara_pintada()]@.len()
            },
        ensures
            old(self).texturas_validas() ==> final(self).texturas_validas(),
            old(self).grupos_validos() ==> final(self).grupos_validos(),
            final(self).forma_activa == old(self).forma_activa,
            final(self).grupos@ == old(self).grupos@,
            final(self).tex_size == old(self).tex_size,
            old(self).formas@[old(self).forma_activa as int].bloqueada ==> final(self).formas@ == old(self).formas@,
            !old(self).formas@[old(self).forma_activa as int].bloqueada ==> {
                let a = old(self).forma_activa as int;
                let cs = old(self).cara_pintada();
                let antes = old(self).formas@[a].pixeles@[cs]@;
                let despues = final(self).formas@[a].pixeles@[cs]@;
                &&& final(self).formas@.len() == old(self).formas@.len()
                &&& forall|k: int| 0 <= k < old(self).formas@.len() && k != a ==> #[trigger] final(self).formas@[k]
                    == old(self).formas@[k]
                &&& final(self).formas@[a] == (Forma { pixeles: final(self).formas@[a].pixeles, ..old(self).formas@[a] })
                &&& final(self).formas@[a].pixeles@.len() == old(self).formas@[a].pixeles@.len()
                &&& forall|j: int| 0 <= j < old(self).formas@[a].pixeles@.len() && j != cs
                    ==> #[trigger] final(self).formas@[a].pixeles@[j] == old(self).formas@[a].pixeles@[j]
                &&& despues.len() == antes.len()
                &&& forall|i: int| 0 <= i < antes.len() ==> #[trigger] despues[i] == if en_pincel(
                    old(self).tex_size as int, i, px as int, py as int, t as int) {
                    color@[i % 4]
                } else {
                    antes[i]
                }
            },
    {
        let a = self.forma_activa;
        if self.formas[a].bloqueada {
            return;
        }
        let cs = cara_visible(self.formas[a].cara_sel, self.formas[a].pixeles.len());
        let tex = self.tex_size;
        pintar_pincel(&mut self.formas[a].pixeles[cs], tex, px, py, t, color);
    }

    /// El color (opaco) del píxel `(px, py)` de la cara seleccionada de la forma activa.
    pub fn tomar_color(&self, px: usize, py: usize) -> (c: [u8; 4])
        requires
            self.activa_con_textura(),
            byte_en(self.tex_size as int, px as int, py as int, 3)
                < self.formas@[self.forma_activa as int].pixeles@[self.cara_pintada()]@.len(),
        ensures
            ({
                let cara = self.formas@[self.forma_activa as int].pixeles@[self.cara_pintada()]@;
                c@ == seq![
                    cara[byte_en(self.tex_size as int, px as int, py as int, 0)],
                    cara[byte_en(self.tex_size as int, px as int, py as int, 1)],
                    cara[byte_en(self.tex_size as int, px as int, py as int, 2)],
                    255u8,
                ]
            }),
    {
        let a = self.forma_activa;
        let cs = cara_visible(self.formas[a].cara_sel, self.formas[a].pixeles.len());
        crate::textura::color_en(self.formas[a].pixeles[cs].as_slice(), self.tex_size, px, py)
    }

    /// Pinta entera con `color` la cara seleccionada de la forma activa, salvo que esté bloqueada.
    pub fn limpiar_cara(&mut self, color: &[u8; 4])
        requires
            old(self).forma_activa < old(self).formas@.len(),
            !old(self).formas@[old(self).forma_activa as int].bloqueada ==> old(self).activa_con_textura(),
        ensures
            old(self).texturas_validas() ==> final(self).texturas_validas(),
            old(self).grupos_validos() ==> final(self).grupos_validos(),
            final(self).forma_activa == old(self).forma_activa,
            final(self).grupos@ == old(self).grupos@,
            final(self).tex_size == old(self).tex_size,
            old(self).formas@[old(self).forma_activa as int].bloqueada ==> final(self).formas@ == old(self).formas@,
            !old(self).formas@[old(self).forma_activa as int].bloqueada ==> {
                let a = old(self).forma_activa as int;
                let cs = old(self).cara_pintada();
                let antes = old(self).formas@[a].pixeles@[cs]@;
                let despues = final(self).formas@[a].pixeles@[cs]@;
                &&& final(self).formas@.len() == old(self).formas@.len()
                &&& forall|k: int| 0 <= k < old(self).formas@.len() && k != a ==> #[trigger] final(self).formas@[k]
                    == old(self).formas@[k]
                &&& final(self).formas@[a] == (Forma { pixeles: final(self).formas@[a].pixeles, ..old(self).formas@[a] })
                &&& final(self).formas@[a].pixeles@.len() == old(self).formas@[a].pixeles@.len()
                &&& forall|j: int| 0 <= j < old(self).formas@[a].pixeles@.len() && j != cs
                    ==> #[trigger] final(self).formas@[a].pixeles@[j] == old(self).formas@[a].pixeles@[j]
                &&& despues.len() == antes.len()
                &&& crate::textura::uniforme_hasta(despues, antes.len() - antes.len() % 4, color@)
                &&& forall|i: int| antes.len() - antes.len() % 4 <= i < antes.len() ==> #[trigger] despues[i] == antes[i]
            },
    {
        let a = self.forma_activa;
        if self.formas[a].bloqueada {
            return;
        }
        let cs = cara_visible(self.formas[a].cara_sel, self.formas[a].pixeles.len());
        rellenar_cara(&mut self.formas[a].pixeles[cs], color);
    }

    /// Pinta enteras con `color` todas las caras de la forma activa, salvo que esté bloqueada.
    pub fn llenar_todo(&mut self, color: &[u8; 4])
        requires
            old(self).forma_activa < old(self).formas@.len(),
        ensures
            old(self).texturas_validas() ==> final(self).texturas_validas(),
            old(self).grupos_validos() ==> final(self).grupos_validos(),
            final(self).forma_activa == old(self).forma_activa,
            final(self).grupos@ == old(self).grupos@,
            final(self).tex_size == old(self).tex_size,
            old(self).formas@[old(self).forma_activa as int].bloqueada ==> final(self).formas@ == old(self).formas@,
            !old(self).formas@[old(self).forma_activa as int].bloqueada ==> {
                let a = old(self).forma_activa as int;
                &&& final(self).formas@.len() == old(self).formas@.len()
                &&& forall|k: int| 0 <= k < old(self).formas@.len() && k != a ==> #[trigger] final(self).formas@[k]
                    == old(self).formas@[k]
                &&& final(self).formas@[a] == (Forma { pixeles: final(self).formas@[a].pixeles, ..old(self).formas@[a] })
                &&& final(self).formas@[a].pixeles@.len() == old(self).formas@[a].pixeles@.len()
                &&& forall|j: int| 0 <= j < old(self).formas@[a].pixeles@.len() ==> {
                    let antes = old(self).formas@[a].pixeles@[j]@;
                    let despues = (#[trigger] final(self).formas@[a].pixeles@[j])@;
                    &&& despues.len() == antes.len()
                    &&& crate::textura::uniforme_hasta(despues, antes.len() - antes.len() % 4, color@)
                    &&& forall|i: int| antes.len() - antes.len() % 4 <= i < antes.len() ==> #[trigger] despues[i] == antes[i]
                }
            },
    {
        let a = self.forma_activa;
        if self.formas[a].bloqueada {
            return;
        }
        let mut j: usize = 0;
        while j < self.formas[a].pixeles.len()
            invariant
                a == old(self).forma_activa,
                a < old(self).formas@.len(),
                !old(self).formas@[a as int].bloqueada,
                j <= self.formas@[a as int].pixeles@.len(),
                self.forma_activa == old(self).forma_activa,
                self.grupos@ == old(self).grupos@,
                self.tex_size == old(self).tex_size,
                self.formas@.len() == old(self).formas@.len(),
                forall|k: int| 0 <= k < old(self).formas@.len() && k != a ==> #[trigger] self.formas@[k]
                    == old(self).formas@[k],
                self.formas@[a as int] == (Forma { pixeles: self.formas@[a as int].pixeles, ..old(self).formas@[a as int] }),
                self.formas@[a as int].pixeles@.len() == old(self).formas@[a as int].pixeles@.len(),
                forall|m: int| j <= m < old(self).formas@[a as int].pixeles@.len()
                    ==> #[trigger] self.formas@[a as int].pixeles@[m] == old(self).formas@[a as int].pixeles@[m],
                forall|m: int| 0 <= m < j ==> {
                    let antes = old(self).formas@[a as int].pixeles@[m]@;
                    let despues = (#[trigger] self.formas@[a as int].pixeles@[m])@;
                    &&& despues.len() == antes.len()
                    &&& crate::textura::uniforme_hasta(despues, antes.len() - antes.len() % 4, color@)
                    &&& forall|i: int| antes.len() - antes.len() % 4 <= i < antes.len() ==> #[trigger] despues[i] == antes[i]
                },
            decreases old(self).formas@[a as int].pixeles@.len() - j,
        {
            rellenar_cara(&mut self.formas[a].pixeles[j], color);
            j = j + 1;
        }
    }

    /// Posiciones, en orden, de las formas cuyo grupo es `grupo` (con
    /// `None`, las que no tienen grupo).
    pub fn formas_de_grupo(&self, grupo: Option<usize>) -> (r: Vec<usize>)
        ensures
            forall|k: int| 0 <= k < r@.len() ==> (#[trigger] r@[k]) < self.formas@.len()
                && self.formas@[r@[k] as int].grupo == grupo,
            forall|k: int, m: int| 0 <= k < m < r@.len() ==> (#[trigger] r@[k]) < (#[trigger] r@[m]),
            forall|i: int| 0 <= i < self.formas@.len() && (#[trigger] self.formas@[i]).grupo == grupo
                ==> r@.contains(i as usize),
    {
        let mut r: Vec<usize> = Vec::new();
        let mut i: usize = 0;
        while i < self.formas.len()
            invariant
                i <= self.formas@.len(),
                forall|k: int| 0 <= k < r@.len() ==> (#[trigger] r@[k]) < i
                    && self.formas@[r@[k] as int].grupo == grupo,
                forall|k: int, m: int| 0 <= k < m < r@.len() ==> (#[trigger] r@[k]) < (#[trigger] r@[m]),
                forall|j: int| 0 <= j < i && (#[trigger] self.formas@[j]).grupo == grupo ==> r@.contains(j as usize),
            decreases self.formas@.len() - i,
        {
            let igual = match (self.formas[i].grupo, grupo) {
                (Some(a), Some(b)) => a == b,
                (None, None) => true,
                _ => false,
            };
            if igual {
                let ghost antes = r@;
                r.push(i);
                assert forall|j: int| 0 <= j < i + 1 && (#[trigger] self.formas@[j]).grupo == grupo implies r@.contains(
                    j as usize) by {
                    if j < i {
                        let k = choose|k: int| 0 <= k < antes.len() && antes[k] == j as usize;
                        assert(r@[k] == j as usize);
                    } else {
                        assert(r@[antes.len() as int] == j as usize);
                    }
                }
            }
            i = i + 1;
        }
        r
    }

    /// Grupo del que cuelga la forma `i` al dibujarla: el suyo si existe.
    pub fn grupo_padre(&self, i: usize) -> (r: Option<usize>)
        requires
            i < self.formas@.len(),
        ensures
            r == match self.formas@[i as int].grupo {
                Some(g) => if g < self.grupos@.len() { Some(g) } else { None },
                None => None,
            },
    {
        match self.formas[i].grupo {
            Some(g) => if g < self.grupos.len() { Some(g) } else { None },
            None => None,
        }
    }
}

/// Borrar un grupo deja todas las referencias a grupos válidas, y cada
/// forma de otro grupo sigue en el mismo grupo (con su nombre y su
/// transformación), aunque su posición en la lista baje un puesto.
pub proof fn ley_borrar_grupo<G, T>(formas: Seq<Forma<G>>, grupos: Seq<Grupo<T>>, idx: usize)
    requires
        refs_validas(formas, grupos.len() as int),
        idx < grupos.len(),
    ensures
        refs_validas(formas_tras_borrar_grupo(formas, idx), grupos.len() - 1),
        formas_tras_borrar_grupo(formas, idx).len() == formas.len(),
        forall|i: int| 0 <= i < formas.len() ==> match #[trigger] formas[i].grupo {
            Some(g) => if g == idx {
                formas_tras_borrar_grupo(formas, idx)[i].grupo is None
            } else {
                formas_tras_borrar_grupo(formas, idx)[i].grupo matches Some(h) && grupos.remove(idx as int)[h as int]
                    == grupos[g as int]
            },
            None => formas_tras_borrar_grupo(formas, idx)[i].grupo is None,
        },
{
}

/// Crear un grupo, o asignar una forma a un grupo existente (o a ninguno),
/// mantiene válidas las referencias a grupos.
pub proof fn ley_grupos_validos<G>(formas: Seq<Forma<G>>, n: int, i: int, grupo: Option<usize>)
    requires
        refs_validas(formas, n),
        0 <= i < formas.len(),
        grupo matches Some(g) ==> g < n,
    ensures
        refs_validas(formas, n + 1),
        refs_validas(formas.update(i, Forma { grupo, ..formas[i] }), n),
{
    let nuevas = formas.update(i, Forma { grupo, ..formas[i] });
    assert forall|k: int| 0 <= k < nuevas.len() implies match #[trigger] nuevas[k].grupo {
        Some(g) => g < n,
        None => true,
    } by {
        if k != i {
            assert(nuevas[k] == formas[k]);
        }
    }
}

/// Borrar una forma que no es la activa no cambia la forma activa; borrar
/// la activa deja activa una forma que existe (si queda alguna).
pub proof fn ley_borrar_forma<G>(formas: Seq<Forma<G>>, activa: int, i: int)
    requires
        0 <= activa < formas.len(),
        0 <= i < formas.len(),
    ensures
        formas.len() >= 2 ==> 0 <= activa_tras_borrar(activa, i, formas.len() as int) < formas.len() - 1,
        i != activa ==> formas.remove(i)[activa_tras_borrar(activa, i, formas.len() as int)] == formas[activa],
{
}

/// Forma activa tras borrar la forma `i` de `n`: si se borra una anterior,
/// la activa baja un puesto (sigue siendo la misma forma); si se borra una
/// posterior, no cambia; si se borra la activa, pasa a serlo la que la
/// seguía, que ocupa su mismo puesto, o la nueva última si la borrada era
/// la última.
pub proof fn ley_activa_tras_borrar<G>(formas: Seq<Forma<G>>, activa: int, i: int)
    requires
        0 <= activa < formas.len(),
        0 <= i < formas.len(),
    ensures
        i < activa ==> activa_tras_borrar(activa, i, formas.len() as int) == activa - 1,
        i > activa ==> activa_tras_borrar(activa, i, formas.len() as int) == activa,
        i == activa && activa < formas.len() - 1 ==> activa_tras_borrar(activa, i, formas.len() as int) == activa
            && formas.remove(i)[activa] == formas[activa + 1],
        i == activa && activa == formas.len() - 1 && formas.len() >= 2 ==> activa_tras_borrar(activa, i,
            formas.len() as int) == formas.len() - 2,
        i != activa ==> formas.remove(i)[activa_tras_borrar(activa, i, formas.len() as int)] == formas[activa],
{
}

/// Tras cambiar el lado de las texturas, las caras que tenían el tamaño
/// viejo pasan a tener el nuevo; y toda cara del tamaño de la escena se
/// puede redimensionar.
pub proof fn ley_cambiar_tex_size(c: Seq<u8>, viejo: int, nuevo: int)
    requires
        1 <= viejo,
        0 <= nuevo,
        c.len() == bytes_lienzo(viejo),
    ensures
        cabe_redimension(c, viejo, nuevo),
        redimensionada(c, viejo, nuevo).len() == bytes_lienzo(nuevo),
{
    let m = (if nuevo < viejo { nuevo } else { viejo }) - 1;
    if nuevo > 0 {
        assert(byte_en(viejo, m, m, 3) < bytes_lienzo(viejo)) by (nonlinear_arith)
            requires 0 <= m < viejo;
    }
    assert(0 <= bytes_lienzo(nuevo)) by (nonlinear_arith)
        requires 0 <= nuevo;
}

} // verus!
