//! Tipos de forma y de material, número de caras texturables y caras de los
//! poliedros por defecto.

use vstd::prelude::*;

verus! {

/// Las formas que sabe crear el modelador.
#[derive(Clone, Copy, Debug, PartialEq, Eq, Structural)]
pub enum FormaTipo {
    Cubo,
    Cuboide,
    PirCuadrada,
    Esfera,
    Cilindro,
    Cono,
    Capsula,
    Plano,
}

/// Los acabados de material que se exportan y se muestran en el visor.
#[derive(Clone, Copy, Debug, PartialEq, Eq, Structural)]
pub enum MaterialTipo {
    Plastico,
    Metal,
    Mate,
    Espejo,
}

/// Número de caras con textura propia de cada tipo de forma.
pub open spec fn num_caras(tipo: FormaTipo) -> nat {
    match tipo {
        FormaTipo::Cubo => 6,
        FormaTipo::Cuboide => 6,
        FormaTipo::PirCuadrada => 5,
        FormaTipo::Esfera => 1,
        FormaTipo::Cilindro => 6,
        FormaTipo::Cono => 5,
        FormaTipo::Capsula => 1,
        FormaTipo::Plano => 1,
    }
}

/// La forma es un poliedro descrito por vértices y caras poligonales.
pub open spec fn es_poliedro(tipo: FormaTipo) -> bool {
    tipo == FormaTipo::Cubo || tipo == FormaTipo::Cuboide || tipo == FormaTipo::PirCuadrada
}

/// Número de caras (y de texturas) de una forma.
pub fn face_count(tipo: FormaTipo) -> (n: usize)
    ensures
        n == num_caras(tipo),
{
    match tipo {
        FormaTipo::Cilindro => 6,
        FormaTipo::Cono => 5,
        FormaTipo::Esfera | FormaTipo::Capsula | FormaTipo::Plano => 1,
        FormaTipo::PirCuadrada => 5,
        _ => 6,
    }
}

/// Caras del prisma rectangular (cubo y cuboide) sobre sus 8 vértices.
pub open spec fn caras_prisma() -> Seq<Seq<usize>> {
    seq![
        seq![0usize, 1, 2, 3],
        seq![5usize, 4, 7, 6],
        seq![4usize, 0, 3, 7],
        seq![1usize, 5, 6, 2],
        seq![3usize, 2, 6, 7],
        seq![4usize, 5, 1, 0],
    ]
}

/// Caras de la pirámide cuadrada sobre sus 5 vértices (el 0 es el vértice superior).
pub open spec fn caras_piramide() -> Seq<Seq<usize>> {
    seq![
        seq![0usize, 1, 2],
        seq![0usize, 2, 3],
        seq![0usize, 3, 4],
        seq![0usize, 4, 1],
        seq![4usize, 3, 2, 1],
    ]
}

/// Caras por defecto de cada tipo: vacías para las formas que no son poliedros.
pub open spec fn caras_tipo(tipo: FormaTipo) -> Seq<Seq<usize>> {
    match tipo {
        FormaTipo::Cubo | FormaTipo::Cuboide => caras_prisma(),
        FormaTipo::PirCuadrada => caras_piramide(),
        _ => Seq::empty(),
    }
}

/// Número de vértices del poliedro por defecto de cada tipo.
pub open spec fn num_vertices_tipo(tipo: FormaTipo) -> nat {
    match tipo {
        FormaTipo::Cubo | FormaTipo::Cuboide => 8,
        FormaTipo::PirCuadrada => 5,
        _ => 0,
    }
}

/// Vista de una lista de caras como secuencias.
pub open spec fn vista_caras(caras: Seq<Vec<usize>>) -> Seq<Seq<usize>> {
    caras.map_values(|c: Vec<usize>| c@)
}

/// Construye un vector con los índices dados.
fn cara(v: &[usize]) -> (r: Vec<usize>)
    ensures
        r@ == v@,
{
    let mut r: Vec<usize> = Vec::new();
    let mut i: usize = 0;
    while i < v.len()
        invariant
            i <= v@.len(),
            r@ == v@.subrange(0, i as int),
        decreases v@.len() - i,
    {
        r.push(v[i]);
        i = i + 1;
        assert(r@ =~= v@.subrange(0, i as int));
    }
    assert(v@.subrange(0, v@.len() as int) =~= v@);
    r
}

/// Caras (listas de índices de vértice) del poliedro por defecto de cada tipo.
pub fn caras_por_defecto(tipo: FormaTipo) -> (r: Vec<Vec<usize>>)
    ensures
        vista_caras(r@) == caras_tipo(tipo),
{
    let mut r: Vec<Vec<usize>> = Vec::new();
    match tipo {
        FormaTipo::Cubo | FormaTipo::Cuboide => {
            r.push(cara(&[0, 1, 2, 3]));
            r.push(cara(&[5, 4, 7, 6]));
            r.push(cara(&[4, 0, 3, 7]));
            r.push(cara(&[1, 5, 6, 2]));
            r.push(cara(&[3, 2, 6, 7]));
            r.push(cara(&[4, 5, 1, 0]));
        },
        FormaTipo::PirCuadrada => {
            r.push(cara(&[0, 1, 2]));
            r.push(cara(&[0, 2, 3]));
            r.push(cara(&[0, 3, 4]));
            r.push(cara(&[0, 4, 1]));
            r.push(cara(&[4, 3, 2, 1]));
        },
        _ => {},
    }
    assert(vista_caras(r@) =~= caras_tipo(tipo));
    r
}

/// Cada poliedro por defecto tiene una cara por textura, cada cara es un
/// triángulo o un cuadrilátero, y sus índices nombran vértices existentes.
pub proof fn ley_caras_por_defecto(tipo: FormaTipo)
    requires
        es_poliedro(tipo),
    ensures
        caras_tipo(tipo).len() == num_caras(tipo),
        forall|c: int| 0 <= c < caras_tipo(tipo).len() ==> {
            let f = #[trigger] caras_tipo(tipo)[c];
            &&& (f.len() == 3 || f.len() == 4)
            &&& forall|v: int| 0 <= v < f.len() ==> #[trigger] f[v] < num_vertices_tipo(tipo)
        },
{
    let cs = caras_tipo(tipo);
    assert forall|c: int| 0 <= c < cs.len() implies {
        let f = #[trigger] cs[c];
        &&& (f.len() == 3 || f.len() == 4)
        &&& forall|v: int| 0 <= v < f.len() ==> #[trigger] f[v] < num_vertices_tipo(tipo)
    } by {
        if c == 0 { } else if c == 1 { } else if c == 2 { } else if c == 3 { } else if c == 4 { } else { }
    }
}

/// Índices de triángulos con que se dibuja una cara de `n` vértices.
pub open spec fn triangulos_cara(n: int) -> Option<Seq<u32>> {
    if n == 3 {
        Some(seq![0u32, 1, 2])
    } else if n == 4 {
        Some(seq![0u32, 1, 2, 0, 2, 3])
    } else {
        None
    }
}

/// Triangula una cara de `n` vértices: un triángulo, o un cuadrilátero
/// partido por su diagonal 0–2. Otras caras no se admiten.
pub fn indices_cara(n: usize) -> (r: Option<Vec<u32>>)
    ensures
        match r {
            Some(v) => triangulos_cara(n as int) == Some(v@),
            None => triangulos_cara(n as int) is None,
        },
{
    if n == 3 {
        let v = vec![0u32, 1, 2];
        assert(v@ =~= seq![0u32, 1, 2]);
        Some(v)
    } else if n == 4 {
        let v = vec![0u32, 1, 2, 0, 2, 3];
        assert(v@ =~= seq![0u32, 1, 2, 0, 2, 3]);
        Some(v)
    } else {
        None
    }
}

/// Cara cuya textura se usa cuando se pide la `i`-ésima de `n`: la última
/// si `i` se pasa.
pub fn cara_visible(i: usize, n: usize) -> (r: usize)
    requires
        n > 0,
    ensures
        r == if i < n - 1 { i as int } else { n - 1 },
        r < n,
{
    if i < n - 1 { i } else { n - 1 }
}

} // verus!
