//! Topología de las mallas de las formas curvas: cuántos vértices tiene cada
//! malla y con qué triángulos se unen. Las posiciones, normales y
//! coordenadas de textura (números reales) las calcula quien dibuja, con el
//! mismo orden de vértices.

use vstd::prelude::*;
use vstd::arithmetic::mul::lemma_mul_inequality;
use crate::forma::{FormaTipo, num_caras, es_poliedro};

verus! {

/// Índices vistos como enteros.
pub open spec fn vista_indices(v: Seq<u32>) -> Seq<int> {
    v.map_values(|x: u32| x as int)
}

/// Los dos triángulos del cuadrilátero `a b d c` (`a`–`b` y `c`–`d` son lados opuestos).
pub open spec fn cuad(a: int, b: int, c: int, d: int) -> Seq<int> {
    seq![a, c, b, c, d, b]
}

/// Abanico de `n` triángulos alrededor de `c` sobre los vértices `ini ..= ini + n`,
/// girando en un sentido (`arriba`) o en el otro.
pub open spec fn abanico(c: int, ini: int, n: nat, arriba: bool) -> Seq<int>
    decreases n,
{
    if n == 0 {
        Seq::empty()
    } else {
        let l = n - 1;
        abanico(c, ini, l as nat, arriba) + if arriba {
            seq![c, ini + l + 1, ini + l]
        } else {
            seq![c, ini + l, ini + l + 1]
        }
    }
}

/// Banda de `n` cuadriláteros entre los anillos que empiezan en `a` y en `b`.
pub open spec fn banda(a: int, b: int, n: nat) -> Seq<int>
    decreases n,
{
    if n == 0 {
        Seq::empty()
    } else {
        let l = n - 1;
        banda(a, b, l as nat) + cuad(a + l, b + l, a + l + 1, b + l + 1)
    }
}

/// Bandas entre `k + 1` anillos consecutivos que empiezan en `ini` y están
/// separados por `paso` vértices.
pub open spec fn bandas(ini: int, paso: int, k: nat, n: nat) -> Seq<int>
    decreases k,
{
    if k == 0 {
        Seq::empty()
    } else {
        bandas(ini, paso, (k - 1) as nat, n) + banda(ini + (k - 1) * paso, ini + k * paso, n)
    }
}

/// Todos los índices de `s` nombran uno de los `v` vértices.
pub open spec fn en_rango(s: Seq<int>, v: int) -> bool {
    forall|i: int| 0 <= i < s.len() ==> 0 <= #[trigger] s[i] < v
}

/// Una malla bien formada: triángulos completos sobre vértices existentes.
pub open spec fn valida(vertices: int, indices: Seq<int>) -> bool {
    indices.len() % 3 == 0 && en_rango(indices, vertices)
}

proof fn lema_concat_valida(a: Seq<int>, b: Seq<int>, v: int)
    requires
        valida(v, a),
        valida(v, b),
    ensures
        valida(v, a + b),
{
    assert forall|i: int| 0 <= i < (a + b).len() implies 0 <= #[trigger] (a + b)[i] < v by {
        if i < a.len() {
            assert((a + b)[i] == a[i]);
        } else {
            assert((a + b)[i] == b[i - a.len()]);
        }
    }
}

/// Un abanico sobre vértices existentes es una malla válida de `3n` índices.
pub proof fn lema_abanico(c: int, ini: int, n: nat, arriba: bool, v: int)
    requires
        0 <= c < v,
        0 <= ini,
        ini + n < v,
    ensures
        valida(v, abanico(c, ini, n, arriba)),
        abanico(c, ini, n, arriba).len() == 3 * n,
    decreases n,
{
    if n > 0 {
        lema_abanico(c, ini, (n - 1) as nat, arriba, v);
        let t = if arriba { seq![c, ini + n, ini + n - 1] } else { seq![c, ini + n - 1, ini + n] };
        assert(valida(v, t));
        lema_concat_valida(abanico(c, ini, (n - 1) as nat, arriba), t, v);
    }
}

/// Una banda sobre vértices existentes es una malla válida de `6n` índices.
pub proof fn lema_banda(a: int, b: int, n: nat, v: int)
    requires
        0 <= a,
        0 <= b,
        a + n < v,
        b + n < v,
    ensures
        valida(v, banda(a, b, n)),
        banda(a, b, n).len() == 6 * n,
    decreases n,
{
    if n > 0 {
        lema_banda(a, b, (n - 1) as nat, v);
        let l = n - 1;
        assert(valida(v, cuad(a + l, b + l, a + l + 1, b + l + 1)));
        lema_concat_valida(banda(a, b, (n - 1) as nat), cuad(a + l, b + l, a + l + 1, b + l + 1), v);
    }
}

/// Las bandas entre anillos de `n + 1` vértices son una malla válida si el
/// último anillo existe.
pub proof fn lema_bandas(ini: int, k: nat, n: nat, v: int)
    requires
        0 <= ini,
        ini + k * (n + 1) + n < v,
    ensures
        valida(v, bandas(ini, (n + 1) as int, k, n)),
    decreases k,
{
    if k > 0 {
        assert((k - 1) * (n + 1) + (n + 1) == k * (n + 1)) by (nonlinear_arith);
        assert(0 <= (k - 1) * (n + 1)) by (nonlinear_arith)
            requires k > 0;
        lema_bandas(ini, (k - 1) as nat, n, v);
        lema_banda(ini + (k - 1) * (n + 1), ini + k * (n + 1), n, v);
        lema_concat_valida(bandas(ini, (n + 1) as int, (k - 1) as nat, n),
            banda(ini + (k - 1) * (n + 1), ini + k * (n + 1), n), v);
    }
}

/// Añade los dos triángulos del cuadrilátero `a b d c` (lados `a`–`b` y `c`–`d`).
pub fn push_cuad(indices: &mut Vec<u32>, a: u32, b: u32, c: u32, d: u32)
    ensures
        final(indices)@ == old(indices)@ + seq![a, c, b, c, d, b],
{
    indices.push(a);
    indices.push(c);
    indices.push(b);
    indices.push(c);
    indices.push(d);
    indices.push(b);
    assert(final(indices)@ =~= old(indices)@ + seq![a, c, b, c, d, b]);
}

/// Añade un abanico de `n` triángulos alrededor de `c`.
pub fn anadir_abanico(indices: &mut Vec<u32>, c: u32, ini: u32, n: u32, arriba: bool)
    requires
        ini + n <= u32::MAX,
    ensures
        vista_indices(final(indices)@) == vista_indices(old(indices)@) + abanico(c as int, ini as int,
            n as nat, arriba),
{
    let ghost base = vista_indices(indices@);
    let mut l: u32 = 0;
    while l < n
        invariant
            l <= n,
            ini + n <= u32::MAX,
            vista_indices(indices@) == base + abanico(c as int, ini as int, l as nat, arriba),
        decreases n - l,
    {
        let ghost antes = indices@;
        if arriba {
            indices.push(c);
            indices.push(ini + l + 1);
            indices.push(ini + l);
        } else {
            indices.push(c);
            indices.push(ini + l);
            indices.push(ini + l + 1);
        }
        let ghost t = if arriba {
            seq![c as int, ini + l + 1, ini + l]
        } else {
            seq![c as int, ini + l, ini + l + 1]
        };
        assert(vista_indices(indices@) =~= vista_indices(antes) + t);
        l = l + 1;
        assert(abanico(c as int, ini as int, l as nat, arriba) == abanico(c as int, ini as int, (l - 1) as nat,
            arriba) + t);
        assert(vista_indices(indices@) =~= base + abanico(c as int, ini as int, l as nat, arriba));
    }
}

/// Añade una banda de `n` cuadriláteros entre los anillos que empiezan en `a` y `b`.
pub fn anadir_banda(indices: &mut Vec<u32>, a: u32, b: u32, n: u32)
    requires
        a + n <= u32::MAX,
        b + n <= u32::MAX,
    ensures
        vista_indices(final(indices)@) == vista_indices(old(indices)@) + banda(a as int, b as int, n as nat),
{
    let ghost base = vista_indices(indices@);
    let mut l: u32 = 0;
    while l < n
        invariant
            l <= n,
            a + n <= u32::MAX,
            b + n <= u32::MAX,
            vista_indices(indices@) == base + banda(a as int, b as int, l as nat),
        decreases n - l,
    {
        let ghost antes = indices@;
        push_cuad(indices, a + l, b + l, a + l + 1, b + l + 1);
        let ghost t = cuad(a + l, b + l, a + l + 1, b + l + 1);
        assert(vista_indices(indices@) =~= vista_indices(antes) + t);
        l = l + 1;
        assert(banda(a as int, b as int, l as nat) == banda(a as int, b as int, (l - 1) as nat) + t);
        assert(vista_indices(indices@) =~= base + banda(a as int, b as int, l as nat));
    }
}

/// Una malla: cuántos vértices tiene y con qué triángulos se unen.
pub struct Topologia {
    pub vertices: usize,
    pub indices: Vec<u32>,
}

/// Vista de una malla como número de vértices e índices enteros.
pub open spec fn vista_topologia(t: Topologia) -> (int, Seq<int>) {
    (t.vertices as int, vista_indices(t.indices@))
}

/// Vista de una lista de mallas.
pub open spec fn vista_mallas(v: Seq<Topologia>) -> Seq<(int, Seq<int>)> {
    v.map_values(|t: Topologia| vista_topologia(t))
}

// ---------------------------------------------------------------- esfera

/// Segmentos efectivos de la esfera: al menos 3.
pub open spec fn seg_esfera(seg: int) -> int {
    if seg < 3 { 3 } else { seg }
}

/// Vértices de la esfera: dos polos y `s - 1` anillos de `s + 1` vértices.
pub open spec fn vertices_esfera(seg: int) -> int {
    let s = seg_esfera(seg);
    (s - 1) * (s + 1) + 2
}

/// Triángulos de la esfera: abanico en el polo norte (vértice 0), bandas
/// entre anillos y abanico en el polo sur (último vértice).
pub open spec fn indices_esfera(seg: int) -> Seq<int> {
    let s = seg_esfera(seg);
    abanico(0, 1, s as nat, true) + bandas(1, s + 1, (s - 2) as nat, s as nat) + abanico(
        vertices_esfera(seg) - 1, 1 + (s - 2) * (s + 1), s as nat, false)
}

/// Los triángulos de la esfera nombran vértices existentes.
pub proof fn ley_esfera_valida(seg: int)
    ensures
        valida(vertices_esfera(seg), indices_esfera(seg)),
{
    let s = seg_esfera(seg);
    let v = vertices_esfera(seg);
    assert(1 + (s - 2) * (s + 1) + s == (s - 1) * (s + 1)) by (nonlinear_arith);
    assert(0 <= (s - 2) * (s + 1)) by (nonlinear_arith)
        requires s >= 3;
    lema_abanico(0, 1, s as nat, true, v);
    lema_bandas(1, (s - 2) as nat, s as nat, v);
    lema_abanico(v - 1, 1 + (s - 2) * (s + 1), s as nat, false, v);
    lema_concat_valida(abanico(0, 1, s as nat, true), bandas(1, s + 1, (s - 2) as nat, s as nat), v);
    lema_concat_valida(abanico(0, 1, s as nat, true) + bandas(1, s + 1, (s - 2) as nat, s as nat),
        abanico(v - 1, 1 + (s - 2) * (s + 1), s as nat, false), v);
}

/// Topología de la esfera de `seg` segmentos.
pub fn topologia_esfera(seg: usize) -> (t: Topologia)
    requires
        vertices_esfera(seg as int) <= u32::MAX,
    ensures
        vista_topologia(t) == (vertices_esfera(seg as int), indices_esfera(seg as int)),
{
    let s: usize = if seg < 3 { 3 } else { seg };
    assert((s - 1) * (s + 1) + 2 == s * s + 1) by (nonlinear_arith);
    assert(s <= s * s) by (nonlinear_arith)
        requires s >= 3;
    let s32: u32 = s as u32;
    let v: u32 = (s32 - 1) * (s32 + 1) + 2;
    let mut idx: Vec<u32> = Vec::new();
    anadir_abanico(&mut idx, 0, 1, s32, true);
    let mut r0: u32 = 1;
    let mut lat: u32 = 0;
    while lat < s32 - 2
        invariant
            s32 >= 3,
            s32 == seg_esfera(seg as int),
            v == vertices_esfera(seg as int),
            v <= u32::MAX,
            lat <= s32 - 2,
            r0 == 1 + lat * (s32 + 1),
            vista_indices(idx@) == abanico(0, 1, s32 as nat, true) + bandas(1, s32 + 1, lat as nat, s32 as nat),
        decreases s32 - 2 - lat,
    {
        proof {
            lemma_mul_inequality((lat + 1) as int, (s32 - 2) as int, (s32 + 1) as int);
            assert(1 + (s32 - 2) * (s32 + 1) + s32 == (s32 - 1) * (s32 + 1)) by (nonlinear_arith);
            assert(lat * (s32 + 1) + (s32 + 1) == (lat + 1) * (s32 + 1)) by (nonlinear_arith);
        }
        let r1: u32 = r0 + s32 + 1;
        anadir_banda(&mut idx, r0, r1, s32);
        r0 = r1;
        lat = lat + 1;
        assert(bandas(1, s32 + 1, lat as nat, s32 as nat) == bandas(1, s32 + 1, (lat - 1) as nat, s32 as nat)
            + banda(1 + (lat - 1) * (s32 + 1), 1 + lat * (s32 + 1), s32 as nat));
    }
    proof {
        assert(1 + (s32 - 2) * (s32 + 1) + s32 == (s32 - 1) * (s32 + 1)) by (nonlinear_arith);
    }
    anadir_abanico(&mut idx, v - 1, r0, s32, false);
    Topologia { vertices: v as usize, indices: idx }
}

// ---------------------------------------------------------- cilindro y cono

/// Segmentos por cuarto de vuelta de cilindros y conos: al menos 2.
pub open spec fn cuarto(seg: int) -> int {
    let s = if seg < 4 { 4 } else { seg };
    if s / 4 < 2 { 2 } else { s / 4 }
}

/// Tapa circular de `n` segmentos: centro (vértice 0) y `n + 1` vértices de borde.
pub open spec fn tapa(n: int, arriba: bool) -> (int, Seq<int>) {
    (n + 2, abanico(0, 1, n as nat, arriba))
}

/// Cuarto del lateral de un cilindro: `q + 1` vértices arriba y `q + 1` abajo.
pub open spec fn lado_cilindro(q: int) -> (int, Seq<int>) {
    (2 * (q + 1), banda(0, q + 1, q as nat))
}

/// Cuarto del lateral de un cono: el vértice del ápice y `q + 1` en la base.
pub open spec fn lado_cono(q: int) -> (int, Seq<int>) {
    (q + 2, abanico(0, 1, q as nat, true))
}

/// Mallas del cilindro: tapa superior, tapa inferior y cuatro cuartos de lateral.
pub open spec fn mallas_cilindro(seg: int) -> Seq<(int, Seq<int>)> {
    let q = cuarto(seg);
    seq![tapa(4 * q, true), tapa(4 * q, false), lado_cilindro(q), lado_cilindro(q), lado_cilindro(q),
        lado_cilindro(q)]
}

/// Mallas del cono: base y cuatro cuartos de lateral.
pub open spec fn mallas_cono(seg: int) -> Seq<(int, Seq<int>)> {
    let q = cuarto(seg);
    seq![tapa(4 * q, false), lado_cono(q), lado_cono(q), lado_cono(q), lado_cono(q)]
}

/// Segmentos por cuarto de vuelta.
pub fn cuarto_de(seg: usize) -> (q: usize)
    ensures
        q == cuarto(seg as int),
{
    let s: usize = if seg < 4 { 4 } else { seg };
    if s / 4 < 2 { 2 } else { s / 4 }
}

fn topologia_tapa(n: u32, arriba: bool) -> (t: Topologia)
    requires
        n + 2 <= u32::MAX,
    ensures
        vista_topologia(t) == tapa(n as int, arriba),
{
    let mut idx: Vec<u32> = Vec::new();
    anadir_abanico(&mut idx, 0, 1, n, arriba);
    assert(vista_indices(Seq::<u32>::empty()) =~= Seq::<int>::empty());
    assert(vista_indices(idx@) =~= abanico(0, 1, n as nat, arriba));
    Topologia { vertices: (n + 2) as usize, indices: idx }
}

fn topologia_lado_cilindro(q: u32) -> (t: Topologia)
    requires
        2 * (q + 1) <= u32::MAX,
    ensures
        vista_topologia(t) == lado_cilindro(q as int),
{
    let mut idx: Vec<u32> = Vec::new();
    anadir_banda(&mut idx, 0, q + 1, q);
    assert(vista_indices(idx@) =~= banda(0, q + 1, q as nat));
    Topologia { vertices: (2 * (q + 1)) as usize, indices: idx }
}

fn topologia_lado_cono(q: u32) -> (t: Topologia)
    requires
        q + 2 <= u32::MAX,
    ensures
        vista_topologia(t) == lado_cono(q as int),
{
    let mut idx: Vec<u32> = Vec::new();
    anadir_abanico(&mut idx, 0, 1, q, true);
    assert(vista_indices(idx@) =~= abanico(0, 1, q as nat, true));
    Topologia { vertices: (q + 2) as usize, indices: idx }
}

/// Mallas del cilindro de `seg` segmentos.
pub fn topologias_cilindro(seg: usize) -> (v: Vec<Topologia>)
    requires
        4 * cuarto(seg as int) + 2 <= u32::MAX,
    ensures
        vista_mallas(v@) == mallas_cilindro(seg as int),
{
    let q = cuarto_de(seg) as u32;
    let mut v: Vec<Topologia> = Vec::new();
    v.push(topologia_tapa(4 * q, true));
    v.push(topologia_tapa(4 * q, false));
    v.push(topologia_lado_cilindro(q));
    v.push(topologia_lado_cilindro(q));
    v.push(topologia_lado_cilindro(q));
    v.push(topologia_lado_cilindro(q));
    assert(vista_mallas(v@) =~= mallas_cilindro(seg as int));
    v
}

/// Mallas del cono de `seg` segmentos.
pub fn topologias_cono(seg: usize) -> (v: Vec<Topologia>)
    requires
        4 * cuarto(seg as int) + 2 <= u32::MAX,
    ensures
        vista_mallas(v@) == mallas_cono(seg as int),
{
    let q = cuarto_de(seg) as u32;
    let mut v: Vec<Topologia> = Vec::new();
    v.push(topologia_tapa(4 * q, false));
    v.push(topologia_lado_cono(q));
    v.push(topologia_lado_cono(q));
    v.push(topologia_lado_cono(q));
    v.push(topologia_lado_cono(q));
    assert(vista_mallas(v@) =~= mallas_cono(seg as int));
    v
}

// ------------------------------------------------------- anillos (cápsula)

/// Unión entre el anillo `i` y el `i + 1` (anillos de `s + 1` vértices): si
/// el anillo `i` es un polo, abanico hacia abajo desde su primer vértice; si
/// lo es el `i + 1`, abanico hacia arriba desde el suyo; si no, una banda.
pub open spec fn tramo(polos: Seq<bool>, s: int, i: int) -> Seq<int> {
    let a = i * (s + 1);
    let b = (i + 1) * (s + 1);
    if polos[i] {
        abanico(a, b, s as nat, true)
    } else if polos[i + 1] {
        abanico(b, a, s as nat, false)
    } else {
        banda(a, b, s as nat)
    }
}

/// Las uniones de los `k + 1` primeros anillos.
pub open spec fn tramos(polos: Seq<bool>, s: int, k: nat) -> Seq<int>
    decreases k,
{
    if k == 0 {
        Seq::empty()
    } else {
        tramos(polos, s, (k - 1) as nat) + tramo(polos, s, k - 1)
    }
}

/// Malla de una superficie de revolución hecha de anillos de `seg_esfera(seg) + 1`
/// vértices; `polos[i]` indica si el anillo `i` tiene radio nulo.
pub open spec fn malla_anillos(polos: Seq<bool>, seg: int) -> (int, Seq<int>) {
    let s = seg_esfera(seg);
    (polos.len() * (s + 1), tramos(polos, s, (polos.len() - 1) as nat))
}

proof fn lema_tramo(polos: Seq<bool>, s: int, i: int)
    requires
        s >= 0,
        0 <= i,
        i + 1 < polos.len(),
    ensures
        valida(polos.len() * (s + 1), tramo(polos, s, i)),
{
    let v = polos.len() * (s + 1);
    assert((i + 1) * (s + 1) + s < (i + 2) * (s + 1)) by (nonlinear_arith);
    assert((i + 2) * (s + 1) <= v) by (nonlinear_arith)
        requires i + 2 <= polos.len(), s >= 0, v == polos.len() * (s + 1);
    assert(0 <= i * (s + 1) && i * (s + 1) + s < (i + 1) * (s + 1)) by (nonlinear_arith)
        requires i >= 0, s >= 0;
    let a = i * (s + 1);
    let b = (i + 1) * (s + 1);
    if polos[i] {
        lema_abanico(a, b, s as nat, true, v);
    } else if polos[i + 1] {
        lema_abanico(b, a, s as nat, false, v);
    } else {
        lema_banda(a, b, s as nat, v);
    }
}

proof fn lema_tramos(polos: Seq<bool>, s: int, k: nat)
    requires
        s >= 0,
        k < polos.len(),
    ensures
        valida(polos.len() * (s + 1), tramos(polos, s, k)),
    decreases k,
{
    if k > 0 {
        lema_tramos(polos, s, (k - 1) as nat);
        lema_tramo(polos, s, k - 1);
        lema_concat_valida(tramos(polos, s, (k - 1) as nat), tramo(polos, s, k - 1), polos.len() * (s + 1));
    }
}

/// Los triángulos entre anillos nombran vértices existentes.
pub proof fn ley_anillos_valida(polos: Seq<bool>, seg: int)
    requires
        polos.len() >= 1,
    ensures
        valida(malla_anillos(polos, seg).0, malla_anillos(polos, seg).1),
{
    lema_tramos(polos, seg_esfera(seg), (polos.len() - 1) as nat);
}

/// Topología de una superficie de anillos (la cápsula): `polos[i]` dice si
/// el anillo `i` se reduce a un punto.
pub fn topologia_anillos(polos: &[bool], seg: usize) -> (t: Topologia)
    requires
        polos@.len() >= 1,
        polos@.len() * (seg_esfera(seg as int) + 1) <= u32::MAX,
    ensures
        vista_topologia(t) == malla_anillos(polos@, seg as int),
{
    let s: usize = if seg < 3 { 3 } else { seg };
    let n: usize = polos.len();
    assert(s + 1 <= n * (s + 1) && n <= n * (s + 1)) by (nonlinear_arith)
        requires n >= 1, s >= 0;
    let paso: u32 = (s + 1) as u32;
    let s32: u32 = s as u32;
    let n32: u32 = n as u32;
    assert(n32 * paso == n * (s + 1));
    let v: u32 = n32 * paso;
    let mut idx: Vec<u32> = Vec::new();
    let mut i: usize = 0;
    let mut a: u32 = 0;
    assert(vista_indices(idx@) =~= Seq::<int>::empty());
    while i < n - 1
        invariant
            n == polos@.len(),
            n >= 1,
            s == seg_esfera(seg as int),
            s32 == s,
            paso == s + 1,
            v == n * (s + 1),
            v <= u32::MAX,
            i <= n - 1,
            a == i * (s + 1),
            vista_indices(idx@) == tramos(polos@, s as int, i as nat),
        decreases n - 1 - i,
    {
        proof {
            assert((i + 2) * (s + 1) <= n * (s + 1)) by (nonlinear_arith)
                requires i + 2 <= n;
            assert(i * (s + 1) + (s + 1) == (i + 1) * (s + 1)) by (nonlinear_arith);
            assert((i + 1) * (s + 1) + (s + 1) == (i + 2) * (s + 1)) by (nonlinear_arith);
            assert(0 <= i * (s + 1)) by (nonlinear_arith);
        }
        let b: u32 = a + paso;
        let ghost antes = vista_indices(idx@);
        if polos[i] {
            anadir_abanico(&mut idx, a, b, s32, true);
        } else if polos[i + 1] {
            anadir_abanico(&mut idx, b, a, s32, false);
        } else {
            anadir_banda(&mut idx, a, b, s32);
        }
        assert(vista_indices(idx@) == antes + tramo(polos@, s as int, i as int));
        a = b;
        i = i + 1;
    }
    Topologia { vertices: v as usize, indices: idx }
}

// ------------------------------------------------------------------ plano

/// El plano: cuatro vértices y dos triángulos.
pub open spec fn malla_plano() -> (int, Seq<int>) {
    (4, seq![0, 1, 2, 0, 2, 3])
}

fn topologia_plano() -> (t: Topologia)
    ensures
        vista_topologia(t) == malla_plano(),
{
    let idx = vec![0u32, 1, 2, 0, 2, 3];
    assert(vista_indices(idx@) =~= seq![0, 1, 2, 0, 2, 3]);
    Topologia { vertices: 4, indices: idx }
}

// ---------------------------------------------------------- por tipo de forma

/// Las mallas de una forma curva, en el orden de sus texturas; ninguna
/// para los poliedros, que se dibujan cara a cara.
pub open spec fn mallas_tipo(tipo: FormaTipo, seg: int, polos: Seq<bool>) -> Option<Seq<(int, Seq<int>)>> {
    match tipo {
        FormaTipo::Esfera => Some(seq![(vertices_esfera(seg), indices_esfera(seg))]),
        FormaTipo::Cilindro => Some(mallas_cilindro(seg)),
        FormaTipo::Cono => Some(mallas_cono(seg)),
        FormaTipo::Capsula => Some(seq![malla_anillos(polos, seg)]),
        FormaTipo::Plano => Some(seq![malla_plano()]),
        _ => None,
    }
}

/// Los tamaños de la forma caben en índices de 32 bits.
pub open spec fn cabe_en_u32(tipo: FormaTipo, seg: int, num_anillos: int) -> bool {
    match tipo {
        FormaTipo::Esfera => vertices_esfera(seg) <= u32::MAX,
        FormaTipo::Cilindro | FormaTipo::Cono => 4 * cuarto(seg) + 2 <= u32::MAX,
        FormaTipo::Capsula => num_anillos >= 1 && num_anillos * (seg_esfera(seg) + 1) <= u32::MAX,
        _ => true,
    }
}

/// Si los tamaños de la forma caben en índices de 32 bits.
pub fn cabe_topologia(tipo: FormaTipo, seg: usize, num_anillos: usize) -> (r: bool)
    ensures
        r == cabe_en_u32(tipo, seg as int, num_anillos as int),
{
    match tipo {
        FormaTipo::Esfera => {
            let s: usize = if seg < 3 { 3 } else { seg };
            if s <= 65535 {
                assert((s - 1) * (s + 1) + 2 <= u32::MAX) by (nonlinear_arith)
                    requires s <= 65535, s >= 3;
                true
            } else {
                assert((s - 1) * (s + 1) + 2 > u32::MAX) by (nonlinear_arith)
                    requires s >= 65536;
                false
            }
        },
        FormaTipo::Cilindro | FormaTipo::Cono => cuarto_de(seg) <= 1073741823,
        FormaTipo::Capsula => {
            let s: usize = if seg < 3 { 3 } else { seg };
            if num_anillos < 1 {
                false
            } else if s >= 0xFFFF_FFFF {
                assert(num_anillos * (s + 1) > u32::MAX) by (nonlinear_arith)
                    requires num_anillos >= 1, s >= 0xFFFF_FFFF;
                false
            } else {
                match num_anillos.checked_mul(s + 1) {
                    Some(v) => v <= 0xFFFF_FFFF,
                    None => false,
                }
            }
        },
        _ => true,
    }
}

/// Topología de las mallas de una forma curva (`None` para los poliedros).
/// `polos` describe los anillos de la cápsula y no se usa en los demás tipos.
pub fn topologia_forma(tipo: FormaTipo, seg: usize, polos: &[bool]) -> (r: Option<Vec<Topologia>>)
    requires
        cabe_en_u32(tipo, seg as int, polos@.len() as int),
    ensures
        match r {
            Some(v) => mallas_tipo(tipo, seg as int, polos@) == Some(vista_mallas(v@)),
            None => mallas_tipo(tipo, seg as int, polos@) is None,
        },
{
    let mut v: Vec<Topologia> = Vec::new();
    match tipo {
        FormaTipo::Esfera => {
            v.push(topologia_esfera(seg));
        },
        FormaTipo::Cilindro => {
            v = topologias_cilindro(seg);
        },
        FormaTipo::Cono => {
            v = topologias_cono(seg);
        },
        FormaTipo::Capsula => {
            v.push(topologia_anillos(polos, seg));
        },
        FormaTipo::Plano => {
            v.push(topologia_plano());
        },
        _ => {
            return None;
        },
    }
    assert(mallas_tipo(tipo, seg as int, polos@)->0 =~= vista_mallas(v@));
    Some(v)
}

/// Cada forma curva tiene una malla por textura, y todas sus mallas son
/// triángulos completos sobre vértices existentes.
pub proof fn ley_mallas_validas(tipo: FormaTipo, seg: int, polos: Seq<bool>)
    requires
        !es_poliedro(tipo),
        tipo == FormaTipo::Capsula ==> polos.len() >= 1,
    ensures
        mallas_tipo(tipo, seg, polos) is Some,
        mallas_tipo(tipo, seg, polos)->0.len() == num_caras(tipo),
        forall|m: int| 0 <= m < mallas_tipo(tipo, seg, polos)->0.len() ==> valida(
            (#[trigger] mallas_tipo(tipo, seg, polos)->0[m]).0, mallas_tipo(tipo, seg, polos)->0[m].1),
{
    let q = cuarto(seg);
    lema_abanico(0, 1, (4 * q) as nat, true, 4 * q + 2);
    lema_abanico(0, 1, (4 * q) as nat, false, 4 * q + 2);
    lema_banda(0, q + 1, q as nat, 2 * (q + 1));
    lema_abanico(0, 1, q as nat, true, q + 2);
    ley_esfera_valida(seg);
    if tipo == FormaTipo::Capsula {
        ley_anillos_valida(polos, seg);
    }
    assert(valida(4, seq![0, 1, 2, 0, 2, 3]));
}

// ------------------------------------------- orientación de los triángulos

/// El triángulo `t` de una lista de índices: sus tres vértices en el orden
/// en que se recorren (ese orden fija hacia dónde mira la cara).
pub open spec fn tri(indices: Seq<int>, t: int) -> (int, int, int) {
    (indices[3 * t], indices[3 * t + 1], indices[3 * t + 2])
}

proof fn lema_abanico_tri(c: int, ini: int, n: nat, arriba: bool, k: int)
    requires
        0 <= k < n,
    ensures
        abanico(c, ini, n, arriba).len() == 3 * n,
        tri(abanico(c, ini, n, arriba), k) == if arriba { (c, ini + k + 1, ini + k) } else { (c, ini + k, ini + k + 1) },
    decreases n,
{
    let l = (n - 1) as nat;
    let t = if arriba { seq![c, ini + l + 1, ini + l] } else { seq![c, ini + l, ini + l + 1] };
    assert(abanico(c, ini, n, arriba) == abanico(c, ini, l, arriba) + t);
    lema_abanico_len(c, ini, l, arriba);
    if k < l {
        lema_abanico_tri(c, ini, l, arriba, k);
    }
}

proof fn lema_abanico_len(c: int, ini: int, n: nat, arriba: bool)
    ensures
        abanico(c, ini, n, arriba).len() == 3 * n,
    decreases n,
{
    if n > 0 {
        lema_abanico_len(c, ini, (n - 1) as nat, arriba);
    }
}

proof fn lema_banda_tri(a: int, b: int, n: nat, l: int)
    requires
        0 <= l < n,
    ensures
        banda(a, b, n).len() == 6 * n,
        tri(banda(a, b, n), 2 * l) == (a + l, a + l + 1, b + l),
        tri(banda(a, b, n), 2 * l + 1) == (a + l + 1, b + l + 1, b + l),
    decreases n,
{
    let m = (n - 1) as nat;
    let q = cuad(a + m, b + m, a + m + 1, b + m + 1);
    assert(banda(a, b, n) == banda(a, b, m) + q);
    if l < m {
        lema_banda_tri(a, b, m, l);
    } else if m > 0 {
        lema_banda_tri(a, b, m, 0);
    }
}

/// Mallas del cilindro: la tapa de arriba (normal +Y) gira (centro, borde
/// k + 1, borde k); la de abajo (normal −Y) gira (centro, borde k, borde
/// k + 1); cada cuarto del lateral une el borde de arriba (vértices 0..=q)
/// con el de abajo (q + 1..=2q + 1) con caras que miran hacia fuera.
pub proof fn ley_triangulos_cilindro(seg: int, polos: Seq<bool>)
    ensures
        ({
            let m = mallas_tipo(FormaTipo::Cilindro, seg, polos)->0;
            let q = cuarto(seg);
            &&& m.len() == 6
            &&& m[0].0 == 4 * q + 2 && m[0].1.len() == 3 * (4 * q)
            &&& m[1].0 == 4 * q + 2 && m[1].1.len() == 3 * (4 * q)
            &&& forall|k: int| 0 <= k < 4 * q ==> #[trigger] tri(m[0].1, k) == (0int, k + 2, k + 1)
            &&& forall|k: int| 0 <= k < 4 * q ==> #[trigger] tri(m[1].1, k) == (0int, k + 1, k + 2)
            &&& forall|j: int| 2 <= j < 6 ==> (#[trigger] m[j]).0 == 2 * (q + 1) && m[j].1.len() == 6 * q
            &&& forall|j: int, l: int| 2 <= j < 6 && 0 <= l < q ==> #[trigger] tri(m[j].1, 2 * l) == (l, l + 1,
                l + q + 1) && tri(m[j].1, 2 * l + 1) == (l + 1, l + q + 2, l + q + 1)
        }),
{
    let m = mallas_tipo(FormaTipo::Cilindro, seg, polos)->0;
    let q = cuarto(seg);
    lema_abanico(0, 1, (4 * q) as nat, true, 4 * q + 2);
    lema_abanico(0, 1, (4 * q) as nat, false, 4 * q + 2);
    lema_banda(0, q + 1, q as nat, 2 * (q + 1));
    assert forall|k: int| 0 <= k < 4 * q implies #[trigger] tri(m[0].1, k) == (0int, k + 2, k + 1) by {
        lema_abanico_tri(0, 1, (4 * q) as nat, true, k);
    }
    assert forall|k: int| 0 <= k < 4 * q implies #[trigger] tri(m[1].1, k) == (0int, k + 1, k + 2) by {
        lema_abanico_tri(0, 1, (4 * q) as nat, false, k);
    }
    assert forall|j: int, l: int| 2 <= j < 6 && 0 <= l < q implies #[trigger] tri(m[j].1, 2 * l) == (l, l + 1,
        l + q + 1) && tri(m[j].1, 2 * l + 1) == (l + 1, l + q + 2, l + q + 1) by {
        lema_banda_tri(0, q + 1, q as nat, l);
    }
}

/// Mallas del cono: la base (normal −Y) gira (centro, borde k, borde k + 1),
/// de modo que mira hacia fuera del cono; cada cuarto del lateral gira
/// (ápice, borde k + 1, borde k).
pub proof fn ley_triangulos_cono(seg: int, polos: Seq<bool>)
    ensures
        ({
            let m = mallas_tipo(FormaTipo::Cono, seg, polos)->0;
            let q = cuarto(seg);
            &&& m.len() == 5
            &&& m[0].0 == 4 * q + 2 && m[0].1.len() == 3 * (4 * q)
            &&& forall|k: int| 0 <= k < 4 * q ==> #[trigger] tri(m[0].1, k) == (0int, k + 1, k + 2)
            &&& forall|j: int| 1 <= j < 5 ==> (#[trigger] m[j]).0 == q + 2 && m[j].1.len() == 3 * q
            &&& forall|j: int, k: int| 1 <= j < 5 && 0 <= k < q ==> #[trigger] tri(m[j].1, k) == (0int, k + 2, k + 1)
        }),
{
    let m = mallas_tipo(FormaTipo::Cono, seg, polos)->0;
    let q = cuarto(seg);
    lema_abanico(0, 1, (4 * q) as nat, false, 4 * q + 2);
    lema_abanico(0, 1, q as nat, true, q + 2);
    assert forall|k: int| 0 <= k < 4 * q implies #[trigger] tri(m[0].1, k) == (0int, k + 1, k + 2) by {
        lema_abanico_tri(0, 1, (4 * q) as nat, false, k);
    }
    assert forall|j: int, k: int| 1 <= j < 5 && 0 <= k < q implies #[trigger] tri(m[j].1, k) == (0int, k + 2, k + 1) by {
        lema_abanico_tri(0, 1, q as nat, true, k);
    }
}

proof fn lema_tri_concat(a: Seq<int>, b: Seq<int>, t: int)
    requires
        a.len() % 3 == 0,
        0 <= t,
    ensures
        3 * t + 3 <= a.len() ==> tri(a + b, t) == tri(a, t),
        3 * t + 3 <= b.len() ==> tri(a + b, a.len() / 3 + t) == tri(b, t),
{
}

proof fn lema_bandas_len(ini: int, paso: int, k: nat, n: nat)
    ensures
        bandas(ini, paso, k, n).len() == 6 * k * n,
    decreases k,
{
    if k > 0 {
        lema_bandas_len(ini, paso, (k - 1) as nat, n);
        lema_banda_len(ini + (k - 1) * paso, ini + k * paso, n);
        assert(bandas(ini, paso, k, n) == bandas(ini, paso, (k - 1) as nat, n) + banda(ini + (k - 1) * paso,
            ini + k * paso, n));
        assert(6 * (k - 1) * n + 6 * n == 6 * k * n) by (nonlinear_arith);
        assert(bandas(ini, paso, k, n).len() == 6 * (k - 1) * n + 6 * n);
    } else {
        assert(6 * k * n == 0) by (nonlinear_arith)
            requires k == 0;
    }
}

proof fn lema_banda_len(a: int, b: int, n: nat)
    ensures
        banda(a, b, n).len() == 6 * n,
    decreases n,
{
    if n > 0 {
        lema_banda_len(a, b, (n - 1) as nat);
    }
}

proof fn lema_bandas_tri(ini: int, paso: int, k: nat, n: nat, j: int, l: int)
    requires
        0 <= j < k,
        0 <= l < n,
    ensures
        tri(bandas(ini, paso, k, n), 2 * (j * n + l)) == (ini + j * paso + l, ini + j * paso + l + 1,
            ini + (j + 1) * paso + l),
        tri(bandas(ini, paso, k, n), 2 * (j * n + l) + 1) == (ini + j * paso + l + 1, ini + (j + 1) * paso + l + 1,
            ini + (j + 1) * paso + l),
    decreases k,
{
    let prev = bandas(ini, paso, (k - 1) as nat, n);
    let ult = banda(ini + (k - 1) * paso, ini + k * paso, n);
    assert(bandas(ini, paso, k, n) == prev + ult);
    lema_bandas_len(ini, paso, (k - 1) as nat, n);
    assert(6 * (k - 1) * n == 3 * (2 * (k - 1) * n)) by (nonlinear_arith);
    assert(prev.len() % 3 == 0);
    if j < k - 1 {
        lema_bandas_tri(ini, paso, (k - 1) as nat, n, j, l);
        assert(3 * (2 * (j * n + l) + 1) + 3 <= 6 * (k - 1) * n) by (nonlinear_arith)
            requires 0 <= j < k - 1, 0 <= l < n;
        lema_tri_concat(prev, ult, 2 * (j * n + l));
        lema_tri_concat(prev, ult, 2 * (j * n + l) + 1);
    } else {
        lema_banda_tri(ini + (k - 1) * paso, ini + k * paso, n, l);
        assert(prev.len() / 3 == 2 * (j * n)) by (nonlinear_arith)
            requires prev.len() == 6 * (k - 1) * n, j == k - 1;
        assert(2 * (j * n + l) == 2 * (j * n) + 2 * l);
        lema_tri_concat(prev, ult, 2 * l);
        lema_tri_concat(prev, ult, 2 * l + 1);
        assert((j + 1) * paso == k * paso);
    }
}

/// La esfera tiene `s² + 1` vértices: el polo norte (0), `s − 1` anillos de
/// `s + 1` vértices (el anillo `j` empieza en `1 + j(s + 1)`) y el polo sur
/// (`s²`). Sus triángulos, con las caras hacia fuera: abanico norte
/// (0, k + 2, k + 1); entre los anillos `j` y `j + 1`, para cada `l`, los
/// triángulos (r₀ + l, r₀ + l + 1, r₁ + l) y (r₀ + l + 1, r₁ + l + 1, r₁ + l);
/// y abanico sur (s², u + k, u + k + 1), con `u` el comienzo del último anillo.
pub proof fn ley_triangulos_esfera(seg: int, polos: Seq<bool>)
    ensures
        ({
            let m = mallas_tipo(FormaTipo::Esfera, seg, polos)->0;
            let s = if seg < 3 { 3 } else { seg };
            let u = 1 + (s - 2) * (s + 1);
            &&& m.len() == 1
            &&& m[0].0 == s * s + 1
            &&& m[0].1.len() == 3 * (2 * s * (s - 1))
            &&& forall|k: int| 0 <= k < s ==> #[trigger] tri(m[0].1, k) == (0int, k + 2, k + 1)
            &&& forall|j: int, l: int| 0 <= j < s - 2 && 0 <= l < s ==> {
                let r0 = 1 + j * (s + 1);
                let r1 = 1 + (j + 1) * (s + 1);
                &&& #[trigger] tri(m[0].1, s + 2 * (j * s + l)) == (r0 + l, r0 + l + 1, r1 + l)
                &&& tri(m[0].1, s + 2 * (j * s + l) + 1) == (r0 + l + 1, r1 + l + 1, r1 + l)
            }
            &&& forall|k: int| 0 <= k < s ==> #[trigger] tri(m[0].1, s + 2 * s * (s - 2) + k) == (s * s, u + k, u + k + 1)
        }),
{
    let m = mallas_tipo(FormaTipo::Esfera, seg, polos)->0;
    let s = seg_esfera(seg);
    let v = vertices_esfera(seg);
    let u = 1 + (s - 2) * (s + 1);
    let a = abanico(0, 1, s as nat, true);
    let b = bandas(1, s + 1, (s - 2) as nat, s as nat);
    let c = abanico(v - 1, u, s as nat, false);
    assert(v - 1 == s * s) by (nonlinear_arith)
        requires v == (s - 1) * (s + 1) + 2;
    assert(m[0].1 == (a + b) + c);
    lema_abanico_len(0, 1, s as nat, true);
    lema_abanico_len(v - 1, u, s as nat, false);
    lema_bandas_len(1, s + 1, (s - 2) as nat, s as nat);
    assert(6 * (s - 2) * s == 3 * (2 * s * (s - 2))) by (nonlinear_arith);
    assert(3 * s + 3 * (2 * s * (s - 2)) + 3 * s == 3 * (2 * s * (s - 1))) by (nonlinear_arith);
    assert((a + b).len() % 3 == 0);
    assert forall|k: int| 0 <= k < s implies #[trigger] tri(m[0].1, k) == (0int, k + 2, k + 1) by {
        lema_abanico_tri(0, 1, s as nat, true, k);
        lema_tri_concat(a, b, k);
        lema_tri_concat(a + b, c, k);
    }
    assert forall|j: int, l: int| 0 <= j < s - 2 && 0 <= l < s implies {
        let r0 = 1 + j * (s + 1);
        let r1 = 1 + (j + 1) * (s + 1);
        &&& #[trigger] tri(m[0].1, s + 2 * (j * s + l)) == (r0 + l, r0 + l + 1, r1 + l)
        &&& tri(m[0].1, s + 2 * (j * s + l) + 1) == (r0 + l + 1, r1 + l + 1, r1 + l)
    } by {
        lema_bandas_tri(1, s + 1, (s - 2) as nat, s as nat, j, l);
        assert(3 * (2 * (j * s + l) + 1) + 3 <= 6 * (s - 2) * s) by (nonlinear_arith)
            requires 0 <= j < s - 2, 0 <= l < s;
        lema_tri_concat(a, b, 2 * (j * s + l));
        lema_tri_concat(a, b, 2 * (j * s + l) + 1);
        lema_tri_concat(a + b, c, s + 2 * (j * s + l));
        lema_tri_concat(a + b, c, s + 2 * (j * s + l) + 1);
    }
    assert forall|k: int| 0 <= k < s implies #[trigger] tri(m[0].1, s + 2 * s * (s - 2) + k) == (s * s, u + k,
        u + k + 1) by {
        lema_abanico_tri(v - 1, u, s as nat, false, k);
        lema_tri_concat(a + b, c, k);
    }
}

/// Triángulos que hay antes de la unión entre los anillos `i` e `i + 1`:
/// `s` por cada unión con un polo y `2s` por cada banda.
pub open spec fn inicio_tramo(polos: Seq<bool>, s: int, i: int) -> int
    decreases i,
{
    if i <= 0 {
        0
    } else {
        inicio_tramo(polos, s, i - 1) + if polos[i - 1] || polos[i] { s } else { 2 * s }
    }
}

/// Los triángulos `l` de la unión entre los anillos `i` e `i + 1` (que
/// empiezan en `a = i(s + 1)` y `b = (i + 1)(s + 1)`) miran hacia fuera:
/// desde un polo de arriba, (a, b + l + 1, b + l); hacia un polo de abajo,
/// (b, a + l, a + l + 1); entre dos anillos, (a + l, a + l + 1, b + l) y
/// (a + l + 1, b + l + 1, b + l).
pub open spec fn union_orientada(m: Seq<int>, polos: Seq<bool>, s: int, i: int, l: int) -> bool {
    let a = i * (s + 1);
    let b = (i + 1) * (s + 1);
    let o = inicio_tramo(polos, s, i);
    if polos[i] {
        tri(m, o + l) == (a, b + l + 1, b + l)
    } else if polos[i + 1] {
        tri(m, o + l) == (b, a + l, a + l + 1)
    } else {
        tri(m, o + 2 * l) == (a + l, a + l + 1, b + l) && tri(m, o + 2 * l + 1) == (a + l + 1, b + l + 1, b + l)
    }
}

proof fn lema_tramo_len(polos: Seq<bool>, s: int, i: int)
    requires
        s >= 0,
        0 <= i,
        i + 1 < polos.len(),
    ensures
        tramo(polos, s, i).len() == 3 * (inicio_tramo(polos, s, i + 1) - inicio_tramo(polos, s, i)),
{
    let a = i * (s + 1);
    let b = (i + 1) * (s + 1);
    lema_abanico_len(a, b, s as nat, true);
    lema_abanico_len(b, a, s as nat, false);
    lema_banda_len(a, b, s as nat);
}

proof fn lema_tramos_tri(polos: Seq<bool>, s: int, k: nat, i: int, x: int)
    requires
        s >= 0,
        k < polos.len(),
        0 <= i < k,
        0 <= x,
        3 * x + 3 <= tramo(polos, s, i).len(),
    ensures
        tramos(polos, s, k).len() == 3 * inicio_tramo(polos, s, k as int),
        tri(tramos(polos, s, k), inicio_tramo(polos, s, i) + x) == tri(tramo(polos, s, i), x),
    decreases k,
{
    let prev = tramos(polos, s, (k - 1) as nat);
    let ult = tramo(polos, s, k - 1);
    assert(tramos(polos, s, k) == prev + ult);
    lema_tramos_len(polos, s, (k - 1) as nat);
    lema_tramo_len(polos, s, k - 1);
    if i < k - 1 {
        lema_tramos_tri(polos, s, (k - 1) as nat, i, x);
        lema_tramo_len(polos, s, i);
        lema_inicio_creciente(polos, s, i + 1, k - 1);
        lema_inicio_creciente(polos, s, 0, i);
        lema_tri_concat(prev, ult, inicio_tramo(polos, s, i) + x);
    } else {
        lema_tri_concat(prev, ult, x);
    }
}

proof fn lema_tramos_len(polos: Seq<bool>, s: int, k: nat)
    requires
        s >= 0,
        k < polos.len(),
    ensures
        tramos(polos, s, k).len() == 3 * inicio_tramo(polos, s, k as int),
    decreases k,
{
    if k > 0 {
        lema_tramos_len(polos, s, (k - 1) as nat);
        lema_tramo_len(polos, s, k - 1);
        assert(tramos(polos, s, k) == tramos(polos, s, (k - 1) as nat) + tramo(polos, s, k - 1));
    }
}

proof fn lema_inicio_creciente(polos: Seq<bool>, s: int, i: int, j: int)
    requires
        s >= 0,
        0 <= i <= j,
    ensures
        inicio_tramo(polos, s, i) <= inicio_tramo(polos, s, j),
    decreases j - i,
{
    if i < j {
        lema_inicio_creciente(polos, s, i, j - 1);
    }
}

/// La cápsula es una pila de anillos de `s + 1` vértices (los polos son
/// anillos de radio nulo); cada unión entre anillos consecutivos tiene sus
/// triángulos en orden y con las caras hacia fuera.
pub proof fn ley_triangulos_capsula(seg: int, polos: Seq<bool>)
    requires
        polos.len() >= 1,
    ensures
        ({
            let m = mallas_tipo(FormaTipo::Capsula, seg, polos)->0;
            let s = if seg < 3 { 3 } else { seg };
            &&& m.len() == 1
            &&& m[0].0 == polos.len() * (s + 1)
            &&& m[0].1.len() == 3 * inicio_tramo(polos, s, polos.len() - 1)
            &&& forall|i: int, l: int| 0 <= i < polos.len() - 1 && 0 <= l < s ==> #[trigger] union_orientada(
                m[0].1, polos, s, i, l)
        }),
{
    let m = mallas_tipo(FormaTipo::Capsula, seg, polos)->0;
    let s = seg_esfera(seg);
    let k = (polos.len() - 1) as nat;
    lema_tramos_len(polos, s, k);
    assert forall|i: int, l: int| 0 <= i < polos.len() - 1 && 0 <= l < s implies #[trigger] union_orientada(
        m[0].1, polos, s, i, l) by {
        let a = i * (s + 1);
        let b = (i + 1) * (s + 1);
        lema_tramo_len(polos, s, i);
        if polos[i] {
            lema_abanico_tri(a, b, s as nat, true, l);
            lema_tramos_tri(polos, s, k, i, l);
        } else if polos[i + 1] {
            lema_abanico_tri(b, a, s as nat, false, l);
            lema_tramos_tri(polos, s, k, i, l);
        } else {
            lema_banda_tri(a, b, s as nat, l);
            lema_tramos_tri(polos, s, k, i, 2 * l);
            lema_tramos_tri(polos, s, k, i, 2 * l + 1);
        }
    }
}

/// El plano: cuatro vértices y los triángulos (0, 1, 2) y (0, 2, 3).
pub proof fn ley_triangulos_plano(seg: int, polos: Seq<bool>)
    ensures
        ({
            let m = mallas_tipo(FormaTipo::Plano, seg, polos)->0;
            &&& m.len() == 1
            &&& m[0].0 == 4
            &&& m[0].1.len() == 6
            &&& tri(m[0].1, 0) == (0int, 1int, 2int)
            &&& tri(m[0].1, 1) == (0int, 2int, 3int)
        }),
{
}

} // verus!
