//! Texturas por cara: cada cara es un lienzo cuadrado de `lado × lado`
//! píxeles RGBA guardados fila a fila, cuatro bytes por píxel.

use vstd::prelude::*;
use vstd::arithmetic::div_mod::{lemma_fundamental_div_mod, lemma_fundamental_div_mod_converse};
use vstd::arithmetic::mul::lemma_mul_inequality;

verus! {

/// Posición del canal `k` del píxel `(x, y)` en un lienzo de `lado` píxeles de ancho.
pub open spec fn byte_en(lado: int, x: int, y: int, k: int) -> int {
    (y * lado + x) * 4 + k
}

/// Número de bytes de un lienzo de `lado × lado` píxeles.
pub open spec fn bytes_lienzo(lado: int) -> int {
    lado * lado * 4
}

/// Bytes de un lienzo de `lado × lado` píxeles, si caben en `usize`.
pub fn bytes_lienzo_de(lado: usize) -> (r: Option<usize>)
    ensures
        r matches Some(n) ==> n == bytes_lienzo(lado as int),
        r is None ==> bytes_lienzo(lado as int) > usize::MAX,
{
    match lado.checked_mul(lado) {
        Some(c) => {
            let cuatro: usize = 4;
            match c.checked_mul(cuatro) {
                Some(n) => Some(n),
                None => None,
            }
        },
        None => {
            assert(lado * lado * 4 > usize::MAX) by (nonlinear_arith)
                requires lado * lado > usize::MAX;
            None
        },
    }
}

/// `c` es una cara cuyos bytes repiten `color` píxel a píxel en sus
/// primeros `n` bytes.
pub open spec fn uniforme_hasta(c: Seq<u8>, n: int, color: Seq<u8>) -> bool {
    forall|i: int| 0 <= i < n ==> #[trigger] c[i] == color[i % 4]
}

/// Crea `count` caras de `tex_size × tex_size` píxeles, todas del color dado.
pub fn crear_pixeles(color: &[u8; 4], tex_size: usize, count: usize) -> (r: Vec<Vec<u8>>)
    requires
        bytes_lienzo(tex_size as int) <= usize::MAX,
    ensures
        r@.len() == count,
        forall|j: int| 0 <= j < count ==> #[trigger] r@[j]@.len() == bytes_lienzo(tex_size as int),
        forall|j: int| 0 <= j < count ==> uniforme_hasta(#[trigger] r@[j]@, bytes_lienzo(tex_size as int), color@),
{
    assert(tex_size * tex_size * 4 == bytes_lienzo(tex_size as int)) by (nonlinear_arith);
    let n: usize = tex_size * tex_size * 4;
    let mut r: Vec<Vec<u8>> = Vec::new();
    let mut j: usize = 0;
    while j < count
        invariant
            j <= count,
            n == bytes_lienzo(tex_size as int),
            r@.len() == j,
            forall|a: int| 0 <= a < j ==> #[trigger] r@[a]@.len() == n,
            forall|a: int| 0 <= a < j ==> uniforme_hasta(#[trigger] r@[a]@, n as int, color@),
        decreases count - j,
    {
        let mut p: Vec<u8> = Vec::new();
        let mut i: usize = 0;
        while i < n
            invariant
                i <= n,
                p@.len() == i,
                uniforme_hasta(p@, i as int, color@),
            decreases n - i,
        {
            p.push(color[i % 4]);
            i = i + 1;
        }
        r.push(p);
        j = j + 1;
    }
    r
}

/// Pinta todos los píxeles completos de la cara con `color`.
pub fn rellenar_cara(cara: &mut Vec<u8>, color: &[u8; 4])
    ensures
        final(cara)@.len() == old(cara)@.len(),
        uniforme_hasta(final(cara)@, old(cara)@.len() - old(cara)@.len() % 4, color@),
        forall|i: int| old(cara)@.len() - old(cara)@.len() % 4 <= i < old(cara)@.len()
            ==> #[trigger] final(cara)@[i] == old(cara)@[i],
{
    let n: usize = cara.len() - cara.len() % 4;
    let mut i: usize = 0;
    while i < n
        invariant
            i <= n,
            n == old(cara)@.len() - old(cara)@.len() % 4,
            cara@.len() == old(cara)@.len(),
            uniforme_hasta(cara@, i as int, color@),
            forall|j: int| i <= j < old(cara)@.len() ==> #[trigger] cara@[j] == old(cara)@[j],
        decreases n - i,
    {
        cara.set(i, color[i % 4]);
        i = i + 1;
    }
}

/// El color del píxel `(px, py)`, con alfa opaco.
pub fn color_en(cara: &[u8], tex_size: usize, px: usize, py: usize) -> (c: [u8; 4])
    requires
        byte_en(tex_size as int, px as int, py as int, 3) < cara@.len(),
    ensures
        c@ == seq![
            cara@[byte_en(tex_size as int, px as int, py as int, 0)],
            cara@[byte_en(tex_size as int, px as int, py as int, 1)],
            cara@[byte_en(tex_size as int, px as int, py as int, 2)],
            255u8,
        ],
{
    let n = cara.len();
    assert(0 <= py * tex_size) by (nonlinear_arith);
    let i: usize = (py * tex_size + px) * 4;
    let c = [cara[i], cara[i + 1], cara[i + 2], 255u8];
    assert(c@ =~= seq![cara@[i as int], cara@[i + 1], cara@[i + 2], 255u8]);
    c
}

/// El byte `i` cae dentro del rectángulo de píxeles `[x0, x1) × [y0, y1)`
/// de un lienzo de `lado` píxeles de ancho.
pub open spec fn en_rect(lado: int, i: int, x0: int, x1: int, y0: int, y1: int) -> bool {
    lado > 0 && x0 <= (i / 4) % lado < x1 && y0 <= (i / 4) / lado < y1
}

/// El byte `i` cae en la fila `y`, columnas `[x0, x1)`.
pub open spec fn en_fila(lado: int, i: int, y: int, x0: int, x1: int) -> bool {
    lado > 0 && (i / 4) / lado == y && x0 <= (i / 4) % lado < x1
}

/// Los bytes del píxel `(x, y)` son exactamente los del bloque de 4 que empieza en `byte_en(lado, x, y, 0)`.
proof fn lema_bloque(lado: int, i: int, x: int, y: int)
    requires
        0 <= x < lado,
        0 <= y,
        0 <= i,
    ensures
        ((i / 4) / lado == y && (i / 4) % lado == x)
            <==> (byte_en(lado, x, y, 0) <= i < byte_en(lado, x, y, 0) + 4),
        byte_en(lado, x, y, 0) <= i < byte_en(lado, x, y, 0) + 4 ==> i % 4 == i - byte_en(lado, x, y, 0),
{
    lemma_fundamental_div_mod(i, 4);
    lemma_fundamental_div_mod(i / 4, lado);
    assert(lado * ((i / 4) / lado) == ((i / 4) / lado) * lado) by (nonlinear_arith);
    if byte_en(lado, x, y, 0) <= i < byte_en(lado, x, y, 0) + 4 {
        lemma_fundamental_div_mod_converse(i, 4, y * lado + x, i - byte_en(lado, x, y, 0));
        lemma_fundamental_div_mod_converse(y * lado + x, lado, y, x);
    }
}

/// Cotas de la posición de un byte dentro del rectángulo.
proof fn lema_cota(lado: int, x: int, y: int, k: int, x1: int, y1: int)
    requires
        0 <= x < x1 <= lado,
        0 <= y < y1,
        0 <= k < 4,
    ensures
        0 <= y * lado,
        0 <= byte_en(lado, x, y, k) <= byte_en(lado, x1 - 1, y1 - 1, 3),
{
    lemma_mul_inequality(y, y1 - 1, lado);
    assert(0 <= y * lado) by (nonlinear_arith)
        requires
            0 <= y,
            0 <= lado,
    ;
}

/// Pinta con `color` el rectángulo de píxeles `[x0, x1) × [y0, y1)`.
pub fn pintar_rect(cara: &mut Vec<u8>, lado: usize, x0: usize, x1: usize, y0: usize, y1: usize, color: &[u8; 4])
    requires
        x0 <= x1 <= lado,
        y0 <= y1,
        x0 < x1 && y0 < y1 ==> byte_en(lado as int, x1 - 1, y1 - 1, 3) < old(cara)@.len(),
    ensures
        final(cara)@.len() == old(cara)@.len(),
        forall|i: int| 0 <= i < old(cara)@.len() ==> #[trigger] final(cara)@[i] == if en_rect(
            lado as int, i, x0 as int, x1 as int, y0 as int, y1 as int) {
            color@[i % 4]
        } else {
            old(cara)@[i]
        },
{
    let ghost antes = cara@;
    assert(cara.len() <= usize::MAX);
    let mut y: usize = y0;
    while y < y1
        invariant
            y0 <= y <= y1,
            x0 <= x1 <= lado,
            antes.len() <= usize::MAX,
            x0 < x1 && y0 < y1 ==> byte_en(lado as int, x1 - 1, y1 - 1, 3) < antes.len(),
            cara@.len() == antes.len(),
            forall|i: int| 0 <= i < antes.len() ==> #[trigger] cara@[i] == if en_rect(
                lado as int, i, x0 as int, x1 as int, y0 as int, y as int) {
                color@[i % 4]
            } else {
                antes[i]
            },
        decreases y1 - y,
    {
        let mut x: usize = x0;
        while x < x1
            invariant
                y0 <= y < y1,
                x0 <= x <= x1 <= lado,
                antes.len() <= usize::MAX,
                x0 < x1 ==> byte_en(lado as int, x1 - 1, y1 - 1, 3) < antes.len(),
                cara@.len() == antes.len(),
                forall|i: int| 0 <= i < antes.len() ==> #[trigger] cara@[i] == if en_rect(
                    lado as int, i, x0 as int, x1 as int, y0 as int, y as int) || en_fila(
                    lado as int, i, y as int, x0 as int, x as int) {
                    color@[i % 4]
                } else {
                    antes[i]
                },
            decreases x1 - x,
        {
            proof {
                lema_cota(lado as int, x as int, y as int, 3, x1 as int, y1 as int);
                lema_cota(lado as int, x as int, y as int, 0, x1 as int, y1 as int);
            }
            let base: usize = (y * lado + x) * 4;
            let ghost previo = cara@;
            cara.set(base, color[0]);
            cara.set(base + 1, color[1]);
            cara.set(base + 2, color[2]);
            cara.set(base + 3, color[3]);
            assert forall|i: int| 0 <= i < antes.len() implies #[trigger] cara@[i] == if en_rect(
                lado as int, i, x0 as int, x1 as int, y0 as int, y as int) || en_fila(
                lado as int, i, y as int, x0 as int, x + 1) {
                color@[i % 4]
            } else {
                antes[i]
            } by {
                lema_bloque(lado as int, i, x as int, y as int);
                assert(previo[i] == if en_rect(lado as int, i, x0 as int, x1 as int, y0 as int, y as int)
                    || en_fila(lado as int, i, y as int, x0 as int, x as int) {
                    color@[i % 4]
                } else {
                    antes[i]
                });
            }
            x = x + 1;
        }
        assert forall|i: int| 0 <= i < antes.len() implies #[trigger] cara@[i] == if en_rect(
            lado as int, i, x0 as int, x1 as int, y0 as int, y + 1) {
            color@[i % 4]
        } else {
            antes[i]
        } by {
            assert(en_rect(lado as int, i, x0 as int, x1 as int, y0 as int, y + 1) == (en_rect(
                lado as int, i, x0 as int, x1 as int, y0 as int, y as int) || en_fila(
                lado as int, i, y as int, x0 as int, x1 as int)));
        }
        y = y + 1;
    }
}

/// Primera fila (o columna) que alcanza un pincel de `t` píxeles centrado en `c`.
pub open spec fn desde_pincel(c: int, t: int) -> int {
    if c >= t / 2 { c - t / 2 } else { 0 }
}

/// Fila (o columna) siguiente a la última que alcanza el pincel, sin salir del lienzo.
pub open spec fn hasta_pincel(c: int, t: int, lado: int) -> int {
    if c + t / 2 + t % 2 <= lado { c + t / 2 + t % 2 } else { lado }
}

/// El pincel de `t` píxeles centrado en `(px, py)` alcanza el byte `i`.
pub open spec fn en_pincel(lado: int, i: int, px: int, py: int, t: int) -> bool {
    en_rect(lado, i, desde_pincel(px, t), hasta_pincel(px, t, lado), desde_pincel(py, t),
        hasta_pincel(py, t, lado))
}

/// El pincel de `t` píxeles centrado en `(px, py)` alcanza exactamente los
/// píxeles `(x, y)` del lienzo con `px − ⌊t/2⌋ ≤ x < px + ⌈t/2⌉` y lo mismo
/// para `y` (los cuatro canales de cada uno).
pub proof fn ley_alcance_pincel(lado: int, x: int, y: int, k: int, px: int, py: int, t: int)
    requires
        0 <= x < lado,
        0 <= y < lado,
        0 <= k < 4,
        0 <= px,
        0 <= py,
        0 <= t,
    ensures
        en_pincel(lado, byte_en(lado, x, y, k), px, py, t) <==> (px - t / 2 <= x < px + (t + 1) / 2
            && py - t / 2 <= y < py + (t + 1) / 2),
{
    assert(0 <= y * lado) by (nonlinear_arith)
        requires 0 <= y, 0 <= lado;
    lema_bloque(lado, byte_en(lado, x, y, k), x, y);
}

/// Pinta con `color` el cuadrado de `t × t` píxeles centrado en `(px, py)`,
/// recortado al lienzo.
pub fn pintar_pincel(cara: &mut Vec<u8>, tex_size: usize, px: usize, py: usize, t: usize, color: &[u8; 4])
    requires
        px + t / 2 + t % 2 <= usize::MAX,
        py + t / 2 + t % 2 <= usize::MAX,
        desde_pincel(px as int, t as int) < hasta_pincel(px as int, t as int, tex_size as int)
            && desde_pincel(py as int, t as int) < hasta_pincel(py as int, t as int, tex_size as int)
            ==> byte_en(tex_size as int, hasta_pincel(px as int, t as int, tex_size as int) - 1,
                hasta_pincel(py as int, t as int, tex_size as int) - 1, 3) < old(cara)@.len(),
    ensures
        final(cara)@.len() == old(cara)@.len(),
        forall|i: int| 0 <= i < old(cara)@.len() ==> #[trigger] final(cara)@[i] == if en_pincel(
            tex_size as int, i, px as int, py as int, t as int) {
            color@[i % 4]
        } else {
            old(cara)@[i]
        },
{
    let mitad: usize = t / 2;
    let resto: usize = t % 2;
    let x0: usize = if px >= mitad { px - mitad } else { 0 };
    let y0: usize = if py >= mitad { py - mitad } else { 0 };
    let x1: usize = if px + mitad + resto <= tex_size { px + mitad + resto } else { tex_size };
    let y1: usize = if py + mitad + resto <= tex_size { py + mitad + resto } else { tex_size };
    let x0: usize = if x0 <= x1 { x0 } else { x1 };
    let y0: usize = if y0 <= y1 { y0 } else { y1 };
    pintar_rect(cara, tex_size, x0, x1, y0, y1, color);
}

/// Tras pasar un pincel de al menos un píxel por `(px, py)`, ese píxel
/// tiene el color pintado: el cuentagotas lo devuelve (con alfa opaco).
pub proof fn ley_tomar_lo_pintado(antes: Seq<u8>, despues: Seq<u8>, lado: int, px: int, py: int, t: int,
    color: Seq<u8>)
    requires
        0 <= px < lado,
        0 <= py < lado,
        1 <= t,
        color.len() == 4,
        byte_en(lado, px, py, 3) < antes.len(),
        despues.len() == antes.len(),
        forall|i: int| 0 <= i < antes.len() ==> #[trigger] despues[i] == if en_pincel(lado, i, px, py, t) {
            color[i % 4]
        } else {
            antes[i]
        },
    ensures
        seq![despues[byte_en(lado, px, py, 0)], despues[byte_en(lado, px, py, 1)],
            despues[byte_en(lado, px, py, 2)], 255u8] == seq![color[0], color[1], color[2], 255u8],
{
    assert(0 <= py * lado) by (nonlinear_arith)
        requires 0 <= py, 0 <= lado;
    assert forall|k: int| 0 <= k < 4 implies despues[#[trigger] byte_en(lado, px, py, k)] == color[k] by {
        let i = byte_en(lado, px, py, k);
        lema_bloque(lado, i, px, py);
        assert(en_pincel(lado, i, px, py, t));
    }
    assert(despues[byte_en(lado, px, py, 0)] == color[0]);
    assert(despues[byte_en(lado, px, py, 1)] == color[1]);
    assert(despues[byte_en(lado, px, py, 2)] == color[2]);
}

/// Byte de la cara de `viejo` píxeles de lado del que sale el byte `i` de la
/// cara redimensionada a `nuevo`: cada píxel toma el más cercano dentro del
/// lienzo de partida (se recorta por la derecha y por abajo, o se repite el borde).
pub open spec fn fuente(viejo: int, nuevo: int, i: int) -> int {
    let x = (i / 4) % nuevo;
    let y = (i / 4) / nuevo;
    byte_en(viejo, if x < viejo - 1 { x } else { viejo - 1 }, if y < viejo - 1 { y } else { viejo - 1 }, i % 4)
}

/// La cara `c`, de `viejo` píxeles de lado, llevada a `nuevo` píxeles de lado.
pub open spec fn redimensionada(c: Seq<u8>, viejo: int, nuevo: int) -> Seq<u8> {
    Seq::new(bytes_lienzo(nuevo) as nat, |i: int| c[fuente(viejo, nuevo, i)])
}

/// La cara tiene los bytes que lee la redimensión de `viejo` a `nuevo`.
pub open spec fn cabe_redimension(c: Seq<u8>, viejo: int, nuevo: int) -> bool {
    nuevo == 0 || (viejo >= 1 && {
        let m = (if nuevo < viejo { nuevo } else { viejo }) - 1;
        byte_en(viejo, m, m, 3) < c.len()
    })
}

/// Redimensiona una cara de `viejo` a `nuevo` píxeles de lado.
fn redimensionar_cara(cara: &Vec<u8>, viejo: usize, nuevo: usize) -> (r: Vec<u8>)
    requires
        cabe_redimension(cara@, viejo as int, nuevo as int),
        bytes_lienzo(nuevo as int) <= usize::MAX,
    ensures
        r@ == redimensionada(cara@, viejo as int, nuevo as int),
{
    assert(cara.len() <= usize::MAX);
    let mut r: Vec<u8> = Vec::new();
    let mut y: usize = 0;
    while y < nuevo
        invariant
            y <= nuevo,
            cabe_redimension(cara@, viejo as int, nuevo as int),
            cara@.len() <= usize::MAX,
            bytes_lienzo(nuevo as int) <= usize::MAX,
            r@.len() == byte_en(nuevo as int, 0, y as int, 0),
            forall|j: int| 0 <= j < r@.len() ==> #[trigger] r@[j] == cara@[fuente(viejo as int, nuevo as int, j)],
        decreases nuevo - y,
    {
        let mut x: usize = 0;
        while x < nuevo
            invariant
                y < nuevo,
                x <= nuevo,
                cabe_redimension(cara@, viejo as int, nuevo as int),
                cara@.len() <= usize::MAX,
                bytes_lienzo(nuevo as int) <= usize::MAX,
                r@.len() == byte_en(nuevo as int, x as int, y as int, 0),
                forall|j: int| 0 <= j < r@.len() ==> #[trigger] r@[j] == cara@[fuente(viejo as int, nuevo as int, j)],
            decreases nuevo - x,
        {
            let oy: usize = if y < viejo - 1 { y } else { viejo - 1 };
            let ox: usize = if x < viejo - 1 { x } else { viejo - 1 };
            let ghost m: int = (if nuevo < viejo { nuevo } else { viejo }) - 1;
            proof {
                lema_cota(viejo as int, ox as int, oy as int, 3, m + 1, m + 1);
                lema_cota(nuevo as int, x as int, y as int, 3, nuevo as int, nuevo as int);
                assert(byte_en(nuevo as int, nuevo - 1, nuevo - 1, 3) < bytes_lienzo(nuevo as int)) by (nonlinear_arith)
                    requires nuevo > 0;
            }
            let src: usize = (oy * viejo + ox) * 4;
            let mut k: usize = 0;
            while k < 4
                invariant
                    k <= 4,
                    0 <= x < nuevo,
                    0 <= y < nuevo,
                    viejo >= 1,
                    ox == (if x < viejo - 1 { x as int } else { viejo - 1 }),
                    oy == (if y < viejo - 1 { y as int } else { viejo - 1 }),
                    src == byte_en(viejo as int, ox as int, oy as int, 0),
                    src + 3 < cara@.len(),
                    r@.len() == byte_en(nuevo as int, x as int, y as int, k as int),
                    forall|j: int| 0 <= j < r@.len() ==> #[trigger] r@[j] == cara@[fuente(viejo as int, nuevo as int, j)],
                decreases 4 - k,
            {
                proof {
                    lema_bloque(nuevo as int, r@.len() as int, x as int, y as int);
                }
                r.push(cara[src + k]);
                k = k + 1;
            }
            x = x + 1;
        }
        assert(byte_en(nuevo as int, nuevo as int, y as int, 0) == byte_en(nuevo as int, 0, y + 1, 0)) by (nonlinear_arith);
        y = y + 1;
    }
    assert(byte_en(nuevo as int, 0, nuevo as int, 0) == bytes_lienzo(nuevo as int)) by (nonlinear_arith);
    assert(r@ =~= redimensionada(cara@, viejo as int, nuevo as int));
    r
}

/// Redimensiona todas las caras de `viejo` a `nuevo` píxeles de lado.
pub fn redimensionar_pixeles(pixeles: &mut Vec<Vec<u8>>, old_size: usize, new_size: usize)
    requires
        forall|j: int| 0 <= j < old(pixeles)@.len() ==> cabe_redimension(#[trigger] old(pixeles)@[j]@,
            old_size as int, new_size as int),
        old(pixeles)@.len() > 0 ==> bytes_lienzo(new_size as int) <= usize::MAX,
    ensures
        final(pixeles)@.len() == old(pixeles)@.len(),
        forall|j: int| 0 <= j < old(pixeles)@.len() ==> #[trigger] final(pixeles)@[j]@ == redimensionada(
            old(pixeles)@[j]@, old_size as int, new_size as int),
{
    let mut j: usize = 0;
    while j < pixeles.len()
        invariant
            j <= pixeles@.len(),
            pixeles@.len() == old(pixeles)@.len(),
            pixeles@.len() > 0 ==> bytes_lienzo(new_size as int) <= usize::MAX,
            forall|a: int| j <= a < pixeles@.len() ==> #[trigger] pixeles@[a] == old(pixeles)@[a],
            forall|a: int| 0 <= a < old(pixeles)@.len() ==> cabe_redimension(#[trigger] old(pixeles)@[a]@,
                old_size as int, new_size as int),
            forall|a: int| 0 <= a < j ==> #[trigger] pixeles@[a]@ == redimensionada(
                old(pixeles)@[a]@, old_size as int, new_size as int),
        decreases pixeles@.len() - j,
    {
        let nueva = redimensionar_cara(&pixeles[j], old_size, new_size);
        pixeles.set(j, nueva);
        j = j + 1;
    }
}

/// Cada byte de un lienzo de `lado` píxeles es el canal `i % 4` de un píxel dentro del lienzo.
proof fn lema_descomponer(lado: int, i: int)
    requires
        0 <= lado,
        0 <= i < bytes_lienzo(lado),
    ensures
        lado > 0,
        0 <= (i / 4) % lado < lado,
        0 <= (i / 4) / lado < lado,
        i == byte_en(lado, (i / 4) % lado, (i / 4) / lado, i % 4),
{
    assert(lado > 0) by (nonlinear_arith)
        requires 0 <= i < lado * lado * 4, 0 <= lado;
    lemma_fundamental_div_mod(i, 4);
    lemma_fundamental_div_mod(i / 4, lado);
    let p = i / 4;
    assert(p < lado * lado) by (nonlinear_arith)
        requires 0 <= i < lado * lado * 4, p == i / 4;
    assert(p / lado < lado) by (nonlinear_arith)
        requires 0 <= p < lado * lado, lado > 0, p == lado * (p / lado) + p % lado, 0 <= p % lado < lado;
    assert(0 <= p / lado) by (nonlinear_arith)
        requires 0 <= p, lado > 0;
    assert(lado * (p / lado) == (p / lado) * lado) by (nonlinear_arith);
}

/// Cada píxel `(x, y)` de la cara redimensionada es el píxel
/// `(min(x, viejo − 1), min(y, viejo − 1))` de la cara de partida: al
/// reducir se recorta, y al agrandar se repiten la última columna y la
/// última fila.
pub proof fn ley_redimensionar_pixel(c: Seq<u8>, viejo: int, nuevo: int, x: int, y: int, k: int)
    requires
        1 <= viejo,
        0 <= x < nuevo,
        0 <= y < nuevo,
        0 <= k < 4,
    ensures
        redimensionada(c, viejo, nuevo).len() == nuevo * nuevo * 4,
        redimensionada(c, viejo, nuevo)[byte_en(nuevo, x, y, k)] == c[byte_en(viejo, if x < viejo { x } else {
            viejo - 1 }, if y < viejo { y } else { viejo - 1 }, k)],
{
    let i = byte_en(nuevo, x, y, k);
    assert(0 <= y * nuevo) by (nonlinear_arith)
        requires 0 <= y, 0 <= nuevo;
    assert(i < bytes_lienzo(nuevo)) by (nonlinear_arith)
        requires 0 <= x < nuevo, 0 <= y < nuevo, 0 <= k < 4, i == (y * nuevo + x) * 4 + k;
    lema_bloque(nuevo, i, x, y);
}

/// Redimensionar una cara a su mismo tamaño la deja igual.
pub proof fn ley_redimensionar_mismo_lado(c: Seq<u8>, lado: int)
    requires
        0 <= lado,
        c.len() == bytes_lienzo(lado),
    ensures
        redimensionada(c, lado, lado) == c,
{
    assert forall|i: int| 0 <= i < c.len() implies #[trigger] redimensionada(c, lado, lado)[i] == c[i] by {
        lema_descomponer(lado, i);
    }
    assert(redimensionada(c, lado, lado) =~= c);
}

/// Agrandar una cara y volver después a su tamaño inicial la deja igual.
pub proof fn ley_agrandar_y_reducir(c: Seq<u8>, chico: int, grande: int)
    requires
        1 <= chico <= grande,
        c.len() == bytes_lienzo(chico),
    ensures
        redimensionada(redimensionada(c, chico, grande), grande, chico) == c,
{
    let g = redimensionada(c, chico, grande);
    assert forall|i: int| 0 <= i < c.len() implies #[trigger] redimensionada(g, grande, chico)[i] == c[i] by {
        lema_descomponer(chico, i);
        let x = (i / 4) % chico;
        let y = (i / 4) / chico;
        let k = i % 4;
        let j = byte_en(grande, x, y, k);
        lema_cota(grande, x, y, k, grande, grande);
        assert(byte_en(grande, grande - 1, grande - 1, 3) < bytes_lienzo(grande)) by (nonlinear_arith)
            requires grande > 0;
        lema_bloque(grande, j, x, y);
    }
    assert(redimensionada(g, grande, chico) =~= c);
}

/// La cara vista de abajo arriba: la fila `y` pasa a ser la `lado - 1 - y`.
pub open spec fn volteada(c: Seq<u8>, lado: int) -> Seq<u8> {
    Seq::new(bytes_lienzo(lado) as nat, |i: int| c[byte_en(lado, (i / 4) % lado, lado - 1 - (i / 4) / lado, i % 4)])
}

/// Copia la cara invirtiendo el orden de sus filas (lo que hace
/// `image::imageops::flip_vertical_in_place` con un lienzo RGBA).
pub fn voltear_vertical(cara: &[u8], lado: usize) -> (r: Vec<u8>)
    requires
        cara@.len() == bytes_lienzo(lado as int),
    ensures
        r@ == volteada(cara@, lado as int),
{
    assert(cara.len() <= usize::MAX);
    let mut r: Vec<u8> = Vec::new();
    let mut y: usize = 0;
    while y < lado
        invariant
            y <= lado,
            cara@.len() == bytes_lienzo(lado as int),
            cara@.len() <= usize::MAX,
            r@.len() == byte_en(lado as int, 0, y as int, 0),
            forall|j: int| 0 <= j < r@.len() ==> #[trigger] r@[j] == cara@[byte_en(lado as int, (j / 4) % (lado as int),
                lado - 1 - (j / 4) / (lado as int), j % 4)],
        decreases lado - y,
    {
        let mut x: usize = 0;
        while x < lado
            invariant
                y < lado,
                x <= lado,
                cara@.len() == bytes_lienzo(lado as int),
                cara@.len() <= usize::MAX,
                r@.len() == byte_en(lado as int, x as int, y as int, 0),
                forall|j: int| 0 <= j < r@.len() ==> #[trigger] r@[j] == cara@[byte_en(lado as int, (j / 4) % (lado as int),
                    lado - 1 - (j / 4) / (lado as int), j % 4)],
            decreases lado - x,
        {
            proof {
                lema_cota(lado as int, x as int, (lado - 1 - y) as int, 3, lado as int, lado as int);
                assert(byte_en(lado as int, lado - 1, lado - 1, 3) < bytes_lienzo(lado as int)) by (nonlinear_arith)
                    requires lado > 0;
            }
            let src: usize = ((lado - 1 - y) * lado + x) * 4;
            let mut k: usize = 0;
            while k < 4
                invariant
                    k <= 4,
                    0 <= x < lado,
                    0 <= y < lado,
                    src == byte_en(lado as int, x as int, (lado - 1 - y) as int, 0),
                    src + 3 < cara@.len(),
                    r@.len() == byte_en(lado as int, x as int, y as int, k as int),
                    forall|j: int| 0 <= j < r@.len() ==> #[trigger] r@[j] == cara@[byte_en(lado as int, (j / 4) % (lado as int),
                        lado - 1 - (j / 4) / (lado as int), j % 4)],
                decreases 4 - k,
            {
                proof {
                    lema_bloque(lado as int, r@.len() as int, x as int, y as int);
                }
                r.push(cara[src + k]);
                k = k + 1;
            }
            x = x + 1;
        }
        assert(byte_en(lado as int, lado as int, y as int, 0) == byte_en(lado as int, 0, y + 1, 0)) by (nonlinear_arith);
        y = y + 1;
    }
    assert(byte_en(lado as int, 0, lado as int, 0) == bytes_lienzo(lado as int)) by (nonlinear_arith);
    assert(r@ =~= volteada(cara@, lado as int));
    r
}

/// Voltear dos veces una cara la deja igual.
pub proof fn ley_voltear_dos_veces(c: Seq<u8>, lado: int)
    requires
        0 <= lado,
        c.len() == bytes_lienzo(lado),
    ensures
        volteada(volteada(c, lado), lado) == c,
{
    let v = volteada(c, lado);
    assert forall|i: int| 0 <= i < c.len() implies #[trigger] volteada(v, lado)[i] == c[i] by {
        lema_descomponer(lado, i);
        let x = (i / 4) % lado;
        let y = (i / 4) / lado;
        let k = i % 4;
        let j = byte_en(lado, x, lado - 1 - y, k);
        lema_cota(lado, x, lado - 1 - y, k, lado, lado);
        assert(byte_en(lado, lado - 1, lado - 1, 3) < bytes_lienzo(lado)) by (nonlinear_arith)
            requires lado > 0;
        lema_bloque(lado, j, x, lado - 1 - y);
    }
    assert(volteada(v, lado) =~= c);
}

/// Recuerda `color` en la lista de colores guardados si no estaba ya.
pub fn recordar_color(colores: &mut Vec<[u8; 4]>, color: [u8; 4])
    ensures
        old(colores)@.contains(color) ==> final(colores)@ == old(colores)@,
        !old(colores)@.contains(color) ==> final(colores)@ == old(colores)@.push(color),
{
    let mut i: usize = 0;
    while i < colores.len()
        invariant
            i <= colores@.len(),
            colores@ == old(colores)@,
            forall|j: int| 0 <= j < i ==> colores@[j] != color,
        decreases colores@.len() - i,
    {
        let c = colores[i];
        if c[0] == color[0] && c[1] == color[1] && c[2] == color[2] && c[3] == color[3] {
            assert(c@ =~= color@);
            assert(colores@[i as int] == color);
            return;
        }
        assert(c@ != color@);
        i = i + 1;
    }
    colores.push(color);
}

/// Los colores guardados nunca se repiten.
pub proof fn ley_colores_sin_repetir(colores: Seq<[u8; 4]>, color: [u8; 4])
    requires
        forall|a: int, b: int| 0 <= a < b < colores.len() ==> colores[a] != colores[b],
    ensures
        ({
            let nuevos = if colores.contains(color) { colores } else { colores.push(color) };
            &&& nuevos.contains(color)
            &&& forall|a: int, b: int| 0 <= a < b < nuevos.len() ==> nuevos[a] != nuevos[b]
        }),
{
    if !colores.contains(color) {
        let nuevos = colores.push(color);
        assert(nuevos[colores.len() as int] == color);
        assert forall|a: int, b: int| 0 <= a < b < nuevos.len() implies nuevos[a] != nuevos[b] by {
            if b == colores.len() {
                assert(nuevos[a] == colores[a]);
            }
        }
    }
}

} // verus!
