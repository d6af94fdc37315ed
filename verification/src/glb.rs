//! Contenedor binario GLB (glTF 2.0): una cabecera de 12 bytes, un trozo JSON
//! rellenado con espacios y un trozo binario rellenado con ceros.

use vstd::prelude::*;
use crate::binario::{align4, alineado4, escribir_u32, le_u32, leer_u32, u32_de_le,
    lema_le_u32_ida_y_vuelta};

verus! {

/// Número mágico `glTF` leído en little-endian.
pub const MAGIA_GLB: u32 = 0x46546C67;

/// Versión del contenedor que se escribe.
pub const VERSION_GLB: u32 = 2;

/// Tipo del trozo JSON (`JSON` en little-endian).
pub const TROZO_JSON: u32 = 0x4E4F534A;

/// Tipo del trozo binario (`BIN\0` en little-endian).
pub const TROZO_BIN: u32 = 0x004E4942;

/// Por qué un archivo no se pudo leer como GLB.
#[derive(Debug, Clone, Copy, PartialEq, Eq)]
pub enum ErrorGlb {
    /// Menos de 12 bytes, o no empieza por `glTF`.
    NoEsGlb,
    /// Un trozo declara más bytes de los que quedan.
    Corrupto,
}

/// `n` copias del byte `b`.
pub open spec fn relleno(n: int, b: u8) -> Seq<u8> {
    Seq::new(n as nat, |_i: int| b)
}

/// Longitud total del archivo que empaqueta `nj` bytes de JSON y `nb` de binario.
pub open spec fn longitud_glb(nj: int, nb: int) -> int {
    12 + 8 + alineado4(nj) + 8 + alineado4(nb)
}

/// Los bytes del archivo GLB con el JSON `json` y el búfer binario `bin`.
pub open spec fn glb(json: Seq<u8>, bin: Seq<u8>) -> Seq<u8> {
    let nj = alineado4(json.len() as int);
    let nb = alineado4(bin.len() as int);
    le_u32(MAGIA_GLB) + le_u32(VERSION_GLB) + le_u32(longitud_glb(json.len() as int, bin.len() as int) as u32)
        + le_u32(nj as u32) + le_u32(TROZO_JSON) + json + relleno(nj - json.len(), 0x20u8)
        + le_u32(nb as u32) + le_u32(TROZO_BIN) + bin + relleno(nb - bin.len(), 0u8)
}

/// La cabecera de `b` es la de un GLB.
pub open spec fn cabecera_glb(b: Seq<u8>) -> bool {
    b.len() >= 12 && u32_de_le(b[0], b[1], b[2], b[3]) == MAGIA_GLB
}

/// Recorre los trozos desde `pos`; `json` es el contenido del último trozo
/// JSON visto. `None` si algún trozo se sale del archivo.
pub open spec fn trozos_json(b: Seq<u8>, pos: int, json: Seq<u8>) -> Option<Seq<u8>>
    decreases b.len() - pos,
{
    if pos < 0 || pos + 8 > b.len() {
        Some(json)
    } else {
        let n = u32_de_le(b[pos], b[pos + 1], b[pos + 2], b[pos + 3]) as int;
        let tipo = u32_de_le(b[pos + 4], b[pos + 5], b[pos + 6], b[pos + 7]);
        let ini = pos + 8;
        if ini + n > b.len() {
            None
        } else {
            trozos_json(b, ini + n, if tipo == TROZO_JSON { b.subrange(ini, ini + n) } else { json })
        }
    }
}

/// El JSON que guarda un archivo GLB: el del último trozo JSON, o vacío si no hay.
pub open spec fn json_de_glb(b: Seq<u8>) -> Option<Seq<u8>> {
    if cabecera_glb(b) {
        trozos_json(b, 12, Seq::empty())
    } else {
        None
    }
}

/// Añade `n` copias de `b` a `out`.
fn rellenar(out: &mut Vec<u8>, n: usize, b: u8)
    ensures
        final(out)@ == old(out)@ + relleno(n as int, b),
{
    let ghost inicio = out@;
    let mut i: usize = 0;
    while i < n
        invariant
            i <= n,
            out@ == inicio + relleno(i as int, b),
        decreases n - i,
    {
        out.push(b);
        i = i + 1;
        assert(out@ =~= inicio + relleno(i as int, b));
    }
}

/// Añade a `out` los bytes de `datos`.
fn anadir(out: &mut Vec<u8>, datos: &[u8])
    ensures
        final(out)@ == old(out)@ + datos@,
{
    let ghost inicio = out@;
    let mut i: usize = 0;
    while i < datos.len()
        invariant
            i <= datos@.len(),
            out@ == inicio + datos@.subrange(0, i as int),
        decreases datos@.len() - i,
    {
        out.push(datos[i]);
        i = i + 1;
        assert(out@ =~= inicio + datos@.subrange(0, i as int));
    }
    assert(datos@.subrange(0, datos@.len() as int) =~= datos@);
}

/// Empaqueta el JSON del documento y su búfer binario en un archivo GLB.
pub fn empaquetar_glb(json: &[u8], bin: &[u8]) -> (out: Vec<u8>)
    requires
        json@.len() + bin@.len() + 34 <= usize::MAX,
    ensures
        out@ == glb(json@, bin@),
{
    let nj = align4(json.len());
    let nb = align4(bin.len());
    let total: usize = 12 + 8 + nj + 8 + nb;
    let mut out: Vec<u8> = Vec::new();
    escribir_u32(&mut out, MAGIA_GLB);
    escribir_u32(&mut out, VERSION_GLB);
    escribir_u32(&mut out, total as u32);
    escribir_u32(&mut out, nj as u32);
    escribir_u32(&mut out, TROZO_JSON);
    anadir(&mut out, json);
    rellenar(&mut out, nj - json.len(), 0x20u8);
    escribir_u32(&mut out, nb as u32);
    escribir_u32(&mut out, TROZO_BIN);
    anadir(&mut out, bin);
    rellenar(&mut out, nb - bin.len(), 0u8);
    out
}

/// Copia `b[ini..fin]` en un vector nuevo.
fn copiar_rango(b: &[u8], ini: usize, fin: usize) -> (r: Vec<u8>)
    requires
        ini <= fin <= b@.len(),
    ensures
        r@ == b@.subrange(ini as int, fin as int),
{
    let mut r: Vec<u8> = Vec::new();
    let mut i: usize = ini;
    while i < fin
        invariant
            ini <= i <= fin <= b@.len(),
            r@ == b@.subrange(ini as int, i as int),
        decreases fin - i,
    {
        r.push(b[i]);
        i = i + 1;
        assert(r@ =~= b@.subrange(ini as int, i as int));
    }
    r
}

/// Extrae de un archivo GLB los bytes de su trozo JSON (el último, si hay
/// varios; vacío si no hay ninguno).
pub fn extraer_json_glb(bytes: &[u8]) -> (r: Result<Vec<u8>, ErrorGlb>)
    ensures
        match r {
            Ok(j) => json_de_glb(bytes@) == Some(j@),
            Err(ErrorGlb::NoEsGlb) => !cabecera_glb(bytes@),
            Err(ErrorGlb::Corrupto) => cabecera_glb(bytes@) && json_de_glb(bytes@) is None,
        },
{
    if bytes.len() < 12 || leer_u32(bytes, 0) != MAGIA_GLB {
        return Err(ErrorGlb::NoEsGlb);
    }
    let mut pos: usize = 12;
    let mut json: Vec<u8> = Vec::new();
    assert(json@ =~= Seq::<u8>::empty());
    while bytes.len() - pos >= 8
        invariant
            12 <= pos <= bytes@.len(),
            cabecera_glb(bytes@),
            json_de_glb(bytes@) == trozos_json(bytes@, pos as int, json@),
        decreases bytes@.len() - pos,
    {
        let n = leer_u32(bytes, pos) as usize;
        let tipo = leer_u32(bytes, pos + 4);
        let ini = pos + 8;
        if n > bytes.len() - ini {
            return Err(ErrorGlb::Corrupto);
        }
        if tipo == TROZO_JSON {
            json = copiar_rango(bytes, ini, ini + n);
        }
        pos = ini + n;
    }
    Ok(json)
}

/// Lo añadido al final de una concatenación se recupera con `subrange`.
proof fn lema_sufijo(a: Seq<u8>, b: Seq<u8>)
    ensures
        (a + b).subrange(a.len() as int, (a.len() + b.len()) as int) == b,
        (a + b).subrange(0, a.len() as int) == a,
        (a + b).len() == a.len() + b.len(),
{
    assert((a + b).subrange(a.len() as int, (a.len() + b.len()) as int) =~= b);
    assert((a + b).subrange(0, a.len() as int) =~= a);
}

/// Un prefijo de `s` lee lo mismo que `s` en sus posiciones.
proof fn lema_prefijo(s: Seq<u8>, p: Seq<u8>, k: int, x: u32)
    requires
        0 <= k,
        k + 4 <= p.len(),
        p.len() <= s.len(),
        s.subrange(0, p.len() as int) == p,
        p.subrange(k, k + 4) == le_u32(x),
    ensures
        s.subrange(k, k + 4) == le_u32(x),
{
    assert(s.subrange(k, k + 4) =~= p.subrange(k, k + 4)) by {
        assert forall|i: int| 0 <= i < 4 implies #[trigger] s.subrange(k, k + 4)[i] == p.subrange(k, k + 4)[i] by {
            assert(s[k + i] == s.subrange(0, p.len() as int)[k + i]);
        }
    }
}

/// Los cuatro bytes en `k` de `s` son `le_u32(x)`: entonces se leen como `x`.
proof fn lema_leer_en(s: Seq<u8>, k: int, x: u32)
    requires
        0 <= k,
        k + 4 <= s.len(),
        s.subrange(k, k + 4) == le_u32(x),
    ensures
        u32_de_le(s[k], s[k + 1], s[k + 2], s[k + 3]) == x,
{
    lema_le_u32_ida_y_vuelta(x);
    assert(s[k] == s.subrange(k, k + 4)[0]);
    assert(s[k + 1] == s.subrange(k, k + 4)[1]);
    assert(s[k + 2] == s.subrange(k, k + 4)[2]);
    assert(s[k + 3] == s.subrange(k, k + 4)[3]);
}

/// La pieza `b` de 4 bytes, añadida a `a`, se lee en `s` desde `a.len()`.
proof fn lema_pieza(s: Seq<u8>, a: Seq<u8>, x: u32)
    requires
        (a + le_u32(x)).len() <= s.len(),
        s.subrange(0, (a + le_u32(x)).len() as int) == a + le_u32(x),
    ensures
        u32_de_le(s[a.len() as int], s[a.len() as int + 1], s[a.len() as int + 2], s[a.len() as int + 3]) == x,
{
    lema_sufijo(a, le_u32(x));
    lema_prefijo(s, a + le_u32(x), a.len() as int, x);
    lema_leer_en(s, a.len() as int, x);
}

/// Si `p + q` es prefijo de `s`, también lo es `p`.
proof fn lema_prefijo_de_prefijo(s: Seq<u8>, p: Seq<u8>, q: Seq<u8>)
    requires
        (p + q).len() <= s.len(),
        s.subrange(0, (p + q).len() as int) == p + q,
    ensures
        s.subrange(0, p.len() as int) == p,
{
    assert(s.subrange(0, p.len() as int) =~= p) by {
        assert forall|i: int| 0 <= i < p.len() implies s.subrange(0, p.len() as int)[i] == p[i] by {
            assert(s[i] == s.subrange(0, (p + q).len() as int)[i]);
        }
    }
}

/// Leer el JSON de un archivo recién empaquetado devuelve ese mismo JSON,
/// seguido de los espacios que lo alinean a 4 bytes; la cabecera declara la
/// longitud exacta del archivo.
pub proof fn ley_glb_ida_y_vuelta(json: Seq<u8>, bin: Seq<u8>)
    requires
        longitud_glb(json.len() as int, bin.len() as int) <= u32::MAX,
    ensures
        glb(json, bin).len() == longitud_glb(json.len() as int, bin.len() as int),
        cabecera_glb(glb(json, bin)),
        u32_de_le(glb(json, bin)[8], glb(json, bin)[9], glb(json, bin)[10], glb(json, bin)[11])
            == longitud_glb(json.len() as int, bin.len() as int),
        json_de_glb(glb(json, bin))
            == Some(json + relleno(alineado4(json.len() as int) - json.len(), 0x20u8)),
{
    let g = glb(json, bin);
    let nj = alineado4(json.len() as int);
    let nb = alineado4(bin.len() as int);
    let total = longitud_glb(json.len() as int, bin.len() as int);
    let rj = relleno(nj - json.len(), 0x20u8);
    let rb = relleno(nb - bin.len(), 0u8);
    let p1 = le_u32(MAGIA_GLB);
    let p2 = p1 + le_u32(VERSION_GLB);
    let p3 = p2 + le_u32(total as u32);
    let p4 = p3 + le_u32(nj as u32);
    let p5 = p4 + le_u32(TROZO_JSON);
    let p6 = p5 + json;
    let p7 = p6 + rj;
    let p8 = p7 + le_u32(nb as u32);
    let p9 = p8 + le_u32(TROZO_BIN);
    let p10 = p9 + bin;
    assert(g == p10 + rb);
    assert(g.len() == total);
    lema_sufijo(p10, rb);
    lema_sufijo(p9, bin);
    lema_prefijo_de_prefijo(g, p9, bin);
    lema_pieza(g, p8, TROZO_BIN);
    lema_prefijo_de_prefijo(g, p8, le_u32(TROZO_BIN));
    lema_pieza(g, p7, nb as u32);
    lema_prefijo_de_prefijo(g, p7, le_u32(nb as u32));
    lema_prefijo_de_prefijo(g, p6, rj);
    lema_prefijo_de_prefijo(g, p5, json);
    lema_pieza(g, p4, TROZO_JSON);
    lema_prefijo_de_prefijo(g, p4, le_u32(TROZO_JSON));
    lema_pieza(g, p3, nj as u32);
    lema_prefijo_de_prefijo(g, p3, le_u32(nj as u32));
    lema_pieza(g, p2, total as u32);
    lema_prefijo_de_prefijo(g, p2, le_u32(total as u32));
    lema_prefijo_de_prefijo(g, p1, le_u32(VERSION_GLB));
    assert(le_u32(MAGIA_GLB) == Seq::<u8>::empty() + le_u32(MAGIA_GLB));
    lema_pieza(g, Seq::<u8>::empty(), MAGIA_GLB);
    let jr = g.subrange(20, 20 + nj);
    assert(jr =~= json + rj) by {
        assert forall|i: int| 0 <= i < nj implies jr[i] == (json + rj)[i] by {
            assert(g[20 + i] == g.subrange(0, p7.len() as int)[20 + i]);
            assert(p7 == p5 + (json + rj));
        }
    }
    let p = 20 + nj;
    assert(TROZO_BIN != TROZO_JSON);
    assert(trozos_json(g, total, jr) == Some(jr));
    assert(trozos_json(g, p, jr) == trozos_json(g, total, jr));
    assert(trozos_json(g, 12, Seq::empty()) == trozos_json(g, p, jr));
}

} // verus!
