//! Enteros en little-endian y alineación a 4 bytes.

use vstd::prelude::*;

verus! {

/// Los cuatro bytes little-endian de `x`.
pub open spec fn le_u32(x: u32) -> Seq<u8> {
    seq![
        (x & 0xff) as u8,
        ((x >> 8) & 0xff) as u8,
        ((x >> 16) & 0xff) as u8,
        ((x >> 24) & 0xff) as u8,
    ]
}

/// El `u32` que codifican cuatro bytes little-endian.
pub open spec fn u32_de_le(b0: u8, b1: u8, b2: u8, b3: u8) -> u32 {
    (b0 as u32) | ((b1 as u32) << 8) | ((b2 as u32) << 16) | ((b3 as u32) << 24)
}

/// Leer lo que se escribió en little-endian devuelve el mismo entero.
pub proof fn lema_le_u32_ida_y_vuelta(x: u32)
    ensures
        le_u32(x).len() == 4,
        u32_de_le(le_u32(x)[0], le_u32(x)[1], le_u32(x)[2], le_u32(x)[3]) == x,
{
    let b0 = (x & 0xff) as u8;
    let b1 = ((x >> 8) & 0xff) as u8;
    let b2 = ((x >> 16) & 0xff) as u8;
    let b3 = ((x >> 24) & 0xff) as u8;
    assert((b0 as u32) | ((b1 as u32) << 8) | ((b2 as u32) << 16) | ((b3 as u32) << 24) == x)
        by (bit_vector)
        requires
            b0 == (x & 0xff) as u8,
            b1 == ((x >> 8) & 0xff) as u8,
            b2 == ((x >> 16) & 0xff) as u8,
            b3 == ((x >> 24) & 0xff) as u8,
    ;
}

/// Múltiplo de 4 más pequeño que no es menor que `n`.
pub open spec fn alineado4(n: int) -> int {
    ((n + 3) / 4) * 4
}

/// Redondea `n` hacia arriba al siguiente múltiplo de 4.
pub fn align4(n: usize) -> (r: usize)
    requires
        n + 3 <= usize::MAX,
    ensures
        r == alineado4(n as int),
        r % 4 == 0,
        n <= r < n + 4,
{
    let m: usize = n + 3;
    let r: usize = m & !3usize;
    assert(m & !3usize == m - m % 4) by (bit_vector);
    r
}

/// Añade a `out` los cuatro bytes little-endian de `x`.
pub fn escribir_u32(out: &mut Vec<u8>, x: u32)
    ensures
        final(out)@ == old(out)@ + le_u32(x),
{
    out.push((x & 0xff) as u8);
    out.push(((x >> 8) & 0xff) as u8);
    out.push(((x >> 16) & 0xff) as u8);
    out.push(((x >> 24) & 0xff) as u8);
    assert(final(out)@ =~= old(out)@ + le_u32(x));
}

/// Lee el `u32` little-endian que empieza en `i`.
pub fn leer_u32(b: &[u8], i: usize) -> (x: u32)
    requires
        i + 4 <= b@.len(),
    ensures
        x == u32_de_le(b@[i as int], b@[i + 1], b@[i + 2], b@[i + 3]),
{
    (b[i] as u32) | ((b[i + 1] as u32) << 8) | ((b[i + 2] as u32) << 16) | ((b[i + 3] as u32) << 24)
}

} // verus!
