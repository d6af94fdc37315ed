//! Nombres: nombres de archivo seguros, números en decimal y los nombres que
//! se dan a formas, copias, grupos y materiales.

use vstd::prelude::*;

verus! {

/// Si `char::is_alphanumeric` acepta el carácter (propiedades Unicode
/// «Alphabetic» o «Numeric»).
pub uninterp spec fn es_alfanumerico(c: char) -> bool;

/// Letra latina sin acento o dígito decimal.
pub open spec fn alfanumerico_ascii(c: char) -> bool {
    ('a' <= c <= 'z') || ('A' <= c <= 'Z') || ('0' <= c <= '9')
}

/// `char::is_alphanumeric`. Su resultado se nombra `es_alfanumerico`; para
/// los caracteres ASCII, que la documentación de Unicode fija, se dice cuál es.
#[verifier::external_body]
fn alfanumerico(c: char) -> (r: bool)
    ensures
        r == es_alfanumerico(c),
        (c as u32) < 128 ==> r == alfanumerico_ascii(c),
{
    c.is_alphanumeric()
}

/// `String::push`: añade un carácter al final.
#[verifier::external_body]
fn anadir_caracter(s: &mut String, c: char)
    ensures
        final(s)@ == old(s)@.push(c),
{
    s.push(c)
}

/// El carácter que queda en un nombre de archivo: se conservan letras,
/// dígitos, `-` y `_`; cualquier otro se cambia por `_`.
pub open spec fn saneado(c: char, alfanumerico: bool) -> char {
    if alfanumerico || c == '-' || c == '_' { c } else { '_' }
}

/// El nombre de archivo que sale de `s`.
pub open spec fn nombre_saneado(s: Seq<char>) -> Seq<char> {
    s.map_values(|c: char| saneado(c, es_alfanumerico(c)))
}

/// Sanea un carácter sabiendo si es alfanumérico.
pub fn caracter_saneado(c: char, alfanumerico: bool) -> (r: char)
    ensures
        r == saneado(c, alfanumerico),
{
    if alfanumerico || c == '-' || c == '_' { c } else { '_' }
}

/// Cambia por `_` todo carácter que no sea letra, dígito, `-` ni `_`.
pub fn sanitize_filename(s: &str) -> (r: String)
    ensures
        r@ == nombre_saneado(s@),
{
    let mut r = String::new();
    for c in it: s.chars()
        invariant
            it.index@ <= s@.len(),
            it.seq() == s@,
            r@ == nombre_saneado(s@.subrange(0, it.index@ as int)),
    {
        let a = alfanumerico(c);
        let d = caracter_saneado(c, a);
        anadir_caracter(&mut r, d);
        assert(nombre_saneado(s@.subrange(0, it.index@ + 1)) =~= nombre_saneado(
            s@.subrange(0, it.index@ as int)).push(d));
    }
    assert(s@.subrange(0, s@.len() as int) =~= s@);
    r
}

/// Sanear un nombre ya saneado no lo cambia, y el resultado tiene la misma
/// longitud que el nombre de partida.
pub proof fn ley_saneado_idempotente(s: Seq<char>)
    ensures
        nombre_saneado(nombre_saneado(s)) == nombre_saneado(s),
        nombre_saneado(s).len() == s.len(),
{
    assert(nombre_saneado(nombre_saneado(s)) =~= nombre_saneado(s));
}

/// El dígito decimal `d`.
pub open spec fn digito(d: int) -> char {
    if d == 0 { '0' } else if d == 1 { '1' } else if d == 2 { '2' } else if d == 3 { '3' }
    else if d == 4 { '4' } else if d == 5 { '5' } else if d == 6 { '6' } else if d == 7 { '7' }
    else if d == 8 { '8' } else { '9' }
}

/// Escritura decimal de `n`, sin ceros a la izquierda.
pub open spec fn decimal(n: nat) -> Seq<char>
    decreases n,
{
    if n < 10 {
        seq![digito(n as int)]
    } else {
        decimal(n / 10).push(digito((n % 10) as int))
    }
}

fn caracter_digito(d: usize) -> (c: char)
    requires
        d < 10,
    ensures
        c == digito(d as int),
{
    if d == 0 { '0' } else if d == 1 { '1' } else if d == 2 { '2' } else if d == 3 { '3' }
    else if d == 4 { '4' } else if d == 5 { '5' } else if d == 6 { '6' } else if d == 7 { '7' }
    else if d == 8 { '8' } else { '9' }
}

/// Añade a `s` la escritura decimal de `n`.
pub fn escribir_decimal(s: &mut String, n: usize)
    ensures
        final(s)@ == old(s)@ + decimal(n as nat),
    decreases n,
{
    if n >= 10 {
        escribir_decimal(s, n / 10);
    }
    let c = caracter_digito(n % 10);
    anadir_caracter(s, c);
    assert(final(s)@ =~= old(s)@ + decimal(n as nat));
}

/// Nombre de un grupo nuevo: `Grupo n`.
pub open spec fn nombre_grupo(n: nat) -> Seq<char> {
    seq!['G', 'r', 'u', 'p', 'o', ' '] + decimal(n)
}

/// El nombre `Grupo n`.
pub fn nombrar_grupo(n: usize) -> (r: String)
    ensures
        r@ == nombre_grupo(n as nat),
{
    let mut r = String::new();
    anadir_caracter(&mut r, 'G');
    anadir_caracter(&mut r, 'r');
    anadir_caracter(&mut r, 'u');
    anadir_caracter(&mut r, 'p');
    anadir_caracter(&mut r, 'o');
    anadir_caracter(&mut r, ' ');
    escribir_decimal(&mut r, n);
    assert(r@ =~= nombre_grupo(n as nat));
    r
}

/// Nombre de una forma nueva: `Forma n`.
pub open spec fn nombre_forma(n: nat) -> Seq<char> {
    seq!['F', 'o', 'r', 'm', 'a', ' '] + decimal(n)
}

/// El nombre `Forma n`.
pub fn nombrar_forma(n: usize) -> (r: String)
    ensures
        r@ == nombre_forma(n as nat),
{
    let mut r = String::new();
    anadir_caracter(&mut r, 'F');
    anadir_caracter(&mut r, 'o');
    anadir_caracter(&mut r, 'r');
    anadir_caracter(&mut r, 'm');
    anadir_caracter(&mut r, 'a');
    anadir_caracter(&mut r, ' ');
    escribir_decimal(&mut r, n);
    assert(r@ =~= nombre_forma(n as nat));
    r
}

/// Nombre de la copia de una forma: `nombre (copia)`.
pub open spec fn nombre_copia(nombre: Seq<char>) -> Seq<char> {
    nombre + seq![' ', '(', 'c', 'o', 'p', 'i', 'a', ')']
}

/// El nombre `nombre (copia)`.
pub fn nombrar_copia(nombre: &str) -> (r: String)
    ensures
        r@ == nombre_copia(nombre@),
{
    let mut r = String::new();
    r.append(nombre);
    anadir_caracter(&mut r, ' ');
    anadir_caracter(&mut r, '(');
    anadir_caracter(&mut r, 'c');
    anadir_caracter(&mut r, 'o');
    anadir_caracter(&mut r, 'p');
    anadir_caracter(&mut r, 'i');
    anadir_caracter(&mut r, 'a');
    anadir_caracter(&mut r, ')');
    assert(r@ =~= nombre_copia(nombre@));
    r
}

/// Nombre del material de la cara `i`: `base_face_i`.
pub open spec fn nombre_material(base: Seq<char>, i: nat) -> Seq<char> {
    base + seq!['_', 'f', 'a', 'c', 'e', '_'] + decimal(i)
}

/// El nombre `base_face_i`.
pub fn nombrar_material(base: &str, i: usize) -> (r: String)
    ensures
        r@ == nombre_material(base@, i as nat),
{
    let mut r = String::new();
    r.append(base);
    anadir_caracter(&mut r, '_');
    anadir_caracter(&mut r, 'f');
    anadir_caracter(&mut r, 'a');
    anadir_caracter(&mut r, 'c');
    anadir_caracter(&mut r, 'e');
    anadir_caracter(&mut r, '_');
    escribir_decimal(&mut r, i);
    assert(r@ =~= nombre_material(base@, i as nat));
    r
}

} // verus!
