//! Orden de la lista de proyectos guardados: orden lexicográfico por
//! caracteres (el de `str`).

use vstd::prelude::*;
use vstd::relations::{sorted_by, total_ordering};

verus! {

/// `a` va antes que `b` (o son iguales) en orden lexicográfico por puntos de código.
pub open spec fn lex_le(a: Seq<char>, b: Seq<char>) -> bool
    decreases a.len(),
{
    if a.len() == 0 {
        true
    } else if b.len() == 0 {
        false
    } else if a[0] < b[0] {
        true
    } else if a[0] > b[0] {
        false
    } else {
        lex_le(a.drop_first(), b.drop_first())
    }
}

/// El orden lexicográfico como relación.
pub open spec fn orden_lex() -> spec_fn(Seq<char>, Seq<char>) -> bool {
    |a: Seq<char>, b: Seq<char>| lex_le(a, b)
}

/// Vista de una lista de cadenas.
pub open spec fn vista_cadenas(v: Seq<String>) -> Seq<Seq<char>> {
    v.map_values(|s: String| s@)
}

proof fn lema_lex_reflexivo(a: Seq<char>)
    ensures
        lex_le(a, a),
    decreases a.len(),
{
    if a.len() > 0 {
        lema_lex_reflexivo(a.drop_first());
    }
}

proof fn lema_lex_total(a: Seq<char>, b: Seq<char>)
    ensures
        lex_le(a, b) || lex_le(b, a),
    decreases a.len(),
{
    if a.len() > 0 && b.len() > 0 {
        lema_lex_total(a.drop_first(), b.drop_first());
    }
}

proof fn lema_lex_antisimetrico(a: Seq<char>, b: Seq<char>)
    requires
        lex_le(a, b),
        lex_le(b, a),
    ensures
        a == b,
    decreases a.len(),
{
    if a.len() > 0 && b.len() > 0 {
        lema_lex_antisimetrico(a.drop_first(), b.drop_first());
        assert(a[0] == b[0]);
        assert(a =~= seq![a[0]] + a.drop_first());
        assert(b =~= seq![b[0]] + b.drop_first());
    }
}

proof fn lema_lex_transitivo(a: Seq<char>, b: Seq<char>, c: Seq<char>)
    requires
        lex_le(a, b),
        lex_le(b, c),
    ensures
        lex_le(a, c),
    decreases a.len(),
{
    if a.len() > 0 && b.len() > 0 && c.len() > 0 && a[0] == b[0] && b[0] == c[0] {
        lema_lex_transitivo(a.drop_first(), b.drop_first(), c.drop_first());
    }
}

/// El orden lexicográfico es un orden total.
pub proof fn ley_orden_lex_total()
    ensures
        total_ordering(orden_lex()),
{
    let r = orden_lex();
    assert forall|x: Seq<char>| #[trigger] r(x, x) by {
        lema_lex_reflexivo(x);
    }
    assert forall|x: Seq<char>, y: Seq<char>| #[trigger] r(x, y) && #[trigger] r(y, x) implies x == y by {
        lema_lex_antisimetrico(x, y);
    }
    assert forall|x: Seq<char>, y: Seq<char>, z: Seq<char>| #[trigger] r(x, y) && #[trigger] r(y, z) implies r(x, z) by {
        lema_lex_transitivo(x, y, z);
    }
    assert forall|x: Seq<char>, y: Seq<char>| #[trigger] r(x, y) || #[trigger] r(y, x) by {
        lema_lex_total(x, y);
    }
}

/// Con prefijos iguales, compararlas es comparar lo que sigue.
proof fn lema_lex_prefijo(a: Seq<char>, b: Seq<char>, i: int)
    requires
        0 <= i <= a.len(),
        i <= b.len(),
        forall|k: int| 0 <= k < i ==> a[k] == b[k],
    ensures
        lex_le(a, b) == lex_le(a.skip(i), b.skip(i)),
    decreases i,
{
    if i > 0 {
        assert(a[0] == b[0]);
        assert forall|k: int| 0 <= k < i - 1 implies #[trigger] a.drop_first()[k] == b.drop_first()[k] by {
            assert(a[k + 1] == b[k + 1]);
        }
        lema_lex_prefijo(a.drop_first(), b.drop_first(), i - 1);
        assert(a.drop_first().skip(i - 1) =~= a.skip(i));
        assert(b.drop_first().skip(i - 1) =~= b.skip(i));
    } else {
        assert(a.skip(0) =~= a);
        assert(b.skip(0) =~= b);
    }
}

/// Los caracteres de una cadena.
fn caracteres(s: &String) -> (r: Vec<char>)
    ensures
        r@ == s@,
{
    let mut r: Vec<char> = Vec::new();
    let t: &str = s.as_str();
    for c in it: t.chars()
        invariant
            t@ == s@,
            it.index@ <= t@.len(),
            it.seq() == t@,
            r@ == t@.subrange(0, it.index@ as int),
    {
        r.push(c);
        assert(r@ =~= t@.subrange(0, it.index@ + 1));
    }
    assert(s@.subrange(0, s@.len() as int) =~= s@);
    r
}

/// Si `a` va antes que `b` (o son iguales).
fn menor_o_igual(a: &Vec<char>, b: &Vec<char>) -> (r: bool)
    ensures
        r == lex_le(a@, b@),
{
    let mut i: usize = 0;
    while i < a.len() && i < b.len() && a[i] == b[i]
        invariant
            i <= a@.len(),
            i <= b@.len(),
            forall|k: int| 0 <= k < i ==> a@[k] == b@[k],
        decreases a@.len() - i,
    {
        i = i + 1;
    }
    proof {
        lema_lex_prefijo(a@, b@, i as int);
        if i < a@.len() && i < b@.len() {
            assert(a@.skip(i as int)[0] == a@[i as int]);
            assert(b@.skip(i as int)[0] == b@[i as int]);
        }
    }
    if i == a.len() {
        true
    } else if i == b.len() {
        false
    } else {
        a[i] < b[i]
    }
}

/// Ordena los nombres de proyecto en orden lexicográfico.
pub fn ordenar_nombres(nombres: Vec<String>) -> (r: Vec<String>)
    ensures
        sorted_by(vista_cadenas(r@), orden_lex()),
        vista_cadenas(r@).to_multiset() == vista_cadenas(nombres@).to_multiset(),
{
    proof {
        ley_orden_lex_total();
    }
    let mut r: Vec<String> = Vec::new();
    let mut claves: Vec<Vec<char>> = Vec::new();
    let mut i: usize = 0;
    assert(vista_cadenas(r@) =~= vista_cadenas(nombres@.subrange(0, 0)));
    while i < nombres.len()
        invariant
            i <= nombres@.len(),
            total_ordering(orden_lex()),
            claves@.len() == r@.len(),
            forall|k: int| 0 <= k < r@.len() ==> (#[trigger] claves@[k])@ == r@[k]@,
            sorted_by(vista_cadenas(r@), orden_lex()),
            vista_cadenas(r@).to_multiset() == vista_cadenas(nombres@.subrange(0, i as int)).to_multiset(),
        decreases nombres@.len() - i,
    {
        let s = nombres[i].clone();
        let c = caracteres(&s);
        let mut p: usize = 0;
        while p < r.len() && menor_o_igual(&claves[p], &c)
            invariant
                p <= r@.len(),
                claves@.len() == r@.len(),
                forall|k: int| 0 <= k < r@.len() ==> (#[trigger] claves@[k])@ == r@[k]@,
                forall|k: int| 0 <= k < p ==> lex_le(#[trigger] r@[k]@, c@),
            decreases r@.len() - p,
        {
            p = p + 1;
        }
        let ghost antes = vista_cadenas(r@);
        assert(p < r@.len() ==> !lex_le(r@[p as int]@, c@));
        r.insert(p, s);
        claves.insert(p, c);
        assert(vista_cadenas(r@) =~= antes.insert(p as int, c@));
        assert forall|a: int, b: int| 0 <= a < b < vista_cadenas(r@).len() implies #[trigger] orden_lex()(
            vista_cadenas(r@)[a], vista_cadenas(r@)[b]) by {
            let v = vista_cadenas(r@);
            if b < p {
                assert(v[a] == antes[a] && v[b] == antes[b]);
            } else if b == p {
                assert(v[a] == antes[a]);
            } else if a == p {
                assert(v[b] == antes[b - 1]);
                lema_lex_total(antes[p as int], c@);
                if p < b - 1 {
                    assert(orden_lex()(antes[p as int], antes[b - 1]));
                    lema_lex_transitivo(c@, antes[p as int], antes[b - 1]);
                }
            } else if a < p {
                assert(v[a] == antes[a] && v[b] == antes[b - 1]);
            } else {
                assert(v[a] == antes[a - 1] && v[b] == antes[b - 1]);
            }
        }
        assert(nombres@.subrange(0, i + 1) =~= nombres@.subrange(0, i as int).push(nombres@[i as int]));
        assert(vista_cadenas(nombres@.subrange(0, i + 1)) =~= vista_cadenas(nombres@.subrange(0, i as int)).push(c@));
        proof {
            vstd::seq_lib::to_multiset_build(vista_cadenas(nombres@.subrange(0, i as int)), c@);
            vstd::seq_lib::to_multiset_insert(antes, p as int, c@);
        }
        i = i + 1;
    }
    assert(nombres@.subrange(0, nombres@.len() as int) =~= nombres@);
    r
}

/// Dos listas ordenadas con los mismos nombres son la misma lista: el
/// resultado de ordenar no depende del orden de entrada.
pub proof fn ley_orden_unico(a: Seq<Seq<char>>, b: Seq<Seq<char>>)
    requires
        sorted_by(a, orden_lex()),
        sorted_by(b, orden_lex()),
        a.to_multiset() == b.to_multiset(),
    ensures
        a == b,
{
    ley_orden_lex_total();
    vstd::seq_lib::lemma_sorted_unique(a, b, orden_lex());
}

} // verus!
