use simplified3d::forma::{cara_visible, caras_por_defecto, face_count, indices_cara, FormaTipo};
use simplified3d::mallas::{push_cuad, topologia_anillos, topologia_esfera, topologia_forma, Topologia};

const TODOS: [FormaTipo; 8] = [
    FormaTipo::Cubo,
    FormaTipo::Cuboide,
    FormaTipo::PirCuadrada,
    FormaTipo::Esfera,
    FormaTipo::Cilindro,
    FormaTipo::Cono,
    FormaTipo::Capsula,
    FormaTipo::Plano,
];

#[test]
fn caras_por_tipo() {
    let esperado = [6, 6, 5, 1, 6, 5, 1, 1];
    for (t, n) in TODOS.iter().zip(esperado) {
        assert_eq!(face_count(*t), n, "{t:?}");
    }
}

#[test]
fn poliedros_por_defecto() {
    let cubo = caras_por_defecto(FormaTipo::Cubo);
    assert_eq!(cubo.len(), 6);
    assert_eq!(cubo[1], vec![5, 4, 7, 6]);
    assert_eq!(caras_por_defecto(FormaTipo::Cuboide), cubo);
    let pir = caras_por_defecto(FormaTipo::PirCuadrada);
    assert_eq!(pir.len(), face_count(FormaTipo::PirCuadrada));
    assert_eq!(pir[4], vec![4, 3, 2, 1]);
    assert!(caras_por_defecto(FormaTipo::Esfera).is_empty());
}

#[test]
fn triangular_caras() {
    assert_eq!(indices_cara(3), Some(vec![0, 1, 2]));
    assert_eq!(indices_cara(4), Some(vec![0, 1, 2, 0, 2, 3]));
    assert_eq!(indices_cara(5), None);
    assert_eq!(indices_cara(2), None);
}

#[test]
fn cara_visible_recorta() {
    assert_eq!(cara_visible(0, 6), 0);
    assert_eq!(cara_visible(5, 6), 5);
    assert_eq!(cara_visible(9, 6), 5);
    assert_eq!(cara_visible(3, 1), 0);
}

#[test]
fn cuadrilatero_en_dos_triangulos() {
    let mut v = vec![7];
    push_cuad(&mut v, 1, 2, 3, 4);
    assert_eq!(v, vec![7, 1, 3, 2, 3, 4, 2]);
}

fn comprobar(m: &Topologia) {
    assert!(m.vertices > 0);
    assert!(!m.indices.is_empty());
    assert_eq!(m.indices.len() % 3, 0);
    assert!(m.indices.iter().all(|&i| (i as usize) < m.vertices));
}

#[test]
fn topologia_mallas_validas() {
    let polos = [true, false, false, false, false, false, false, false, false, false, false, false,
        false, false, false, false, false, false, false, false, false, false, false, false, false, true];
    for tipo in [FormaTipo::Esfera, FormaTipo::Cilindro, FormaTipo::Cono, FormaTipo::Capsula, FormaTipo::Plano] {
        let mallas = topologia_forma(tipo, 24, &polos).expect("malla");
        assert_eq!(mallas.len(), face_count(tipo), "{tipo:?}");
        for m in &mallas {
            comprobar(m);
        }
    }
    assert!(topologia_forma(FormaTipo::Cubo, 24, &polos).is_none());
}

#[test]
fn esfera_de_cuatro_segmentos() {
    let e = topologia_esfera(4);
    assert_eq!(e.vertices, 3 * 5 + 2);
    assert_eq!(e.indices.len(), 3 * 4 + 6 * 4 * 2 + 3 * 4);
    assert_eq!(&e.indices[0..6], &[0, 2, 1, 0, 3, 2]);
    // Primera banda: anillos que empiezan en 1 y 6.
    assert_eq!(&e.indices[12..18], &[1, 2, 6, 2, 7, 6]);
    // Polo sur: último vértice, sobre el último anillo (empieza en 11).
    let n = e.indices.len();
    assert_eq!(&e.indices[n - 3..], &[16, 14, 15]);
    let pequena = topologia_esfera(1);
    assert_eq!(pequena.vertices, 2 * 4 + 2);
}

#[test]
fn cilindro_y_cono() {
    let c = topologia_forma(FormaTipo::Cilindro, 8, &[]).unwrap();
    assert_eq!(c[0].vertices, 10);
    assert_eq!(&c[0].indices[0..3], &[0, 2, 1]);
    assert_eq!(&c[1].indices[0..3], &[0, 1, 2]);
    assert_eq!(c[2].vertices, 6);
    assert_eq!(c[2].indices, vec![0, 1, 3, 1, 4, 3, 1, 2, 4, 2, 5, 4]);
    let k = topologia_forma(FormaTipo::Cono, 24, &[]).unwrap();
    assert_eq!(k.len(), 5);
    assert_eq!(k[0].vertices, 24 + 2);
    assert_eq!(k[1].vertices, 6 + 2);
}

#[test]
fn anillos_con_polos() {
    let t = topologia_anillos(&[true, false, true], 3);
    assert_eq!(t.vertices, 12);
    assert_eq!(&t.indices[0..3], &[0, 5, 4]);
    assert_eq!(&t.indices[9..12], &[8, 4, 5]);
    assert_eq!(t.indices.len(), 18);
    let sin_polos = topologia_anillos(&[false, false], 3);
    assert_eq!(sin_polos.indices.len(), 18);
    assert_eq!(&sin_polos.indices[0..6], &[0, 1, 4, 1, 5, 4]);
}
