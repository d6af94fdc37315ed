use simplified3d::escena::{Escena, Forma};
use simplified3d::forma::FormaTipo;
use simplified3d::proyectos::ordenar_nombres;
use simplified3d::textura::{recordar_color, voltear_vertical};

#[test]
fn proyectos_en_orden() {
    let nombres = vec!["zeta".to_string(), "Alfa".to_string(), "beta".to_string(), "alfa".to_string(),
        "alfa".to_string(), "ñu".to_string(), "".to_string()];
    let mut esperado = nombres.clone();
    esperado.sort();
    assert_eq!(ordenar_nombres(nombres), esperado);
    assert!(ordenar_nombres(Vec::new()).is_empty());
}

#[test]
fn voltear_invierte_las_filas() {
    let mut cara = Vec::new();
    for i in 0..4u8 {
        cara.extend_from_slice(&[i, 10 + i, 20 + i, 255]);
    }
    let v = voltear_vertical(&cara, 2);
    assert_eq!(&v[0..8], &cara[8..16]);
    assert_eq!(&v[8..16], &cara[0..8]);
    assert_eq!(voltear_vertical(&v, 2), cara);
    assert!(voltear_vertical(&[], 0).is_empty());
}

#[test]
fn colores_guardados_sin_repetir() {
    let mut colores = Vec::new();
    recordar_color(&mut colores, [1, 2, 3, 255]);
    recordar_color(&mut colores, [4, 5, 6, 255]);
    recordar_color(&mut colores, [1, 2, 3, 255]);
    assert_eq!(colores, vec![[1, 2, 3, 255], [4, 5, 6, 255]]);
}

#[test]
fn miembros_de_un_grupo() {
    let f = |n: &str| Forma::new(FormaTipo::Plano, 2, n.to_string(), ());
    let mut e: Escena<(), ()> = Escena::new(f("a"), 2);
    e.agregar_forma(f("b"));
    e.agregar_forma(f("c"));
    e.crear_grupo(());
    e.asignar_grupo(0, Some(0));
    e.asignar_grupo(2, Some(0));
    e.asignar_grupo(1, Some(4));
    assert_eq!(e.formas_de_grupo(Some(0)), vec![0, 2]);
    assert_eq!(e.formas_de_grupo(None), Vec::<usize>::new());
    assert_eq!(e.grupo_padre(0), Some(0));
    assert_eq!(e.grupo_padre(1), None);
    e.asignar_grupo(1, None);
    assert_eq!(e.formas_de_grupo(None), vec![1]);
}
