use simplified3d::escena::{Escena, Forma, Grupo};
use simplified3d::forma::{FormaTipo, MaterialTipo};

fn forma(nombre: &str, tipo: FormaTipo) -> Forma<u32> {
    Forma::new(tipo, 4, nombre.to_string(), 0)
}

fn escena() -> Escena<u32, u32> {
    let mut e = Escena::new(forma("Forma 1", FormaTipo::Cubo), 4);
    e.agregar_forma(forma("Forma 2", FormaTipo::Esfera));
    e.agregar_forma(forma("Forma 3", FormaTipo::Cono));
    e
}

#[test]
fn forma_nueva() {
    let f = forma("x", FormaTipo::Cilindro);
    assert_eq!(f.pixeles.len(), 6);
    assert!(f.pixeles.iter().all(|c| c.len() == 4 * 4 * 4));
    assert!(f.pixeles[0].chunks(4).all(|p| p == [128, 128, 128, 255]));
    assert_eq!(f.material, MaterialTipo::Plastico);
    assert!(f.grupo.is_none() && !f.bloqueada && !f.oculta);
    assert_eq!(f.caras.len(), 0);
    assert_eq!(forma("c", FormaTipo::Cubo).caras.len(), 6);
}

#[test]
fn crear_y_borrar_grupos() {
    let mut e = escena();
    assert_eq!(e.forma_activa, 2);
    assert_eq!(e.crear_grupo(10), 0);
    assert_eq!(e.crear_grupo(20), 1);
    assert_eq!(e.crear_grupo(30), 2);
    assert_eq!(e.grupos[1].nombre, "Grupo 2");
    e.asignar_grupo(0, Some(0));
    e.asignar_grupo(1, Some(1));
    e.asignar_grupo(2, Some(2));
    e.asignar_grupo(7, Some(1));
    e.borrar_grupo(1);
    assert_eq!(e.grupos.len(), 2);
    assert_eq!(e.grupos[1].transformacion, 30);
    assert_eq!(e.formas[0].grupo, Some(0));
    assert_eq!(e.formas[1].grupo, None);
    assert_eq!(e.formas[2].grupo, Some(1));
    e.borrar_grupo(5);
    assert_eq!(e.grupos.len(), 2);
    assert_eq!(e.crear_grupo(40), 2);
    assert_eq!(e.grupos[2].nombre, "Grupo 3");
}

#[test]
fn borrar_formas_mantiene_la_activa() {
    let mut e = escena();
    e.forma_activa = 1;
    e.borrar_forma(0);
    assert_eq!(e.forma_activa, 0);
    assert_eq!(e.formas[0].nombre, "Forma 2");
    e.borrar_forma(0);
    assert_eq!(e.forma_activa, 0);
    assert_eq!(e.formas.len(), 1);
    assert_eq!(e.formas[0].nombre, "Forma 3");

    let mut e = escena();
    e.borrar_forma(2);
    assert_eq!(e.forma_activa, 1);
    let copia = e.formas[0].clone();
    e.insertar_copia(0, copia);
    assert_eq!(e.forma_activa, 1);
    assert_eq!(e.formas.len(), 3);
    assert_eq!(e.formas[1].nombre, "Forma 1");
}

#[test]
fn aplicar_proyecto_recorta_la_activa() {
    let mut e = escena();
    let formas = vec![forma("a", FormaTipo::Plano), forma("b", FormaTipo::Plano)];
    e.aplicar_proyecto(formas, 9, vec![Grupo { nombre: "g".to_string(), transformacion: 1 }], 8);
    assert_eq!(e.forma_activa, 1);
    assert_eq!(e.tex_size, 8);
    assert_eq!(e.grupos.len(), 1);
    e.aplicar_proyecto(Vec::new(), 3, Vec::new(), 8);
    assert_eq!(e.forma_activa, 0);
}

#[test]
fn cambiar_tamano_de_textura() {
    let mut e = escena();
    e.cambiar_tex_size(8);
    assert_eq!(e.tex_size, 8);
    for f in &e.formas {
        assert!(f.pixeles.iter().all(|c| c.len() == 8 * 8 * 4));
    }
    e.cambiar_tex_size(4);
    assert_eq!(e.formas[0].pixeles[0], forma("x", FormaTipo::Cubo).pixeles[0]);
}

#[test]
fn pintar_la_cara_seleccionada() {
    let mut e = escena();
    e.forma_activa = 0;
    e.formas[0].cara_sel = 9;
    e.pintar(0, 0, 1, &[1, 2, 3, 4]);
    assert_eq!(&e.formas[0].pixeles[5][0..4], &[1, 2, 3, 4]);
    assert_eq!(&e.formas[0].pixeles[0][0..4], &[128, 128, 128, 255]);
    assert_eq!(e.tomar_color(0, 0), [1, 2, 3, 255]);
    e.formas[0].bloqueada = true;
    e.pintar(1, 1, 1, &[9, 9, 9, 9]);
    e.limpiar_cara(&[0, 0, 0, 0]);
    e.llenar_todo(&[0, 0, 0, 0]);
    assert_eq!(e.tomar_color(1, 1), [128, 128, 128, 255]);
    e.formas[0].bloqueada = false;
    e.limpiar_cara(&[7, 7, 7, 7]);
    assert!(e.formas[0].pixeles[5].iter().all(|&b| b == 7));
    assert_eq!(&e.formas[0].pixeles[4][0..4], &[128, 128, 128, 255]);
    e.llenar_todo(&[5, 5, 5, 5]);
    assert!(e.formas[0].pixeles.iter().all(|c| c.iter().all(|&b| b == 5)));
    assert_eq!(&e.formas[1].pixeles[0][0..4], &[128, 128, 128, 255]);
}

#[test]
fn el_cuentagotas_lee_lo_pintado() {
    let mut e = escena();
    e.forma_activa = 2;
    e.formas[2].cara_sel = 1;
    for (px, py, t) in [(3usize, 3usize, 3usize), (0, 2, 2), (2, 1, 8)] {
        let color = [px as u8 * 10, py as u8 * 10, t as u8, 0];
        e.pintar(px, py, t, &color);
        assert_eq!(e.tomar_color(px, py), [color[0], color[1], color[2], 255]);
    }
    assert_eq!(&e.formas[2].pixeles[0][0..4], &[128, 128, 128, 255]);
}
