use simplified3d::textura::{color_en, crear_pixeles, pintar_pincel, pintar_rect, redimensionar_pixeles, rellenar_cara};

fn pixel(c: &[u8], lado: usize, x: usize, y: usize) -> [u8; 4] {
    let i = (y * lado + x) * 4;
    [c[i], c[i + 1], c[i + 2], c[i + 3]]
}

#[test]
fn caras_nuevas_de_un_color() {
    let caras = crear_pixeles(&[128, 128, 128, 255], 8, 6);
    assert_eq!(caras.len(), 6);
    for c in &caras {
        assert_eq!(c.len(), 8 * 8 * 4);
        for px in c.chunks_exact(4) {
            assert_eq!(px, &[128, 128, 128, 255]);
        }
    }
    assert!(crear_pixeles(&[1, 2, 3, 4], 4, 0).is_empty());
}

#[test]
fn redimensionar_recorta_y_repite_el_borde() {
    let mut cara = Vec::new();
    for i in 0..4u8 {
        cara.extend_from_slice(&[i, i, i, 255]);
    }
    let mut caras = vec![cara.clone()];
    redimensionar_pixeles(&mut caras, 2, 3);
    let g = &caras[0];
    assert_eq!(g.len(), 3 * 3 * 4);
    assert_eq!(pixel(g, 3, 0, 0), [0, 0, 0, 255]);
    assert_eq!(pixel(g, 3, 1, 0), [1, 1, 1, 255]);
    assert_eq!(pixel(g, 3, 2, 0), [1, 1, 1, 255]);
    assert_eq!(pixel(g, 3, 0, 2), [2, 2, 2, 255]);
    assert_eq!(pixel(g, 3, 2, 2), [3, 3, 3, 255]);
    redimensionar_pixeles(&mut caras, 3, 2);
    assert_eq!(caras[0], cara);
    redimensionar_pixeles(&mut caras, 2, 2);
    assert_eq!(caras[0], cara);
    redimensionar_pixeles(&mut caras, 2, 1);
    assert_eq!(caras[0], vec![0, 0, 0, 255]);
    redimensionar_pixeles(&mut caras, 1, 0);
    assert!(caras[0].is_empty());
}

#[test]
fn pincel_pinta_su_cuadrado() {
    let mut cara = vec![0u8; 4 * 4 * 4];
    pintar_pincel(&mut cara, 4, 1, 1, 3, &[9, 8, 7, 6]);
    for y in 0..4 {
        for x in 0..4 {
            let dentro = x <= 2 && y <= 2;
            let esperado = if dentro { [9, 8, 7, 6] } else { [0, 0, 0, 0] };
            assert_eq!(pixel(&cara, 4, x, y), esperado, "({x}, {y})");
        }
    }
    // Pincel de 2 en la esquina: la mitad que sale del lienzo se pierde.
    let mut cara = vec![0u8; 4 * 4 * 4];
    pintar_pincel(&mut cara, 4, 3, 3, 2, &[1, 1, 1, 1]);
    assert_eq!(pixel(&cara, 4, 2, 2), [1, 1, 1, 1]);
    assert_eq!(pixel(&cara, 4, 3, 3), [1, 1, 1, 1]);
    assert_eq!(pixel(&cara, 4, 1, 1), [0, 0, 0, 0]);
    // Pincel de tamaño 0: no pinta.
    let mut cara = vec![0u8; 4 * 4 * 4];
    pintar_pincel(&mut cara, 4, 2, 2, 0, &[1, 1, 1, 1]);
    assert!(cara.iter().all(|&b| b == 0));
}

#[test]
fn rectangulo_y_relleno() {
    let mut cara = vec![0u8; 3 * 2 * 4];
    pintar_rect(&mut cara, 3, 1, 3, 1, 2, &[5, 5, 5, 5]);
    assert_eq!(pixel(&cara, 3, 0, 1), [0, 0, 0, 0]);
    assert_eq!(pixel(&cara, 3, 1, 1), [5, 5, 5, 5]);
    assert_eq!(pixel(&cara, 3, 2, 1), [5, 5, 5, 5]);
    assert_eq!(pixel(&cara, 3, 2, 0), [0, 0, 0, 0]);
    let mut c = vec![7u8; 10];
    rellenar_cara(&mut c, &[1, 2, 3, 4]);
    assert_eq!(c, vec![1, 2, 3, 4, 1, 2, 3, 4, 7, 7]);
}

#[test]
fn cuentagotas_opaco() {
    let mut cara = vec![0u8; 2 * 2 * 4];
    cara[12..16].copy_from_slice(&[10, 20, 30, 40]);
    assert_eq!(color_en(&cara, 2, 1, 1), [10, 20, 30, 255]);
    assert_eq!(color_en(&cara, 2, 0, 0), [0, 0, 0, 255]);
}
