use simplified3d::binario::{align4, escribir_u32, leer_u32};
use simplified3d::glb::{empaquetar_glb, extraer_json_glb, ErrorGlb};
use simplified3d::gltf::{add_png_image, bytes_indices, push_buffer_view, ErrorImagen, ImagenGltf, VistaBuffer};

#[test]
fn align4_redondea_al_multiplo_de_cuatro() {
    assert_eq!(align4(0), 0);
    assert_eq!(align4(1), 4);
    assert_eq!(align4(3), 4);
    assert_eq!(align4(4), 4);
    assert_eq!(align4(5), 8);
    assert_eq!(align4(1001), 1004);
}

#[test]
fn u32_little_endian_ida_y_vuelta() {
    let mut v = Vec::new();
    escribir_u32(&mut v, 0x4E4F534A);
    assert_eq!(v, b"JSON".to_vec());
    escribir_u32(&mut v, 123456789);
    assert_eq!(leer_u32(&v, 0), 0x4E4F534A);
    assert_eq!(leer_u32(&v, 4), 123456789);
    assert_eq!(&v[4..8], &123456789u32.to_le_bytes());
}

#[test]
fn glb_ida_y_vuelta() {
    let json = br#"{"asset":{"version":"2.0"}}"#;
    let bin = [1u8, 2, 3, 4, 5];
    let out = empaquetar_glb(json, &bin);
    assert_eq!(&out[0..4], b"glTF");
    assert_eq!(leer_u32(&out, 4), 2);
    let nj = 28; // 27 bytes de JSON alineados a 4
    let nb = 8;
    assert_eq!(out.len(), 12 + 8 + nj + 8 + nb);
    assert_eq!(leer_u32(&out, 8) as usize, out.len());
    assert_eq!(leer_u32(&out, 12) as usize, nj);
    assert_eq!(&out[16..20], b"JSON");
    assert_eq!(&out[20 + nj + 4..20 + nj + 8], b"BIN\0");
    assert_eq!(&out[28 + nj..28 + nj + 5], &bin);
    assert_eq!(&out[28 + nj + 5..], &[0, 0, 0]);
    let leido = extraer_json_glb(&out).expect("glb válido");
    let mut esperado = json.to_vec();
    esperado.push(b' ');
    assert_eq!(leido, esperado);
}

#[test]
fn glb_sin_relleno_y_vacio() {
    let out = empaquetar_glb(b"{}  ", &[]);
    assert_eq!(out.len(), 12 + 8 + 4 + 8);
    assert_eq!(extraer_json_glb(&out).unwrap(), b"{}  ".to_vec());
    let solo_cabecera = empaquetar_glb(b"", b"");
    assert_eq!(solo_cabecera.len(), 28);
    assert_eq!(extraer_json_glb(&solo_cabecera).unwrap(), Vec::<u8>::new());
}

#[test]
fn glb_errores() {
    assert_eq!(extraer_json_glb(b"glTF"), Err(ErrorGlb::NoEsGlb));
    assert_eq!(extraer_json_glb(b"gltf\x02\0\0\0\x0c\0\0\0"), Err(ErrorGlb::NoEsGlb));
    let mut out = empaquetar_glb(b"{}", b"");
    // El trozo JSON declara más bytes de los que hay.
    out[12] = 200;
    assert_eq!(extraer_json_glb(&out), Err(ErrorGlb::Corrupto));
    // Una cabecera sin trozos es un GLB sin JSON.
    assert_eq!(extraer_json_glb(b"glTF\x02\0\0\0\x0c\0\0\0").unwrap(), Vec::<u8>::new());
}

#[test]
fn glb_ultimo_trozo_json() {
    let mut b = b"glTF\x02\0\0\0\0\0\0\0".to_vec();
    b.extend_from_slice(&[2, 0, 0, 0]);
    b.extend_from_slice(b"JSON");
    b.extend_from_slice(b"ab");
    b.extend_from_slice(&[1, 0, 0, 0]);
    b.extend_from_slice(b"JSON");
    b.extend_from_slice(b"c");
    b.extend_from_slice(&[1, 0, 0]); // trozo incompleto al final: se ignora
    assert_eq!(extraer_json_glb(&b).unwrap(), b"c".to_vec());
}

#[test]
fn vistas_alineadas() {
    let mut buffer = vec![9u8];
    let mut vistas: Vec<VistaBuffer> = Vec::new();
    let a = push_buffer_view(&mut buffer, &mut vistas, &[1, 2, 3], Some(34962));
    let b = push_buffer_view(&mut buffer, &mut vistas, &[4, 5], None);
    assert_eq!((a, b), (0, 1));
    assert_eq!(buffer, vec![9, 0, 0, 0, 1, 2, 3, 0, 4, 5]);
    assert_eq!(vistas[0], VistaBuffer { offset: 4, longitud: 3, destino: Some(34962) });
    assert_eq!(vistas[1], VistaBuffer { offset: 8, longitud: 2, destino: None });
}

#[test]
fn indices_en_little_endian() {
    assert_eq!(bytes_indices(&[1, 0x01020304]), vec![1, 0, 0, 0, 4, 3, 2, 1]);
    assert_eq!(bytes_indices(&[]), Vec::<u8>::new());
}

#[test]
fn png_de_una_textura() {
    let mut buffer = Vec::new();
    let mut vistas = Vec::new();
    let mut imagenes: Vec<ImagenGltf> = Vec::new();
    let pixeles = vec![255u8; 2 * 2 * 4 + 3];
    let i = add_png_image(&mut buffer, &mut vistas, &mut imagenes, &pixeles, 2, "cara").ok().unwrap();
    assert_eq!(i, 0);
    assert_eq!(imagenes[0].vista, 0);
    assert_eq!(imagenes[0].nombre, "cara");
    assert_eq!(&buffer[0..8], &[137, 80, 78, 71, 13, 10, 26, 10]);
    assert_eq!(vistas[0].longitud, buffer.len());
    assert!(buffer.len() > 16);

    let corta = vec![0u8; 15];
    match add_png_image(&mut buffer, &mut vistas, &mut imagenes, &corta, 2, "x") {
        Err(ErrorImagen::TexturaInvalida) => {}
        _ => panic!("textura corta aceptada"),
    }
    assert_eq!(imagenes.len(), 1);
}
