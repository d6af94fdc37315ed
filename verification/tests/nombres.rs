use simplified3d::texto::{
    caracter_saneado, escribir_decimal, nombrar_copia, nombrar_forma, nombrar_grupo, nombrar_material, sanitize_filename,
};

#[test]
fn nombres_de_archivo_seguros() {
    assert_eq!(sanitize_filename("Mi esfera"), "Mi_esfera");
    assert_eq!(sanitize_filename("Cápsula"), "Cápsula");
    assert_eq!(sanitize_filename("a/b.c-d_e"), "a_b_c-d_e");
    assert_eq!(sanitize_filename(""), "");
    let una = sanitize_filename("¿qué? ñandú 3");
    assert_eq!(una, "_qué__ñandú_3");
    assert_eq!(sanitize_filename(&una), una);
}

#[test]
fn caracter_sabiendo_si_es_alfanumerico() {
    assert_eq!(caracter_saneado('x', true), 'x');
    assert_eq!(caracter_saneado('.', false), '_');
    assert_eq!(caracter_saneado('-', false), '-');
}

#[test]
fn decimales() {
    for n in [0usize, 7, 10, 42, 1000, 98765, usize::MAX] {
        let mut s = String::from("#");
        escribir_decimal(&mut s, n);
        assert_eq!(s, format!("#{n}"));
    }
}

#[test]
fn nombres_de_grupo_y_material() {
    assert_eq!(nombrar_grupo(1), "Grupo 1");
    assert_eq!(nombrar_grupo(12), "Grupo 12");
    assert_eq!(nombrar_material("Cubo_pintado", 3), "Cubo_pintado_face_3");
}

#[test]
fn nombres_de_forma_y_copia() {
    assert_eq!(nombrar_forma(1), "Forma 1");
    assert_eq!(nombrar_forma(23), "Forma 23");
    assert_eq!(nombrar_copia("Mi esfera"), "Mi esfera (copia)");
    assert_eq!(nombrar_copia(&nombrar_copia("Cubo")), "Cubo (copia) (copia)");
}
