use simplified3d::forma::FormaTipo;
use simplified3d::visor::{borde_cara, hay_que_reconstruir, refresco_texturas, Borde, Refresco};

#[test]
fn refresco_de_formas_con_varias_caras() {
    for t in [FormaTipo::Cubo, FormaTipo::Cuboide, FormaTipo::PirCuadrada, FormaTipo::Cilindro, FormaTipo::Cono] {
        assert_eq!(refresco_texturas(t, false, false), Refresco::Ninguno, "{t:?}");
        assert_eq!(refresco_texturas(t, true, false), Refresco::SubirTodas, "{t:?}");
        assert_eq!(refresco_texturas(t, false, true), Refresco::RecrearTodas, "{t:?}");
        assert_eq!(refresco_texturas(t, true, true), Refresco::RecrearTodas, "{t:?}");
    }
}

#[test]
fn refresco_de_formas_de_una_textura() {
    for t in [FormaTipo::Esfera, FormaTipo::Capsula, FormaTipo::Plano] {
        assert_eq!(refresco_texturas(t, false, false), Refresco::Ninguno, "{t:?}");
        assert_eq!(refresco_texturas(t, true, false), Refresco::RecrearPrimera, "{t:?}");
        assert_eq!(refresco_texturas(t, false, true), Refresco::RecrearPrimera, "{t:?}");
    }
}

#[test]
fn colores_de_borde() {
    assert_eq!(borde_cara(2, 2, 3, 3), Borde::Seleccionada);
    assert_eq!(borde_cara(2, 2, 1, 3), Borde::Activa);
    assert_eq!(borde_cara(1, 2, 3, 3), Borde::Inactiva);
    assert_eq!(borde_cara(0, 2, 0, 0), Borde::Inactiva);
}

#[test]
fn reconstruir_escena_del_visor() {
    assert!(!hay_que_reconstruir(false, 3, 3, 1, 1));
    assert!(hay_que_reconstruir(true, 3, 3, 1, 1));
    assert!(hay_que_reconstruir(false, 4, 3, 1, 1));
    assert!(hay_que_reconstruir(false, 3, 3, 0, 1));
}
