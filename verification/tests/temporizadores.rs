use simplified3d::temporizador::{Autoguardado, Repeticion};

#[test]
fn autoguardado_espera_a_que_se_asienten_los_cambios() {
    let mut a = Autoguardado::new();
    assert!(!a.paso(0, false, true, true));
    assert!(!a.paso(100, true, true, true));
    assert!(a.pendiente);
    assert_eq!(a.inicio, 100);
    assert!(!a.paso(200, true, true, true));
    assert!(!a.paso(1000, false, true, true));
    assert!(a.paso(1600, false, true, true));
    a.guardado();
    assert!(!a.paso(3000, false, true, true));
    // Sin ruta de proyecto no se pone en marcha.
    let mut b = Autoguardado::new();
    assert!(!b.paso(0, true, false, true));
    assert!(!b.pendiente);
    // Desactivado no guarda, aunque quede pendiente.
    let mut c = Autoguardado::new();
    c.paso(0, true, true, false);
    assert!(!c.paso(5000, false, true, false));
    assert!(c.pendiente);
    c.conmutar();
    assert!(!c.pendiente);
}

#[test]
fn boton_mantenido_repite() {
    let mut r = Repeticion::new();
    assert!(r.btn_held(1000, true));
    assert!(!r.btn_held(1100, true));
    assert!(r.btn_held(1400, true));
    assert!(!r.btn_held(1450, true));
    assert!(r.btn_held(1520, true));
    assert!(!r.btn_held(1560, true));
    assert!(r.btn_held(1600, true));
    assert!(!r.btn_held(1700, false));
    assert_eq!((r.inicio, r.ultimo), (0, 0));
    assert!(r.btn_held(1800, true));
}
