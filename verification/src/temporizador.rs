//! Decisiones que dependen del tiempo (en milisegundos): el autoguardado con
//! retraso y la repetición de un botón mantenido.

use vstd::prelude::*;

verus! {

/// Espera, tras el último cambio, antes de autoguardar.
pub const ESPERA_AUTOGUARDADO_MS: u64 = 1500;

/// Tiempo mantenido a partir del cual el botón repite deprisa.
pub const UMBRAL_REPETICION_MS: u64 = 500;

/// Intervalo de repetición lenta.
pub const REPETICION_LENTA_MS: u64 = 400;

/// Intervalo de repetición rápida.
pub const REPETICION_RAPIDA_MS: u64 = 80;

/// Estado del autoguardado.
#[derive(Clone, Copy, Debug, PartialEq, Eq)]
pub struct Autoguardado {
    /// Hay cambios que guardar.
    pub pendiente: bool,
    /// Cuándo empezaron los cambios pendientes.
    pub inicio: u64,
    /// Si en el paso anterior había cambios sin asentar.
    pub sucio_antes: bool,
}

/// Estado tras observar la escena en el instante `ahora`.
pub open spec fn autoguardado_tras(st: Autoguardado, ahora: u64, sucio: bool, hay_ruta: bool) -> Autoguardado {
    let empieza = hay_ruta && !st.sucio_antes && sucio;
    Autoguardado {
        pendiente: st.pendiente || empieza,
        inicio: if empieza { ahora } else { st.inicio },
        sucio_antes: sucio,
    }
}

/// Hay que guardar ya: autoguardado activo, cambios pendientes ya
/// asentados y pasada la espera desde que empezaron.
pub open spec fn toca_guardar(st: Autoguardado, ahora: u64, sucio: bool, hay_ruta: bool, activo: bool) -> bool {
    let n = autoguardado_tras(st, ahora, sucio, hay_ruta);
    activo && n.pendiente && !sucio && hay_ruta && ahora >= n.inicio && ahora - n.inicio >= ESPERA_AUTOGUARDADO_MS
}

impl Autoguardado {
    /// Sin nada pendiente.
    pub fn new() -> (a: Self)
        ensures
            !a.pendiente && a.inicio == 0 && !a.sucio_antes,
    {
        Autoguardado { pendiente: false, inicio: 0, sucio_antes: false }
    }

    /// Observa la escena en `ahora` (sucia o no, con ruta de proyecto o no)
    /// y dice si hay que intentar guardarla.
    pub fn paso(&mut self, ahora: u64, sucio: bool, hay_ruta: bool, activo: bool) -> (guardar: bool)
        ensures
            *final(self) == autoguardado_tras(*old(self), ahora, sucio, hay_ruta),
            guardar == toca_guardar(*old(self), ahora, sucio, hay_ruta, activo),
    {
        if hay_ruta && !self.sucio_antes && sucio {
            self.pendiente = true;
            self.inicio = ahora;
        }
        self.sucio_antes = sucio;
        activo && self.pendiente && !sucio && hay_ruta && ahora >= self.inicio
            && ahora - self.inicio >= ESPERA_AUTOGUARDADO_MS
    }

    /// El guardado se hizo: ya no hay nada pendiente.
    pub fn guardado(&mut self)
        ensures
            *final(self) == (Autoguardado { pendiente: false, ..*old(self) }),
    {
        self.pendiente = false;
    }

    /// Se enciende o se apaga el autoguardado: lo pendiente se olvida.
    pub fn conmutar(&mut self)
        ensures
            *final(self) == (Autoguardado { pendiente: false, ..*old(self) }),
    {
        self.pendiente = false;
    }
}

/// Nunca se guarda una escena con cambios sin asentar ni antes de la espera,
/// y un primer cambio en un proyecto con ruta pone en marcha la espera.
pub proof fn ley_autoguardado(st: Autoguardado, ahora: u64, sucio: bool, hay_ruta: bool, activo: bool)
    ensures
        toca_guardar(st, ahora, sucio, hay_ruta, activo) ==> !sucio && activo && hay_ruta,
        toca_guardar(st, ahora, sucio, hay_ruta, activo) ==> ahora >= autoguardado_tras(st, ahora, sucio,
            hay_ruta).inicio + ESPERA_AUTOGUARDADO_MS,
        hay_ruta && !st.sucio_antes && sucio ==> autoguardado_tras(st, ahora, sucio, hay_ruta).pendiente
            && autoguardado_tras(st, ahora, sucio, hay_ruta).inicio == ahora
            && !toca_guardar(st, ahora, sucio, hay_ruta, activo),
{
}

/// Cada paso recuerda si la escena estaba sucia en ese paso; por eso, tras
/// un paso limpio, un cambio en un proyecto con ruta pone en marcha una
/// espera nueva desde ese instante, y un paso limpio pasada la espera
/// guarda (con el autoguardado activo), se hubiera guardado antes o no.
pub proof fn ley_autoguardado_tras_cada_cambio(st: Autoguardado, t1: u64, t2: u64, t3: u64, hay_ruta: bool,
    sucio: bool)
    ensures
        autoguardado_tras(st, t1, sucio, hay_ruta).sucio_antes == sucio,
        ({
            let limpio = autoguardado_tras(st, t1, false, hay_ruta);
            let editado = autoguardado_tras(limpio, t2, true, true);
            &&& editado.pendiente
            &&& editado.inicio == t2
            &&& (t3 >= t2 + ESPERA_AUTOGUARDADO_MS ==> toca_guardar(editado, t3, false, true, true))
        }),
{
}

/// Estado de un botón que repite mientras se mantiene pulsado (0 = suelto).
#[derive(Clone, Copy, Debug, PartialEq, Eq)]
pub struct Repeticion {
    pub inicio: u64,
    pub ultimo: u64,
}

/// El botón, pulsado en `ahora`, dispara: al pulsarlo, y luego cada
/// `REPETICION_LENTA_MS` hasta `UMBRAL_REPETICION_MS` y cada
/// `REPETICION_RAPIDA_MS` después.
pub open spec fn dispara(st: Repeticion, ahora: u64, pulsado: bool) -> bool {
    pulsado && (st.inicio == 0 || {
        let mantenido = ahora as int - st.inicio as int;
        let desde = ahora as int - st.ultimo as int;
        (mantenido < UMBRAL_REPETICION_MS && desde >= REPETICION_LENTA_MS)
            || (mantenido >= UMBRAL_REPETICION_MS && desde >= REPETICION_RAPIDA_MS)
    })
}

/// Estado del botón tras observarlo en `ahora`.
pub open spec fn repeticion_tras(st: Repeticion, ahora: u64, pulsado: bool) -> Repeticion {
    if !pulsado {
        Repeticion { inicio: 0, ultimo: 0 }
    } else if st.inicio == 0 {
        Repeticion { inicio: ahora, ultimo: ahora }
    } else if dispara(st, ahora, pulsado) {
        Repeticion { inicio: st.inicio, ultimo: ahora }
    } else {
        st
    }
}

impl Repeticion {
    /// Botón suelto.
    pub fn new() -> (r: Self)
        ensures
            r.inicio == 0 && r.ultimo == 0,
    {
        Repeticion { inicio: 0, ultimo: 0 }
    }

    /// Observa el botón en `ahora` y dice si cuenta como una pulsación.
    pub fn btn_held(&mut self, ahora: u64, pulsado: bool) -> (r: bool)
        ensures
            r == dispara(*old(self), ahora, pulsado),
            *final(self) == repeticion_tras(*old(self), ahora, pulsado),
    {
        if pulsado {
            if self.inicio == 0 {
                self.inicio = ahora;
                self.ultimo = ahora;
                return true;
            }
            let corto = ahora < self.inicio || ahora - self.inicio < UMBRAL_REPETICION_MS;
            let lenta = ahora >= self.ultimo && ahora - self.ultimo >= REPETICION_LENTA_MS;
            let rapida = ahora >= self.ultimo && ahora - self.ultimo >= REPETICION_RAPIDA_MS;
            if (corto && lenta) || (!corto && rapida) {
                self.ultimo = ahora;
                return true;
            }
            false
        } else {
            self.inicio = 0;
            self.ultimo = 0;
            false
        }
    }
}

/// Un botón suelto nunca dispara y vuelve al reposo; el primer instante en
/// que se pulsa, dispara.
pub proof fn ley_repeticion(st: Repeticion, ahora: u64)
    ensures
        !dispara(st, ahora, false),
        repeticion_tras(st, ahora, false) == (Repeticion { inicio: 0, ultimo: 0 }),
        st.inicio == 0 ==> dispara(st, ahora, true),
{
}

} // verus!
