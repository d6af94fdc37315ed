//! Núcleo verificado de un modelador 3D sencillo: texturas por cara, topología
//! de mallas, agrupaciones de formas y el contenedor binario GLB.

pub mod binario;
pub mod escena;
pub mod forma;
pub mod glb;
pub mod gltf;
pub mod mallas;
pub mod texto;
pub mod proyectos;
pub mod temporizador;
pub mod textura;
pub mod visor;
