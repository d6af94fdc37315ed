# Simplified 3D

Modelador 3D sencillo: se colocan formas (cubo, cuboide, pirámide, esfera,
cilindro, cono, cápsula, plano), se pinta una textura por cara píxel a píxel,
se agrupan las formas y el proyecto se guarda como un archivo `.glb`
(glTF 2.0) que cualquier visor puede abrir y que el propio programa vuelve a
cargar.

## Organización

- `src/`: la biblioteca `simplified3d`, verificada con Verus. Contiene la
  lógica del modelador con sus contratos y sus leyes:
  - `binario`: enteros little-endian y alineación a 4 bytes.
  - `glb`: el contenedor GLB (empaquetar y leer el trozo JSON).
  - `gltf`: búfer binario del documento (vistas alineadas, índices, PNG).
  - `forma`: tipos de forma y de material, caras de los poliedros.
  - `mallas`: triángulos de las formas curvas.
  - `textura`: lienzos RGBA: crear, pintar, rellenar, redimensionar, voltear.
  - `escena`: formas, forma activa, grupos y las operaciones de edición.
  - `texto`: nombres de archivo seguros y nombres de formas, grupos y materiales.
  - `proyectos`: orden de la lista de proyectos.
  - `temporizador`: autoguardado con espera y repetición de botones.
  - `visor`: decisiones del visor 3D en cada fotograma.
- `app/`: el programa: ventana egui, visor kiss3d, geometría en números
  reales, documento JSON de glTF (serde_json) y lectura y escritura de
  archivos.
- `tests/`: pruebas de la biblioteca con valores concretos.
