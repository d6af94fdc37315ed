//! Búfer binario de un documento glTF: vistas alineadas a 4 bytes, índices
//! en little-endian e imágenes PNG de las texturas.

use vstd::prelude::*;
use crate::binario::{alineado4, escribir_u32, le_u32};
use crate::glb::relleno;

verus! {

#[verifier::external_type_specification]
#[verifier::external_body]
pub struct ExImageError(image::ImageError);

/// Una vista del búfer: `longitud` bytes desde `offset`, con el destino
/// (vértices o índices) que se declare.
#[derive(Clone, Copy, Debug, PartialEq, Eq)]
pub struct VistaBuffer {
    pub offset: usize,
    pub longitud: usize,
    pub destino: Option<u32>,
}

/// Una imagen PNG guardada en la vista `vista` del búfer.
pub struct ImagenGltf {
    pub vista: usize,
    pub nombre: String,
}

/// Por qué no se pudo guardar una textura como imagen.
pub enum ErrorImagen {
    /// Los píxeles no llegan para un lienzo de ese lado.
    TexturaInvalida,
    /// El codificador PNG falló.
    Png(image::ImageError),
}

/// Bytes que ocupan `n` índices de 32 bits en little-endian.
pub open spec fn le_indices(s: Seq<u32>) -> Seq<u8>
    decreases s.len(),
{
    if s.len() == 0 {
        Seq::empty()
    } else {
        le_indices(s.drop_last()) + le_u32(s.last())
    }
}

/// Codifica los índices en little-endian, cuatro bytes cada uno.
pub fn bytes_indices(indices: &[u32]) -> (r: Vec<u8>)
    ensures
        r@ == le_indices(indices@),
        r@.len() == 4 * indices@.len(),
{
    let mut r: Vec<u8> = Vec::new();
    let mut i: usize = 0;
    while i < indices.len()
        invariant
            i <= indices@.len(),
            r@ == le_indices(indices@.subrange(0, i as int)),
            r@.len() == 4 * i,
        decreases indices@.len() - i,
    {
        escribir_u32(&mut r, indices[i]);
        assert(indices@.subrange(0, i + 1).drop_last() =~= indices@.subrange(0, i as int));
        i = i + 1;
    }
    assert(indices@.subrange(0, indices@.len() as int) =~= indices@);
    r
}

/// El búfer tras añadir una vista: ceros hasta alinear a 4 y luego los datos.
pub open spec fn buffer_con_vista(buffer: Seq<u8>, datos: Seq<u8>) -> Seq<u8> {
    buffer + relleno(alineado4(buffer.len() as int) - buffer.len(), 0u8) + datos
}

/// Alinear: un múltiplo de 4 ya está alineado; si no, el siguiente byte
/// tiene la misma alineación y aún no la alcanza.
proof fn lema_alinear(n: int)
    requires
        0 <= n,
    ensures
        n % 4 == 0 ==> alineado4(n) == n,
        n % 4 != 0 ==> n < alineado4(n) && alineado4(n + 1) == alineado4(n),
        n <= alineado4(n) < n + 4,
        alineado4(n) % 4 == 0,
{
    vstd::arithmetic::div_mod::lemma_fundamental_div_mod(n + 3, 4);
    vstd::arithmetic::div_mod::lemma_fundamental_div_mod(n + 4, 4);
    vstd::arithmetic::div_mod::lemma_fundamental_div_mod(n, 4);
    vstd::arithmetic::div_mod::lemma_fundamental_div_mod_converse(alineado4(n), 4, (n + 3) / 4, 0);
    if n % 4 == 0 {
        vstd::arithmetic::div_mod::lemma_fundamental_div_mod_converse(n + 3, 4, n / 4, 3);
    } else {
        vstd::arithmetic::div_mod::lemma_fundamental_div_mod_converse(n + 3, 4, n / 4 + 1, n % 4 - 1);
        vstd::arithmetic::div_mod::lemma_fundamental_div_mod_converse(n + 4, 4, n / 4 + 1, n % 4);
    }
}

/// Añade `data` al búfer en una posición múltiplo de 4 y registra su vista;
/// devuelve la posición de la vista.
pub fn push_buffer_view(buffer: &mut Vec<u8>, views: &mut Vec<VistaBuffer>, data: &[u8], target: Option<u32>)
    -> (idx: usize)
    ensures
        final(buffer)@ == buffer_con_vista(old(buffer)@, data@),
        final(views)@ == old(views)@.push(VistaBuffer {
            offset: alineado4(old(buffer)@.len() as int) as usize,
            longitud: data@.len() as usize,
            destino: target,
        }),
        idx == old(views)@.len(),
{
    let ghost inicio = buffer@;
    proof {
        lema_alinear(inicio.len() as int);
    }
    while buffer.len() % 4 != 0
        invariant
            inicio.len() <= buffer@.len() <= alineado4(inicio.len() as int),
            alineado4(buffer@.len() as int) == alineado4(inicio.len() as int),
            buffer@ == inicio + relleno(buffer@.len() - inicio.len(), 0u8),
        decreases alineado4(inicio.len() as int) - buffer@.len(),
    {
        proof {
            lema_alinear(buffer@.len() as int);
        }
        buffer.push(0);
        assert(buffer@ =~= inicio + relleno(buffer@.len() - inicio.len(), 0u8));
    }
    proof {
        lema_alinear(buffer@.len() as int);
    }
    let offset = buffer.len();
    let ghost alineado = buffer@;
    let mut i: usize = 0;
    while i < data.len()
        invariant
            i <= data@.len(),
            buffer@ == alineado + data@.subrange(0, i as int),
        decreases data@.len() - i,
    {
        buffer.push(data[i]);
        i = i + 1;
        assert(buffer@ =~= alineado + data@.subrange(0, i as int));
    }
    assert(data@.subrange(0, data@.len() as int) =~= data@);
    views.push(VistaBuffer { offset, longitud: data.len(), destino: target });
    views.len() - 1
}

/// Cada vista registrada apunta a sus datos dentro del búfer, alineada a 4.
pub open spec fn vistas_validas(buffer: Seq<u8>, vistas: Seq<VistaBuffer>, datos: Seq<Seq<u8>>) -> bool {
    &&& vistas.len() == datos.len()
    &&& forall|k: int| 0 <= k < vistas.len() ==> {
        let v = #[trigger] vistas[k];
        &&& v.offset % 4 == 0
        &&& v.offset + v.longitud <= buffer.len()
        &&& buffer.subrange(v.offset as int, v.offset + v.longitud) == datos[k]
    }
}

/// Añadir una vista conserva las anteriores y la nueva empieza en múltiplo
/// de 4 y contiene exactamente los datos añadidos.
pub proof fn ley_push_buffer_view(buffer: Seq<u8>, vistas: Seq<VistaBuffer>, datos: Seq<Seq<u8>>, data: Seq<u8>,
    target: Option<u32>)
    requires
        vistas_validas(buffer, vistas, datos),
        buffer.len() + 3 + data.len() <= usize::MAX,
    ensures
        vistas_validas(
            buffer_con_vista(buffer, data),
            vistas.push(VistaBuffer {
                offset: alineado4(buffer.len() as int) as usize,
                longitud: data.len() as usize,
                destino: target,
            }),
            datos.push(data),
        ),
{
    let nb = buffer_con_vista(buffer, data);
    let a = alineado4(buffer.len() as int);
    let nv = vistas.push(VistaBuffer { offset: a as usize, longitud: data.len() as usize, destino: target });
    assert(nb.len() == a + data.len());
    assert forall|k: int| 0 <= k < nv.len() implies {
        let v = #[trigger] nv[k];
        &&& v.offset % 4 == 0
        &&& v.offset + v.longitud <= nb.len()
        &&& nb.subrange(v.offset as int, v.offset + v.longitud) == datos.push(data)[k]
    } by {
        if k < vistas.len() {
            let v = vistas[k];
            assert(nb.subrange(v.offset as int, v.offset + v.longitud) =~= buffer.subrange(v.offset as int,
                v.offset + v.longitud));
        } else {
            assert(nb.subrange(a, a + data.len()) =~= data);
        }
    }
}

/// El PNG (RGBA de 8 bits) que produce el codificador de `image` para un
/// lienzo de `lado × lado` píxeles, o `None` si el codificador falla.
pub uninterp spec fn png_rgba(pixeles: Seq<u8>, lado: u32) -> Option<Seq<u8>>;

/// `image::write_buffer_with_format` con formato PNG y color RGBA de 8 bits,
/// escribiendo en memoria. El resultado se nombra `png_rgba`; la longitud de
/// los píxeles debe ser exactamente la del lienzo (si no, el codificador se
/// detiene con un pánico).
#[verifier::external_body]
fn codificar_png(pixeles: &[u8], lado: u32) -> (r: Result<Vec<u8>, image::ImageError>)
    requires
        pixeles@.len() == 4 * lado * lado,
    ensures
        (r is Ok) == (png_rgba(pixeles@, lado) is Some),
        r matches Ok(png) ==> png_rgba(pixeles@, lado) == Some(png@),
{
    let mut cursor = std::io::Cursor::new(Vec::new());
    image::write_buffer_with_format(&mut cursor, pixeles, lado, lado, image::ExtendedColorType::Rgba8,
        image::ImageFormat::Png)?;
    Ok(cursor.into_inner())
}

/// Bytes que ocupa un lienzo RGBA de `lado × lado`, si cabe en `usize`.
pub open spec fn bytes_rgba(lado: u32) -> Option<int> {
    if 4 * lado * lado <= usize::MAX { Some(4 * lado * lado) } else { None }
}

/// Guarda la textura como PNG en el búfer y registra la imagen; devuelve su
/// posición. Solo se codifican los primeros `4·lado²` bytes.
pub fn add_png_image(
    buffer: &mut Vec<u8>,
    views: &mut Vec<VistaBuffer>,
    images: &mut Vec<ImagenGltf>,
    pixeles: &[u8],
    tex_size: u32,
    nombre: &str,
) -> (r: Result<usize, ErrorImagen>)
    ensures
        match r {
            Ok(idx) => {
                &&& bytes_rgba(tex_size) matches Some(n) && n <= pixeles@.len()
                &&& png_rgba(pixeles@.subrange(0, 4 * tex_size * tex_size), tex_size) matches Some(png)
                &&& final(buffer)@ == buffer_con_vista(old(buffer)@, png)
                &&& final(views)@ == old(views)@.push(VistaBuffer {
                    offset: alineado4(old(buffer)@.len() as int) as usize,
                    longitud: png.len() as usize,
                    destino: None,
                })
                &&& final(images)@.len() == old(images)@.len() + 1
                &&& final(images)@.subrange(0, old(images)@.len() as int) == old(images)@
                &&& final(images)@[idx as int].vista == old(views)@.len()
                &&& final(images)@[idx as int].nombre@ == nombre@
                &&& idx == old(images)@.len()
            },
            Err(ErrorImagen::TexturaInvalida) => {
                &&& !(bytes_rgba(tex_size) matches Some(n) && n <= pixeles@.len())
                &&& final(buffer)@ == old(buffer)@
                &&& final(views)@ == old(views)@
                &&& final(images)@ == old(images)@
            },
            Err(ErrorImagen::Png(_)) => {
                &&& bytes_rgba(tex_size) matches Some(n) && n <= pixeles@.len()
                &&& png_rgba(pixeles@.subrange(0, 4 * tex_size * tex_size), tex_size) is None
                &&& final(buffer)@ == old(buffer)@
                &&& final(views)@ == old(views)@
                &&& final(images)@ == old(images)@
            },
        },
{
    let lado = tex_size as usize;
    let cuatro: usize = 4;
    let fila = match cuatro.checked_mul(lado) {
        Some(a) => a,
        None => {
            assert(4 * tex_size * tex_size > usize::MAX) by (nonlinear_arith)
                requires 4 * lado > usize::MAX, lado == tex_size;
            return Err(ErrorImagen::TexturaInvalida);
        },
    };
    let n = match fila.checked_mul(lado) {
        Some(n) => n,
        None => {
            return Err(ErrorImagen::TexturaInvalida);
        },
    };
    if n > pixeles.len() {
        return Err(ErrorImagen::TexturaInvalida);
    }
    let datos = vstd::slice::slice_subrange(pixeles, 0, n);
    let png = match codificar_png(datos, tex_size) {
        Ok(png) => png,
        Err(e) => {
            return Err(ErrorImagen::Png(e));
        },
    };
    let vista = push_buffer_view(buffer, views, png.as_slice(), None);
    images.push(ImagenGltf { vista, nombre: String::from_str(nombre) });
    assert(images@.subrange(0, old(images)@.len() as int) =~= old(images)@);
    Ok(images.len() - 1)
}

} // verus!
