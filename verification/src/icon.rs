//! The window's icon: a PNG, checked before it is handed on.
use vstd::prelude::*;

verus! {

/// The largest width and height an icon may have.
pub const MAX_DIM: u32 = 1024;

/// An icon: rows of pixels, four bytes each.
#[derive(Debug, PartialEq, Eq)]
pub struct IconData {
    pub rgba: Vec<u8>,
    pub width: u32,
    pub height: u32,
}

/// A decoded picture: width, height and its bytes.
pub type Pixels = (u32, u32, Seq<u8>);

/// What the `image` crate makes of `bytes` as a PNG no wider and no higher than
/// `max_dim`, as pixels of four bytes; nothing where it refuses them.
pub uninterp spec fn png_pixels(bytes: Seq<u8>, max_dim: u32) -> Option<(u32, u32, Seq<u8>)>;

/// A decoded picture, by its bytes.
pub open spec fn pixels_of(decoded: Option<(u32, u32, Vec<u8>)>) -> Option<Pixels> {
    match decoded {
        Some(p) => Some((p.0, p.1, p.2@)),
        None => None,
    }
}

/// Calls `ImageReader::decode` of the `image` crate for a PNG, with `Limits` on
/// both dimensions, and then `into_rgba8`. The result depends on the bytes and the
/// limit alone; a picture that is refused is `None`, as is one that is wider or
/// higher than the limit.
#[verifier::external_body]
fn decode_png(bytes: &[u8], max_dim: u32) -> (r: Option<(u32, u32, Vec<u8>)>)
    ensures
        pixels_of(r) == png_pixels(bytes@, max_dim),
        r is Some ==> (r->0).0 <= max_dim && (r->0).1 <= max_dim,
{
    let mut reader =
        image::ImageReader::with_format(std::io::Cursor::new(bytes), image::ImageFormat::Png);
    let mut limits = image::Limits::default();
    limits.max_image_width = Some(max_dim);
    limits.max_image_height = Some(max_dim);
    reader.limits(limits);
    let rgba = reader.decode().ok()?.into_rgba8();
    let (width, height) = rgba.dimensions();
    Some((width, height, rgba.into_raw()))
}

/// Whether a picture can be an icon: it has pixels, and as many bytes as they
/// take.
pub open spec fn sound(p: Pixels) -> bool {
    p.0 > 0 && p.1 > 0 && p.2.len() == p.0 * p.1 * 4
}

/// An icon, by its bytes.
pub open spec fn icon_pixels(icon: Option<IconData>) -> Option<Pixels> {
    match icon {
        Some(i) => Some((i.width, i.height, i.rgba@)),
        None => None,
    }
}

/// The icon that a decoded picture is; `None` where it cannot be one.
pub fn icon_from(decoded: Option<(u32, u32, Vec<u8>)>) -> (r: Option<IconData>)
    ensures
        icon_pixels(r) == (match pixels_of(decoded) {
            Some(p) => if sound(p) {
                Some(p)
            } else {
                None
            },
            None => None,
        }),
{
    match decoded {
        Some((width, height, rgba)) => {
            if width == 0 || height == 0 {
                return None;
            }
            assert(0 <= (width as int) * (height as int) <= 0xffff_ffff * 0xffff_ffff)
                by (nonlinear_arith)
                requires
                    0 <= width <= 0xffff_ffff,
                    0 <= height <= 0xffff_ffff,
            ;
            if rgba.len() as u128 != (width as u128) * (height as u128) * 4 {
                return None;
            }
            Some(IconData { rgba, width, height })
        },
        None => None,
    }
}

/// Decodes the bytes of a PNG into an icon. Bytes that are no PNG, or one that is
/// too large or empty, lead to no icon.
pub fn decode(bytes: &[u8]) -> (r: Option<IconData>)
    ensures
        icon_pixels(r) == (match png_pixels(bytes@, MAX_DIM) {
            Some(p) => if sound(p) {
                Some(p)
            } else {
                None
            },
            None => None,
        }),
        r is Some ==> 0 < (r->0).width <= MAX_DIM && 0 < (r->0).height <= MAX_DIM,
{
    let decoded = decode_png(bytes, MAX_DIM);
    icon_from(decoded)
}

/// Whatever is decoded, an icon has a pixel at least and four bytes for each.
pub proof fn law_an_icon_is_never_empty(bytes: Seq<u8>)
    ensures
        match png_pixels(bytes, MAX_DIM) {
            Some(p) => sound(p) ==> p.2.len() >= 4,
            None => true,
        },
{
    match png_pixels(bytes, MAX_DIM) {
        Some(p) => {
            if sound(p) {
                assert(p.0 * p.1 >= 1) by (nonlinear_arith)
                    requires
                        p.0 >= 1,
                        p.1 >= 1,
                ;
            }
        },
        None => {},
    }
}

/// A picture is an icon exactly where it has a pixel and four bytes for each, no more
/// and no less.
pub proof fn law_an_icon_has_four_bytes_a_pixel(width: u32, height: u32, bytes: Seq<u8>)
    ensures
        sound((width, height, bytes)) <==> width > 0 && height > 0 && bytes.len() == 4 * (width
            * height),
        !sound((0, height, bytes)),
        !sound((width, 0, bytes)),
{
}

} // verus!
