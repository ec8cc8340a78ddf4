//! QR-code rendering for the device's display: the code itself comes from
//! the `qrcode` crate, its module image from the `image` crate; centering
//! it on the panel with a white border is done — and proved — here.

use vstd::prelude::*;
use crate::framebuffer::Dimensions;

verus! {

/// The white margin kept around the QR code on the panel, in pixels.
pub const QR_MARGIN: u32 = 8;

/// A rendered QR code: one luma byte per pixel, row-major.
pub struct QrImage {
    pub width: u32,
    pub height: u32,
    pub pixels: Vec<u8>,
}

impl QrImage {
    /// The pixel buffer covers the image exactly.
    pub open spec fn wf(self) -> bool {
        self.pixels@.len() == self.width * self.height
    }
}

#[verifier::external_type_specification]
#[verifier::external_body]
pub struct ExQrCode(qrcode::QrCode);

/// Relies on `qrcode::QrCode::new`: encodes the bytes into a QR code, or
/// fails when they cannot fit one.
#[verifier::external_body]
fn qr_code_new(text: &str) -> Option<qrcode::QrCode> {
    qrcode::QrCode::new(text).ok()
}

/// Relies on `qrcode::QrCode::with_error_correction_level`: like
/// `QrCode::new`, but with the lowest error-correction level, which fits
/// more data.
#[verifier::external_body]
fn qr_code_new_low_ec(text: &str) -> Option<qrcode::QrCode> {
    qrcode::QrCode::with_error_correction_level(text, qrcode::EcLevel::L).ok()
}

/// Relies on `qrcode::render::Renderer::build` with `image::Luma<u8>`
/// pixels: the module image of the code, sized close to `size`, dark
/// modules 0 and light ones 255; and on `image::ImageBuffer`, whose raw
/// container holds exactly one `u8` sample per pixel, row-major.
#[verifier::external_body]
fn qr_render_luma(code: &qrcode::QrCode, size: u32) -> (r: QrImage)
    ensures
        r.wf(),
{
    let image = code
        .render::<image::Luma<u8>>()
        .max_dimensions(size, size)
        .min_dimensions(size, size)
        .dark_color(image::Luma([0u8]))
        .light_color(image::Luma([255u8]))
        .build();
    let width = image.width();
    let height = image.height();
    QrImage { width, height, pixels: image.into_raw() }
}

/// Renders a QR code image for a text, preferring the default error
/// correction and falling back to the lowest level, as some payloads only
/// fit there. `None` when the text fits no QR code at all.
pub fn render_qr(text: &str, size: u32) -> (r: Option<QrImage>)
    ensures
        r matches Some(img) ==> img.wf(),
{
    let code = match qr_code_new(text) {
        Some(c) => c,
        None => {
            match qr_code_new_low_ec(text) {
                Some(c) => c,
                None => {
                    return None;
                },
            }
        },
    };
    Some(qr_render_luma(&code, size))
}

/// The pixel the composed panel buffer holds at `(x, y)`: inside the
/// margin-offset image area, the image's luma as gray; outside it, white.
pub open spec fn spec_panel_pixel(img: QrImage, x: int, y: int) -> (u8, u8, u8) {
    let qx = x - QR_MARGIN;
    let qy = y - QR_MARGIN;
    if 0 <= qx < img.width && 0 <= qy < img.height {
        let luma = img.pixels@[qy * img.width + qx];
        (luma, luma, luma)
    } else {
        (255u8, 255u8, 255u8)
    }
}

/// Composes the full panel buffer for a QR image: the image offset by the
/// margin, white everywhere else, row-major over the panel.
pub fn compose_qr_buffer(img: &QrImage, dimensions: Dimensions) -> (r: Vec<(u8, u8, u8)>)
    requires
        img.wf(),
        dimensions.width * dimensions.height <= usize::MAX,
    ensures
        r@.len() == dimensions.width * dimensions.height,
        forall|y: int, x: int|
            0 <= y < dimensions.height && 0 <= x < dimensions.width ==> r@[y * dimensions.width
                + x] == spec_panel_pixel(*img, x, y),
{
    let mut out: Vec<(u8, u8, u8)> = Vec::new();
    let mut y: u32 = 0;
    while y < dimensions.height
        invariant
            img.wf(),
            y <= dimensions.height,
            dimensions.width * dimensions.height <= usize::MAX,
            out@.len() == y * dimensions.width,
            forall|yy: int, xx: int|
                0 <= yy < y && 0 <= xx < dimensions.width ==> out@[yy * dimensions.width + xx]
                    == spec_panel_pixel(*img, xx, yy),
        decreases dimensions.height - y,
    {
        proof {
            assert((y + 1) * dimensions.width == y * dimensions.width + dimensions.width)
                by (nonlinear_arith);
            assert(y * dimensions.width + dimensions.width <= dimensions.height
                * dimensions.width) by (nonlinear_arith)
                requires
                    y < dimensions.height,
            ;
        }
        let mut x: u32 = 0;
        while x < dimensions.width
            invariant
                img.wf(),
                y < dimensions.height,
                x <= dimensions.width,
                dimensions.width * dimensions.height <= usize::MAX,
                y * dimensions.width + dimensions.width <= dimensions.width * dimensions.height,
                out@.len() == y * dimensions.width + x,
                forall|yy: int, xx: int|
                    0 <= yy < y && 0 <= xx < dimensions.width ==> out@[yy * dimensions.width + xx]
                        == spec_panel_pixel(*img, xx, yy),
                forall|xx: int|
                    0 <= xx < x ==> out@[y * dimensions.width + xx] == spec_panel_pixel(
                        *img,
                        xx,
                        y as int,
                    ),
            decreases dimensions.width - x,
        {
            let inside = x >= QR_MARGIN && y >= QR_MARGIN && x - QR_MARGIN < img.width && y
                - QR_MARGIN < img.height;
            let pixel: (u8, u8, u8) = if inside {
                let qx = x - QR_MARGIN;
                let qy = y - QR_MARGIN;
                let plen = img.pixels.len();
                proof {
                    assert(qy * img.width + qx < img.width * img.height) by (nonlinear_arith)
                        requires
                            qx < img.width,
                            qy < img.height,
                            0 <= qx,
                            0 <= qy,
                    ;
                    assert(img.pixels@.len() == img.width * img.height);
                    assert(qy * img.width + qx < plen);
                }
                let luma = img.pixels[(qy as usize) * (img.width as usize) + (qx as usize)];
                (luma, luma, luma)
            } else {
                (255u8, 255u8, 255u8)
            };
            let ghost out0 = out@;
            out.push(pixel);
            proof {
                assert(out@[y * dimensions.width + x] == spec_panel_pixel(*img, x as int,
                y as int));
                assert forall|yy: int, xx: int|
                    0 <= yy < y && 0 <= xx < dimensions.width implies out@[yy * dimensions.width
                    + xx] == spec_panel_pixel(*img, xx, yy) by {
                    assert(yy * dimensions.width + xx < y * dimensions.width) by (nonlinear_arith)
                        requires
                            0 <= yy < y,
                            0 <= xx < dimensions.width,
                    ;
                    assert(out@[yy * dimensions.width + xx] == out0[yy * dimensions.width + xx]);
                }
            }
            x = x + 1;
        }
        proof {
            assert forall|yy: int, xx: int|
                0 <= yy < y + 1 && 0 <= xx < dimensions.width implies out@[yy * dimensions.width
                + xx] == spec_panel_pixel(*img, xx, yy) by {
                if yy == y {
                    assert(out@[y * dimensions.width + xx] == spec_panel_pixel(
                        *img,
                        xx,
                        y as int,
                    ));
                }
            }
        }
        y = y + 1;
    }
    proof {
        assert(dimensions.height * dimensions.width == dimensions.width * dimensions.height)
            by (nonlinear_arith);
    }
    out
}

} // verus!
