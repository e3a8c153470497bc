//! Sharing a timeline: the link that carries it and the QR code of the link.
use crate::text::push_str;
use vstd::prelude::*;

verus! {

/// Address of the web app that opens shared timelines.
pub open spec fn share_base_url() -> Seq<char> {
    "https://myquest.waozi.xyz"@
}

/// The share link of an encoded timeline:
/// `https://myquest.waozi.xyz?y=<encoded>`.
pub fn share_url(encoded: &str) -> (r: String)
    ensures
        r@ == share_base_url() + "?y="@ + encoded@,
{
    let mut s = String::new();
    push_str(&mut s, "https://myquest.waozi.xyz");
    push_str(&mut s, "?y=");
    push_str(&mut s, encoded);
    s
}

/// What qrcode renders as SVG for `data` with the given minimum and maximum
/// image sizes, or `None` when the data does not fit in a QR code.
pub uninterp spec fn qr_svg_text(data: Seq<char>, min_size: u32, max_size: u32) -> Option<Seq<char>>;

/// `QrCode::new(data)` rendered with `render::<svg::Color>()`,
/// `min_dimensions`, `max_dimensions` and `build`. Trusted: the result is
/// qrcode's SVG, named `qr_svg_text`, or `None` when `QrCode::new` fails (the
/// data is too long). The sizes are kept small so that the renderer's size
/// arithmetic cannot overflow.
#[verifier::external_body]
fn qr_svg(data: &str, min_size: u32, max_size: u32) -> (r: Option<String>)
    requires
        min_size <= 10000,
        max_size <= 10000,
    ensures
        r is None ==> qr_svg_text(data@, min_size, max_size) is None,
        r matches Some(s) ==> qr_svg_text(data@, min_size, max_size) == Some(s@),
{
    qrcode::QrCode::new(data).ok().map(|code| {
        code.render::<qrcode::render::svg::Color<'_>>().min_dimensions(min_size, min_size).max_dimensions(
            max_size,
            max_size,
        ).build()
    })
}

/// The QR code of a share link as an SVG image between 200×200 and 250×250
/// pixels, or `None` when the link is too long for a QR code.
pub fn generate_qr_code(url: &str) -> (r: Option<String>)
    ensures
        r is None ==> qr_svg_text(url@, 200, 250) is None,
        r matches Some(s) ==> qr_svg_text(url@, 200, 250) == Some(s@),
{
    qr_svg(url, 200, 250)
}

} // verus!
