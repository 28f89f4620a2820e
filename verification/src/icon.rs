//! Icon extraction model: the typed failure modes, the fallback order in
//! which an icon handle is searched, the hotspot-based geometry heuristic,
//! the exact BGRA-to-RGBA pixel decode, and the transparent placeholder
//! that stands in for an icon that could not be extracted.
use vstd::prelude::*;

verus! {

/// A 32-bit RGBA texel, alpha unmultiplied.
#[derive(Clone, Copy, Debug, PartialEq, Eq, Structural)]
pub struct Rgba {
    pub r: u8,
    pub g: u8,
    pub b: u8,
    pub a: u8,
}

/// A decoded icon: a row-major pixel buffer of `width * height` RGBA texels.
#[derive(Debug, PartialEq, Eq)]
pub struct DecodedIcon {
    pub width: usize,
    pub height: usize,
    pub pixels: Vec<Rgba>,
}

impl DecodedIcon {
    /// Well-formedness: the buffer holds exactly one texel per pixel.
    pub open spec fn wf(self) -> bool {
        self.pixels@.len() == self.width * self.height
    }
}

/// The distinct ways icon extraction can fail. Each variant corresponds to
/// one step of the extraction pipeline; all are recoverable per window.
#[derive(Clone, Copy, Debug, PartialEq, Eq, Structural)]
pub enum WindowIconError {
    /// None of the four icon sources yielded an icon handle.
    NoIcon,
    /// The icon's metadata (hotspot geometry) could not be read.
    GetIconInfoFailed,
    /// The off-screen pixel surface could not be allocated.
    CreateDIBSectionFailed,
    /// The rendered pixels could not be read back from the surface.
    GetDIBitsFailed,
    /// The raw pixel buffer handed to the decoder does not hold exactly
    /// `width * height` 4-byte groups.
    PixelBufferMismatch,
}

/// The four places an icon handle is searched for, in fallback order.
#[derive(Clone, Copy, Debug, PartialEq, Eq, Structural)]
pub enum IconSource {
    /// The window's "big" icon, queried through the window message protocol.
    BigFromMessage,
    /// The window class's registered big-icon resource.
    BigFromClass,
    /// The window's "small" icon, queried through the window message protocol.
    SmallFromMessage,
    /// The window class's registered small-icon resource.
    SmallFromClass,
}

/// The outcome of consulting one icon source.
#[derive(Clone, Copy, Debug, PartialEq, Eq, Structural)]
pub enum IconLookup {
    /// A non-null icon handle was found; the search stops here.
    Resolved(usize),
    /// The source yielded nothing; consult the given source next.
    TryNext(IconSource),
    /// The last source yielded nothing: the window has no icon.
    Exhausted,
}

/// The source consulted after `source` fails, if any.
pub open spec fn next_icon_source(source: IconSource) -> Option<IconSource> {
    match source {
        IconSource::BigFromMessage => Some(IconSource::BigFromClass),
        IconSource::BigFromClass => Some(IconSource::SmallFromMessage),
        IconSource::SmallFromMessage => Some(IconSource::SmallFromClass),
        IconSource::SmallFromClass => None,
    }
}

/// The search starts at the window's big icon.
pub fn first_icon_source() -> (r: IconSource)
    ensures
        r == IconSource::BigFromMessage,
{
    IconSource::BigFromMessage
}

/// One step of the icon-handle search. `icon_handle` is what the platform
/// returned for `source`; zero means that the source has no icon. The search
/// stops at the first non-null handle and otherwise walks the fixed fallback
/// order until it is exhausted.
pub fn icon_fallback_step(source: IconSource, icon_handle: usize) -> (r: IconLookup)
    ensures
        icon_handle != 0 ==> r == IconLookup::Resolved(icon_handle),
        icon_handle == 0 ==> (match next_icon_source(source) {
            Some(next) => r == IconLookup::TryNext(next),
            None => r == IconLookup::Exhausted,
        }),
{
    if icon_handle != 0 {
        IconLookup::Resolved(icon_handle)
    } else {
        match source {
            IconSource::BigFromMessage => IconLookup::TryNext(IconSource::BigFromClass),
            IconSource::BigFromClass => IconLookup::TryNext(IconSource::SmallFromMessage),
            IconSource::SmallFromMessage => IconLookup::TryNext(IconSource::SmallFromClass),
            IconSource::SmallFromClass => IconLookup::Exhausted,
        }
    }
}

/// Icon geometry derived from hotspot metadata: width and height are twice
/// the horizontal and vertical hotspot. This is a heuristic carried over for
/// behavioural compatibility, not a platform guarantee.
pub fn icon_dimensions(x_hotspot: u32, y_hotspot: u32) -> (r: (u32, u32))
    requires
        2 * x_hotspot <= u32::MAX,
        2 * y_hotspot <= u32::MAX,
    ensures
        r.0 == 2 * x_hotspot,
        r.1 == 2 * y_hotspot,
{
    (2 * x_hotspot, 2 * y_hotspot)
}

/// The RGBA texel decoded from the `i`-th 4-byte B,G,R,A group of `data`.
pub open spec fn bgra_pixel_at(data: Seq<u8>, i: int) -> Rgba {
    Rgba { r: data[4 * i + 2], g: data[4 * i + 1], b: data[4 * i], a: data[4 * i + 3] }
}

/// The texel sequence decoded from a raw B,G,R,A byte buffer.
pub open spec fn decoded_pixels(data: Seq<u8>) -> Seq<Rgba> {
    Seq::new((data.len() / 4) as nat, |i: int| bgra_pixel_at(data, i))
}

/// Decodes a raw pixel buffer read back from the off-screen surface. The
/// source bytes are 4-byte groups in B,G,R,A order, not premultiplied; the
/// result swaps them into R,G,B,A order, alpha unchanged. The buffer must
/// hold exactly `width * height` groups; any other length is rejected.
pub fn decode_bgra(data: &Vec<u8>, width: usize, height: usize) -> (r: Result<
    DecodedIcon,
    WindowIconError,
>)
    ensures
        r is Ok <==> data@.len() == width * height * 4,
        r matches Ok(icon) ==> {
            &&& icon.width == width
            &&& icon.height == height
            &&& icon.pixels@ == decoded_pixels(data@)
            &&& icon.wf()
        },
        r matches Err(e) ==> e == WindowIconError::PixelBufferMismatch,
{
    let n = data.len();
    let pixel_count = match width.checked_mul(height) {
        Some(c) => c,
        None => {
            return Err(WindowIconError::PixelBufferMismatch);
        },
    };
    let byte_count = match pixel_count.checked_mul(4) {
        Some(c) => c,
        None => {
            return Err(WindowIconError::PixelBufferMismatch);
        },
    };
    if n != byte_count {
        return Err(WindowIconError::PixelBufferMismatch);
    }
    let mut pixels: Vec<Rgba> = Vec::new();
    let mut i: usize = 0;
    while i < pixel_count
        invariant
            i <= pixel_count,
            data@.len() == pixel_count * 4,
            data@.len() <= usize::MAX,
            pixel_count == width * height,
            pixels@.len() == i,
            forall|j: int| 0 <= j < i ==> pixels@[j] == bgra_pixel_at(data@, j),
        decreases pixel_count - i,
    {
        let b = data[4 * i];
        let g = data[4 * i + 1];
        let r = data[4 * i + 2];
        let a = data[4 * i + 3];
        pixels.push(Rgba { r, g, b, a });
        i = i + 1;
    }
    assert(pixels@ =~= decoded_pixels(data@));
    Ok(DecodedIcon { width, height, pixels })
}

/// The fully transparent texel.
pub open spec fn transparent_pixel() -> Rgba {
    Rgba { r: 0, g: 0, b: 0, a: 0 }
}

/// Whether `icon` is the 32-by-32 fully transparent placeholder.
pub open spec fn is_placeholder(icon: DecodedIcon) -> bool {
    &&& icon.width == 32
    &&& icon.height == 32
    &&& icon.pixels@ == Seq::new(1024nat, |i: int| transparent_pixel())
}

/// The 32-by-32 fully transparent icon substituted whenever extraction
/// fails, so that consumers never special-case a missing icon.
pub fn placeholder_icon() -> (r: DecodedIcon)
    ensures
        is_placeholder(r),
        r.wf(),
{
    let mut pixels: Vec<Rgba> = Vec::new();
    let mut i: usize = 0;
    while i < 1024
        invariant
            i <= 1024,
            pixels@.len() == i,
            forall|j: int| 0 <= j < i ==> pixels@[j] == transparent_pixel(),
        decreases 1024 - i,
    {
        pixels.push(Rgba { r: 0, g: 0, b: 0, a: 0 });
        i = i + 1;
    }
    assert(pixels@ =~= Seq::new(1024nat, |i: int| transparent_pixel()));
    DecodedIcon { width: 32, height: 32, pixels }
}

} // verus!
