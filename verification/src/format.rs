//! The identified image format and the conversion parameters each format
//! receives.
//!
//! The external codec reports a format name from file content; that name,
//! not the file extension, decides what happens to an item. One data-driven
//! mapping replaces a per-format cascade of near-identical configuration
//! blocks: each supported format takes the shared resizing parameters, and
//! the lossy, resolution and subsampling extras only where it supports them.

use vstd::prelude::*;

use crate::config::Config;
use crate::text::str_eq;

verus! {

/// The true image encoding, identified from file content.
#[derive(Debug, Clone, Copy, PartialEq, Eq, Structural)]
pub enum Format {
    Jpeg,
    Png,
    Tiff,
    Webp,
    Pgm,
    Gif,
    /// Anything the tool does not act on; such items are skipped silently.
    Unsupported,
}

/// The format belonging to an identification name; names are the codec's,
/// spelled in upper case, and anything else is unsupported.
pub open spec fn format_of_name(n: Seq<char>) -> Format {
    if n == "JPEG"@ {
        Format::Jpeg
    } else if n == "PNG"@ {
        Format::Png
    } else if n == "TIFF"@ {
        Format::Tiff
    } else if n == "WEBP"@ {
        Format::Webp
    } else if n == "PGM"@ {
        Format::Pgm
    } else if n == "GIF"@ {
        Format::Gif
    } else {
        Format::Unsupported
    }
}

/// Maps the codec's identification name to a format tag.
pub fn format_from_name(name: &str) -> (r: Format)
    ensures
        r == format_of_name(name@),
{
    if str_eq(name, "JPEG") {
        Format::Jpeg
    } else if str_eq(name, "PNG") {
        Format::Png
    } else if str_eq(name, "TIFF") {
        Format::Tiff
    } else if str_eq(name, "WEBP") {
        Format::Webp
    } else if str_eq(name, "PGM") {
        Format::Pgm
    } else if str_eq(name, "GIF") {
        Format::Gif
    } else {
        Format::Unsupported
    }
}

/// Formats with lossy compression, whose quality setting is forwarded.
pub open spec fn supports_quality(f: Format) -> bool {
    f == Format::Jpeg || f == Format::Webp
}

/// Formats carrying resolution metadata, to which a pixels-per-inch value
/// can be forwarded.
pub open spec fn supports_ppi(f: Format) -> bool {
    f == Format::Jpeg || f == Format::Png || f == Format::Tiff
}

/// Whether an identified format is acted on at all: the supported raster
/// formats always, GIF only on request, anything unrecognized never.
pub open spec fn spec_should_process(f: Format, allow_gif: bool) -> bool {
    match f {
        Format::Unsupported => false,
        Format::Gif => allow_gif,
        _ => true,
    }
}

/// The parameters one conversion receives, already narrowed to what the
/// target format supports. Plain data: the codec adapter copies these into
/// its per-format configuration.
#[derive(Debug, Clone, Copy, PartialEq, Eq, Structural)]
pub struct ConvParams {
    /// Keep embedded color and metadata profiles.
    pub remain_profile: bool,
    /// Maximum width; the aspect ratio is preserved by the codec.
    pub width: u16,
    /// Maximum height; the aspect ratio is preserved by the codec.
    pub height: u16,
    /// Never enlarge, only shrink.
    pub shrink_only: bool,
    /// Force the sharpening strength to zero instead of the codec's default.
    pub sharpen_disabled: bool,
    /// Lossy quality, only for formats that compress lossily.
    pub quality: Option<u8>,
    /// Stamp the requested resolution, only for formats that carry one.
    pub forward_ppi: bool,
    /// Use 4:2:0 chroma subsampling; JPEG only.
    pub force_to_chroma_quartered: bool,
}

/// Builds the conversion parameters for one identified format, or decides
/// that the item is skipped. `has_ppi` says whether a resolution value was
/// given on the command line; the value itself stays with the caller.
pub fn conv_params(format: Format, config: &Config, has_ppi: bool) -> (r: Option<ConvParams>)
    ensures
        r is Some <==> spec_should_process(format, config.allow_gif),
        r matches Some(p) ==> {
            &&& p.remain_profile == config.remain_profile
            &&& p.width == config.side_maximum
            &&& p.height == config.side_maximum
            &&& p.shrink_only == config.only_shrink
            &&& p.sharpen_disabled == !config.sharpen
            &&& p.quality == (if supports_quality(format) {
                Some(config.quality)
            } else {
                None::<u8>
            })
            &&& p.forward_ppi == (has_ppi && supports_ppi(format))
            &&& p.force_to_chroma_quartered == (config.force_to_chroma_quartered && format
                == Format::Jpeg)
        },
{
    match format {
        Format::Unsupported => None,
        Format::Gif if !config.allow_gif => None,
        _ => Some(
            ConvParams {
                remain_profile: config.remain_profile,
                width: config.side_maximum,
                height: config.side_maximum,
                shrink_only: config.only_shrink,
                sharpen_disabled: !config.sharpen,
                quality: if format == Format::Jpeg || format == Format::Webp {
                    Some(config.quality)
                } else {
                    None
                },
                forward_ppi: has_ppi && (format == Format::Jpeg || format == Format::Png || format
                    == Format::Tiff),
                force_to_chroma_quartered: config.force_to_chroma_quartered && format
                    == Format::Jpeg,
            },
        ),
    }
}

} // verus!
