use crate::error::{ErrorSourceView, TrayError};
use vstd::prelude::*;
use vstd::slice::slice_to_vec;

verus! {

/// The error of the PNG encoder.
#[verifier::external_type_specification]
#[verifier::external_body]
pub struct ExEncodingError(png::EncodingError);

/// The PNG file that the encoder writes for an image of `width` by `height`
/// pixels of four bytes each: red, green, blue and alpha.
pub uninterp spec fn png_of_rgba(rgba: Seq<u8>, width: u32, height: u32) -> Seq<u8>;

/// Whether `rgba` holds four bytes for each pixel of an image of `width` by
/// `height` pixels, and the image has a pixel.
pub open spec fn fits_dimensions(rgba: Seq<u8>, width: u32, height: u32) -> bool {
    width > 0 && height > 0 && rgba.len() == 4 * width * height
}

/// `png::Encoder` with the color type `Rgba` and the bit depth `Eight`:
/// the header, the image data and the end of the file, written to a vector.
/// Where the encoder succeeds, the vector holds the file that it writes for
/// these pixels and dimensions. That it succeeds is not claimed.
#[verifier::external_body]
fn encode_png(rgba: &Vec<u8>, width: u32, height: u32) -> (encoded: Result<
    Vec<u8>,
    png::EncodingError,
>)
    requires
        fits_dimensions(rgba@, width, height),
    ensures
        encoded matches Ok(bytes) ==> bytes@ == png_of_rgba(rgba@, width, height),
{
    let mut pixels = Vec::new();
    let mut encoder = png::Encoder::new(&mut pixels, width, height);
    encoder.set_color(png::ColorType::Rgba);
    encoder.set_depth(png::BitDepth::Eight);
    let mut writer = encoder.write_header()?;
    writer.write_image_data(rgba)?;
    writer.finish()?;
    Ok(pixels)
}

/// An icon as the desktop takes it: the path of an image file, or the bytes
/// of a PNG file.
#[derive(Debug, Clone, PartialEq, Eq)]
pub enum NativeIcon {
    Path(String),
    Pixels(Vec<u8>),
}

/// The mathematical value of a [`NativeIcon`].
pub ghost enum IconView {
    Path(Seq<char>),
    Pixels(Seq<u8>),
}

impl View for NativeIcon {
    type V = IconView;

    open spec fn view(&self) -> IconView {
        match self {
            NativeIcon::Path(path) => IconView::Path(path@),
            NativeIcon::Pixels(pixels) => IconView::Pixels(pixels@),
        }
    }
}

/// Whether `rgba` holds four bytes for each pixel of an image of `width` by
/// `height` pixels, and the image has a pixel.
pub fn check_dimensions(rgba: &Vec<u8>, width: u32, height: u32) -> (fits: bool)
    ensures
        fits == fits_dimensions(rgba@, width, height),
{
    if width == 0 || height == 0 {
        return false;
    }
    assert(width * height <= 0xFFFF_FFFF * 0xFFFF_FFFF) by (nonlinear_arith)
        requires
            width <= 0xFFFF_FFFF,
            height <= 0xFFFF_FFFF,
    ;
    assert(4 * width * height == 4 * (width * height)) by (nonlinear_arith);
    let pixels: u128 = (width as u128) * (height as u128);
    let bytes: u128 = 4 * pixels;
    rgba.len() as u128 == bytes
}

impl NativeIcon {
    /// What becomes of the encoder's answer: its file is the icon, and its
    /// failure is an error of the library.
    pub fn from_encoding(encoded: Result<Vec<u8>, png::EncodingError>) -> (icon: Result<
        NativeIcon,
        TrayError,
    >)
        ensures
            match encoded {
                Ok(bytes) => icon matches Ok(native) && native@ == IconView::Pixels(bytes@),
                Err(_) => icon matches Err(error) && error@ == ErrorSourceView::Custom(
                    "Failed to encode the icon"@,
                ),
            },
    {
        match encoded {
            Ok(bytes) => Ok(NativeIcon::Pixels(bytes)),
            Err(_) => Err(TrayError::custom("Failed to encode the icon")),
        }
    }

    /// An icon from pixels of four bytes each: red, green, blue and alpha,
    /// row by row. Pixels that do not fit the dimensions, and an image
    /// without a pixel, are an error; else the icon is the PNG file of the
    /// image, unless the encoder fails.
    pub fn from_rgba(rgba: Vec<u8>, width: u32, height: u32) -> (icon: Result<NativeIcon, TrayError>)
        ensures
            !fits_dimensions(rgba@, width, height) ==> (icon matches Err(error) && error@
                == ErrorSourceView::Custom("Invalid dimensions"@)),
            fits_dimensions(rgba@, width, height) ==> match icon {
                Ok(native) => native@ == IconView::Pixels(png_of_rgba(rgba@, width, height)),
                Err(error) => error@ == ErrorSourceView::Custom("Failed to encode the icon"@),
            },
    {
        if !check_dimensions(&rgba, width, height) {
            return Err(TrayError::custom("Invalid dimensions"));
        }
        NativeIcon::from_encoding(encode_png(&rgba, width, height))
    }

    /// An icon from the bytes of a PNG file.
    pub fn from_png_bytes(bytes: &[u8]) -> (icon: Result<NativeIcon, TrayError>)
        ensures
            icon matches Ok(native) && native@ == IconView::Pixels(bytes@),
    {
        Ok(NativeIcon::Pixels(slice_to_vec(bytes)))
    }
}

/// An icon of the tray.
#[derive(Debug, Clone, PartialEq, Eq)]
pub struct Icon(pub NativeIcon);

impl View for Icon {
    type V = IconView;

    open spec fn view(&self) -> IconView {
        self.0@
    }
}

impl Icon {
    /// An icon from pixels of four bytes each: red, green, blue and alpha,
    /// row by row. Pixels that do not fit the dimensions, and an image
    /// without a pixel, are an error; else the icon is the PNG file of the
    /// image, unless the encoder fails.
    pub fn from_rgba(rgba: Vec<u8>, width: u32, height: u32) -> (icon: Result<Icon, TrayError>)
        ensures
            !fits_dimensions(rgba@, width, height) ==> (icon matches Err(error) && error@
                == ErrorSourceView::Custom("Invalid dimensions"@)),
            fits_dimensions(rgba@, width, height) ==> match icon {
                Ok(made) => made@ == IconView::Pixels(png_of_rgba(rgba@, width, height)),
                Err(error) => error@ == ErrorSourceView::Custom("Failed to encode the icon"@),
            },
    {
        match NativeIcon::from_rgba(rgba, width, height) {
            Ok(native) => Ok(Icon(native)),
            Err(error) => Err(error),
        }
    }

    /// An icon from the bytes of a PNG file.
    pub fn from_png_bytes(bytes: &[u8]) -> (icon: Result<Icon, TrayError>)
        ensures
            icon matches Ok(made) && made@ == IconView::Pixels(bytes@),
    {
        Ok(Icon(NativeIcon::Pixels(slice_to_vec(bytes))))
    }

    /// The icon as the desktop takes it.
    pub fn into_native(self) -> (native: NativeIcon)
        ensures
            native@ == self@,
    {
        self.0
    }
}

} // verus!
