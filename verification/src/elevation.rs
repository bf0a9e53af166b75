//! Decoding an elevation image into a height field.

use vstd::prelude::*;
use crate::units::{HEIGHT_FIELD_LEN, RASTER_LEN, TILE_BIT_DEPTH, TILE_CHANNELS, TILE_PIXELS};

verus! {

/// The shape of a decoded raster: its size in pixels, the samples in each
/// pixel and the bits in each sample.
#[derive(Clone, Copy, Debug, PartialEq, Eq, Structural)]
pub struct ImageHeader {
    pub width: u32,
    pub height: u32,
    pub channels: u8,
    pub bit_depth: u8,
}

/// Why an image could not be turned into a height field.
#[derive(Clone, Copy, Debug, PartialEq, Eq, Structural)]
pub enum ElevationError {
    /// The bytes are not a readable PNG stream.
    Malformed,
    /// The stream is readable but is not a 256 x 256 image of three 8-bit
    /// channels.
    Format { expected: ImageHeader, actual: ImageHeader },
}

/// The one raster shape that carries elevations.
pub open spec fn tile_header() -> ImageHeader {
    ImageHeader {
        width: TILE_PIXELS,
        height: TILE_PIXELS,
        channels: TILE_CHANNELS,
        bit_depth: TILE_BIT_DEPTH,
    }
}

/// Elevation encoded by one pixel, in coordinate steps: the red and green
/// channels are the whole units offset by 32768, the blue channel is the
/// fraction in 1/256 of a unit.
pub open spec fn elevation_of(r: u8, g: u8, b: u8) -> int {
    r as int * 65536 + g as int * 256 + b as int - 8388608
}

/// Elevations of a channel-interleaved RGB raster, one per pixel, in raster
/// order.
pub open spec fn elevations_of(rgb: Seq<u8>) -> Seq<i32> {
    Seq::new(
        rgb.len() / 3,
        |i: int| elevation_of(rgb[3 * i], rgb[3 * i + 1], rgb[3 * i + 2]) as i32,
    )
}

/// What the PNG decoder reports of a byte stream before it reads any pixel:
/// `None` where it fails, else the shape of the raster that it will
/// produce.
pub uninterp spec fn png_header(bytes: Seq<u8>) -> Option<ImageHeader>;

/// What the PNG decoder makes of the first frame of a byte stream, given a
/// zeroed buffer of `len` bytes: `None` where it fails, else the shape of the
/// frame and the buffer as the decoder left it.
pub uninterp spec fn png_frame(bytes: Seq<u8>, len: nat) -> Option<(ImageHeader, Seq<u8>)>;

/// What the decoder's two answers amount to: the height field, or the
/// reason why there is none.
///
/// `announced` is what the decoder reports before it reads a pixel, `frame`
/// what it makes of the first frame; `None` stands for a failure of the
/// decoder. The announcement is judged first, and the frame only where the
/// announcement is the shape of an elevation image. A frame that claims
/// that shape without a raster of that size is as malformed as no frame.
pub open spec fn height_field_of(
    announced: Option<ImageHeader>,
    frame: Option<(ImageHeader, Seq<u8>)>,
) -> Result<Seq<i32>, ElevationError> {
    match announced {
        None => Err(ElevationError::Malformed),
        Some(shape) => if shape != tile_header() {
            Err(ElevationError::Format { expected: tile_header(), actual: shape })
        } else {
            match frame {
                None => Err(ElevationError::Malformed),
                Some((delivered, raster)) => if delivered != tile_header() {
                    Err(ElevationError::Format { expected: tile_header(), actual: delivered })
                } else if raster.len() != RASTER_LEN {
                    Err(ElevationError::Malformed)
                } else {
                    Ok(elevations_of(raster))
                },
            }
        },
    }
}

/// The frame with its raster as a sequence.
pub open spec fn frame_view(frame: Option<(ImageHeader, Vec<u8>)>) -> Option<(ImageHeader, Seq<u8>)> {
    match frame {
        None => None,
        Some((delivered, raster)) => Some((delivered, raster@)),
    }
}

/// The height field that a byte stream stands for, or the reason why it
/// stands for none.
pub open spec fn decoded_elevations(bytes: Seq<u8>) -> Result<Seq<i32>, ElevationError> {
    height_field_of(png_header(bytes), png_frame(bytes, RASTER_LEN as nat))
}

/// A height field has 65536 samples, whatever the answers it was made from.
pub proof fn lemma_height_field_len(
    announced: Option<ImageHeader>,
    frame: Option<(ImageHeader, Seq<u8>)>,
)
    ensures
        height_field_of(announced, frame) matches Ok(heights) ==> heights.len()
            == HEIGHT_FIELD_LEN,
{
}

/// Every elevation is a whole number of coordinate steps between -32768 and
/// just under 32768 units, so it fits in 24 bits and a sign.
pub proof fn lemma_elevation_bounds(r: u8, g: u8, b: u8)
    ensures
        -8388608 <= elevation_of(r, g, b) <= 8388607,
        elevation_of(r, g, b) == 256 * (r as int * 256 + g as int - 32768) + b as int,
{
}

/// Decoding is a function of the bytes: two height fields, or two refusals,
/// decoded from the same bytes are the same.
pub proof fn lemma_decoding_repeatable(
    bytes: Seq<u8>,
    first: Result<Seq<i32>, ElevationError>,
    second: Result<Seq<i32>, ElevationError>,
)
    requires
        first == decoded_elevations(bytes),
        second == decoded_elevations(bytes),
    ensures
        first == second,
{
}

#[verifier::external_type_specification]
#[verifier::external_body]
pub struct ExDecodingError(png::DecodingError);

/// Reads the PNG stream up to its first image data with
/// `png::Decoder::read_info` and reports the shape that
/// `png::Reader::output_color_type` and `png::Reader::info` give. The
/// decoder is a function of the bytes alone, so its answer is named
/// `png_header`; nothing more is claimed of it.
#[verifier::external_body]
fn read_header(bytes: &[u8]) -> (r: Result<ImageHeader, png::DecodingError>)
    ensures
        r.is_ok() == png_header(bytes@).is_some(),
        r matches Ok(h) ==> png_header(bytes@) == Some(h),
{
    let reader = png::Decoder::new(std::io::Cursor::new(bytes)).read_info()?;
    let (color, depth) = reader.output_color_type();
    let info = reader.info();
    Ok(ImageHeader {
        width: info.width,
        height: info.height,
        channels: color.samples() as u8,
        bit_depth: depth as u8,
    })
}

/// Decodes the first frame of the PNG stream with `png::Reader::next_frame`
/// into a zeroed buffer of `len` bytes. The answer is named `png_frame`; the
/// one fact claimed beside the name is that the buffer keeps its length.
#[verifier::external_body]
fn read_frame(bytes: &[u8], len: usize) -> (r: Result<(ImageHeader, Vec<u8>), png::DecodingError>)
    ensures
        r.is_ok() == png_frame(bytes@, len as nat).is_some(),
        r matches Ok(f) ==> png_frame(bytes@, len as nat) == Some((f.0, f.1@)) && f.1@.len() == len,
{
    let mut reader = png::Decoder::new(std::io::Cursor::new(bytes)).read_info()?;
    let mut raster = vec![0u8; len];
    let info = reader.next_frame(&mut raster)?;
    let header = ImageHeader {
        width: info.width,
        height: info.height,
        channels: info.color_type.samples() as u8,
        bit_depth: info.bit_depth as u8,
    };
    Ok((header, raster))
}

impl ImageHeader {
    /// The shape of an elevation image.
    pub fn tile() -> (h: ImageHeader)
        ensures
            h == tile_header(),
    {
        ImageHeader {
            width: TILE_PIXELS,
            height: TILE_PIXELS,
            channels: TILE_CHANNELS,
            bit_depth: TILE_BIT_DEPTH,
        }
    }

    /// Whether this is the shape of an elevation image.
    pub fn is_tile(&self) -> (b: bool)
        ensures
            b == (*self == tile_header()),
    {
        self.width == TILE_PIXELS && self.height == TILE_PIXELS && self.channels == TILE_CHANNELS
            && self.bit_depth == TILE_BIT_DEPTH
    }
}

/// Elevation of one pixel, in coordinate steps.
pub fn pixel_elevation(r: u8, g: u8, b: u8) -> (e: i32)
    ensures
        e == elevation_of(r, g, b),
{
    (r as i32) * 65536 + (g as i32) * 256 + (b as i32) - 8388608
}

/// Turns a channel-interleaved RGB raster into elevations, one per pixel.
pub fn elevations_from_rgb(rgb: &[u8]) -> (heights: Vec<i32>)
    requires
        rgb@.len() % 3 == 0,
    ensures
        heights@ == elevations_of(rgb@),
{
    let len: usize = rgb.len();
    let count: usize = len / 3;
    let mut heights: Vec<i32> = Vec::with_capacity(count);
    let mut i: usize = 0;
    while i < count
        invariant
            rgb@.len() == len,
            len == 3 * count,
            i <= count,
            heights@.len() == i,
            forall|k: int| 0 <= k < i ==> heights@[k] == elevations_of(rgb@)[k],
        decreases count - i,
    {
        let e = pixel_elevation(rgb[3 * i], rgb[3 * i + 1], rgb[3 * i + 2]);
        heights.push(e);
        i += 1;
    }
    assert(heights@ =~= elevations_of(rgb@));
    heights
}

/// Turns the decoder's two answers into the height field, or into the
/// reason why there is none.
///
/// `None` stands for a failure of the decoder and gives `Malformed`. An
/// announcement or a frame of another shape than 256 x 256 pixels of three
/// 8-bit channels gives a `Format` error that names the shape. The frame is
/// not looked at where the announcement is refused.
pub fn height_field(announced: Option<ImageHeader>, frame: Option<(ImageHeader, Vec<u8>)>) -> (r:
    Result<Vec<i32>, ElevationError>)
    ensures
        r matches Ok(heights) ==> height_field_of(announced, frame_view(frame)) == Ok::<
            Seq<i32>,
            ElevationError,
        >(heights@) && heights@.len() == HEIGHT_FIELD_LEN,
        r matches Err(e) ==> height_field_of(announced, frame_view(frame)) == Err::<
            Seq<i32>,
            ElevationError,
        >(e),
{
    let shape = match announced {
        Some(shape) => shape,
        None => { return Err(ElevationError::Malformed); },
    };
    if !shape.is_tile() {
        return Err(ElevationError::Format { expected: ImageHeader::tile(), actual: shape });
    }
    let (delivered, raster) = match frame {
        Some(f) => f,
        None => { return Err(ElevationError::Malformed); },
    };
    if !delivered.is_tile() {
        return Err(ElevationError::Format { expected: ImageHeader::tile(), actual: delivered });
    }
    if raster.len() != RASTER_LEN {
        return Err(ElevationError::Malformed);
    }
    Ok(elevations_from_rgb(raster.as_slice()))
}

/// Decodes a PNG elevation image into its height field of 65536 samples.
///
/// The stream is rejected as `Malformed` where the decoder cannot read it,
/// and as a `Format` error where it holds anything but a 256 x 256 image of
/// three 8-bit channels. No height field is returned for a stream that
/// fails part of the way. The frame is decoded only where the announced
/// shape is that of an elevation image.
pub fn png2elevation_rs(png_bytes: &[u8]) -> (r: Result<Vec<i32>, ElevationError>)
    ensures
        r matches Ok(heights) ==> decoded_elevations(png_bytes@) == Ok::<Seq<i32>, ElevationError>(heights@)
            && heights@.len() == HEIGHT_FIELD_LEN,
        r matches Err(e) ==> decoded_elevations(png_bytes@) == Err::<Seq<i32>, ElevationError>(e),
{
    let announced = match read_header(png_bytes) {
        Ok(shape) => Some(shape),
        Err(_) => None,
    };
    let wanted = match announced {
        Some(shape) => shape.is_tile(),
        None => false,
    };
    let frame = if wanted {
        match read_frame(png_bytes, RASTER_LEN) {
            Ok(f) => Some(f),
            Err(_) => None,
        }
    } else {
        None
    };
    height_field(announced, frame)
}

} // verus!
