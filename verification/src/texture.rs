use vstd::prelude::*;

use crate::error::TileCacheError;
use crate::tileset::TilesetDescriptor;

verus! {

/// Message of the error for a pixel buffer that does not match its size.
pub const PIXEL_COUNT_MISMATCH: &'static str = "pixel buffer does not hold four bytes for each pixel";

/// Binding index of the texture view in the bind group of a tileset.
pub const VIEW_BINDING: u32 = 0;

/// Binding index of the sampler in the bind group of a tileset.
pub const SAMPLER_BINDING: u32 = 1;

/// A decoded image as plain numbers.
pub ghost struct ImageModel {
    pub width: nat,
    pub height: nat,
    /// Red, green, blue and alpha of each pixel, row by row.
    pub pixels: Seq<u8>,
}

/// A decoded image: four bytes for each pixel, row by row from the top.
#[derive(Debug)]
pub struct DecodedImage {
    width: u32,
    height: u32,
    pixels: Vec<u8>,
}

impl View for DecodedImage {
    type V = ImageModel;

    closed spec fn view(&self) -> ImageModel {
        ImageModel {
            width: self.width as nat,
            height: self.height as nat,
            pixels: self.pixels@,
        }
    }
}

/// Size of a texture or of a copy into one.
#[derive(Debug, Clone, Copy, PartialEq, Eq, Structural)]
pub struct Extent {
    pub width: u32,
    pub height: u32,
    pub depth_or_array_layers: u32,
}

/// A texel of a texture, by its coordinates.
#[derive(Debug, Clone, Copy, PartialEq, Eq, Structural)]
pub struct Origin {
    pub x: u32,
    pub y: u32,
    pub z: u32,
}

#[derive(Debug, Clone, Copy, PartialEq, Eq, Structural)]
pub enum TextureDimension {
    D1,
    D2,
    D3,
}

#[derive(Debug, Clone, Copy, PartialEq, Eq, Structural)]
pub enum TextureFormat {
    /// Four 8-bit channels, read as they are.
    Rgba8Unorm,
    /// Four 8-bit channels, the colours sRGB-encoded.
    Rgba8UnormSrgb,
}

/// What a texture may be used for.
#[derive(Debug, Clone, Copy, PartialEq, Eq, Structural)]
pub struct TextureUsage {
    pub copy_src: bool,
    pub copy_dst: bool,
    pub texture_binding: bool,
    pub storage_binding: bool,
    pub render_attachment: bool,
}

/// The texture to create for one tileset.
#[derive(Debug, Clone, Copy, PartialEq, Eq, Structural)]
pub struct TextureRequest {
    pub size: Extent,
    pub mip_level_count: u32,
    pub sample_count: u32,
    pub dimension: TextureDimension,
    pub format: TextureFormat,
    pub usage: TextureUsage,
}

/// How the pixels of an image go into its texture, in one copy.
#[derive(Debug, Clone, Copy, PartialEq, Eq, Structural)]
pub struct UploadLayout {
    pub mip_level: u32,
    /// Where in the texture the copy starts.
    pub origin: Origin,
    /// Where in the pixel buffer the copy starts, in bytes.
    pub offset: u64,
    pub bytes_per_row: u64,
    pub rows_per_image: u32,
    /// How much is copied.
    pub size: Extent,
}

#[derive(Debug, Clone, Copy, PartialEq, Eq, Structural)]
pub enum AddressMode {
    ClampToEdge,
    Repeat,
    MirrorRepeat,
}

#[derive(Debug, Clone, Copy, PartialEq, Eq, Structural)]
pub enum FilterMode {
    Nearest,
    Linear,
}

/// The sampler to create for one tileset.
#[derive(Debug, Clone, Copy, PartialEq, Eq, Structural)]
pub struct SamplerRequest {
    pub address_mode_u: AddressMode,
    pub address_mode_v: AddressMode,
    pub address_mode_w: AddressMode,
    pub mag_filter: FilterMode,
    pub min_filter: FilterMode,
    pub mipmap_filter: FilterMode,
}

/// The view to create of the texture of one tileset.
#[derive(Debug, Clone, Copy, PartialEq, Eq, Structural)]
pub struct ViewRequest {
    pub dimension: TextureDimension,
    pub base_mip_level: u32,
    pub base_array_layer: u32,
}

/// All that is to be created on the GPU for one tileset.
#[derive(Debug, Clone, Copy, PartialEq, Eq, Structural)]
pub struct TilesetPlan {
    pub texture: TextureRequest,
    pub upload: UploadLayout,
    pub sampler: SamplerRequest,
    pub view: ViewRequest,
}

/// A 2D texture of the given size with one layer, one mip level and one
/// sample: sRGB-encoded RGBA, to be copied into and to be sampled by shaders.
pub open spec fn atlas_texture(width: u32, height: u32) -> TextureRequest {
    TextureRequest {
        size: Extent { width, height, depth_or_array_layers: 1 },
        mip_level_count: 1,
        sample_count: 1,
        dimension: TextureDimension::D2,
        format: TextureFormat::Rgba8UnormSrgb,
        usage: TextureUsage {
            copy_src: false,
            copy_dst: true,
            texture_binding: true,
            storage_binding: false,
            render_attachment: false,
        },
    }
}

/// One copy of the whole image to the origin of the texture: rows of four
/// bytes for each pixel, as many rows as the image is high.
pub open spec fn atlas_upload(width: u32, height: u32) -> UploadLayout {
    UploadLayout {
        mip_level: 0,
        origin: Origin { x: 0, y: 0, z: 0 },
        offset: 0,
        bytes_per_row: (4 * width) as u64,
        rows_per_image: height,
        size: Extent { width, height, depth_or_array_layers: 1 },
    }
}

/// Tiles are sampled without reaching over the edge of the sheet: clamped
/// on every axis, linear when magnified, nearest when minified and between
/// mip levels.
pub open spec fn atlas_sampler() -> SamplerRequest {
    SamplerRequest {
        address_mode_u: AddressMode::ClampToEdge,
        address_mode_v: AddressMode::ClampToEdge,
        address_mode_w: AddressMode::ClampToEdge,
        mag_filter: FilterMode::Linear,
        min_filter: FilterMode::Nearest,
        mipmap_filter: FilterMode::Nearest,
    }
}

/// One 2D view of the whole texture.
pub open spec fn atlas_view() -> ViewRequest {
    ViewRequest { dimension: TextureDimension::D2, base_mip_level: 0, base_array_layer: 0 }
}

impl DecodedImage {
    #[verifier::type_invariant]
    pub closed spec fn wf(self) -> bool {
        self.pixels@.len() == 4 * self.width * self.height
    }

    /// Takes a decoded image of `width` by `height` pixels.
    ///
    /// Fails with `ImageLoad` unless `pixels` holds exactly four bytes for
    /// each pixel.
    pub fn new(width: u32, height: u32, pixels: Vec<u8>) -> (result: Result<Self, TileCacheError>)
        ensures
            result is Ok <==> pixels@.len() == 4 * width * height,
            result matches Ok(image) ==> image@ == (ImageModel {
                width: width as nat,
                height: height as nat,
                pixels: pixels@,
            }),
            result matches Err(e) ==> e matches TileCacheError::ImageLoad(message) && message@
                == PIXEL_COUNT_MISMATCH@,
    {
        let texels: u64 = texel_count(width, height);
        let bytes: u128 = 4u128 * texels as u128;
        assert(4 * (width * height) == 4 * width * height) by (nonlinear_arith);
        if pixels.len() as u128 != bytes {
            return Err(TileCacheError::ImageLoad(PIXEL_COUNT_MISMATCH.to_owned()));
        }
        Ok(DecodedImage { width, height, pixels })
    }

    /// Takes what a decoder made of an image file: the width, the height
    /// and the pixels of the image, or the decoder's message where it
    /// failed.
    ///
    /// A failure of the decoder comes back as `ImageLoad` with its message;
    /// what it decoded goes through `new`.
    pub fn from_decoder(outcome: Result<(u32, u32, Vec<u8>), String>) -> (result: Result<
        Self,
        TileCacheError,
    >)
        ensures
            outcome matches Err(cause) ==> result == Err::<Self, TileCacheError>(
                TileCacheError::ImageLoad(cause),
            ),
            outcome matches Ok((width, height, pixels)) ==> (result is Ok <==> pixels@.len() == 4
                * width * height),
            outcome matches Ok((width, height, pixels)) ==> (result matches Ok(image) ==> image@
                == (ImageModel { width: width as nat, height: height as nat, pixels: pixels@ })),
            outcome matches Ok(_) ==> (result matches Err(e) ==> e matches TileCacheError::ImageLoad(
                message,
            ) && message@ == PIXEL_COUNT_MISMATCH@),
    {
        match outcome {
            Ok((width, height, pixels)) => DecodedImage::new(width, height, pixels),
            Err(cause) => Err(TileCacheError::ImageLoad(cause)),
        }
    }

    pub fn width(&self) -> (width: u32)
        ensures
            width == self@.width,
    {
        self.width
    }

    pub fn height(&self) -> (height: u32)
        ensures
            height == self@.height,
    {
        self.height
    }

    /// The bytes of the image: four for each pixel.
    pub fn pixels(&self) -> (pixels: &Vec<u8>)
        ensures
            pixels@ == self@.pixels,
            pixels@.len() == 4 * self@.width * self@.height,
    {
        proof {
            use_type_invariant(self);
        }
        &self.pixels
    }

    /// The texture that holds the image: of exactly its size.
    pub fn texture_request(&self) -> (request: TextureRequest)
        ensures
            request == atlas_texture(self@.width as u32, self@.height as u32),
    {
        TextureRequest {
            size: Extent { width: self.width, height: self.height, depth_or_array_layers: 1 },
            mip_level_count: 1,
            sample_count: 1,
            dimension: TextureDimension::D2,
            format: TextureFormat::Rgba8UnormSrgb,
            usage: TextureUsage {
                copy_src: false,
                copy_dst: true,
                texture_binding: true,
                storage_binding: false,
                render_attachment: false,
            },
        }
    }

    /// The copy that takes the image into its texture. It reads the whole
    /// pixel buffer.
    pub fn upload_layout(&self) -> (layout: UploadLayout)
        ensures
            layout == atlas_upload(self@.width as u32, self@.height as u32),
            layout.bytes_per_row == 4 * self@.width,
            layout.bytes_per_row * layout.rows_per_image == self@.pixels.len(),
    {
        proof {
            use_type_invariant(self);
            assert(4 * self.width * self.height == (4 * self.width) * self.height)
                by (nonlinear_arith);
        }
        UploadLayout {
            mip_level: 0,
            origin: Origin { x: 0, y: 0, z: 0 },
            offset: 0,
            bytes_per_row: 4 * (self.width as u64),
            rows_per_image: self.height,
            size: Extent { width: self.width, height: self.height, depth_or_array_layers: 1 },
        }
    }
}

impl SamplerRequest {
    /// The sampler of a tile atlas.
    pub fn for_atlas() -> (request: SamplerRequest)
        ensures
            request == atlas_sampler(),
    {
        SamplerRequest {
            address_mode_u: AddressMode::ClampToEdge,
            address_mode_v: AddressMode::ClampToEdge,
            address_mode_w: AddressMode::ClampToEdge,
            mag_filter: FilterMode::Linear,
            min_filter: FilterMode::Nearest,
            mipmap_filter: FilterMode::Nearest,
        }
    }
}

impl ViewRequest {
    /// The view of a tile atlas.
    pub fn for_atlas() -> (request: ViewRequest)
        ensures
            request == atlas_view(),
    {
        ViewRequest { dimension: TextureDimension::D2, base_mip_level: 0, base_array_layer: 0 }
    }
}

/// What is to be created on the GPU for `tileset`, whose image was decoded
/// into `image`. Looks at nothing but the two; touches no pixel.
///
/// Fails as `TilesetDescriptor::validate` does, so that nothing is created
/// for a tileset that a cache cannot hold.
pub fn plan_tileset(tileset: &TilesetDescriptor, image: &DecodedImage) -> (result: Result<
    TilesetPlan,
    TileCacheError,
>)
    ensures
        result is Ok <==> tileset.supported(),
        result matches Ok(plan) ==> plan == (TilesetPlan {
            texture: atlas_texture(image@.width as u32, image@.height as u32),
            upload: atlas_upload(image@.width as u32, image@.height as u32),
            sampler: atlas_sampler(),
            view: atlas_view(),
        }),
        result matches Err(e) ==> tileset.defect() == Some(e),
{
    match tileset.validate() {
        Ok(_) => {},
        Err(e) => {
            return Err(e);
        },
    }
    Ok(
        TilesetPlan {
            texture: image.texture_request(),
            upload: image.upload_layout(),
            sampler: SamplerRequest::for_atlas(),
            view: ViewRequest::for_atlas(),
        },
    )
}

/// Number of pixels of an image.
fn texel_count(width: u32, height: u32) -> (count: u64)
    ensures
        count == width * height,
{
    assert(width * height <= u64::MAX) by (nonlinear_arith)
        requires
            0 <= width <= u32::MAX,
            0 <= height <= u32::MAX,
    ;
    width as u64 * height as u64
}

} // verus!
