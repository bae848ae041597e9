//! Pixel formats, frame geometry and captured frames.

use vstd::prelude::*;

verus! {

/// Wire code of the 32-bit format with bytes B, G, R, A in memory.
pub const CODE_ARGB8888: u32 = 0;

/// Wire code of the 32-bit format with bytes B, G, R, padding in memory.
pub const CODE_XRGB8888: u32 = 1;

/// Wire code of the 32-bit format with bytes R, G, B, padding in memory.
pub const CODE_XBGR8888: u32 = 0x3432_4258;

/// Bytes taken by one pixel in every supported format.
pub const BYTES_PER_PIXEL: usize = 4;

/// Largest byte size a shared-memory pool can be created with, and largest
/// width, height or stride a buffer in it can have.
pub const MAX_POOL_SIZE: u64 = 0x7fff_ffff;

/// A pixel format this crate can read.
#[derive(Clone, Copy, Debug, PartialEq, Eq, Structural)]
pub enum PixelFormat {
    Argb8888,
    Xrgb8888,
    Xbgr8888,
}

/// Order of the channels within a pixel, byte by byte in memory.
#[derive(Clone, Copy, Debug, PartialEq, Eq, Structural)]
pub enum ColorLayout {
    /// Red, green, blue, then alpha or padding: the canonical order.
    Rgba8,
    /// Blue, green, red, then alpha or padding.
    Bgra8,
}

impl PixelFormat {
    /// The format that a wire code stands for, if it is a supported one.
    pub open spec fn spec_from_code(code: u32) -> Option<PixelFormat> {
        if code == CODE_ARGB8888 {
            Some(PixelFormat::Argb8888)
        } else if code == CODE_XRGB8888 {
            Some(PixelFormat::Xrgb8888)
        } else if code == CODE_XBGR8888 {
            Some(PixelFormat::Xbgr8888)
        } else {
            None
        }
    }

    /// The wire code of a format.
    pub open spec fn spec_code(self) -> u32 {
        match self {
            PixelFormat::Argb8888 => CODE_ARGB8888,
            PixelFormat::Xrgb8888 => CODE_XRGB8888,
            PixelFormat::Xbgr8888 => CODE_XBGR8888,
        }
    }

    /// The channel order in which a frame of this format arrives.
    pub open spec fn spec_layout(self) -> ColorLayout {
        match self {
            PixelFormat::Argb8888 | PixelFormat::Xrgb8888 => ColorLayout::Bgra8,
            PixelFormat::Xbgr8888 => ColorLayout::Rgba8,
        }
    }

    /// Decodes an advertised wire code. Codes other than the three supported
    /// ones give `None`.
    pub fn from_code(code: u32) -> (format: Option<PixelFormat>)
        ensures
            format == Self::spec_from_code(code),
    {
        if code == CODE_ARGB8888 {
            Some(PixelFormat::Argb8888)
        } else if code == CODE_XRGB8888 {
            Some(PixelFormat::Xrgb8888)
        } else if code == CODE_XBGR8888 {
            Some(PixelFormat::Xbgr8888)
        } else {
            None
        }
    }

    /// The wire code under which the compositor names this format.
    pub fn code(self) -> (code: u32)
        ensures
            code == self.spec_code(),
            Self::spec_from_code(code) == Some(self),
    {
        match self {
            PixelFormat::Argb8888 => CODE_ARGB8888,
            PixelFormat::Xrgb8888 => CODE_XRGB8888,
            PixelFormat::Xbgr8888 => CODE_XBGR8888,
        }
    }

    /// The channel order in which a frame of this format arrives.
    pub fn layout(self) -> (layout: ColorLayout)
        ensures
            layout == self.spec_layout(),
    {
        match self {
            PixelFormat::Argb8888 | PixelFormat::Xrgb8888 => ColorLayout::Bgra8,
            PixelFormat::Xbgr8888 => ColorLayout::Rgba8,
        }
    }
}

/// Geometry and pixel format of one frame, as advertised for a capture
/// request. `stride` is the number of bytes per row and may exceed four times
/// the width.
#[derive(Clone, Copy, Debug, PartialEq, Eq, Structural)]
pub struct FrameFormat {
    pub format: PixelFormat,
    pub width: u32,
    pub height: u32,
    pub stride: u32,
}

impl FrameFormat {
    /// Number of bytes that a frame of this format occupies.
    pub open spec fn spec_byte_size(self) -> nat {
        (self.stride as nat) * (self.height as nat)
    }

    /// Whether a shared-memory pool and a buffer in it can be made for a
    /// frame of this format: its byte size and each of its three measures
    /// must be expressible as a signed 32-bit number.
    pub open spec fn spec_fits_pool(self) -> bool {
        &&& self.spec_byte_size() <= MAX_POOL_SIZE
        &&& self.width <= MAX_POOL_SIZE
        &&& self.height <= MAX_POOL_SIZE
        &&& self.stride <= MAX_POOL_SIZE
    }

    /// Number of bytes that a frame of this format occupies: `stride * height`.
    pub fn byte_size(&self) -> (size: u64)
        ensures
            size == self.spec_byte_size(),
    {
        let stride: u64 = self.stride as u64;
        let height: u64 = self.height as u64;
        assert(stride * height <= 0xffff_ffff * 0xffff_ffff) by (nonlinear_arith)
            requires
                stride <= 0xffff_ffff,
                height <= 0xffff_ffff,
        ;
        stride * height
    }

    /// Whether a shared-memory pool and a buffer in it can be made for a
    /// frame of this format.
    pub fn fits_pool(&self) -> (fits: bool)
        ensures
            fits == self.spec_fits_pool(),
    {
        self.byte_size() <= MAX_POOL_SIZE && self.width as u64 <= MAX_POOL_SIZE && self.height as u64
            <= MAX_POOL_SIZE && self.stride as u64 <= MAX_POOL_SIZE
    }
}

/// One captured frame: its geometry, the channel order its bytes are in, and
/// the bytes themselves, borrowed from the mapped buffer they were copied to.
#[derive(Clone, Copy, Debug)]
pub struct FrameCopy<'a> {
    pub frame_format: FrameFormat,
    pub frame_color_type: ColorLayout,
    pub frame_mmap: &'a [u8],
}

impl<'a> FrameCopy<'a> {
    /// A frame is well formed when it holds exactly as many bytes as its
    /// format takes.
    pub open spec fn well_formed(self) -> bool {
        self.frame_mmap@.len() == self.frame_format.spec_byte_size()
    }
}

} // verus!
