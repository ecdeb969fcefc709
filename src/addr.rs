//! Native identities: opaque integer addresses of native images, image
//! containers and surfaces, and plain copies of the native records the logic reads.

use vstd::prelude::*;

verus! {

/// Address of a native image container.
#[derive(Clone, Copy, Debug, Default, Hash, PartialEq, Eq, Structural)]
pub struct ImageContainerAddr(pub usize);

impl ImageContainerAddr {
    pub fn from_ptr(ptr: usize) -> (r: ImageContainerAddr)
        ensures
            r.0 == ptr,
    {
        ImageContainerAddr(ptr)
    }
}

/// Address of a native image.
#[derive(Clone, Copy, Debug, Hash, PartialEq, Eq, Structural)]
pub struct ImageAddr(pub usize);

/// Addresses of the engine's singleton pixel buffers, used for equality only.
#[derive(Clone, Copy, Debug, PartialEq, Eq, Structural)]
pub struct KnownBuffers {
    pub decompression: usize,
    pub clean: usize,
    pub clean_z: usize,
    pub back: usize,
    pub smush: usize,
}

/// The image that `addr` stands for: the last decompressed image when `addr` is
/// the decompression buffer and one is known, else `addr` itself.
pub open spec fn original_of(addr: ImageAddr, buffers: KnownBuffers, decompressed: Option<ImageAddr>) -> ImageAddr {
    if addr.0 == buffers.decompression && decompressed.is_some() {
        decompressed.unwrap()
    } else {
        addr
    }
}

impl ImageAddr {
    pub fn from_ptr(ptr: usize) -> (r: ImageAddr)
        ensures
            r.0 == ptr,
    {
        ImageAddr(ptr)
    }

    pub fn underlying(&self) -> (r: usize)
        ensures
            r == self.0,
    {
        self.0
    }

    /// The image that was last decompressed when this is the decompression
    /// buffer, else this image itself.
    pub fn original(&self, buffers: &KnownBuffers, decompressed: Option<ImageAddr>) -> (r:
        ImageAddr)
        ensures
            r == original_of(*self, *buffers, decompressed),
    {
        if self.is_decompression_buffer(buffers) {
            match decompressed {
                Some(addr) => addr,
                None => *self,
            }
        } else {
            *self
        }
    }

    pub fn is_decompression_buffer(&self, buffers: &KnownBuffers) -> (r: bool)
        ensures
            r == (self.0 == buffers.decompression),
    {
        self.0 == buffers.decompression
    }

    pub fn is_clean_buffer(&self, buffers: &KnownBuffers) -> (r: bool)
        ensures
            r == (self.0 == buffers.clean),
    {
        self.0 == buffers.clean
    }

    pub fn is_clean_z_buffer(&self, buffers: &KnownBuffers) -> (r: bool)
        ensures
            r == (self.0 == buffers.clean_z),
    {
        self.0 == buffers.clean_z
    }

    pub fn is_back_buffer(&self, buffers: &KnownBuffers) -> (r: bool)
        ensures
            r == (self.0 == buffers.back),
    {
        self.0 == buffers.back
    }

    pub fn is_smush_buffer(&self, buffers: &KnownBuffers) -> (r: bool)
        ensures
            r == (self.0 == buffers.smush),
    {
        self.0 == buffers.smush
    }
}

/// Address of a native surface (a GPU texture object).
#[derive(Clone, Copy, Debug, Hash, PartialEq, Eq, Structural)]
pub struct SurfaceAddr(pub usize);

impl SurfaceAddr {
    pub fn from_ptr(ptr: usize) -> (r: SurfaceAddr)
        ensures
            r.0 == ptr,
    {
        SurfaceAddr(ptr)
    }

    /// Whether this is the surface of the background render pass, when that
    /// pass has one.
    pub fn is_bitmap_underlays(&self, underlays: Option<SurfaceAddr>) -> (r: bool)
        ensures
            r == (underlays == Some(*self)),
    {
        match underlays {
            Some(s) => s.0 == self.0,
            None => false,
        }
    }
}

/// A native image: its address and native dimensions.
#[derive(Clone, Copy, Debug, PartialEq, Eq, Structural)]
pub struct Image {
    pub addr: ImageAddr,
    pub width: i32,
    pub height: i32,
}

/// A native image container: its file name, address, the images that could be
/// read, and the addresses of all of its sub-image slots.
pub struct ImageContainer {
    pub name: String,
    pub original_addr: ImageContainerAddr,
    pub images: Vec<Image>,
    pub image_addrs: Vec<ImageAddr>,
}

impl ImageContainer {
    pub fn name(&self) -> (r: &str)
        ensures
            r@ == self.name@,
    {
        self.name.as_str()
    }

    pub fn images(&self) -> (r: &Vec<Image>)
        ensures
            r == &self.images,
    {
        &self.images
    }

    pub fn image_addrs(&self) -> (r: &Vec<ImageAddr>)
        ensures
            r == &self.image_addrs,
    {
        &self.image_addrs
    }
}

} // verus!
