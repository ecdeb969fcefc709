//! The catalog of replacement assets, keyed by the native addresses they replace.

use vstd::prelude::*;
use crate::addr::{Image, ImageAddr, ImageContainer, ImageContainerAddr};
use crate::addr::{original_of, KnownBuffers};
use crate::text::{append, format_frame_name, frame_name, hex_of, push_hex};

verus! {

/// One replacement image: its name, position within its container, replacement
/// dimensions, scale relative to the native image, the native image it
/// replaces, and the handle through which its decoded pixels arrive.
pub struct HqImage<D> {
    pub name: String,
    pub index: usize,
    pub width: u32,
    pub height: u32,
    pub scale: u32,
    pub original_addr: ImageAddr,
    pub data: D,
}

/// The replacement for one native image container.
pub struct HqImageContainer<D> {
    pub name: String,
    pub original_addr: ImageContainerAddr,
    pub images: Vec<HqImage<D>>,
}

} // verus!

verus! {

/// Whether image `j` of container `i` replaces the native image `addr`.
pub open spec fn holds_at<D>(cs: Seq<HqImageContainer<D>>, i: int, j: int, addr: ImageAddr) -> bool {
    0 <= i < cs.len() && 0 <= j < cs[i].images@.len() && cs[i].images@[j].original_addr == addr
}

/// Whether some replacement in the catalog replaces `addr`.
pub open spec fn is_loaded_in<D>(cs: Seq<HqImageContainer<D>>, addr: ImageAddr) -> bool {
    exists|i: int, j: int| holds_at(cs, i, j, addr)
}

/// (`i`, `j`) is the first replacement of `addr`, in catalog order.
pub open spec fn first_at<D>(cs: Seq<HqImageContainer<D>>, i: int, j: int, addr: ImageAddr) -> bool {
    &&& holds_at(cs, i, j, addr)
    &&& forall|i2: int, j2: int| 0 <= i2 < i ==> !#[trigger] holds_at(cs, i2, j2, addr)
    &&& forall|j2: int| 0 <= j2 < j ==> !#[trigger] holds_at(cs, i, j2, addr)
}

fn position_in<D>(images: &Vec<HqImage<D>>, addr: ImageAddr) -> (r: Option<usize>)
    ensures
        r matches Some(j) ==> j < images@.len() && images@[j as int].original_addr == addr
            && forall|j2: int| 0 <= j2 < j ==> images@[j2].original_addr != addr,
        r is None ==> forall|j2: int| 0 <= j2 < images@.len() ==> images@[j2].original_addr != addr,
{
    let mut j: usize = 0;
    while j < images.len()
        invariant
            0 <= j <= images@.len(),
            forall|j2: int| 0 <= j2 < j ==> images@[j2].original_addr != addr,
        decreases images@.len() - j,
    {
        if images[j].original_addr == addr {
            return Some(j);
        }
        j = j + 1;
    }
    None
}

impl<D> HqImage<D> {
    /// The first replacement of the native image `addr`, as container and image index.
    pub fn locate(addr: ImageAddr, catalog: &Vec<HqImageContainer<D>>) -> (r: Option<(usize, usize)>)
        ensures
            r matches Some((i, j)) ==> first_at(catalog@, i as int, j as int, addr),
            r is None <==> !is_loaded_in(catalog@, addr),
    {
        let mut i: usize = 0;
        while i < catalog.len()
            invariant
                0 <= i <= catalog@.len(),
                forall|i2: int, j2: int| 0 <= i2 < i ==> !#[trigger] holds_at(catalog@, i2, j2, addr),
            decreases catalog@.len() - i,
        {
            match position_in(&catalog[i].images, addr) {
                Some(j) => {
                    assert(holds_at(catalog@, i as int, j as int, addr));
                    return Some((i, j));
                },
                None => {},
            }
            i = i + 1;
        }
        None
    }

    /// Whether some replacement in the catalog replaces `addr`.
    pub fn is_loaded(addr: ImageAddr, catalog: &Vec<HqImageContainer<D>>) -> (r: bool)
        ensures
            r == is_loaded_in(catalog@, addr),
    {
        HqImage::locate(addr, catalog).is_some()
    }

    /// The first replacement of `addr`, if any.
    pub fn find(addr: ImageAddr, catalog: &Vec<HqImageContainer<D>>) -> (r: Option<&HqImage<D>>)
        ensures
            r is None <==> !is_loaded_in(catalog@, addr),
            r matches Some(h) ==> exists|i: int, j: int|
                first_at(catalog@, i, j, addr) && h == catalog@[i].images@[j],
    {
        match HqImage::locate(addr, catalog) {
            Some((i, j)) => Some(&catalog[i].images[j]),
            None => None,
        }
    }
}

/// The scale of a replacement `width` pixels wide over a native image `native`
/// pixels wide.
pub open spec fn scale_of(width: u32, native: i32) -> u32 {
    (width / (native as u32)) as u32
}

/// Whether `r` is the replacement of frame `k` of an animation.
pub open spec fn is_frame_image<D>(r: HqImage<D>, name: Seq<char>, k: int, width: u32, height: u32, native: Image, data: D) -> bool {
    &&& r.name@ == frame_name(name, (k + 1) as nat)
    &&& r.index == k
    &&& r.width == width
    &&& r.height == height
    &&& r.scale == scale_of(width, native.width)
    &&& r.original_addr == native.addr
    &&& r.data == data
}

/// Whether a replacement is a still image or an animation.
#[derive(Clone, Copy, Debug, PartialEq, Eq, Structural)]
pub enum AssetKind {
    Still,
    Animation,
}

/// Whether the native container `c` holds one of `addrs` among its replacements.
pub open spec fn collides<D>(c: HqImageContainer<D>, addrs: Seq<ImageAddr>) -> bool {
    exists|j: int| 0 <= j < c.images@.len() && addrs.contains(#[trigger] c.images@[j].original_addr)
}

/// The catalog and answer after `load`: the first entry that collides with
/// `addrs` is taken out and returned, and `opened` is appended.
pub open spec fn load_result<D>(before: Seq<HqImageContainer<D>>, after: Seq<HqImageContainer<D>>, addrs: Seq<ImageAddr>, opened: HqImageContainer<D>, r: Option<HqImageContainer<D>>) -> bool {
    if exists|i: int| 0 <= i < before.len() && #[trigger] collides(before[i], addrs) {
        exists|i: int|
            0 <= i < before.len() && #[trigger] collides(before[i], addrs)
                && (forall|i2: int| 0 <= i2 < i ==> !#[trigger] collides(before[i2], addrs))
                && r == Some(before[i]) && after == before.remove(i).push(opened)
    } else {
        r is None && after == before.push(opened)
    }
}

impl<D> HqImage<D> {
    /// The replacement of a single native image by a still image of
    /// `width` × `height`: none unless the container holds exactly one image
    /// of non-zero width.
    pub fn open_image(name: &str, images: &Vec<Image>, width: u32, height: u32, data: D) -> (r: Option<Vec<HqImage<D>>>)
        ensures
            r is Some <==> images@.len() == 1 && images@[0].width as u32 != 0,
            r matches Some(v) ==> {
                &&& v@.len() == 1
                &&& v@[0].name@ == name@
                &&& v@[0].index == 0
                &&& v@[0].width == width
                &&& v@[0].height == height
                &&& v@[0].scale == scale_of(width, images@[0].width)
                &&& v@[0].original_addr == images@[0].addr
                &&& v@[0].data == data
            },
    {
        if images.len() != 1 {
            return None;
        }
        let image = images[0];
        let native = image.width as u32;
        if native == 0 {
            return None;
        }
        let mut v: Vec<HqImage<D>> = Vec::new();
        v.push(
            HqImage {
                name: name.to_owned(),
                index: 0,
                width,
                height,
                scale: width / native,
                original_addr: image.addr,
                data,
            },
        );
        Some(v)
    }

    /// The replacements of the `frame_count` frames of an animation of
    /// `width` × `height`, one per native image, each taking the next of
    /// `datas`: none unless there are as many frames and cells as native images
    /// and every native width is non-zero.
    pub fn open_animation(name: &str, images: &Vec<Image>, width: u32, height: u32, frame_count: usize, datas: Vec<D>) -> (r: Option<Vec<HqImage<D>>>)
        ensures
            r is Some <==> frame_count == images@.len() && datas@.len() == images@.len() && forall|k: int|
                0 <= k < images@.len() ==> #[trigger] images@[k].width as u32 != 0,
            r matches Some(v) ==> {
                &&& v@.len() == images@.len()
                &&& forall|k: int|
                    0 <= k < v@.len() ==> is_frame_image(#[trigger] v@[k], name@, k, width, height, images@[k], datas@[k])
            },
    {
        if frame_count != images.len() || datas.len() != images.len() {
            return None;
        }
        let mut k: usize = 0;
        while k < images.len()
            invariant
                0 <= k <= images@.len(),
                forall|k2: int| 0 <= k2 < k ==> #[trigger] images@[k2].width as u32 != 0,
            decreases images@.len() - k,
        {
            if images[k].width as u32 == 0 {
                return None;
            }
            k = k + 1;
        }
        let ghost all = datas@;
        let mut datas = datas;
        let mut v: Vec<HqImage<D>> = Vec::new();
        let mut i: usize = 0;
        while i < images.len()
            invariant
                0 <= i <= images@.len(),
                all.len() == images@.len(),
                datas@ == all.subrange(i as int, all.len() as int),
                forall|k2: int| 0 <= k2 < images@.len() ==> #[trigger] images@[k2].width as u32 != 0,
                v@.len() == i,
                forall|k2: int|
                    0 <= k2 < i ==> is_frame_image(#[trigger] v@[k2], name@, k2, width, height, images@[k2], all[k2]),
            decreases images@.len() - i,
        {
            let image = images[i];
            let native = image.width as u32;
            let data = datas.remove(0);
            assert(data == all[i as int]);
            assert(datas@ =~= all.subrange(i + 1, all.len() as int));
            let frame_number = i + 1;
            v.push(
                HqImage {
                    name: format_frame_name(name, frame_number),
                    index: i,
                    width,
                    height,
                    scale: width / native,
                    original_addr: image.addr,
                    data,
                },
            );
            i = i + 1;
        }
        Some(v)
    }

    /// The name of the first replacement of `image_addr`.
    pub fn name(image_addr: ImageAddr, catalog: &Vec<HqImageContainer<D>>) -> (r: Option<String>)
        ensures
            r is None <==> !is_loaded_in(catalog@, image_addr),
            r matches Some(t) ==> exists|i: int, j: int|
                first_at(catalog@, i, j, image_addr) && t@ == catalog@[i].images@[j].name@,
    {
        match HqImage::find(image_addr, catalog) {
            Some(image) => Some(image.name.clone()),
            None => None,
        }
    }

    /// `f` applied to the first replacement of `original_addr`, if there is one.
    pub fn map_loaded<F, R>(original_addr: ImageAddr, catalog: &Vec<HqImageContainer<D>>, f: F) -> (r: Option<R>)
        where
            F: FnOnce(&HqImage<D>) -> Option<R>,
        requires
            forall|h: &HqImage<D>| #[trigger] f.requires((h,)),
        ensures
            !is_loaded_in(catalog@, original_addr) ==> r is None,
            is_loaded_in(catalog@, original_addr) ==> exists|i: int, j: int|
                first_at(catalog@, i, j, original_addr) && f.ensures((&catalog@[i].images@[j],), r),
    {
        match HqImage::locate(original_addr, catalog) {
            Some((i, j)) => f(&catalog[i].images[j]),
            None => None,
        }
    }

    /// `some` applied to the first replacement of `original_addr`, else `none`
    /// applied to the catalog.
    pub fn with_loaded_or_else<SF, NF, R>(original_addr: ImageAddr, catalog: &Vec<HqImageContainer<D>>, some: SF, none: NF) -> (r: R)
        where
            SF: FnOnce(&HqImage<D>) -> R,
            NF: FnOnce(&Vec<HqImageContainer<D>>) -> R,
        requires
            forall|h: &HqImage<D>| #[trigger] some.requires((h,)),
            none.requires((catalog,)),
        ensures
            !is_loaded_in(catalog@, original_addr) ==> none.ensures((catalog,), r),
            is_loaded_in(catalog@, original_addr) ==> exists|i: int, j: int|
                first_at(catalog@, i, j, original_addr) && some.ensures((&catalog@[i].images@[j],), r),
    {
        match HqImage::locate(original_addr, catalog) {
            Some((i, j)) => some(&catalog[i].images[j]),
            None => none(catalog),
        }
    }
}

fn collides_exec<D>(c: &HqImageContainer<D>, addrs: &Vec<ImageAddr>) -> (r: bool)
    ensures
        r == collides(*c, addrs@),
{
    let mut j: usize = 0;
    while j < c.images.len()
        invariant
            0 <= j <= c.images@.len(),
            forall|j2: int| 0 <= j2 < j ==> !addrs@.contains(#[trigger] c.images@[j2].original_addr),
        decreases c.images@.len() - j,
    {
        let a = c.images[j].original_addr;
        let mut k: usize = 0;
        while k < addrs.len()
            invariant
                0 <= j < c.images@.len(),
                a == c.images@[j as int].original_addr,
                0 <= k <= addrs@.len(),
                forall|k2: int| 0 <= k2 < k ==> addrs@[k2] != a,
            decreases addrs@.len() - k,
        {
            if addrs[k] == a {
                assert(addrs@[k as int] == a);
                assert(addrs@.contains(c.images@[j as int].original_addr));
                return true;
            }
            k = k + 1;
        }
        j = j + 1;
    }
    false
}

impl<D> HqImageContainer<D> {
    /// The replacement of the native container `image_container` under the asset
    /// name `name`, from what was found on disk: a still image (its size and the
    /// cell its pixels arrive in) is tried first, then a video (its size, its
    /// frame count and one cell per frame). `None` when neither fits, and the
    /// native asset is used unmodified.
    pub fn open(
        image_container: &ImageContainer,
        name: String,
        still: Option<(u32, u32, D)>,
        video: Option<(u32, u32, usize, Vec<D>)>,
    ) -> (r: Option<(HqImageContainer<D>, AssetKind)>)
        ensures
            ({
                let images = image_container.images@;
                let still_ok = still is Some && images.len() == 1 && images[0].width as u32 != 0;
                let video_ok = video is Some && video.unwrap().2 == images.len() && video.unwrap().3@.len()
                    == images.len() && forall|k: int| 0 <= k < images.len() ==> #[trigger] images[k].width as u32 != 0;
                &&& r is Some <==> still_ok || video_ok
                &&& r matches Some((c, kind)) ==> {
                    &&& c.name == name
                    &&& c.original_addr == image_container.original_addr
                    &&& still_ok ==> {
                        &&& kind == AssetKind::Still
                        &&& c.images@.len() == 1
                        &&& c.images@[0].name@ == name@
                        &&& c.images@[0].index == 0
                        &&& c.images@[0].width == still.unwrap().0
                        &&& c.images@[0].height == still.unwrap().1
                        &&& c.images@[0].scale == scale_of(still.unwrap().0, images[0].width)
                        &&& c.images@[0].original_addr == images[0].addr
                        &&& c.images@[0].data == still.unwrap().2
                    }
                    &&& !still_ok ==> {
                        &&& kind == AssetKind::Animation
                        &&& c.images@.len() == images.len()
                        &&& forall|k: int|
                            0 <= k < images.len() ==> is_frame_image(#[trigger] c.images@[k], name@, k,
                                video.unwrap().0, video.unwrap().1, images[k], video.unwrap().3@[k])
                    }
                }
            }),
    {
        let still_images = match still {
            Some((width, height, data)) => HqImage::open_image(name.as_str(), &image_container.images, width, height, data),
            None => None,
        };
        match still_images {
            Some(images) => {
                return Some((HqImageContainer { name, original_addr: image_container.original_addr, images }, AssetKind::Still));
            },
            None => {},
        }
        let frames = match video {
            Some((width, height, frame_count, datas)) => HqImage::open_animation(
                name.as_str(),
                &image_container.images,
                width,
                height,
                frame_count,
                datas,
            ),
            None => None,
        };
        match frames {
            Some(images) => Some((HqImageContainer { name, original_addr: image_container.original_addr, images }, AssetKind::Animation)),
            None => None,
        }
    }

    /// Adds `opened`, the replacement of `image_container`, to the catalog. The
    /// engine reuses sub-image addresses when it reuses a container, so the
    /// first entry that replaces one of the container's sub-image addresses is
    /// taken out and returned, for the caller to detach elsewhere.
    pub fn load(catalog: &mut Vec<HqImageContainer<D>>, image_container: &ImageContainer, opened: HqImageContainer<D>) -> (r: Option<HqImageContainer<D>>)
        ensures
            load_result(old(catalog)@, final(catalog)@, image_container.image_addrs@, opened, r),
    {
        let addrs = &image_container.image_addrs;
        let mut i: usize = 0;
        let mut found: bool = false;
        while i < catalog.len() && !found
            invariant
                0 <= i <= catalog@.len(),
                catalog@ == old(catalog)@,
                found ==> i < catalog@.len() && collides(catalog@[i as int], addrs@),
                forall|i2: int| 0 <= i2 < i ==> !#[trigger] collides(catalog@[i2], addrs@),
            decreases catalog@.len() - i + (if found { 0int } else { 1int }),
        {
            if collides_exec(&catalog[i], addrs) {
                found = true;
            } else {
                i = i + 1;
            }
        }
        if found {
            let ghost idx = i as int;
            let removed = catalog.remove(i);
            catalog.push(opened);
            assert(catalog@ == old(catalog)@.remove(idx).push(opened));
            Some(removed)
        } else {
            catalog.push(opened);
            None
        }
    }

    /// Takes the entry replacing the container at `image_container_addr` out of
    /// the catalog, for the caller to detach elsewhere.
    pub fn unload(catalog: &mut Vec<HqImageContainer<D>>, image_container_addr: ImageContainerAddr) -> (r: Option<HqImageContainer<D>>)
        ensures
            (exists|i: int| 0 <= i < old(catalog)@.len() && #[trigger] old(catalog)@[i].original_addr == image_container_addr) ==> exists|i: int|
                0 <= i < old(catalog)@.len() && #[trigger] old(catalog)@[i].original_addr == image_container_addr
                    && (forall|i2: int| 0 <= i2 < i ==> #[trigger] old(catalog)@[i2].original_addr != image_container_addr)
                    && r == Some(old(catalog)@[i]) && final(catalog)@ == old(catalog)@.remove(i),
            !(exists|i: int| 0 <= i < old(catalog)@.len() && #[trigger] old(catalog)@[i].original_addr == image_container_addr) ==> r is None && final(catalog)@ == old(catalog)@,
    {
        let mut i: usize = 0;
        while i < catalog.len()
            invariant
                0 <= i <= catalog@.len(),
                catalog@ == old(catalog)@,
                forall|i2: int| 0 <= i2 < i ==> #[trigger] catalog@[i2].original_addr != image_container_addr,
            decreases catalog@.len() - i,
        {
            if catalog[i].original_addr == image_container_addr {
                return Some(catalog.remove(i));
            }
            i = i + 1;
        }
        None
    }
}

/// Whether `t` names the native image `addr`, the decompression buffer aside:
/// a singleton buffer by its role, a replaced image by its replacement's name,
/// anything else by its address.
pub open spec fn is_base_name<D>(addr: ImageAddr, buffers: KnownBuffers, catalog: Seq<HqImageContainer<D>>, t: Seq<char>) -> bool {
    if addr.0 == buffers.clean {
        t == "CLEAN_BUFFER"@
    } else if addr.0 == buffers.clean_z {
        t == "CLEAN_Z_BUFFER"@
    } else if addr.0 == buffers.back {
        t == "BACK_BUFFER"@
    } else if addr.0 == buffers.smush {
        t == "SMUSH_BUFFER"@
    } else if is_loaded_in(catalog, addr) {
        exists|i: int, j: int| first_at(catalog, i, j, addr) && t == catalog[i].images@[j].name@
    } else {
        t == "unknown/dynamic buffer ("@ + hex_of(addr.0 as nat) + ")"@
    }
}

impl ImageAddr {
    fn base_name<D>(&self, buffers: &KnownBuffers, catalog: &Vec<HqImageContainer<D>>) -> (r: String)
        ensures
            is_base_name(*self, *buffers, catalog@, r@),
    {
        if self.is_clean_buffer(buffers) {
            "CLEAN_BUFFER".to_owned()
        } else if self.is_clean_z_buffer(buffers) {
            "CLEAN_Z_BUFFER".to_owned()
        } else if self.is_back_buffer(buffers) {
            "BACK_BUFFER".to_owned()
        } else if self.is_smush_buffer(buffers) {
            "SMUSH_BUFFER".to_owned()
        } else {
            match HqImage::name(*self, catalog) {
                Some(name) => name,
                None => {
                    let mut s = "unknown/dynamic buffer (".to_owned();
                    push_hex(&mut s, self.0);
                    append(&mut s, ")");
                    s
                },
            }
        }
    }

    /// A readable name of the image for logs; the decompression buffer is named
    /// together with the image last decompressed into it.
    pub fn name<D>(&self, buffers: &KnownBuffers, decompressed: Option<ImageAddr>, catalog: &Vec<HqImageContainer<D>>) -> (r: String)
        ensures
            self.0 == buffers.decompression ==> exists|t: Seq<char>|
                #[trigger] is_base_name(original_of(*self, *buffers, decompressed), *buffers, catalog@, t)
                    && r@ == "DECOMPRESSION_BUFFER aka "@ + t,
            self.0 != buffers.decompression ==> is_base_name(*self, *buffers, catalog@, r@),
    {
        if self.is_decompression_buffer(buffers) {
            let original = self.original(buffers, decompressed);
            let t = original.base_name(buffers, catalog);
            let mut s = "DECOMPRESSION_BUFFER aka ".to_owned();
            append(&mut s, t.as_str());
            s
        } else {
            self.base_name(buffers, catalog)
        }
    }
}

impl<D> HqImage<D> {
    /// The replaced native address, written `0x…`.
    pub fn format_addr(&self) -> (r: String)
        ensures
            r@ == hex_of(self.original_addr.0 as nat),
    {
        let mut s = String::new();
        push_hex(&mut s, self.original_addr.0);
        assert(s@ =~= hex_of(self.original_addr.0 as nat));
        s
    }
}

} // verus!
