use grimmod::addr::{Image, ImageAddr, ImageContainer, ImageContainerAddr};
use grimmod::catalog::{AssetKind, HqImage, HqImageContainer};
use grimmod::text::{asset_name, format_frame_name};

fn native(addrs: &[usize], width: i32) -> ImageContainer {
    ImageContainer {
        name: "DATA/Door.BM".to_string(),
        original_addr: ImageContainerAddr(0x1000 + addrs[0]),
        images: addrs.iter().map(|&a| Image { addr: ImageAddr(a), width, height: width }).collect(),
        image_addrs: addrs.iter().map(|&a| ImageAddr(a)).collect(),
    }
}

fn container(name: &str, addrs: &[usize]) -> HqImageContainer<usize> {
    let c = native(addrs, 10);
    let (opened, kind) =
        HqImageContainer::open(&c, name.to_string(), None, Some((20, 20, addrs.len(), addrs.to_vec()))).unwrap();
    assert_eq!(kind, AssetKind::Animation);
    opened
}

#[test]
fn asset_names_come_from_bitmap_stems() {
    assert_eq!(asset_name("DATA/Door.BM"), Some("door".to_string()));
    assert_eq!(asset_name("door.bm"), Some("door".to_string()));
    assert_eq!(asset_name("door.png"), None);
    assert_eq!(asset_name("bm"), None);
}

#[test]
fn frame_names_have_two_digits() {
    assert_eq!(format_frame_name("door", 1), "door (01)");
    assert_eq!(format_frame_name("door", 12), "door (12)");
    assert_eq!(format_frame_name("door", 123), "door (123)");
}

#[test]
fn still_image_scale_is_width_ratio() {
    let c = native(&[0x10], 100);
    let images = HqImage::open_image("door", &c.images, 200, 200, 7u8).unwrap();
    assert_eq!(images.len(), 1);
    let i = &images[0];
    assert_eq!((i.name.as_str(), i.index, i.width, i.height, i.scale), ("door", 0, 200, 200, 2));
    assert_eq!((i.original_addr, i.data), (ImageAddr(0x10), 7));
}

#[test]
fn still_image_needs_exactly_one_native_image() {
    let c = native(&[0x10, 0x14], 100);
    assert!(HqImage::open_image("door", &c.images, 200, 200, ()).is_none());
    let z = native(&[0x10], 0);
    assert!(HqImage::open_image("door", &z.images, 200, 200, ()).is_none());
}

#[test]
fn animation_frames_take_slots_in_order() {
    let c = native(&[0x10, 0x14, 0x18], 10);
    let frames = HqImage::open_animation("fire", &c.images, 30, 30, 3, vec![5, 6, 7]).unwrap();
    let got: Vec<(String, usize, u32, usize, usize)> =
        frames.iter().map(|f| (f.name.clone(), f.index, f.scale, f.original_addr.0, f.data)).collect();
    assert_eq!(
        got,
        vec![
            ("fire (01)".to_string(), 0, 3, 0x10, 5),
            ("fire (02)".to_string(), 1, 3, 0x14, 6),
            ("fire (03)".to_string(), 2, 3, 0x18, 7),
        ]
    );
}

#[test]
fn animation_with_frame_count_mismatch_is_refused() {
    let c = native(&[0x10, 0x14], 10);
    assert!(HqImage::open_animation("fire", &c.images, 30, 30, 2, vec![5]).is_none());
    assert!(HqImage::open_animation("fire", &c.images, 30, 30, 3, vec![5, 6]).is_none());
}

#[test]
fn load_evicts_the_colliding_entry() {
    let mut catalog = vec![container("a", &[0x10, 0x14]), container("c", &[0x30])];
    let b = container("b", &[0x10]);
    let removed = HqImageContainer::load(&mut catalog, &native(&[0x10], 10), b).unwrap();
    assert_eq!(removed.name, "a");
    let names: Vec<&str> = catalog.iter().map(|c| c.name.as_str()).collect();
    assert_eq!(names, vec!["c", "b"]);
}

#[test]
fn load_without_collision_appends() {
    let mut catalog = vec![container("a", &[0x10])];
    let removed = HqImageContainer::load(&mut catalog, &native(&[0x20], 10), container("b", &[0x20]));
    assert!(removed.is_none());
    assert_eq!(catalog.len(), 2);
}

#[test]
fn unload_by_container_address() {
    let mut catalog = vec![container("a", &[0x10]), container("b", &[0x20])];
    let removed = HqImageContainer::unload(&mut catalog, ImageContainerAddr(0x1020)).unwrap();
    assert_eq!(removed.name, "b");
    assert!(HqImageContainer::unload(&mut catalog, ImageContainerAddr(0x1020)).is_none());
    assert_eq!(catalog.len(), 1);
}

#[test]
fn lookups_by_image_address() {
    let catalog = vec![container("a", &[0x10, 0x14]), container("b", &[0x20])];
    assert!(HqImage::is_loaded(ImageAddr(0x14), &catalog));
    assert!(!HqImage::is_loaded(ImageAddr(0x18), &catalog));
    assert_eq!(HqImage::locate(ImageAddr(0x20), &catalog), Some((1, 0)));
    assert_eq!(HqImage::name(ImageAddr(0x14), &catalog), Some("a (02)".to_string()));
    assert_eq!(HqImage::find(ImageAddr(0x14), &catalog).map(|h| h.data), Some(0x14));
    assert_eq!(HqImage::map_loaded(ImageAddr(0x20), &catalog, |h| Some(h.index)), Some(0));
    assert_eq!(HqImage::map_loaded(ImageAddr(0x21), &catalog, |h| Some(h.index)), None);
    assert_eq!(HqImage::with_loaded_or_else(ImageAddr(0x21), &catalog, |h| h.index, |c| c.len()), 2);
    assert_eq!(HqImage::with_loaded_or_else(ImageAddr(0x14), &catalog, |h| h.index, |c| c.len()), 1);
}

#[test]
fn open_prefers_still_image() {
    let c = native(&[0x10], 100);
    let (h, kind) = HqImageContainer::open(&c, "door".to_string(), Some((200, 200, 1)), Some((200, 200, 1, vec![2]))).unwrap();
    assert_eq!(kind, AssetKind::Still);
    assert_eq!((h.name.as_str(), h.original_addr, h.images.len()), ("door", c.original_addr, 1));
    let i = &h.images[0];
    assert_eq!((i.width, i.height, i.scale, i.index, i.original_addr, i.data), (200, 200, 2, 0, ImageAddr(0x10), 1));
}

#[test]
fn open_falls_back_to_animation() {
    let c = native(&[0x10, 0x14], 10);
    let (h, kind) =
        HqImageContainer::open(&c, "fire".to_string(), Some((20, 20, 1)), Some((20, 20, 2, vec![2, 3]))).unwrap();
    assert_eq!(kind, AssetKind::Animation);
    assert_eq!(h.images.iter().map(|i| i.data).collect::<Vec<_>>(), vec![2, 3]);
}

#[test]
fn open_rejects_frame_count_mismatch() {
    let c = native(&[0x10, 0x14], 10);
    assert!(HqImageContainer::open(&c, "fire".to_string(), None, Some((20, 20, 3, vec![2, 3]))).is_none());
    assert!(HqImageContainer::open(&c, "fire".to_string(), None, None::<(u32, u32, usize, Vec<u8>)>).is_none());
}
