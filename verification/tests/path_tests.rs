use flasher::images::{ImageInfo, ImagePage, Update};
use flasher::paths::{bmap_path, components_of, is_under};

fn comps(p: &str) -> Vec<String> {
    components_of(p).into_iter().map(|c| c.into_iter().collect()).collect()
}

#[test]
fn components_follow_unix_path_rules() {
    assert_eq!(comps("/run/media/usb"), vec!["/", "run", "media", "usb"]);
    assert_eq!(comps("/run//media/./usb/"), vec!["/", "run", "media", "usb"]);
    assert_eq!(comps("./a/b"), vec![".", "a", "b"]);
    assert_eq!(comps("a/./b/."), vec!["a", "b"]);
    assert_eq!(comps("../x"), vec!["..", "x"]);
    assert!(comps("").is_empty());
}

#[test]
fn under_compares_whole_components() {
    assert!(is_under("/run/media/usb/a.zst", "/run/media/usb"));
    assert!(is_under("/run/media/usb", "/run/media/usb/"));
    assert!(is_under("/run/media/usb/a.zst", "/"));
    assert!(!is_under("/run/media/usb2/b.zst", "/run/media/usb"));
    assert!(!is_under("/run/media/usb.zst", "/run/media/usb"));
    assert!(!is_under("run/media/usb/a.zst", "/run/media/usb"));
    assert!(is_under("anything", ""));
}

#[test]
fn removal_keeps_sibling_mounts() {
    let mut page = ImagePage::new();
    for p in ["/run/media/usb/a.zst", "/run/media/usb2/b.zst", "/home/c.zst"] {
        page.apply_update(Update::New(ImageInfo { path: p.to_string() }));
    }
    page.apply_update(Update::Removed("/run/media/usb".to_string()));
    let left: Vec<String> = page.images().iter().map(|i| i.path.clone()).collect();
    assert_eq!(left, vec!["/run/media/usb2/b.zst", "/home/c.zst"]);
}

#[test]
fn bmap_path_replaces_the_extension() {
    assert_eq!(bmap_path("/run/media/usb/openwrt.img.zst"), "/run/media/usb/openwrt.img.bmap");
    assert_eq!(bmap_path("image"), "image.bmap");
    assert_eq!(bmap_path(".hidden"), ".hidden.bmap");
    assert_eq!(bmap_path("dir/"), "dir.bmap");
    assert_eq!(bmap_path("/"), "/");
    assert_eq!(bmap_path(".."), "..");
    assert_eq!(bmap_path(""), "");
}

#[test]
fn bmap_path_agrees_with_std() {
    let cases = [
        "a.zst", "a.b.zst", "a.", "a..b", "/x/y.zst/", "/x/y.zst/.", "x/./y", "./", ".", "./a.zst",
        "a/..", "a/../b.c", "//a//b.c//", "...", ".a.b", "a/.b", "dir.d/file", "dir.d/", "a b/c d.e",
        "ü/ö.zst", "/run/media/disk/openwrt-24.10.0-mediatek-filogic-openwrt_one-factory.img.zst",
    ];
    for case in cases {
        let expected = std::path::Path::new(case).with_extension("bmap");
        assert_eq!(bmap_path(case), expected.to_str().unwrap(), "{case}");
    }
}
