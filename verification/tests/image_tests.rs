use flasher::images::{is_image_file_name, ImageInfo, ImagePage, Update};
use flasher::input::{InputEvent, KeyCode, KeyEvent};

fn key(code: KeyCode) -> InputEvent {
    InputEvent::Key(KeyEvent { code, ctrl: false })
}

fn image(path: &str) -> ImageInfo {
    ImageInfo { path: path.to_string() }
}

fn paths(page: &ImagePage) -> Vec<String> {
    page.images().iter().map(|i| i.path.clone()).collect()
}

#[test]
fn image_names_need_the_zst_extension() {
    assert!(is_image_file_name("openwrt-one.img.zst"));
    assert!(is_image_file_name("a.zst"));
    assert!(!is_image_file_name(".zst"));
    assert!(!is_image_file_name("openwrt-one.img"));
    assert!(!is_image_file_name("openwrt-one.zst.sha256"));
}

#[test]
fn new_page_is_empty() {
    let mut page = ImagePage::new();
    assert!(page.images().is_empty());
    assert_eq!(page.highlighted(), 0);
    assert!(page.selected().is_none());
}

#[test]
fn cursor_moves_within_the_list() {
    let mut page = ImagePage::new();
    page.add_image(image("/run/a/one.zst"));
    page.add_image(image("/run/a/two.zst"));
    page.add_image(image("/run/b/three.zst"));
    page.input(key(KeyCode::Up));
    assert_eq!(page.highlighted(), 0);
    page.input(key(KeyCode::Down));
    assert_eq!(page.highlighted(), 1);
    page.input(key(KeyCode::Char('j')));
    page.input(key(KeyCode::Char('j')));
    page.input(key(KeyCode::Down));
    assert_eq!(page.highlighted(), 2);
    page.input(key(KeyCode::Char('k')));
    assert_eq!(page.highlighted(), 1);
    page.input(key(KeyCode::Char('x')));
    page.input(InputEvent::Other);
    assert_eq!(page.highlighted(), 1);
}

#[test]
fn down_on_an_empty_list_stays_at_the_top() {
    let mut page = ImagePage::new();
    page.input(key(KeyCode::Down));
    assert_eq!(page.highlighted(), 0);
    page.input(key(KeyCode::Enter));
    assert!(page.selected().is_none());
}

#[test]
fn enter_picks_the_image_under_the_cursor_once() {
    let mut page = ImagePage::new();
    page.add_image(image("/run/a/one.zst"));
    page.add_image(image("/run/a/two.zst"));
    page.input(key(KeyCode::Down));
    page.input(key(KeyCode::Enter));
    let picked = page.selected().expect("an image is picked");
    assert_eq!(picked.path, "/run/a/two.zst");
    assert!(page.selected().is_none());
}

#[test]
fn removed_mount_takes_its_images_along() {
    let mut page = ImagePage::new();
    page.apply_update(Update::New(image("/run/media/usb/one.zst")));
    page.apply_update(Update::New(image("/data/two.zst")));
    page.apply_update(Update::New(image("/run/media/usb/sub/three.zst")));
    page.apply_update(Update::New(image("/run/media/usb2/four.zst")));
    page.apply_update(Update::Removed("/run/media/usb".to_string()));
    assert_eq!(paths(&page), vec!["/data/two.zst", "/run/media/usb2/four.zst"]);
}

#[test]
fn cursor_past_the_end_picks_nothing() {
    let mut page = ImagePage::new();
    page.add_image(image("/run/m/one.zst"));
    page.add_image(image("/run/m/two.zst"));
    page.input(key(KeyCode::Down));
    page.apply_update(Update::Removed("/run/m".to_string()));
    assert_eq!(page.highlighted(), 0);
    page.input(key(KeyCode::Enter));
    assert!(page.selected().is_none());
}

#[test]
fn marked_images_are_dropped_in_order() {
    let mut page = ImagePage::new();
    for p in ["/a.zst", "/b.zst", "/c.zst", "/d.zst"] {
        page.add_image(image(p));
    }
    page.remove_marked(&vec![true, false, true, false]);
    assert_eq!(paths(&page), vec!["/b.zst", "/d.zst"]);
    page.remove_marked(&vec![false, false]);
    assert_eq!(paths(&page), vec!["/b.zst", "/d.zst"]);
    page.remove_marked(&vec![true, true]);
    assert!(paths(&page).is_empty());
}

#[test]
fn image_list_display_shows_every_path_and_the_highlight() {
    let mut page = ImagePage::new();
    let empty = page.display();
    assert_eq!(empty.title, "Select image");
    assert_eq!(empty.marker, ">>");
    assert!(empty.rows.is_empty());
    assert_eq!(empty.highlighted, 0);
    page.add_image(image("/run/a/one.zst"));
    page.add_image(image("/run/a/two.zst"));
    page.input(key(KeyCode::Down));
    page.input(key(KeyCode::Down));
    let shown = page.display();
    assert_eq!(shown.rows, vec!["/run/a/one.zst".to_string(), "/run/a/two.zst".to_string()]);
    assert_eq!(shown.highlighted, 1);
    assert_eq!(shown.title, "Select image");
    assert_eq!(shown.marker, ">>");
}
