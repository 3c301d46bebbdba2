use flasher::final_page::{FinalAction, FinalPage};
use flasher::flash::FlashProgress;
use flasher::images::{ImageInfo, Update};
use flasher::input::{is_quit, InputEvent, KeyCode, KeyEvent};
use flasher::ui::{forced_window_size, App, Control, Opts, Page};

fn key(code: KeyCode) -> InputEvent {
    InputEvent::Key(KeyEvent { code, ctrl: false })
}

fn app(fake: bool) -> App {
    App::new(Opts { fake, images: vec!["/data".to_string()] })
}

fn is_image(app: &App) -> bool {
    matches!(app.page(), Page::Image(_))
}

fn is_flash(app: &App) -> bool {
    matches!(app.page(), Page::Flash(_))
}

#[test]
fn control_c_quits() {
    assert!(is_quit(InputEvent::Key(KeyEvent { code: KeyCode::Char('c'), ctrl: true })));
    assert!(!is_quit(InputEvent::Key(KeyEvent { code: KeyCode::Char('c'), ctrl: false })));
    assert!(!is_quit(InputEvent::Key(KeyEvent { code: KeyCode::Char('x'), ctrl: true })));
    assert!(!is_quit(InputEvent::Other));
    let mut a = app(false);
    let ctrl_c = InputEvent::Key(KeyEvent { code: KeyCode::Char('c'), ctrl: true });
    assert_eq!(a.handle_event(ctrl_c), Control::Quit);
    assert_eq!(a.handle_event(key(KeyCode::Down)), Control::Continue(FinalAction::Nothing));
}

#[test]
fn nothing_happens_until_an_image_is_picked() {
    let mut a = app(false);
    assert!(a.step().is_none());
    assert!(is_image(&a));
    a.apply_image_update(Update::New(ImageInfo { path: "/run/usb/a.zst".to_string() }));
    assert!(a.step().is_none());
    assert!(is_image(&a));
}

#[test]
fn a_pick_starts_flashing_the_disk() {
    let mut a = app(false);
    a.apply_image_update(Update::New(ImageInfo { path: "/run/usb/a.zst".to_string() }));
    a.apply_image_update(Update::New(ImageInfo { path: "/run/usb/b.zst".to_string() }));
    a.handle_event(key(KeyCode::Down));
    a.handle_event(key(KeyCode::Enter));
    let request = a.step().expect("flashing starts");
    assert_eq!(request.image.path, "/run/usb/b.zst");
    assert_eq!(request.target, "/dev/nvme0n1");
    assert!(!request.create_target);
    assert!(is_flash(&a));
    assert!(a.step().is_none());
}

#[test]
fn fake_mode_writes_to_disk_img() {
    let mut a = app(true);
    a.apply_image_update(Update::New(ImageInfo { path: "/data/x.zst".to_string() }));
    a.handle_event(key(KeyCode::Enter));
    let request = a.step().expect("flashing starts");
    assert_eq!(request.target, "disk.img");
    assert!(request.create_target);
}

#[test]
fn outcome_page_follows_the_flashing_and_stays() {
    let mut a = app(false);
    a.apply_image_update(Update::New(ImageInfo { path: "/data/x.zst".to_string() }));
    a.handle_event(key(KeyCode::Enter));
    a.step();
    a.update_progress(FlashProgress::Flashing { mapped: 100, written: 10 });
    assert!(a.step().is_none());
    assert!(is_flash(&a));
    a.update_progress(FlashProgress::Failed("Checksum error".to_string()));
    a.step();
    match a.page() {
        Page::Final(f) => {
            let d = f.display();
            assert!(!d.success);
            assert_eq!(d.title, "Flashing failed");
            assert_eq!(d.message, "Failure: Checksum error\nPress enter to reboot");
        }
        _ => panic!("expected the outcome page"),
    }
    assert!(a.step().is_none());
    a.apply_image_update(Update::New(ImageInfo { path: "/data/y.zst".to_string() }));
    a.update_progress(FlashProgress::Finished);
    assert!(matches!(a.page(), Page::Final(_)));
    assert_eq!(
        a.handle_event(key(KeyCode::Enter)),
        Control::Continue(FinalAction::Reboot)
    );
    assert_eq!(a.handle_event(key(KeyCode::Up)), Control::Continue(FinalAction::Nothing));
}

#[test]
fn success_page_offers_a_reboot() {
    let f = FinalPage::new(Ok(()));
    let d = f.display();
    assert!(d.success);
    assert_eq!(d.title, "Huge success");
    assert_eq!(d.message, "Done!\nPress enter to reboot");
    assert_eq!(f.input(key(KeyCode::Enter)), FinalAction::Reboot);
    assert_eq!(f.input(key(KeyCode::Char('q'))), FinalAction::Nothing);
    assert_eq!(f.input(InputEvent::Other), FinalAction::Nothing);
}

#[test]
fn keys_on_the_flashing_page_do_nothing() {
    let mut page = Page::Image(flasher::images::ImagePage::new());
    let options = Opts { fake: false, images: Vec::new() };
    page.apply_image_update(Update::New(ImageInfo { path: "/data/x.zst".to_string() }));
    page.input(key(KeyCode::Enter));
    assert!(page.next_step(&options).is_some());
    assert_eq!(page.input(key(KeyCode::Enter)), FinalAction::Nothing);
    assert!(matches!(page, Page::Flash(_)));
}

#[test]
fn unset_terminal_size_is_forced_to_80_by_24() {
    assert_eq!(forced_window_size(0, 0), Some((24, 80)));
    assert_eq!(forced_window_size(0, 50), Some((24, 80)));
    assert_eq!(forced_window_size(120, 0), Some((24, 80)));
    assert_eq!(forced_window_size(120, 40), None);
}
