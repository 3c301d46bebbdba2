//! The page sequence of the tool: pick an image, watch it being written, read
//! how it ended. Each step is a function from the current page and an event to
//! the next page and the outside work to start.

use vstd::prelude::*;
use crate::final_page::{FinalAction, FinalPage, final_action_for};
use crate::flash::{
    FlashPage, FlashPageView, FlashProgress, ProgressView, progress_outcome,
};
use crate::images::{ImageInfo, ImagePage, ImagePageView, Update, image_page_input, without_under};
use crate::input::{InputEvent, is_quit, is_quit_event};

verus! {

/// Command-line options.
pub struct Opts {
    /// Fake the destructive operation: flash the image to the file `disk.img`
    /// instead of the disk.
    pub fake: bool,
    /// Directories to scan for images besides the mounted media.
    pub images: Vec<String>,
}

/// `"disk.img"`
pub open spec fn fake_target() -> Seq<char> {
    seq!['d', 'i', 's', 'k', '.', 'i', 'm', 'g']
}

/// `"/dev/nvme0n1"`
pub open spec fn disk_target() -> Seq<char> {
    seq!['/', 'd', 'e', 'v', '/', 'n', 'v', 'm', 'e', '0', 'n', '1']
}

/// Where an image is written: the file `disk.img` in fake mode, the disk otherwise.
pub open spec fn target_for(fake: bool) -> Seq<char> {
    if fake {
        fake_target()
    } else {
        disk_target()
    }
}

/// The window size to force on a terminal that reports `width` by `height`:
/// 24 rows by 80 columns when either side is unset (zero), nothing otherwise.
pub fn forced_window_size(width: u16, height: u16) -> (r: Option<(u16, u16)>)
    ensures
        r == (if width == 0 || height == 0 {
            Some((24u16, 80u16))
        } else {
            None
        }),
{
    if width == 0 || height == 0 {
        Some((24, 80))
    } else {
        None
    }
}

/// Outside work that the page sequence asks for: write `image` to `target`,
/// first creating `target` when `create_target` is set.
pub struct FlashRequest {
    pub image: ImageInfo,
    pub target: String,
    pub create_target: bool,
}

/// A flash request as plain values: image path, target path, whether to
/// create the target.
pub open spec fn request_view(r: FlashRequest) -> (Seq<char>, Seq<char>, bool) {
    (r.image@, r.target@, r.create_target)
}

/// The request, if any, as plain values.
pub open spec fn opt_request_view(r: Option<FlashRequest>) -> Option<(Seq<char>, Seq<char>, bool)> {
    match r {
        Some(q) => Some(request_view(q)),
        None => None,
    }
}

/// The page on screen.
pub enum Page {
    Image(ImagePage),
    Flash(FlashPage),
    Final(FinalPage),
}

/// A page as plain values.
pub enum PageView {
    Image(ImagePageView),
    Flash(FlashPageView),
    Final(Result<(), Seq<char>>),
}

impl View for Page {
    type V = PageView;

    open spec fn view(&self) -> PageView {
        match self {
            Page::Image(i) => PageView::Image(i@),
            Page::Flash(f) => PageView::Flash(f@),
            Page::Final(f) => PageView::Final(f@),
        }
    }
}

/// The position of a page in the sequence.
pub open spec fn stage(p: PageView) -> nat {
    match p {
        PageView::Image(_) => 0,
        PageView::Flash(_) => 1,
        PageView::Final(_) => 2,
    }
}

/// One step of the sequence: a picked image starts flashing (to the target
/// that the mode gives), a finished or failed flashing shows its outcome, and
/// otherwise nothing changes.
pub open spec fn page_step(p: PageView, fake: bool) -> (PageView, Option<(Seq<char>, Seq<char>, bool)>) {
    match p {
        PageView::Image(v) => match v.selected {
            Some(image) => (
                PageView::Flash(FlashPageView { image, progress: ProgressView::Starting }),
                Some((image, target_for(fake), fake)),
            ),
            None => (p, None),
        },
        PageView::Flash(f) => match progress_outcome(f.progress) {
            Some(o) => (PageView::Final(o), None),
            None => (p, None),
        },
        PageView::Final(_) => (p, None),
    }
}

/// The page after an event: the image page moves its cursor or picks, the
/// other pages stay as they are.
pub open spec fn page_input(p: PageView, event: InputEvent) -> PageView {
    match p {
        PageView::Image(v) => PageView::Image(image_page_input(v, event)),
        _ => p,
    }
}

/// What the page asks for on an event: only the last page asks, for a reboot
/// on enter.
pub open spec fn page_action(p: PageView, event: InputEvent) -> FinalAction {
    match p {
        PageView::Final(_) => final_action_for(event),
        _ => FinalAction::Nothing,
    }
}

impl Page {
    /// Moves on when the current page is through: from a picked image to its
    /// flashing, from an ended flashing to its outcome.
    pub fn next_step(&mut self, options: &Opts) -> (r: Option<FlashRequest>)
        ensures
            (final(self)@, opt_request_view(r)) == page_step(old(self)@, options.fake),
    {
        proof {
            reveal_strlit("disk.img");
            reveal_strlit("/dev/nvme0n1");
        }
        let next = match self {
            Page::Image(i) => match i.selected() {
                Some(image) => {
                    let target = if options.fake {
                        String::from_str("disk.img")
                    } else {
                        String::from_str("/dev/nvme0n1")
                    };
                    let request = FlashRequest {
                        image: image.duplicate(),
                        target,
                        create_target: options.fake,
                    };
                    Some((Page::Flash(FlashPage::new(image)), request))
                },
                None => None,
            },
            Page::Flash(f) => match f.done() {
                Some(outcome) => {
                    *self = Page::Final(FinalPage::new(outcome));
                    return None;
                },
                None => None,
            },
            Page::Final(_) => None,
        };
        match next {
            Some((page, request)) => {
                *self = page;
                Some(request)
            },
            None => None,
        }
    }

    /// Hands an event to the page on screen, and reports what it asks for.
    pub fn input(&mut self, event: InputEvent) -> (r: FinalAction)
        ensures
            final(self)@ == page_input(old(self)@, event),
            r == page_action(old(self)@, event),
    {
        match self {
            Page::Image(i) => {
                i.input(event);
                FinalAction::Nothing
            },
            Page::Flash(_) => FinalAction::Nothing,
            Page::Final(f) => f.input(event),
        }
    }

    /// Hands a change of the image set to the image page; once an image is
    /// picked, such changes no longer matter and are dropped.
    pub fn apply_image_update(&mut self, update: Update)
        ensures
            match old(self)@ {
                PageView::Image(v) => final(self)@ matches PageView::Image(w) && match update {
                    Update::New(image) => w == (ImagePageView { images: v.images.push(image@), ..v }),
                    Update::Removed(prefix) => w == (ImagePageView {
                        images: without_under(v.images, prefix@),
                        ..v
                    }),
                },
                _ => final(self)@ == old(self)@,
            },
    {
        match self {
            Page::Image(i) => i.apply_update(update),
            _ => {},
        }
    }

    /// Hands the latest flashing progress to the flashing page; other pages
    /// have no use for it.
    pub fn update_progress(&mut self, progress: FlashProgress)
        ensures
            match old(self)@ {
                PageView::Flash(f) => final(self)@ == PageView::Flash(
                    FlashPageView { progress: progress@, ..f },
                ),
                _ => final(self)@ == old(self)@,
            },
    {
        match self {
            Page::Flash(f) => f.update(progress),
            _ => {},
        }
    }
}

/// What the event loop does after an event.
#[derive(Clone, Copy, Debug, PartialEq, Eq, Structural)]
pub enum Control {
    /// Leave the program.
    Quit,
    /// Go on, after doing what the page asked for.
    Continue(FinalAction),
}

/// The state of the tool: the page on screen and the options it runs with.
pub struct App {
    page: Page,
    options: Opts,
}

/// The tool's state as plain values.
pub struct AppView {
    pub page: PageView,
    pub fake: bool,
    pub image_dirs: Seq<Seq<char>>,
}

/// The directories of a list of options, as plain values.
pub open spec fn dirs_view(dirs: Seq<String>) -> Seq<Seq<char>> {
    dirs.map_values(|d: String| d@)
}

impl View for App {
    type V = AppView;

    closed spec fn view(&self) -> AppView {
        AppView {
            page: self.page@,
            fake: self.options.fake,
            image_dirs: dirs_view(self.options.images@),
        }
    }
}

impl App {
    /// Starts on an empty image page.
    pub fn new(options: Opts) -> (r: App)
        ensures
            r@.fake == options.fake,
            r@.image_dirs == dirs_view(options.images@),
            r@.page matches PageView::Image(v) && v.images.len() == 0 && v.cursor == 0
                && v.selected is None,
    {
        App { page: Page::Image(ImagePage::new()), options }
    }

    /// The page on screen.
    pub fn page(&self) -> (r: &Page)
        ensures
            r@ == self@.page,
    {
        &self.page
    }

    /// The options the tool runs with.
    pub fn options(&self) -> (r: &Opts)
        ensures
            r.fake == self@.fake,
            dirs_view(r.images@) == self@.image_dirs,
    {
        &self.options
    }

    /// Control-C quits; any other event goes to the page on screen.
    pub fn handle_event(&mut self, event: InputEvent) -> (r: Control)
        ensures
            final(self)@.fake == old(self)@.fake,
            final(self)@.image_dirs == old(self)@.image_dirs,
            is_quit_event(event) ==> r == Control::Quit && final(self)@ == old(self)@,
            !is_quit_event(event) ==> r == Control::Continue(page_action(old(self)@.page, event))
                && final(self)@.page == page_input(old(self)@.page, event),
    {
        if is_quit(event) {
            return Control::Quit;
        }
        Control::Continue(self.page.input(event))
    }

    /// Moves the page sequence on, if the page on screen is through.
    pub fn step(&mut self) -> (r: Option<FlashRequest>)
        ensures
            final(self)@.fake == old(self)@.fake,
            final(self)@.image_dirs == old(self)@.image_dirs,
            (final(self)@.page, opt_request_view(r)) == page_step(old(self)@.page, old(self)@.fake),
    {
        self.page.next_step(&self.options)
    }

    /// Hands a change of the image set to the page sequence.
    pub fn apply_image_update(&mut self, update: Update)
        ensures
            final(self)@.fake == old(self)@.fake,
            final(self)@.image_dirs == old(self)@.image_dirs,
            match old(self)@.page {
                PageView::Image(v) => final(self)@.page matches PageView::Image(w) && match update {
                    Update::New(image) => w == (ImagePageView { images: v.images.push(image@), ..v }),
                    Update::Removed(prefix) => w == (ImagePageView {
                        images: without_under(v.images, prefix@),
                        ..v
                    }),
                },
                _ => final(self)@.page == old(self)@.page,
            },
    {
        self.page.apply_image_update(update);
    }

    /// Hands the latest flashing progress to the page sequence.
    pub fn update_progress(&mut self, progress: FlashProgress)
        ensures
            final(self)@.fake == old(self)@.fake,
            final(self)@.image_dirs == old(self)@.image_dirs,
            match old(self)@.page {
                PageView::Flash(f) => final(self)@.page == PageView::Flash(
                    FlashPageView { progress: progress@, ..f },
                ),
                _ => final(self)@.page == old(self)@.page,
            },
    {
        self.page.update_progress(progress);
    }
}

} // verus!
