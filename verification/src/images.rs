//! The image list: what was found on mounted media, the cursor moving over it,
//! and the image the user picked.

use vstd::prelude::*;
use crate::input::{InputEvent, KeyCode, key_code};
use crate::paths::{is_under, path_under};
use crate::text::{file_extension, has_extension};

verus! {

/// A flashable image, known by its path.
#[derive(Clone, Debug)]
pub struct ImageInfo {
    pub path: String,
}

impl View for ImageInfo {
    type V = Seq<char>;

    open spec fn view(&self) -> Seq<char> {
        self.path@
    }
}

impl ImageInfo {
    /// A copy with the same path.
    pub fn duplicate(&self) -> (r: ImageInfo)
        ensures
            r@ == self@,
    {
        ImageInfo { path: self.path.clone() }
    }
}

/// A change to the set of known images.
#[derive(Debug)]
pub enum Update {
    /// An image file was found.
    New(ImageInfo),
    /// The media mounted at this path went away.
    Removed(String),
}

/// The paths of a sequence of images.
pub open spec fn paths(images: Seq<ImageInfo>) -> Seq<Seq<char>> {
    images.map_values(|i: ImageInfo| i@)
}

/// The path of an optional image.
pub open spec fn opt_path(image: Option<ImageInfo>) -> Option<Seq<char>> {
    match image {
        Some(i) => Some(i@),
        None => None,
    }
}

/// The extension that marks a compressed image file.
pub open spec fn image_extension() -> Seq<char> {
    seq!['z', 's', 't']
}

/// Whether a directory entry named `file_name` is an image by its name:
/// its extension is `zst`.
pub fn is_image_file_name(file_name: &str) -> (r: bool)
    ensures
        r == (file_extension(file_name@) == Some(image_extension())),
{
    proof {
        reveal_strlit("zst");
    }
    let ext = "zst";
    assert(ext@ =~= image_extension());
    has_extension(file_name, ext)
}

/// The elements of `s` whose mark in `marks` is false, in their order.
pub open spec fn keep_unmarked<A>(s: Seq<A>, marks: Seq<bool>) -> Seq<A>
    decreases s.len(),
{
    if s.len() == 0 {
        Seq::empty()
    } else {
        let rest = keep_unmarked(s.drop_last(), marks.drop_last());
        if marks.last() {
            rest
        } else {
            rest.push(s.last())
        }
    }
}

/// Which of `images` lie under `prefix`.
pub open spec fn under_marks(images: Seq<Seq<char>>, prefix: Seq<char>) -> Seq<bool> {
    Seq::new(images.len(), |i: int| path_under(images[i], prefix))
}

/// `images` without those that lie under `prefix`, the rest in order.
pub open spec fn without_under(images: Seq<Seq<char>>, prefix: Seq<char>) -> Seq<Seq<char>> {
    keep_unmarked(images, under_marks(images, prefix))
}

/// What the image page shows and remembers.
pub struct ImagePageView {
    pub images: Seq<Seq<char>>,
    pub cursor: nat,
    pub selected: Option<Seq<char>>,
}

/// The last valid position of a list of `len` entries (0 for an empty list).
pub open spec fn last_index(len: nat) -> nat {
    if len == 0 {
        0
    } else {
        (len - 1) as nat
    }
}

/// The cursor after moving down: one further, but not past the last entry.
pub open spec fn cursor_down(cursor: nat, len: nat) -> nat {
    if cursor + 1 <= last_index(len) {
        cursor + 1
    } else {
        last_index(len)
    }
}

/// The cursor after moving up: one back, but not before the first entry.
pub open spec fn cursor_up(cursor: nat) -> nat {
    if cursor == 0 {
        0
    } else {
        (cursor - 1) as nat
    }
}

/// Keys that move the cursor up: the up arrow and `k`.
pub open spec fn is_up_key(code: KeyCode) -> bool {
    code == KeyCode::Up || code == KeyCode::Char('k')
}

/// Keys that move the cursor down: the down arrow and `j`.
pub open spec fn is_down_key(code: KeyCode) -> bool {
    code == KeyCode::Down || code == KeyCode::Char('j')
}

/// The image under the cursor, if the cursor stands on one.
pub open spec fn image_at(images: Seq<Seq<char>>, cursor: nat) -> Option<Seq<char>> {
    if cursor < images.len() {
        Some(images[cursor as int])
    } else {
        None
    }
}

/// The image page after `event`: up and down move the cursor, enter picks the
/// image under the cursor (or nothing when the cursor is past the end), any
/// other event leaves the page as it was.
pub open spec fn image_page_input(v: ImagePageView, event: InputEvent) -> ImagePageView {
    match key_code(event) {
        Some(code) => if is_up_key(code) {
            ImagePageView { cursor: cursor_up(v.cursor), ..v }
        } else if is_down_key(code) {
            ImagePageView { cursor: cursor_down(v.cursor, v.images.len()), ..v }
        } else if code == KeyCode::Enter {
            ImagePageView { selected: image_at(v.images, v.cursor), ..v }
        } else {
            v
        },
        None => v,
    }
}

/// What the image page shows: a bordered list titled `title`, one row per
/// image path in the order the images were found, the row `highlighted`
/// drawn reversed and preceded by `marker`.
pub struct ImageListDisplay {
    pub title: String,
    pub rows: Vec<String>,
    pub highlighted: usize,
    pub marker: String,
}

/// `"Select image"`
pub open spec fn list_title() -> Seq<char> {
    seq!['S', 'e', 'l', 'e', 'c', 't', ' ', 'i', 'm', 'a', 'g', 'e']
}

/// `">>"`
pub open spec fn highlight_marker() -> Seq<char> {
    seq!['>', '>']
}

/// The row to highlight for a cursor over `len` entries: the cursor, but
/// never past the last entry (the first row of an empty list).
pub open spec fn highlighted_row(cursor: nat, len: nat) -> nat {
    if cursor <= last_index(len) {
        cursor
    } else {
        last_index(len)
    }
}

/// The list of images found so far, the cursor, and the picked image.
pub struct ImagePage {
    images: Vec<ImageInfo>,
    cursor: usize,
    selected: Option<ImageInfo>,
}

impl View for ImagePage {
    type V = ImagePageView;

    closed spec fn view(&self) -> ImagePageView {
        ImagePageView {
            images: paths(self.images@),
            cursor: self.cursor as nat,
            selected: opt_path(self.selected),
        }
    }
}

impl ImagePage {
    /// An empty list, the cursor at the top, nothing picked.
    pub fn new() -> (r: ImagePage)
        ensures
            r@.images == Seq::<Seq<char>>::empty(),
            r@.cursor == 0,
            r@.selected is None,
    {
        let r = ImagePage { images: Vec::new(), cursor: 0, selected: None };
        assert(paths(r.images@) =~= Seq::<Seq<char>>::empty());
        r
    }

    /// Hands out the picked image, if any, and forgets it.
    pub fn selected(&mut self) -> (r: Option<ImageInfo>)
        ensures
            opt_path(r) == old(self)@.selected,
            final(self)@ == (ImagePageView { selected: None, ..old(self)@ }),
    {
        self.selected.take()
    }

    /// The images found so far, in the order they were found.
    pub fn images(&self) -> (r: &Vec<ImageInfo>)
        ensures
            paths(r@) == self@.images,
    {
        &self.images
    }

    /// The entry to highlight: the cursor, but never past the last entry.
    pub fn highlighted(&self) -> (r: usize)
        ensures
            r == highlighted_row(self@.cursor, self@.images.len()),
    {
        let last = if self.images.len() == 0 { 0 } else { self.images.len() - 1 };
        if self.cursor <= last { self.cursor } else { last }
    }

    /// What to draw: the list titled "Select image" with one row per image
    /// path, the highlighted row marked with ">>". The page is not changed.
    pub fn display(&self) -> (r: ImageListDisplay)
        ensures
            r.title@ == list_title(),
            r.marker@ == highlight_marker(),
            r.rows@.len() == self@.images.len(),
            forall|k: int| 0 <= k < r.rows@.len() ==> #[trigger] r.rows@[k]@ == self@.images[k],
            r.highlighted == highlighted_row(self@.cursor, self@.images.len()),
    {
        proof {
            reveal_strlit("Select image");
            reveal_strlit(">>");
        }
        let mut rows: Vec<String> = Vec::new();
        for i in 0..self.images.len()
            invariant
                rows@.len() == i,
                forall|k: int| 0 <= k < i ==> #[trigger] rows@[k]@ == self.images@[k]@,
        {
            rows.push(self.images[i].path.clone());
        }
        let title = String::from_str("Select image");
        let marker = String::from_str(">>");
        assert(title@ =~= list_title());
        assert(marker@ =~= highlight_marker());
        ImageListDisplay { title, rows, highlighted: self.highlighted(), marker }
    }

    /// Reacts to a key: up/`k` and down/`j` move the cursor, enter picks the
    /// image under it.
    pub fn input(&mut self, event: InputEvent)
        ensures
            final(self)@ == image_page_input(old(self)@, event),
    {
        let code = match event {
            InputEvent::Key(k) => k.code,
            InputEvent::Other => {
                return;
            },
        };
        let up = match code {
            KeyCode::Up => true,
            KeyCode::Char(c) => c == 'k',
            _ => false,
        };
        let down = match code {
            KeyCode::Down => true,
            KeyCode::Char(c) => c == 'j',
            _ => false,
        };
        let enter = match code {
            KeyCode::Enter => true,
            _ => false,
        };
        if up {
            if self.cursor > 0 {
                self.cursor = self.cursor - 1;
            }
        } else if down {
            let last = if self.images.len() == 0 { 0 } else { self.images.len() - 1 };
            if self.cursor < last {
                self.cursor = self.cursor + 1;
            } else {
                self.cursor = last;
            }
        } else if enter {
            if self.cursor < self.images.len() {
                self.selected = Some(self.images[self.cursor].duplicate());
            } else {
                self.selected = None;
            }
        }
    }

    /// Adds a newly found image at the end of the list.
    pub fn add_image(&mut self, image: ImageInfo)
        ensures
            final(self)@ == (ImagePageView { images: old(self)@.images.push(image@), ..old(self)@ }),
    {
        self.images.push(image);
        assert(paths(self.images@) =~= paths(old(self).images@).push(image@));
    }

    /// Drops the images whose mark is set, keeping the others in their order.
    pub fn remove_marked(&mut self, marks: &Vec<bool>)
        requires
            marks@.len() == old(self)@.images.len(),
        ensures
            final(self)@ == (ImagePageView {
                images: keep_unmarked(old(self)@.images, marks@),
                ..old(self)@
            }),
    {
        let n = self.images.len();
        let mut kept: Vec<ImageInfo> = Vec::new();
        for i in 0..n
            invariant
                n == self.images@.len(),
                marks@.len() == n,
                paths(kept@) == keep_unmarked(
                    paths(self.images@).take(i as int),
                    marks@.take(i as int),
                ),
        {
            let ghost before = kept@;
            if !marks[i] {
                kept.push(self.images[i].duplicate());
            }
            proof {
                let all = paths(self.images@);
                assert(all.take(i + 1).drop_last() =~= all.take(i as int));
                assert(marks@.take(i + 1).drop_last() =~= marks@.take(i as int));
                assert(all.take(i + 1).last() == all[i as int]);
                assert(marks@.take(i + 1).last() == marks@[i as int]);
                if !marks@[i as int] {
                    assert(paths(kept@) =~= paths(before).push(all[i as int]));
                } else {
                    assert(paths(kept@) =~= paths(before));
                }
            }
        }
        proof {
            assert(paths(self.images@).take(n as int) =~= paths(self.images@));
            assert(marks@.take(n as int) =~= marks@);
        }
        self.images = kept;
    }

    /// Drops the images that lie under `prefix`, whole component by whole
    /// component, keeping the others in their order.
    pub fn remove_under(&mut self, prefix: &str)
        ensures
            final(self)@ == (ImagePageView {
                images: without_under(old(self)@.images, prefix@),
                ..old(self)@
            }),
    {
        let n = self.images.len();
        let mut marks: Vec<bool> = Vec::new();
        for i in 0..n
            invariant
                n == self.images@.len(),
                marks@.len() == i,
                forall|j: int|
                    0 <= j < i ==> marks@[j] == path_under(#[trigger] paths(self.images@)[j], prefix@),
        {
            let under = is_under(self.images[i].path.as_str(), prefix);
            marks.push(under);
        }
        assert(marks@ =~= under_marks(paths(self.images@), prefix@));
        self.remove_marked(&marks);
    }

    /// Applies a change reported by the image monitor: a new image is added at
    /// the end, a removed mount takes the images under it along.
    pub fn apply_update(&mut self, update: Update)
        ensures
            match update {
                Update::New(image) => final(self)@ == (ImagePageView {
                    images: old(self)@.images.push(image@),
                    ..old(self)@
                }),
                Update::Removed(prefix) => final(self)@ == (ImagePageView {
                    images: without_under(old(self)@.images, prefix@),
                    ..old(self)@
                }),
            },
    {
        match update {
            Update::New(image) => self.add_image(image),
            Update::Removed(prefix) => self.remove_under(prefix.as_str()),
        }
    }
}

} // verus!
