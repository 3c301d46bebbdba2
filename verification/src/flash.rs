//! Flashing: the progress reported while an image is written, the page that
//! follows it, and the block map that says what there is to write.

use vstd::prelude::*;
use crate::images::ImageInfo;
use crate::text::{decimal, push_decimal};
use bmap_parser::Bmap;
use crate::blockmap::{block_map_text_safe, is_block_map_text_safe};

verus! {

/// How far the flashing has come.
#[derive(Clone, Debug)]
pub enum FlashProgress {
    /// Nothing written yet.
    Starting,
    /// `written` of the `mapped` bytes that the block map lists are written.
    Flashing { mapped: usize, written: usize },
    /// Flashing stopped with this error message.
    Failed(String),
    /// Every mapped byte is written and flushed.
    Finished,
}

/// The progress as plain values.
pub enum ProgressView {
    Starting,
    Flashing { mapped: nat, written: nat },
    Failed(Seq<char>),
    Finished,
}

impl View for FlashProgress {
    type V = ProgressView;

    open spec fn view(&self) -> ProgressView {
        match self {
            FlashProgress::Starting => ProgressView::Starting,
            FlashProgress::Flashing { mapped, written } => ProgressView::Flashing {
                mapped: *mapped as nat,
                written: *written as nat,
            },
            FlashProgress::Failed(e) => ProgressView::Failed(e@),
            FlashProgress::Finished => ProgressView::Finished,
        }
    }
}

/// The outcome of a flashing as plain values: `Ok` or the error message.
pub open spec fn outcome_view(r: Result<(), String>) -> Result<(), Seq<char>> {
    match r {
        Ok(()) => Ok(()),
        Err(e) => Err(e@),
    }
}

/// The outcome that a progress stands for, once it is final.
pub open spec fn progress_outcome(p: ProgressView) -> Option<Result<(), Seq<char>>> {
    match p {
        ProgressView::Starting => None,
        ProgressView::Flashing { .. } => None,
        ProgressView::Failed(e) => Some(Err(e)),
        ProgressView::Finished => Some(Ok(())),
    }
}

impl FlashProgress {
    /// The last progress reported for a flashing that ended with `outcome`.
    pub fn from_outcome(outcome: Result<(), String>) -> (r: FlashProgress)
        ensures
            progress_outcome(r@) == Some(outcome_view(outcome)),
    {
        match outcome {
            Ok(()) => FlashProgress::Finished,
            Err(e) => FlashProgress::Failed(e),
        }
    }

    /// The outcome, once flashing has finished or failed; nothing before.
    pub fn outcome(&self) -> (r: Option<Result<(), String>>)
        ensures
            match r {
                Some(o) => progress_outcome(self@) == Some(outcome_view(o)),
                None => progress_outcome(self@) is None,
            },
    {
        match self {
            FlashProgress::Starting => None,
            FlashProgress::Flashing { .. } => None,
            FlashProgress::Failed(e) => Some(Err(e.clone())),
            FlashProgress::Finished => Some(Ok(())),
        }
    }
}

/// The byte count after `n` more bytes: the sum, held at the largest `usize`.
pub open spec fn count_after(written: nat, n: nat) -> nat {
    if written + n > usize::MAX {
        usize::MAX as nat
    } else {
        written + n
    }
}

/// The count of bytes written out of those the block map lists.
pub struct ProgressMonitor {
    mapped: usize,
    written: usize,
}

/// A progress monitor as plain values.
pub struct MonitorView {
    pub mapped: nat,
    pub written: nat,
}

impl View for ProgressMonitor {
    type V = MonitorView;

    closed spec fn view(&self) -> MonitorView {
        MonitorView { mapped: self.mapped as nat, written: self.written as nat }
    }
}

impl ProgressMonitor {
    /// Nothing written yet of `mapped` bytes.
    pub fn new(mapped: usize) -> (r: ProgressMonitor)
        ensures
            r@ == (MonitorView { mapped: mapped as nat, written: 0 }),
    {
        ProgressMonitor { mapped, written: 0 }
    }

    /// A monitor's counts are `usize` values: neither passes the largest
    /// `usize`.
    pub proof fn lemma_counts_fit(&self)
        ensures
            self@.mapped <= usize::MAX,
            self@.written <= usize::MAX,
    {
    }

    /// Counts `n` more bytes as written and gives the progress to report.
    pub fn record_write(&mut self, n: usize) -> (r: FlashProgress)
        ensures
            old(self)@.written <= final(self)@.written <= usize::MAX,
            final(self)@ == (MonitorView {
                mapped: old(self)@.mapped,
                written: count_after(old(self)@.written, n as nat),
            }),
            r@ == (ProgressView::Flashing {
                mapped: old(self)@.mapped,
                written: count_after(old(self)@.written, n as nat),
            }),
    {
        self.written = self.written.saturating_add(n);
        FlashProgress::Flashing { written: self.written, mapped: self.mapped }
    }
}

/// The share of the mapped bytes written, in percent, held at 99 until the
/// flashing has finished.
pub open spec fn written_percent(mapped: nat, written: nat) -> nat {
    let p = (written * 100) / mapped;
    if p < 99 {
        p
    } else {
        99
    }
}

/// The gauge position for a progress; failures have none.
pub open spec fn progress_percent(p: ProgressView) -> Option<nat> {
    match p {
        ProgressView::Starting => Some(0),
        ProgressView::Flashing { mapped, written } => Some(written_percent(mapped, written)),
        ProgressView::Failed(_) => None,
        ProgressView::Finished => Some(100),
    }
}

/// A progress that can be shown: a byte count whose percentage the division
/// can be made for without overflow or a zero divisor.
pub open spec fn progress_showable(p: ProgressView) -> bool {
    match p {
        ProgressView::Flashing { mapped, written } => mapped > 0 && written * 100 <= usize::MAX,
        _ => true,
    }
}

/// `"Flashing: "`
pub open spec fn flashing_text() -> Seq<char> {
    seq!['F', 'l', 'a', 's', 'h', 'i', 'n', 'g', ':', ' ']
}

/// `"Failure: "`
pub open spec fn failure_text() -> Seq<char> {
    seq!['F', 'a', 'i', 'l', 'u', 'r', 'e', ':', ' ']
}

/// `"Flashing failed"`
pub open spec fn failed_title() -> Seq<char> {
    seq!['F', 'l', 'a', 's', 'h', 'i', 'n', 'g', ' ', 'f', 'a', 'i', 'l', 'e', 'd']
}

/// What the flashing page shows.
pub enum FlashDisplay {
    /// A red box titled `title` that holds `message`.
    Failure { title: String, message: String },
    /// A gauge at `percent`, green when `complete`, yellow before.
    Gauge { title: String, label: String, percent: u16, complete: bool },
}

/// The page shown while an image is written.
pub struct FlashPage {
    image: ImageInfo,
    progress: FlashProgress,
}

/// A flashing page as plain values.
pub struct FlashPageView {
    pub image: Seq<char>,
    pub progress: ProgressView,
}

impl View for FlashPage {
    type V = FlashPageView;

    closed spec fn view(&self) -> FlashPageView {
        FlashPageView { image: self.image@, progress: self.progress@ }
    }
}

impl FlashPage {
    /// Flashing of `image` has just been started.
    pub fn new(image: ImageInfo) -> (r: FlashPage)
        ensures
            r@ == (FlashPageView { image: image@, progress: ProgressView::Starting }),
    {
        FlashPage { image, progress: FlashProgress::Starting }
    }

    /// The image being written.
    pub fn image(&self) -> (r: &ImageInfo)
        ensures
            r@ == self@.image,
    {
        &self.image
    }

    /// The latest progress reported.
    pub fn progress(&self) -> (r: &FlashProgress)
        ensures
            r@ == self@.progress,
    {
        &self.progress
    }

    /// Takes in the latest progress that the flashing reported.
    pub fn update(&mut self, progress: FlashProgress)
        ensures
            final(self)@ == (FlashPageView { progress: progress@, ..old(self)@ }),
    {
        self.progress = progress;
    }

    /// The outcome once flashing has finished or failed, nothing before.
    pub fn done(&self) -> (r: Option<Result<(), String>>)
        ensures
            match r {
                Some(o) => progress_outcome(self@.progress) == Some(outcome_view(o)),
                None => progress_outcome(self@.progress) is None,
            },
    {
        self.progress.outcome()
    }

    /// What to draw: the failure message, or a gauge titled with the image's
    /// path and labelled with the percentage, green once complete.
    pub fn display(&self) -> (r: FlashDisplay)
        requires
            progress_showable(self@.progress),
        ensures
            match r {
                FlashDisplay::Failure { title, message } => self@.progress matches ProgressView::Failed(
                    e,
                ) && title@ == failed_title() && message@ == failure_text() + e,
                FlashDisplay::Gauge { title, label, percent, complete } => progress_percent(
                    self@.progress,
                ) == Some(percent as nat) && complete == (percent == 100) && title@
                    == flashing_text() + self@.image && label@ == flashing_text() + decimal(
                    percent as nat,
                ) + seq!['%'],
            },
    {
        proof {
            reveal_strlit("Flashing: ");
            reveal_strlit("Failure: ");
            reveal_strlit("Flashing failed");
            reveal_strlit("%");
        }
        let percent: u16 = match &self.progress {
            FlashProgress::Starting => 0,
            FlashProgress::Flashing { mapped, written } => {
                let p = *written * 100 / *mapped;
                if p < 99 {
                    p as u16
                } else {
                    99
                }
            },
            FlashProgress::Failed(e) => {
                let mut message = String::from_str("Failure: ");
                message.append(e.as_str());
                return FlashDisplay::Failure {
                    title: String::from_str("Flashing failed"),
                    message,
                };
            },
            FlashProgress::Finished => 100,
        };
        let mut title = String::from_str("Flashing: ");
        title.append(self.image.path.as_str());
        let mut label = String::from_str("Flashing: ");
        push_decimal(&mut label, percent as u64);
        label.append("%");
        FlashDisplay::Gauge { title, label, percent, complete: percent == 100 }
    }
}

/// The block map of an image, as `bmap_parser` reads it.
#[verifier::external_type_specification]
#[verifier::external_body]
pub struct ExBmap(bmap_parser::Bmap);

/// What `bmap_parser::Bmap::from_xml` gives for this text: the block map it
/// reads, or the message that its error displays.
pub uninterp spec fn bmap_from_xml(xml: Seq<char>) -> Result<Bmap, Seq<char>>;

/// What `Bmap::block_size` returns for a block map: its block size in bytes.
pub uninterp spec fn bmap_block_size(b: Bmap) -> u64;

/// What `Bmap::mapped_blocks` returns for a block map: how many of its
/// blocks are mapped.
pub uninterp spec fn bmap_mapped_blocks(b: Bmap) -> u64;

/// `bmap_parser::Bmap::from_xml`: reads a block map from its XML text. The
/// contract claims that the parser is a function of the text: what it
/// returns, the block map or its error's message, is `bmap_from_xml` of the
/// text. The parser unwraps the number parse of each `Range` and multiplies
/// and subtracts block numbers unchecked. The `requires` admits only texts
/// in which every `Range` element, as the XML reader splits the text into
/// tags (quotes count from the `<` of a tag on, a comment ends at the first
/// `-->` after its `<!--`, a processing instruction at the first `?>` after
/// its `<`), holds unsigned decimal numbers that fit with every image and
/// block size given (`block_map_text_safe`), so that none of that fails.
/// That the library's reading of the tags agrees with the reader's on the
/// texts it admits is not proved here.
#[verifier::external_body]
fn parse_bmap(xml: &str) -> (r: Result<Bmap, String>)
    requires
        block_map_text_safe(xml@),
    ensures
        match r {
            Ok(b) => bmap_from_xml(xml@) == Ok::<Bmap, Seq<char>>(b),
            Err(e) => bmap_from_xml(xml@) == Err::<Bmap, Seq<char>>(e@),
        },
{
    match Bmap::from_xml(xml) {
        Ok(bmap) => Ok(bmap),
        Err(e) => Err(e.to_string()),
    }
}

/// `Bmap::block_size`: the block size that the block map was built with,
/// which the contract names `bmap_block_size`.
#[verifier::external_body]
fn block_size_of(b: &Bmap) -> (r: u64)
    ensures
        r == bmap_block_size(*b),
{
    b.block_size()
}

/// `Bmap::mapped_blocks`: the mapped block count that the block map was
/// built with, which the contract names `bmap_mapped_blocks`.
#[verifier::external_body]
fn mapped_blocks_of(b: &Bmap) -> (r: u64)
    ensures
        r == bmap_mapped_blocks(*b),
{
    b.mapped_blocks()
}

/// A flashing ready to start: the block map that says which byte ranges to
/// copy, and a monitor that counts them.
pub struct FlashPlan {
    pub bmap: Bmap,
    pub monitor: ProgressMonitor,
}

/// The number of bytes that a block map maps: its block size times its
/// mapped block count (`Bmap::total_mapped_size`).
pub open spec fn mapped_bytes(b: Bmap) -> int {
    bmap_block_size(b) * bmap_mapped_blocks(b)
}

/// The message for a text whose block ranges the parser cannot read safely.
pub open spec fn unsafe_text_message() -> Seq<char> {
    "Invalid bmap file: a block range is not a plain number or range, or does not fit the image"@
}

/// The message for a block map whose mapped bytes do not fit in 64 bits.
pub open spec fn mapped_size_message() -> Seq<char> {
    "Invalid bmap file: the mapped size does not fit in 64 bits"@
}

/// What `plan_flash` gives for a text: the block map the parser reads from
/// it, with the count of its mapped bytes, or the error message.
pub open spec fn flash_plan_of(xml: Seq<char>) -> Result<(Bmap, nat), Seq<char>> {
    if !block_map_text_safe(xml) {
        Err(unsafe_text_message())
    } else {
        match bmap_from_xml(xml) {
            Err(e) => Err(e),
            Ok(b) => if mapped_bytes(b) <= u64::MAX {
                Ok((b, mapped_bytes(b) as nat))
            } else {
                Err(mapped_size_message())
            },
        }
    }
}

/// Reads the block map from its XML text and sets up the byte count for the
/// bytes it maps. Fails when the text holds a number or range the parser
/// cannot read safely, when the parser refuses it (with its message), and
/// when the mapped bytes do not fit in 64 bits.
pub fn plan_flash(xml: &str) -> (r: Result<FlashPlan, String>)
    ensures
        match r {
            Ok(plan) => flash_plan_of(xml@) matches Ok((b, total)) && plan.bmap == b
                && plan.monitor@ == (MonitorView { mapped: total as u64 as usize as nat, written: 0 }),
            Err(e) => flash_plan_of(xml@) == Err::<(Bmap, nat), Seq<char>>(e@),
        },
{
    if !is_block_map_text_safe(xml) {
        return Err(String::from_str("Invalid bmap file: a block range is not a plain number or range, or does not fit the image"));
    }
    let bmap = match parse_bmap(xml) {
        Ok(b) => b,
        Err(e) => return Err(e),
    };
    let block_size = block_size_of(&bmap);
    let mapped_blocks = mapped_blocks_of(&bmap);
    match block_size.checked_mul(mapped_blocks) {
        Some(total) => Ok(FlashPlan { bmap, monitor: ProgressMonitor::new(total as usize) }),
        None => Err(String::from_str("Invalid bmap file: the mapped size does not fit in 64 bits")),
    }
}

} // verus!
