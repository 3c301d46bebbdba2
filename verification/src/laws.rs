//! Properties of the library as a whole, stated over the models that the
//! functions' contracts use.

use vstd::prelude::*;
use crate::flash::{
    ProgressMonitor, ProgressView, count_after, progress_outcome, progress_percent, written_percent,
};
use crate::images::{
    ImagePageView, highlighted_row, image_page_input, is_down_key, keep_unmarked, last_index,
    under_marks, without_under,
};
use crate::final_page::FinalAction;
use crate::input::{KeyCode, KeyEvent};
use crate::xml::{LexMode, Token, TokenKind, lex_step, lex_upto};
use crate::paths::path_under;
use crate::input::{InputEvent, key_code};
use crate::flash::FlashPageView;
use crate::ui::{PageView, page_action, page_input, page_step, stage, target_for};

verus! {

/// The page sequence never goes back: a step moves at most one page forward,
/// and input never changes which page is shown.
pub proof fn lemma_pages_only_move_forward(p: PageView, fake: bool, event: InputEvent)
    ensures
        stage(p) <= stage(page_step(p, fake).0) <= stage(p) + 1,
        stage(page_input(p, event)) == stage(p),
{
}

/// The last page is final: no step and no input leaves it or changes it.
pub proof fn lemma_final_page_is_final(p: PageView, fake: bool, event: InputEvent)
    requires
        p is Final,
    ensures
        page_step(p, fake) == (p, None::<(Seq<char>, Seq<char>, bool)>),
        page_input(p, event) == p,
{
}

/// Flashing is requested exactly when an image was picked on the image page;
/// the request names that image, writes to the disk (or, in fake mode, to the
/// file `disk.img`, which is then created first), and the flashing page starts
/// with no progress.
pub proof fn lemma_flash_starts_from_a_pick(p: PageView, fake: bool)
    ensures
        page_step(p, fake).1 is Some <==> (p matches PageView::Image(v) && v.selected is Some),
        match p {
            PageView::Image(v) => match v.selected {
                Some(image) => page_step(p, fake) == (
                    PageView::Flash(
                        FlashPageView { image, progress: ProgressView::Starting },
                    ),
                    Some((image, target_for(fake), fake)),
                ),
                None => page_step(p, fake) == (p, None::<(Seq<char>, Seq<char>, bool)>),
            },
            _ => true,
        },
{
}

/// The outcome page appears exactly when the flashing has finished or failed,
/// and shows that outcome.
pub proof fn lemma_outcome_follows_flashing(f: FlashPageView, fake: bool)
    ensures
        page_step(PageView::Flash(f), fake).0 is Final <==> progress_outcome(f.progress) is Some,
        progress_outcome(f.progress) matches Some(o) ==> page_step(PageView::Flash(f), fake).0
            == PageView::Final(o),
{
}

/// The gauge stays below 100 while bytes are being written, and reads 100
/// exactly when flashing has finished.
pub proof fn lemma_gauge_full_only_when_finished(p: ProgressView)
    ensures
        progress_percent(p) == Some(100nat) <==> p is Finished,
        p matches ProgressView::Flashing { mapped, written } ==> written_percent(mapped, written)
            <= 99,
{
}

/// The gauge never moves back while more bytes are written.
pub proof fn lemma_gauge_monotone(mapped: nat, w1: nat, w2: nat)
    requires
        mapped > 0,
        w1 <= w2,
    ensures
        written_percent(mapped, w1) <= written_percent(mapped, w2),
{
    assert(w1 * 100 <= w2 * 100);
    vstd::arithmetic::div_mod::lemma_div_is_ordered((w1 * 100) as int, (w2 * 100) as int, mapped as int);
}

/// The byte count never goes down; it grows by exactly the bytes written
/// until it would pass the largest `usize`, where it stays.
pub proof fn lemma_count_never_decreases(written: nat, n: nat)
    requires
        written <= usize::MAX,
    ensures
        written <= count_after(written, n) <= usize::MAX,
        written + n <= usize::MAX ==> count_after(written, n) == written + n,
{
}

/// Whatever monitor counts the bytes, the count it reports after a write is
/// at least the one before, and still a `usize`.
pub proof fn lemma_monitor_count_never_decreases(m: ProgressMonitor, n: nat)
    ensures
        m@.written <= count_after(m@.written, n) <= usize::MAX,
{
    m.lemma_counts_fit();
    lemma_count_never_decreases(m@.written, n);
}

/// The byte count after a run of writes of `ns` bytes each, from `start`.
pub open spec fn count_after_writes(start: nat, ns: Seq<nat>) -> nat
    decreases ns.len(),
{
    if ns.len() == 0 {
        start
    } else {
        count_after(count_after_writes(start, ns.drop_last()), ns.last())
    }
}

proof fn lemma_count_after_writes_bounds(start: nat, ns: Seq<nat>)
    requires
        start <= usize::MAX,
    ensures
        start <= count_after_writes(start, ns) <= usize::MAX,
    decreases ns.len(),
{
    if ns.len() > 0 {
        lemma_count_after_writes_bounds(start, ns.drop_last());
        lemma_count_never_decreases(count_after_writes(start, ns.drop_last()), ns.last());
    }
}

/// Over a whole run of writes, the counts reported one after another never
/// go down: the count after the first `i` writes is at most the count after
/// the first `j >= i`, and every count is a `usize` value.
pub proof fn lemma_reported_counts_never_decrease(start: nat, ns: Seq<nat>, i: int, j: int)
    requires
        start <= usize::MAX,
        0 <= i <= j <= ns.len(),
    ensures
        start <= count_after_writes(start, ns.take(i)) <= count_after_writes(start, ns.take(j))
            <= usize::MAX,
    decreases j - i,
{
    lemma_count_after_writes_bounds(start, ns.take(i));
    if i < j {
        lemma_reported_counts_never_decrease(start, ns, i, j - 1);
        assert(ns.take(j).drop_last() =~= ns.take(j - 1));
        lemma_count_after_writes_bounds(start, ns.take(j - 1));
        lemma_count_never_decreases(count_after_writes(start, ns.take(j - 1)), ns.take(j).last());
    }
}


/// A key press with code `code`.
pub open spec fn key_press(code: KeyCode, ctrl: bool) -> InputEvent {
    InputEvent::Key(KeyEvent { code, ctrl })
}

/// What each key does on the image list, with or without the control key:
/// the up arrow and `k` move the cursor one up (staying at the top), the down
/// arrow and `j` one down (staying on the last image, or at 0 when there is
/// none), enter picks the image under the cursor (or nothing when the cursor
/// is past the end), and any other key or event changes nothing. No key
/// changes the list.
pub proof fn lemma_image_keys(v: ImagePageView, code: KeyCode, ctrl: bool)
    ensures
        image_page_input(v, key_press(code, ctrl)).images == v.images,
        code == KeyCode::Up || code == KeyCode::Char('k') ==> image_page_input(
            v,
            key_press(code, ctrl),
        ) == (ImagePageView {
            cursor: if v.cursor == 0 {
                0
            } else {
                (v.cursor - 1) as nat
            },
            ..v
        }),
        code == KeyCode::Down || code == KeyCode::Char('j') ==> image_page_input(
            v,
            key_press(code, ctrl),
        ) == (ImagePageView {
            cursor: if v.images.len() == 0 {
                0
            } else if v.cursor + 1 < v.images.len() {
                v.cursor + 1
            } else {
                (v.images.len() - 1) as nat
            },
            ..v
        }),
        code == KeyCode::Enter ==> image_page_input(v, key_press(code, ctrl)) == (ImagePageView {
            selected: if v.cursor < v.images.len() {
                Some(v.images[v.cursor as int])
            } else {
                None
            },
            ..v
        }),
        code != KeyCode::Up && code != KeyCode::Char('k') && code != KeyCode::Down && code
            != KeyCode::Char('j') && code != KeyCode::Enter ==> image_page_input(
            v,
            key_press(code, ctrl),
        ) == v,
        image_page_input(v, InputEvent::Other) == v,
{
}

/// The highlighted row of the image list is the cursor held within the list:
/// the cursor itself while it stands on an image, the last image when it is
/// past the end, and the first row of an empty list.
pub proof fn lemma_highlight_follows_cursor(cursor: nat, len: nat)
    ensures
        len == 0 ==> highlighted_row(cursor, len) == 0,
        len > 0 ==> highlighted_row(cursor, len) < len,
        cursor < len ==> highlighted_row(cursor, len) == cursor,
        len > 0 && cursor >= len ==> highlighted_row(cursor, len) == len - 1,
{
}

/// Only the outcome page asks for a reboot, and it does so exactly on enter:
/// no event on the image or the flashing page asks for anything.
pub proof fn lemma_only_the_outcome_page_reboots(p: PageView, event: InputEvent)
    ensures
        !(p is Final) ==> page_action(p, event) == FinalAction::Nothing,
        p is Final ==> (page_action(p, event) == FinalAction::Reboot <==> key_code(event) == Some(
            KeyCode::Enter,
        )),
        page_action(p, event) == FinalAction::Reboot || page_action(p, event)
            == FinalAction::Nothing,
{
}

/// Input moves only the image page: there it acts as on the image list, and
/// the flashing and outcome pages stay as they are.
pub proof fn lemma_input_reaches_only_the_image_page(p: PageView, event: InputEvent)
    ensures
        p matches PageView::Image(v) ==> page_input(p, event) == PageView::Image(
            image_page_input(v, event),
        ),
        !(p is Image) ==> page_input(p, event) == p,
{
}

/// While flashing, the gauge shows the share written in whole percent,
/// rounded down, and held at 99: it reads 99 exactly when at least 99% of the
/// mapped bytes are written, and below that it is the `p` with
/// `p * mapped <= written * 100 < (p + 1) * mapped`.
pub proof fn lemma_gauge_shows_the_share_written(mapped: nat, written: nat)
    requires
        mapped > 0,
    ensures
        progress_percent(ProgressView::Starting) == Some(0nat),
        progress_percent(ProgressView::Finished) == Some(100nat),
        progress_percent(ProgressView::Flashing { mapped, written }) is Some,
        progress_percent(ProgressView::Flashing { mapped, written }) == Some(99nat) <==> written
            * 100 >= 99 * mapped,
        written * 100 < 99 * mapped ==> ({
            let p = progress_percent(ProgressView::Flashing { mapped, written })->0;
            p * mapped <= written * 100 && written * 100 < (p + 1) * mapped
        }),
{
    let x = written * 100;
    let q = x / mapped;
    vstd::arithmetic::div_mod::lemma_fundamental_div_mod(x as int, mapped as int);
    vstd::arithmetic::div_mod::lemma_mod_bound(x as int, mapped as int);
    assert(q * mapped <= x < (q + 1) * mapped) by (nonlinear_arith)
        requires
            x == mapped * q + x % mapped,
            0 <= x % mapped < mapped,
    ;
    if q >= 99 {
        assert(x >= 99 * mapped) by (nonlinear_arith)
            requires
                q >= 99,
                q * mapped <= x,
                mapped > 0,
        ;
    } else {
        assert(x < 99 * mapped) by (nonlinear_arith)
            requires
                q < 99,
                x < (q + 1) * mapped,
                mapped > 0,
        ;
    }
}

/// The tokens so far once the character data pending in `mode`, if any, ends
/// at `at`: what reading a `<` there leaves.
pub open spec fn flushed_at(mode: LexMode, toks: Seq<Token>, at: usize) -> Seq<Token> {
    match mode {
        LexMode::Data(from) => toks.push(Token { kind: TokenKind::Text, from, to: at, empty: false }),
        _ => toks,
    }
}

/// `t[k..k + 2]` is `--`.
pub open spec fn dash_pair(t: Seq<char>, k: int) -> bool {
    t[k] == '-' && t[k + 1] == '-'
}

/// `t` holds no `--`.
pub open spec fn no_double_dash(t: Seq<char>) -> bool {
    forall|k: int| 0 <= k < t.len() - 1 ==> !#[trigger] dash_pair(t, k)
}

/// `<!--`
pub open spec fn comment_open() -> Seq<char> {
    seq!['<', '!', '-', '-']
}

/// `-->`
pub open spec fn comment_close() -> Seq<char> {
    seq!['-', '-', '>']
}

/// The reading of the first `i` characters depends on them alone.
proof fn lemma_lex_upto_prefix(s1: Seq<char>, s2: Seq<char>, i: int)
    requires
        0 <= i <= s1.len(),
        i <= s2.len(),
        forall|j: int| 0 <= j < i ==> s1[j] == s2[j],
    ensures
        lex_upto(s1, i) == lex_upto(s2, i),
    decreases i,
{
    if i > 0 {
        lemma_lex_upto_prefix(s1, s2, i - 1);
    }
}

/// Inside a comment whose text has no `--`, the reading stays in the comment
/// and adds no token, counting only a dash just read.
proof fn lemma_inside_comment(s: Seq<char>, start: int, t: Seq<char>, toks: Seq<Token>, j: int)
    requires
        0 <= start,
        0 <= j <= t.len(),
        start + t.len() <= s.len(),
        forall|k: int| 0 <= k < t.len() ==> s[start + k] == t[k],
        no_double_dash(t),
        lex_upto(s, start) == Some((LexMode::Comment(0), toks)),
    ensures
        lex_upto(s, start + j) == Some((
            LexMode::Comment(if j > 0 && t[j - 1] == '-' { 1 } else { 0 }),
            toks,
        )),
    decreases j,
{
    if j > 0 {
        lemma_inside_comment(s, start, t, toks, j - 1);
        assert(s[start + j - 1] == t[j - 1]);
        if j > 1 && t[j - 2] == '-' {
            assert(!dash_pair(t, j - 2));
        }
    }
}

/// A comment is read without regard to what it holds: from between markup or
/// inside character data, `<!--`, any text without `--` (quotes, `<`, `>`,
/// single dashes included) and `-->` leave the reading between markup with
/// exactly the tokens it had, the pending character data ended at the `<`,
/// whatever follows.
pub proof fn lemma_comment_contents_do_not_matter(a: Seq<char>, t: Seq<char>, b: Seq<char>)
    requires
        no_double_dash(t),
    ensures
        ({
            let s = a + comment_open() + t + comment_close() + b;
            let n = (a.len() + t.len() + 7) as int;
            match lex_upto(a, a.len() as int) {
                Some((mode, toks)) => (mode is Outside || mode is Data) ==> lex_upto(s, n) == Some(
                    (LexMode::Outside, flushed_at(mode, toks, a.len() as usize)),
                ),
                None => lex_upto(s, n) is None,
            }
        }),
{
    let s = a + comment_open() + t + comment_close() + b;
    let m = a.len() as int;
    assert forall|j: int| 0 <= j < m implies a[j] == s[j] by {}
    lemma_lex_upto_prefix(a, s, m);
    match lex_upto(a, m) {
        None => {
            lemma_refused_prefix(s, m, m + t.len() + 7);
        },
        Some((mode, toks)) => {
            if mode is Outside || mode is Data {
                let flushed = flushed_at(mode, toks, m as usize);
                assert(s[m] == '<');
                assert(lex_upto(s, m + 1) == Some((LexMode::Open, flushed)));
                assert(s[m + 1] == '!');
                assert(lex_upto(s, m + 2) == Some((LexMode::Bang, flushed)));
                assert(s[m + 2] == '-');
                assert(lex_upto(s, m + 3) == Some((LexMode::BangDash, flushed)));
                assert(s[m + 3] == '-');
                assert(lex_upto(s, m + 4) == Some((LexMode::Comment(0), flushed)));
                assert forall|k: int| 0 <= k < t.len() implies s[m + 4 + k] == t[k] by {}
                lemma_inside_comment(s, m + 4, t, flushed, t.len() as int);
                let e = m + 4 + t.len();
                assert(s[e] == '-' && s[e + 1] == '-' && s[e + 2] == '>');
                let d: u8 = if t.len() > 0 && t[t.len() - 1] == '-' { 1 } else { 0 };
                assert(lex_upto(s, e) == Some((LexMode::Comment(d), flushed)));
                assert(lex_upto(s, e + 1) == Some((LexMode::Comment((d + 1) as u8), flushed)));
                assert(lex_upto(s, e + 2) == Some((LexMode::Comment(2), flushed)));
                assert(lex_upto(s, e + 3) == Some((LexMode::Outside, flushed)));
            }
        },
    }
}

/// Once refused, the reading stays refused.
proof fn lemma_refused_prefix(s: Seq<char>, i: int, k: int)
    requires
        0 <= i <= k,
        lex_upto(s, i) is None,
    ensures
        lex_upto(s, k) is None,
    decreases k - i,
{
    if i < k {
        lemma_refused_prefix(s, i, k - 1);
    }
}

/// Moving through the image list never takes the cursor past the last image,
/// once it is within the list; input never changes the list itself; and what
/// enter picks is an image of the list.
pub proof fn lemma_navigation_stays_in_list(v: ImagePageView, event: InputEvent)
    ensures
        image_page_input(v, event).images == v.images,
        v.cursor <= last_index(v.images.len()) ==> image_page_input(v, event).cursor <= last_index(
            v.images.len(),
        ),
        key_code(event) matches Some(code) && is_down_key(code) ==> image_page_input(
            v,
            event,
        ).cursor <= last_index(v.images.len()),
        image_page_input(v, event).selected matches Some(image) ==> (image_page_input(
            v,
            event,
        ).selected == v.selected || v.images.contains(image)),
{
    let w = image_page_input(v, event);
    if w.selected != v.selected {
        if let Some(image) = w.selected {
            assert(v.images[v.cursor as int] == image);
        }
    }
}

/// Dropping marked images keeps the others in their order: nothing new
/// appears, and with no mark set nothing goes.
pub proof fn lemma_removal_keeps_the_rest<A>(s: Seq<A>, marks: Seq<bool>)
    requires
        marks.len() == s.len(),
    ensures
        keep_unmarked(s, marks).len() <= s.len(),
        forall|x: A| #[trigger] keep_unmarked(s, marks).contains(x) ==> s.contains(x),
        (forall|i: int| 0 <= i < marks.len() ==> !marks[i]) ==> keep_unmarked(s, marks) == s,
        (forall|i: int| 0 <= i < marks.len() ==> marks[i]) ==> keep_unmarked(s, marks).len() == 0,
    decreases s.len(),
{
    if s.len() > 0 {
        let (t, m) = (s.drop_last(), marks.drop_last());
        lemma_removal_keeps_the_rest(t, m);
        assert forall|x: A| keep_unmarked(s, marks).contains(x) implies s.contains(x) by {
            let k = keep_unmarked(s, marks);
            let rest = keep_unmarked(t, m);
            let i = choose|i: int| 0 <= i < k.len() && k[i] == x;
            if !marks.last() && i == k.len() - 1 {
                assert(k[i] == s.last());
                assert(s[s.len() - 1] == x);
            } else {
                assert(k[i] == rest[i]);
                assert(rest.contains(x));
                assert(t.contains(x));
                let j = choose|j: int| 0 <= j < t.len() && t[j] == x;
                assert(s[j] == t[j]);
            }
        }
        if forall|i: int| 0 <= i < marks.len() ==> !marks[i] {
            assert(forall|i: int| 0 <= i < m.len() ==> !m[i]) by {
                assert forall|i: int| 0 <= i < m.len() implies !m[i] by {
                    assert(m[i] == marks[i]);
                }
            }
            assert(!marks[marks.len() - 1]);
            assert(keep_unmarked(s, marks) =~= s);
        }
        if forall|i: int| 0 <= i < marks.len() ==> marks[i] {
            assert(forall|i: int| 0 <= i < m.len() ==> m[i]) by {
                assert forall|i: int| 0 <= i < m.len() implies m[i] by {
                    assert(m[i] == marks[i]);
                }
            }
            assert(marks[marks.len() - 1]);
        }
    } else {
        assert(keep_unmarked(s, marks) =~= s);
    }
}

/// A mount point announced for a unit is what its removal reports, and a
/// unit once removed is not reported again; other units are untouched.
pub proof fn lemma_mount_round_trip(
    seen: Map<Seq<char>, Seq<char>>,
    unit: Seq<char>,
    mount_point: Seq<char>,
    other: Seq<char>,
)
    requires
        other != unit,
    ensures
        seen.insert(unit, mount_point).contains_key(unit),
        seen.insert(unit, mount_point)[unit] == mount_point,
        !seen.insert(unit, mount_point).remove(unit).contains_key(unit),
        seen.insert(unit, mount_point).remove(unit).contains_key(other) == seen.contains_key(other),
        seen.contains_key(other) ==> seen.insert(unit, mount_point).remove(unit)[other]
            == seen[other],
{
}

proof fn lemma_keep_unmarked_members<A>(s: Seq<A>, marks: Seq<bool>)
    requires
        marks.len() == s.len(),
    ensures
        forall|x: A| #[trigger] keep_unmarked(s, marks).contains(x) ==> exists|i: int|
            0 <= i < s.len() && s[i] == x && !marks[i],
        forall|i: int| 0 <= i < s.len() && !marks[i] ==> keep_unmarked(s, marks).contains(#[trigger] s[i]),
    decreases s.len(),
{
    if s.len() > 0 {
        let (t, m) = (s.drop_last(), marks.drop_last());
        let k = keep_unmarked(s, marks);
        let rest = keep_unmarked(t, m);
        lemma_keep_unmarked_members(t, m);
        assert forall|x: A| #[trigger] k.contains(x) implies exists|i: int|
            0 <= i < s.len() && s[i] == x && !marks[i] by {
            let p = choose|p: int| 0 <= p < k.len() && k[p] == x;
            if !marks.last() && p == k.len() - 1 {
                assert(s[s.len() - 1] == x && !marks[s.len() - 1]);
            } else {
                assert(k[p] == rest[p]);
                assert(rest.contains(x));
                let i = choose|i: int| 0 <= i < t.len() && t[i] == x && !m[i];
                assert(s[i] == x && !marks[i]);
            }
        }
        assert forall|i: int| 0 <= i < s.len() && !marks[i] implies k.contains(#[trigger] s[i]) by {
            if i == s.len() - 1 {
                assert(k[k.len() - 1] == s[i]);
            } else {
                assert(t[i] == s[i] && m[i] == marks[i]);
                assert(rest.contains(t[i]));
                let p = choose|p: int| 0 <= p < rest.len() && rest[p] == t[i];
                assert(k[p] == rest[p]);
            }
        }
    }
}

/// A removed mount takes along exactly the images that lie under it: every
/// image left was listed before and does not lie under the mount point, and
/// every listed image that does not lie under it is left.
pub proof fn lemma_removed_mount_takes_its_images(images: Seq<Seq<char>>, prefix: Seq<char>)
    ensures
        forall|x: Seq<char>| #[trigger] without_under(images, prefix).contains(x) ==> images.contains(
            x,
        ) && !path_under(x, prefix),
        forall|i: int|
            0 <= i < images.len() && !path_under(images[i], prefix) ==> without_under(
                images,
                prefix,
            ).contains(#[trigger] images[i]),
{
    let marks = under_marks(images, prefix);
    lemma_keep_unmarked_members(images, marks);
    assert forall|x: Seq<char>| #[trigger] without_under(images, prefix).contains(x) implies images.contains(
        x,
    ) && !path_under(x, prefix) by {
        let i = choose|i: int| 0 <= i < images.len() && images[i] == x && !marks[i];
        assert(marks[i] == path_under(images[i], prefix));
    }
    assert forall|i: int|
        0 <= i < images.len() && !path_under(images[i], prefix) implies without_under(
            images,
            prefix,
        ).contains(#[trigger] images[i]) by {
        assert(!marks[i]);
    }
}

/// What the mount monitor learns of a unit: that it is a device mount at a
/// mount point (`MountTracker::mounted`), or that it went away
/// (`MountTracker::unmounted`).
pub enum MountEvent {
    Mounted(Seq<char>, Seq<char>),
    Unmounted(Seq<char>),
}

/// The unit an event is about.
pub open spec fn event_unit(e: MountEvent) -> Seq<char> {
    match e {
        MountEvent::Mounted(u, _) => u,
        MountEvent::Unmounted(u) => u,
    }
}

/// The tracker's map after a run of events, each applied as `mounted`
/// (an insert) or `unmounted` (a remove) applies it.
pub open spec fn tracked_after(events: Seq<MountEvent>) -> Map<Seq<char>, Seq<char>>
    decreases events.len(),
{
    if events.len() == 0 {
        Map::empty()
    } else {
        let before = tracked_after(events.drop_last());
        match events.last() {
            MountEvent::Mounted(u, p) => before.insert(u, p),
            MountEvent::Unmounted(u) => before.remove(u),
        }
    }
}

/// The index of the last event about `unit` among `events`, or -1.
pub open spec fn last_about(events: Seq<MountEvent>, unit: Seq<char>) -> int
    decreases events.len(),
{
    if events.len() == 0 {
        -1
    } else if event_unit(events.last()) == unit {
        events.len() - 1
    } else {
        last_about(events.drop_last(), unit)
    }
}

proof fn lemma_last_about_bounds(events: Seq<MountEvent>, unit: Seq<char>)
    ensures
        -1 <= last_about(events, unit) < events.len(),
        last_about(events, unit) >= 0 ==> event_unit(events[last_about(events, unit)]) == unit,
        forall|i: int|
            last_about(events, unit) < i < events.len() ==> event_unit(#[trigger] events[i]) != unit,
    decreases events.len(),
{
    if events.len() > 0 {
        lemma_last_about_bounds(events.drop_last(), unit);
        if event_unit(events.last()) != unit {
            assert forall|i: int| last_about(events, unit) < i < events.len() implies event_unit(
                #[trigger] events[i],
            ) != unit by {
                if i < events.len() - 1 {
                    assert(events[i] == events.drop_last()[i]);
                }
            }
        }
    }
}

/// Over a whole run of the mount monitor, a unit is reported removed (the
/// tracker still holds it when it goes away) exactly when the last event
/// about it before was its announcement, and the removal reports the mount
/// point of that announcement. So every removal follows an announcement of
/// the same mount point with no removal of the unit in between, and a unit
/// never announced is never reported removed.
pub proof fn lemma_removal_follows_announcement(events: Seq<MountEvent>, unit: Seq<char>)
    ensures
        tracked_after(events).contains_key(unit) <==> (last_about(events, unit) >= 0
            && events[last_about(events, unit)] is Mounted),
        last_about(events, unit) >= 0 ==> match events[last_about(events, unit)] {
            MountEvent::Mounted(_, p) => tracked_after(events)[unit] == p,
            MountEvent::Unmounted(_) => true,
        },
        forall|i: int|
            last_about(events, unit) < i < events.len() ==> event_unit(#[trigger] events[i]) != unit,
    decreases events.len(),
{
    lemma_last_about_bounds(events, unit);
    if events.len() > 0 {
        let rest = events.drop_last();
        lemma_removal_follows_announcement(rest, unit);
        if event_unit(events.last()) != unit {
            let k = last_about(rest, unit);
            if k >= 0 {
                assert(events[k] == rest[k]);
            }
        }
    }
}

} // verus!
