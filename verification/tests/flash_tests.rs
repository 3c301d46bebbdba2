use flasher::blockmap::is_block_map_text_safe;
use flasher::flash::{plan_flash, FlashDisplay, FlashPage, FlashProgress, ProgressMonitor};
use flasher::images::ImageInfo;

const SIMPLE_BMAP: &str = r#"<?xml version="1.0" ?>
<bmap version="2.0">
  <ImageSize> 4198400 </ImageSize>
  <BlockSize> 4096 </BlockSize>
  <BlocksCount>1025</BlocksCount>
  <MappedBlocksCount> 680 </MappedBlocksCount>
  <ChecksumType> sha256 </ChecksumType>
  <BmapFileChecksum> 0000000000000000000000000000000000000000000000000000000000000000 </BmapFileChecksum>
  <BlockMap>
    <Range chksum="5feceb66ffc86f38d952786c6d696c79c2dbc239dd4e91b46729d73a27fb57e9"> 0 </Range>
    <Range chksum="2c624232cdd221771294dfbb310aca000a0df6ac8b66b696d90ef06fdefb64a3"> 8-16 </Range>
  </BlockMap>
</bmap>"#;

fn page() -> FlashPage {
    FlashPage::new(ImageInfo { path: "/run/usb/openwrt.img.zst".to_string() })
}

fn gauge(page: &FlashPage) -> (String, String, u16, bool) {
    match page.display() {
        FlashDisplay::Gauge { title, label, percent, complete } => (title, label, percent, complete),
        FlashDisplay::Failure { .. } => panic!("expected a gauge"),
    }
}

#[test]
fn monitor_counts_written_bytes() {
    let mut m = ProgressMonitor::new(1000);
    match m.record_write(300) {
        FlashProgress::Flashing { mapped, written } => assert_eq!((mapped, written), (1000, 300)),
        other => panic!("unexpected {:?}", other),
    }
    match m.record_write(200) {
        FlashProgress::Flashing { mapped, written } => assert_eq!((mapped, written), (1000, 500)),
        other => panic!("unexpected {:?}", other),
    }
}

#[test]
fn monitor_count_saturates() {
    let mut m = ProgressMonitor::new(10);
    m.record_write(usize::MAX - 1);
    match m.record_write(5) {
        FlashProgress::Flashing { written, .. } => assert_eq!(written, usize::MAX),
        other => panic!("unexpected {:?}", other),
    }
}

#[test]
fn gauge_tracks_progress() {
    let mut p = page();
    let (title, label, percent, complete) = gauge(&p);
    assert_eq!(title, "Flashing: /run/usb/openwrt.img.zst");
    assert_eq!(label, "Flashing: 0%");
    assert_eq!((percent, complete), (0, false));

    p.update(FlashProgress::Flashing { mapped: 200, written: 50 });
    let (_, label, percent, complete) = gauge(&p);
    assert_eq!(label, "Flashing: 25%");
    assert_eq!((percent, complete), (25, false));

    p.update(FlashProgress::Flashing { mapped: 200, written: 200 });
    let (_, label, percent, complete) = gauge(&p);
    assert_eq!(label, "Flashing: 99%");
    assert_eq!((percent, complete), (99, false));

    p.update(FlashProgress::Finished);
    let (_, label, percent, complete) = gauge(&p);
    assert_eq!(label, "Flashing: 100%");
    assert_eq!((percent, complete), (100, true));
}

#[test]
fn gauge_rounds_down() {
    let mut p = page();
    p.update(FlashProgress::Flashing { mapped: 3, written: 2 });
    let (_, _, percent, _) = gauge(&p);
    assert_eq!(percent, 66);
}

#[test]
fn failure_is_shown_in_place_of_the_gauge() {
    let mut p = page();
    p.update(FlashProgress::Failed("Failed to open target: /dev/nvme0n1".to_string()));
    match p.display() {
        FlashDisplay::Failure { title, message } => {
            assert_eq!(title, "Flashing failed");
            assert_eq!(message, "Failure: Failed to open target: /dev/nvme0n1");
        }
        FlashDisplay::Gauge { .. } => panic!("expected the failure"),
    }
}

#[test]
fn done_only_after_the_end() {
    let mut p = page();
    assert!(p.done().is_none());
    p.update(FlashProgress::Flashing { mapped: 10, written: 1 });
    assert!(p.done().is_none());
    p.update(FlashProgress::Finished);
    assert_eq!(p.done(), Some(Ok(())));
    p.update(FlashProgress::Failed("boom".to_string()));
    assert_eq!(p.done(), Some(Err("boom".to_string())));
}

#[test]
fn outcome_round_trips_through_progress() {
    assert_eq!(FlashProgress::from_outcome(Ok(())).outcome(), Some(Ok(())));
    assert_eq!(
        FlashProgress::from_outcome(Err("bad".to_string())).outcome(),
        Some(Err("bad".to_string()))
    );
    assert!(FlashProgress::Starting.outcome().is_none());
}

#[test]
fn block_map_sets_the_byte_count() {
    let plan = plan_flash(SIMPLE_BMAP).expect("the block map parses");
    let mut monitor = plan.monitor;
    match monitor.record_write(0) {
        FlashProgress::Flashing { mapped, written } => {
            assert_eq!(mapped, 680 * 4096);
            assert_eq!(written, 0);
        }
        other => panic!("unexpected {:?}", other),
    }
    assert_eq!(plan.bmap.mapped_blocks(), 680);
}

#[test]
fn malformed_block_map_is_refused() {
    assert!(plan_flash("<bmap></bmap>").is_err());
    assert!(plan_flash("not xml at all").is_err());
}

fn bmap_with(block_size: &str, ranges: &str) -> String {
    format!(
        r#"<?xml version="1.0" ?>
<!-- less data is copied: <MappedBlocksCount> blocks instead of <BlocksCount> blocks -->
<bmap version="2.0">
  <ImageSize> 4198400 </ImageSize>
  <BlockSize> {block_size} </BlockSize>
  <BlocksCount>1025</BlocksCount>
  <MappedBlocksCount> 680 </MappedBlocksCount>
  <ChecksumType> sha256 </ChecksumType>
  <BmapFileChecksum> 0000000000000000000000000000000000000000000000000000000000000000 </BmapFileChecksum>
  <BlockMap>
    {ranges}
  </BlockMap>
</bmap>"#
    )
}

const SUM0: &str = "5feceb66ffc86f38d952786c6d696c79c2dbc239dd4e91b46729d73a27fb57e9";

#[test]
fn comments_naming_elements_are_fine() {
    let xml = bmap_with("4096", &format!(r#"<Range chksum="{SUM0}"> 0-3 </Range>"#));
    assert!(is_block_map_text_safe(&xml));
    assert!(plan_flash(&xml).is_ok());
}

#[test]
fn ranges_that_would_break_the_parser_are_refused() {
    for range in ["abc", "", "3-1", "1-2-3", "++1", "+", "1-+", "2000", "18446744073709551616", "0-x"] {
        let xml = bmap_with("4096", &format!(r#"<Range chksum="{SUM0}">{range}</Range>"#));
        assert!(!is_block_map_text_safe(&xml), "{range}");
        assert!(plan_flash(&xml).is_err(), "{range}");
    }
    let empty = bmap_with("4096", &format!(r#"<Range chksum="{SUM0}"/>"#));
    assert!(plan_flash(&empty).is_err());
}

#[test]
fn markup_that_hides_numbers_is_refused() {
    let cdata = bmap_with("4096", &format!(r#"<Range chksum="{SUM0}"><![CDATA[0]]></Range>"#));
    assert!(!is_block_map_text_safe(&cdata));
    let entity = bmap_with("4096", &format!(r#"<Range chksum="{SUM0}">&#48;</Range>"#));
    assert!(!is_block_map_text_safe(&entity));
    let prefixed = bmap_with("4096", &format!(r#"<x:Range chksum="{SUM0}">0</x:Range>"#));
    assert!(!is_block_map_text_safe(&prefixed));
}

#[test]
fn oversized_block_size_is_refused() {
    let xml = bmap_with("18446744073709551615", &format!(r#"<Range chksum="{SUM0}">0</Range>"#));
    assert!(!is_block_map_text_safe(&xml));
    assert!(plan_flash(&xml).is_err());
}

#[test]
fn quotes_in_tag_names_are_refused() {
    let zeros = "0".repeat(64);
    let ranges = format!(r#"<x'><!--'/><Range chksum="{zeros}">bad</Range><y a="-->"/>"#);
    let xml = bmap_with("4096", &ranges);
    assert!(!is_block_map_text_safe(&xml));
    assert!(plan_flash(&xml).is_err());
    let closing = bmap_with("4096", &format!(r#"<Range chksum="{SUM0}">0</Range'>"#));
    assert!(!is_block_map_text_safe(&closing));
}

#[test]
fn instruction_ends_at_its_first_question_mark_and_gt() {
    let ranges = format!(r#"<?><Range chksum="{SUM0}">bad</Range><?x?>"#);
    let xml = bmap_with("4096", &ranges);
    assert!(!is_block_map_text_safe(&xml));
    assert!(plan_flash(&xml).is_err());
}

#[test]
fn unsafe_block_map_gets_its_message() {
    let xml = bmap_with("4096", &format!(r#"<Range chksum="{SUM0}">x</Range>"#));
    match plan_flash(&xml) {
        Err(e) => assert_eq!(
            e,
            "Invalid bmap file: a block range is not a plain number or range, or does not fit the image"
        ),
        Ok(_) => panic!("accepted"),
    }
}

#[test]
fn a_plus_before_a_number_is_read_as_the_parser_reads_it() {
    for range in ["+1", "+0-+3", " +2 "] {
        let xml = bmap_with("+4096", &format!(r#"<Range chksum="{SUM0}">{range}</Range>"#));
        assert!(is_block_map_text_safe(&xml), "{range}");
        let plan = plan_flash(&xml).expect("the block map parses");
        assert_eq!(plan.bmap.block_size(), 4096);
    }
}

#[test]
fn counts_over_a_run_of_writes_never_decrease() {
    let mut monitor = ProgressMonitor::new(100);
    let mut last = 0usize;
    for n in [10usize, 0, 5, usize::MAX, 3] {
        match monitor.record_write(n) {
            FlashProgress::Flashing { mapped, written } => {
                assert_eq!(mapped, 100);
                assert!(written >= last);
                last = written;
            }
            other => panic!("unexpected {:?}", other),
        }
    }
    assert_eq!(last, usize::MAX);
}
