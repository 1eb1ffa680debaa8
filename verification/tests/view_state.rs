use folder_view::files::{File, FilesOp};
use folder_view::folder::{limit, Folder};

fn entry(path: &str) -> File {
    File::new(path.as_bytes().to_vec())
}

fn entries(names: &[&str]) -> Vec<File> {
    names.iter().map(|n| entry(n)).collect()
}

fn numbered(n: usize) -> Vec<File> {
    (0..n).map(|i| entry(&format!("/dir/file{:02}", i))).collect()
}

fn folder_with(names: &[&str]) -> Folder {
    let mut f = Folder::new(b"/dir".to_vec());
    assert!(f.update(FilesOp::Read(b"/dir".to_vec(), entries(names)), 10));
    f
}

#[test]
fn limit_subtracts_chrome_padding() {
    assert_eq!(limit(30), 28);
    assert_eq!(limit(3), 1);
    assert_eq!(limit(2), 0);
    assert_eq!(limit(0), 0);
}

#[test]
fn new_folder_is_empty() {
    let f = Folder::new(b"/dir".to_vec());
    assert_eq!(f.cursor(), 0);
    assert_eq!(f.page, 0);
    assert!(f.hovered.is_none());
    assert!(!f.in_search);
    let s = Folder::new_search(b"/dir".to_vec());
    assert!(s.in_search);
}

#[test]
fn seven_advances_scroll_the_window() {
    // Viewport height 10 over 25 entries, cursor at 0: seven steps of 3
    // land the cursor on 21 and must have dragged the offset to 15, so
    // the window covers entries 15 to 24.
    let mut f = Folder::new(b"/dir".to_vec());
    assert!(f.update(FilesOp::Read(b"/dir".to_vec(), numbered(25)), 10));
    for _ in 0..7 {
        assert!(f.next(3, 10));
    }
    assert_eq!(f.cursor(), 21);
    assert_eq!(f.offset, 15);
    let w = f.window(10);
    assert_eq!(w.len(), 10);
    assert_eq!(w[0].path, b"/dir/file15".to_vec());
    assert_eq!(w[9].path, b"/dir/file24".to_vec());
}

#[test]
fn zero_step_is_a_noop() {
    let mut f = folder_with(&["/d/a", "/d/b", "/d/c"]);
    assert!(f.next(1, 10));
    let cursor = f.cursor();
    let offset = f.offset;
    let page = f.page;
    assert!(!f.next(0, 10));
    assert!(!f.prev(0, 10));
    assert_eq!(f.cursor(), cursor);
    assert_eq!(f.offset, offset);
    assert_eq!(f.page, page);
}

#[test]
fn cursor_clamps_at_both_ends() {
    let mut f = folder_with(&["/d/a", "/d/b", "/d/c"]);
    assert!(f.next(1000, 10));
    assert_eq!(f.cursor(), 2);
    assert!(!f.next(5, 10));
    assert_eq!(f.cursor(), 2);
    assert!(f.prev(1000, 10));
    assert_eq!(f.cursor(), 0);
    assert!(!f.prev(3, 10));
    assert_eq!(f.cursor(), 0);
}

#[test]
fn empty_listing_never_moves() {
    let mut f = Folder::new(b"/dir".to_vec());
    assert!(!f.next(3, 10));
    assert!(!f.prev(3, 10));
    assert!(!f.hover(&b"/d/a".to_vec(), 10));
    assert_eq!(f.cursor(), 0);
    assert!(f.window(10).is_empty());
    assert!(f.paginate(10).is_empty());
}

#[test]
fn hover_jumps_to_the_path() {
    let mut f = folder_with(&["/d/a", "/d/b", "/d/c", "/d/d"]);
    assert!(f.hover(&b"/d/c".to_vec(), 10));
    assert_eq!(f.cursor(), 2);
    // Hovering the hovered path again reports no change.
    assert!(!f.hover(&b"/d/c".to_vec(), 10));
    assert_eq!(f.cursor(), 2);
    // Hovering a path that is not listed leaves the cursor in place.
    assert!(!f.hover(&b"/d/zzz".to_vec(), 10));
    assert_eq!(f.cursor(), 2);
}

#[test]
fn replacement_that_drops_the_hovered_path_clamps_the_cursor() {
    let mut f = folder_with(&["/d/a", "/d/b", "/d/c", "/d/d", "/d/e"]);
    assert!(f.hover(&b"/d/e".to_vec(), 10));
    assert_eq!(f.cursor(), 4);
    let shorter = entries(&["/d/a", "/d/b", "/d/c"]);
    assert!(f.update(FilesOp::Read(b"/d".to_vec(), shorter), 10));
    assert_eq!(f.cursor(), 2);
    let hovered = f.hovered.as_ref().expect("an entry is hovered");
    assert_eq!(hovered.path, b"/d/c".to_vec());
}

#[test]
fn replacement_that_moves_the_hovered_path_follows_it() {
    let mut f = folder_with(&["/d/a", "/d/b", "/d/c"]);
    assert!(f.hover(&b"/d/b".to_vec(), 10));
    assert_eq!(f.cursor(), 1);
    let reordered = entries(&["/d/c", "/d/a", "/d/b"]);
    assert!(f.update(FilesOp::Search(b"/d".to_vec(), reordered), 10));
    assert_eq!(f.cursor(), 2);
    let hovered = f.hovered.as_ref().expect("an entry is hovered");
    assert_eq!(hovered.path, b"/d/b".to_vec());
}

#[test]
fn update_with_identical_listing_changes_nothing() {
    let mut f = folder_with(&["/d/a", "/d/b"]);
    let cursor = f.cursor();
    assert!(!f.update(FilesOp::Read(b"/d".to_vec(), entries(&["/d/a", "/d/b"])), 10));
    assert_eq!(f.cursor(), cursor);
}

#[test]
fn update_to_empty_clears_the_hover() {
    let mut f = folder_with(&["/d/a", "/d/b"]);
    assert!(f.update(FilesOp::Read(b"/d".to_vec(), Vec::new()), 10));
    assert_eq!(f.cursor(), 0);
    assert!(f.hovered.is_none());
    assert!(f.window(10).is_empty());
}

#[test]
fn select_all_then_again() {
    let mut f = folder_with(&["/d/a", "/d/b", "/d/c", "/d/d", "/d/e"]);
    assert!(!f.has_selected());
    assert!(f.selected().is_none());
    assert!(f.select(None, Some(true)));
    assert!(f.has_selected());
    let picked = f.selected().expect("five entries are selected");
    assert_eq!(picked.len(), 5);
    assert_eq!(picked[0], b"/d/a".to_vec());
    assert_eq!(picked[4], b"/d/e".to_vec());
    // A second pass finds every flag already set.
    assert!(!f.select(None, Some(true)));
}

#[test]
fn select_single_toggle_and_out_of_range() {
    let mut f = folder_with(&["/d/a", "/d/b", "/d/c"]);
    // A toggle always counts as a change.
    assert!(f.select(Some(1), None));
    assert_eq!(f.selected().expect("one entry"), vec![b"/d/b".to_vec()]);
    assert!(f.select(Some(1), None));
    assert!(f.selected().is_none());
    // Forcing a flag to its current value is no change.
    assert!(!f.select(Some(0), Some(false)));
    // Out-of-range indices are ignored.
    assert!(!f.select(Some(9), Some(true)));
    assert!(!f.has_selected());
}

#[test]
fn select_all_toggle_flips_every_flag() {
    let mut f = folder_with(&["/d/a", "/d/b"]);
    assert!(f.select(Some(0), Some(true)));
    assert!(f.select(None, None));
    assert_eq!(f.selected().expect("one entry"), vec![b"/d/b".to_vec()]);
}

#[test]
fn select_on_an_empty_listing_changes_nothing() {
    let mut f = Folder::new(b"/dir".to_vec());
    assert!(!f.select(None, Some(true)));
    assert!(!f.select(Some(0), None));
    assert!(!f.has_selected());
    assert!(f.selected().is_none());
}

#[test]
fn hidden_flag_flips_and_reports_refresh() {
    let mut f = folder_with(&["/d/a"]);
    assert!(!f.files.show_hidden);
    assert!(f.hidden(None));
    assert!(f.files.show_hidden);
    // An explicit value equal to the current one asks for nothing.
    assert!(!f.hidden(Some(true)));
    assert!(f.files.show_hidden);
    assert!(f.hidden(Some(false)));
    assert!(!f.files.show_hidden);
}

#[test]
fn page_follows_the_cursor() {
    let mut f = Folder::new(b"/dir".to_vec());
    assert!(f.update(FilesOp::Read(b"/dir".to_vec(), numbered(25)), 10));
    assert_eq!(f.page, 0);
    assert!(f.next(21, 10));
    assert_eq!(f.page, 2);
    // Recomputing without force reports nothing when the page stands.
    assert!(!f.set_page(false, 10));
    // A forced recomputation always reports, even on the same page.
    assert!(f.set_page(true, 10));
    assert_eq!(f.page, 2);
    // A zero-height viewport forces page 0.
    assert!(f.set_page(false, 0));
    assert_eq!(f.page, 0);
}

#[test]
fn paginate_clamps_to_the_last_valid_index() {
    let mut f = Folder::new(b"/dir".to_vec());
    assert!(f.update(FilesOp::Read(b"/dir".to_vec(), numbered(25)), 10));
    assert!(f.next(21, 10));
    assert_eq!(f.page, 2);
    let block = f.paginate(10);
    assert_eq!(block.len(), 4);
    assert_eq!(block[0].path, b"/dir/file20".to_vec());
    assert_eq!(block[3].path, b"/dir/file23".to_vec());
}

#[test]
fn position_scans_in_listing_order() {
    let f = folder_with(&["/d/a", "/d/b", "/d/c"]);
    assert_eq!(f.position(&b"/d/a".to_vec()), Some(0));
    assert_eq!(f.position(&b"/d/c".to_vec()), Some(2));
    assert_eq!(f.position(&b"/d/zzz".to_vec()), None);
}

#[test]
fn hover_force_adopts_on_an_empty_listing() {
    let mut f = Folder::new(b"/dir".to_vec());
    assert!(f.hover_force(entry("/dir/new"), 10));
    let hovered = f.hovered.as_ref().expect("the entry was adopted");
    assert_eq!(hovered.path, b"/dir/new".to_vec());
    // When the listing arrives, the adopted path resolves to its index.
    let listing = entries(&["/dir/a", "/dir/b", "/dir/new"]);
    assert!(f.update(FilesOp::Read(b"/dir".to_vec(), listing), 10));
    assert_eq!(f.cursor(), 2);
}

#[test]
fn hover_force_reports_nothing_on_a_filled_listing() {
    let mut f = folder_with(&["/d/a", "/d/b"]);
    assert!(!f.hover_force(entry("/d/b"), 10));
    assert_eq!(f.cursor(), 1);
}

#[test]
fn rect_current_places_the_row() {
    let mut f = folder_with(&["/d/a", "/d/b", "/d/c", "/d/d"]);
    let r = f.rect_current(&b"/d/d".to_vec(), 80).expect("the path is listed");
    assert_eq!(r.x, 10);
    assert_eq!(r.y, 3);
    assert_eq!(r.width, 40);
    assert_eq!(r.height, 1);
    assert!(f.rect_current(&b"/d/zzz".to_vec(), 80).is_none());
    // A row scrolled above the window has no rectangle.
    assert!(f.next(1000, 2));
    assert!(f.offset > 0);
    assert!(f.rect_current(&b"/d/a".to_vec(), 80).is_none());
}

#[test]
fn window_of_a_zero_height_viewport_is_empty() {
    let f = folder_with(&["/d/a", "/d/b"]);
    assert!(f.window(0).is_empty());
}

#[test]
fn cursor_stays_inside_the_window_across_any_sequence() {
    // A mixed walk over 40 entries with a 7-row viewport: after every
    // single step the cursor must lie inside the visible window.
    let mut f = Folder::new(b"/dir".to_vec());
    assert!(f.update(FilesOp::Read(b"/dir".to_vec(), numbered(40)), 7));
    let steps: [(bool, usize); 12] = [
        (true, 3),
        (true, 11),
        (false, 2),
        (true, 0),
        (false, 9),
        (true, 100),
        (false, 1),
        (false, 0),
        (true, 6),
        (false, 50),
        (true, 39),
        (false, 13),
    ];
    for (forward, step) in steps {
        if forward {
            f.next(step, 7);
        } else {
            f.prev(step, 7);
        }
        assert!(f.offset <= f.cursor());
        assert!(f.cursor() < f.offset + 7);
        assert!(f.cursor() < 40);
    }
}

#[test]
fn retreat_scrolls_the_window_back() {
    let mut f = Folder::new(b"/dir".to_vec());
    assert!(f.update(FilesOp::Read(b"/dir".to_vec(), numbered(25)), 10));
    for _ in 0..7 {
        assert!(f.next(3, 10));
    }
    assert_eq!(f.offset, 15);
    assert!(f.prev(10, 10));
    assert_eq!(f.cursor(), 11);
    // The cursor came within the margin of the window top, so the offset
    // retreated by the distance moved.
    assert_eq!(f.offset, 5);
}
