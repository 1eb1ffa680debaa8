//! The per-pane view state: cursor, scroll offset, page and hovered entry.
//!
//! Navigation moves the cursor by a step and drags the scroll offset along
//! so that the cursor keeps a lookahead margin from the window edge.
//! Reconciliation re-clamps the state and re-resolves the hovered path when
//! the listing is replaced.

use vstd::prelude::*;

use crate::files::{File, FileV, Files, FilesOp, has_path, path_index, selected_paths, unique_paths};

verus! {

/// Rows reserved by the pane chrome (header and footer) when turning the
/// terminal row count into a viewport height.
pub const DIR_PADDING: u16 = 2;

/// Lookahead margin: while scrolling, the cursor is kept at least this many
/// rows away from the edge of the window whenever there is room.
pub const SCROLL_MARGIN: usize = 5;

/// Share of the terminal width given to the parent-directory pane.
pub const PARENT_RATIO: u32 = 1;

/// Share of the terminal width given to the current-directory pane.
pub const CURRENT_RATIO: u32 = 4;

/// The whole of which the pane ratios are shares.
pub const ALL_RATIO: u32 = 8;

/// Turns a terminal row count into the pane's viewport height.
pub fn limit(rows: u16) -> (r: usize)
    ensures
        r == if rows >= DIR_PADDING {
            rows - DIR_PADDING
        } else {
            0
        },
{
    rows.saturating_sub(DIR_PADDING) as usize
}

/// A screen region, in terminal cells.
pub struct Rect {
    pub x: u16,
    pub y: u16,
    pub width: u16,
    pub height: u16,
}

/// The page that holds the given cursor position, for the given viewport
/// height; page 0 when the terminal has no usable rows.
pub open spec fn page_of(cursor: int, limit: int) -> int {
    if limit <= 0 {
        0
    } else {
        cursor / limit
    }
}

/// Where the cursor lands when advanced by `step` through `len` entries:
/// clamped to the last valid index. (`len` must be at least 1.)
pub open spec fn advance_cursor(cursor: int, step: int, len: int) -> int {
    if cursor + step >= len - 1 {
        len - 1
    } else {
        cursor + step
    }
}

/// Where the scroll offset lands after the cursor advanced from
/// `old_cursor` to `new_cursor`: when the cursor has come within the
/// lookahead margin of the window bottom, the offset follows by the same
/// distance, clamped so the window never scrolls past `len - limit`.
pub open spec fn advance_offset(
    offset: int,
    limit: int,
    len: int,
    old_cursor: int,
    new_cursor: int,
) -> int {
    let edge = if offset + limit <= len {
        offset + limit
    } else {
        len
    };
    let threshold = if edge >= SCROLL_MARGIN as int {
        edge - SCROLL_MARGIN as int
    } else {
        0
    };
    if new_cursor >= threshold {
        let cap = if len >= limit {
            len - limit
        } else {
            0
        };
        let followed = offset + (new_cursor - old_cursor);
        if cap <= followed {
            cap
        } else {
            followed
        }
    } else {
        offset
    }
}

/// Where the cursor lands when retreated by `step`: clamped at 0.
pub open spec fn retreat_cursor(cursor: int, step: int) -> int {
    if step >= cursor {
        0
    } else {
        cursor - step
    }
}

/// Where the scroll offset lands after the cursor retreated from
/// `old_cursor` to `new_cursor`: when the cursor has come within the
/// lookahead margin of the window top, the offset retreats by the same
/// distance, clamped at 0.
pub open spec fn retreat_offset(offset: int, old_cursor: int, new_cursor: int) -> int {
    if new_cursor < offset + SCROLL_MARGIN as int {
        let moved = old_cursor - new_cursor;
        if moved >= offset {
            0
        } else {
            offset - moved
        }
    } else {
        offset
    }
}

/// The view state of one directory pane.
pub struct Folder {
    /// The absolute path this pane displays.
    pub cwd: Vec<u8>,
    /// The listing shown, with the hidden-file flag.
    pub files: Files,
    /// Index of the first entry scrolled into the visible window.
    pub offset: usize,
    /// Index of the hovered entry (0, and meaningless, when empty).
    pub cursor: usize,
    /// The page holding the cursor, as last recomputed.
    pub page: usize,
    /// A detached copy of the hovered entry; it survives listing
    /// replacement, which is what reconciliation resolves it against.
    pub hovered: Option<File>,
    /// Whether this pane displays search results rather than a listing.
    pub in_search: bool,
}

impl Folder {
    /// What navigation needs of the state: unique paths, the window start
    /// at or before the cursor, and the cursor inside the listing (or 0).
    pub open spec fn nav_wf(self) -> bool {
        &&& self.files.wf()
        &&& self.offset <= self.cursor
        &&& (self.cursor < self.files@.len() || (self.files@.len() == 0 && self.cursor == 0))
    }

    /// Full well-formedness: navigation state plus the hovered snapshot
    /// naming the same path as the entry under the cursor.
    pub open spec fn wf(self) -> bool {
        &&& self.nav_wf()
        &&& (self.files@.len() > 0 ==> (self.hovered matches Some(h) && h@.path
            == self.files@[self.cursor as int].path))
    }

    /// The cursor lies inside the window of `limit` rows starting at the
    /// scroll offset.
    pub open spec fn cursor_in_window(self, limit: usize) -> bool {
        self.cursor < self.offset + limit
    }

    /// The pane identity and the listing are untouched: only cursor,
    /// offset, page and the hovered snapshot may differ.
    pub open spec fn same_listing(self, other: Folder) -> bool {
        &&& self.cwd == other.cwd
        &&& self.files == other.files
        &&& self.in_search == other.in_search
    }

    /// A fresh, empty pane for a directory listing.
    pub fn new(cwd: Vec<u8>) -> (r: Folder)
        ensures
            r.wf(),
            r.cwd@ == cwd@,
            r.files@ == Seq::<FileV>::empty(),
            !r.files.show_hidden,
            r.offset == 0,
            r.cursor == 0,
            r.page == 0,
            r.hovered is None,
            !r.in_search,
    {
        Folder {
            cwd,
            files: Files::new(),
            offset: 0,
            cursor: 0,
            page: 0,
            hovered: None,
            in_search: false,
        }
    }

    /// A fresh, empty pane for search results.
    pub fn new_search(cwd: Vec<u8>) -> (r: Folder)
        ensures
            r.wf(),
            r.cwd@ == cwd@,
            r.files@ == Seq::<FileV>::empty(),
            !r.files.show_hidden,
            r.offset == 0,
            r.cursor == 0,
            r.page == 0,
            r.hovered is None,
            r.in_search,
    {
        Folder {
            cwd,
            files: Files::new(),
            offset: 0,
            cursor: 0,
            page: 0,
            hovered: None,
            in_search: true,
        }
    }

    /// The index of the hovered entry.
    pub fn cursor(&self) -> (r: usize)
        ensures
            r == self.cursor,
    {
        self.cursor
    }

    /// Recomputes which page holds the cursor; reports whether a
    /// page-changed notification is due, that is when the page differs
    /// from the last one (or unconditionally when `force` is set, for use
    /// after the listing itself changed).
    pub fn set_page(&mut self, force: bool, limit: usize) -> (r: bool)
        ensures
            final(self).page == page_of(old(self).cursor as int, limit as int),
            r == (force || old(self).page != page_of(old(self).cursor as int, limit as int)),
            final(self).cursor == old(self).cursor,
            final(self).offset == old(self).offset,
            final(self).hovered == old(self).hovered,
            old(self).same_listing(*final(self)),
    {
        let new_page = if limit == 0 {
            0
        } else {
            self.cursor / limit
        };
        if !force && self.page == new_page {
            return false;
        }
        self.page = new_page;
        true
    }

    /// Moves the cursor forward by `step`, never past the last entry,
    /// refreshes the hovered snapshot and the page, and drags the scroll
    /// offset along when the cursor comes within the lookahead margin of
    /// the window bottom. Reports whether the cursor actually moved; on an
    /// empty listing it is a no-op reporting false.
    pub fn next(&mut self, step: usize, limit: usize) -> (r: bool)
        requires
            old(self).nav_wf(),
        ensures
            final(self).nav_wf(),
            old(self).same_listing(*final(self)),
            old(self).files@.len() == 0 ==> *final(self) == *old(self) && !r,
            old(self).files@.len() > 0 ==> final(self).wf(),
            old(self).files@.len() > 0 ==> ({
                let len = old(self).files@.len() as int;
                let nc = advance_cursor(old(self).cursor as int, step as int, len);
                &&& final(self).cursor == nc
                &&& final(self).offset == advance_offset(
                    old(self).offset as int,
                    limit as int,
                    len,
                    old(self).cursor as int,
                    nc,
                )
                &&& final(self).page == page_of(nc, limit as int)
                &&& (final(self).hovered matches Some(h) && h@ == final(self).files@[nc])
                &&& r == (nc != old(self).cursor)
            }),
            old(self).wf() ==> final(self).wf(),
            old(self).files@.len() > 0 && limit > 0 && old(self).cursor_in_window(limit)
                ==> final(self).cursor_in_window(limit),
            final(self).cursor < old(self).files@.len() || final(self).cursor == 0,
            step == 0 ==> !r && final(self).cursor == old(self).cursor,
            step == 0 && (old(self).offset + limit <= old(self).files@.len() || old(self).offset
                == 0) ==> final(self).offset == old(self).offset,
            step == 0 && old(self).page == page_of(old(self).cursor as int, limit as int)
                ==> final(self).page == old(self).page,
    {
        let len = self.files.len();
        if len == 0 {
            return false;
        }
        let old_cursor = self.cursor;
        let room = len - 1 - self.cursor;
        if step >= room {
            self.cursor = len - 1;
        } else {
            self.cursor = self.cursor + step;
        }
        self.hovered = self.files.duplicate(self.cursor);
        self.set_page(false, limit);

        let edge = if limit >= len - self.offset {
            len
        } else {
            self.offset + limit
        };
        let threshold = if edge >= SCROLL_MARGIN {
            edge - SCROLL_MARGIN
        } else {
            0
        };
        if self.cursor >= threshold {
            let moved = self.cursor - old_cursor;
            let cap = if len >= limit {
                len - limit
            } else {
                0
            };
            if cap <= self.offset {
                self.offset = cap;
            } else if moved >= cap - self.offset {
                self.offset = cap;
            } else {
                self.offset = self.offset + moved;
            }
        }
        old_cursor != self.cursor
    }

    /// Moves the cursor backward by `step`, never below 0, refreshes the
    /// hovered snapshot and the page, and retreats the scroll offset when
    /// the cursor comes within the lookahead margin of the window top.
    /// Reports whether the cursor actually moved.
    pub fn prev(&mut self, step: usize, limit: usize) -> (r: bool)
        requires
            old(self).nav_wf(),
        ensures
            final(self).nav_wf(),
            old(self).same_listing(*final(self)),
            old(self).files@.len() > 0 ==> final(self).wf(),
            old(self).wf() ==> final(self).wf(),
            ({
                let nc = retreat_cursor(old(self).cursor as int, step as int);
                &&& final(self).cursor == nc
                &&& final(self).offset == retreat_offset(
                    old(self).offset as int,
                    old(self).cursor as int,
                    nc,
                )
                &&& final(self).page == page_of(nc, limit as int)
                &&& r == (nc != old(self).cursor)
            }),
            old(self).files@.len() > 0 ==> (final(self).hovered matches Some(h)
                && h@ == final(self).files@[final(self).cursor as int]),
            old(self).files@.len() == 0 ==> final(self).hovered is None,
            limit > 0 && old(self).cursor_in_window(limit) ==> final(self).cursor_in_window(limit),
            final(self).cursor <= old(self).cursor,
            step == 0 ==> !r && final(self).cursor == old(self).cursor
                && final(self).offset == old(self).offset,
            step == 0 && old(self).page == page_of(old(self).cursor as int, limit as int)
                ==> final(self).page == old(self).page,
    {
        let old_cursor = self.cursor;
        self.cursor = self.cursor.saturating_sub(step);
        self.hovered = self.files.duplicate(self.cursor);
        self.set_page(false, limit);

        let near_top = self.cursor < self.offset || self.cursor - self.offset < SCROLL_MARGIN;
        if near_top {
            let moved = old_cursor - self.cursor;
            self.offset = self.offset.saturating_sub(moved);
        }
        old_cursor != self.cursor
    }

    /// The hovered snapshot exists and names the given path.
    pub open spec fn hovers_path(self, p: Seq<u8>) -> bool {
        self.hovered matches Some(h) && h@.path == p
    }

    /// The index a hover request for the given path resolves to: the
    /// path's index when it is listed, else the current cursor (the
    /// request then degenerates to a scroll realignment).
    pub open spec fn hover_target(self, p: Seq<u8>) -> int {
        if has_path(self.files@, p) {
            path_index(self.files@, p)
        } else {
            self.cursor as int
        }
    }

    /// Moves the cursor to the entry with the given path, routing the move
    /// through `next`/`prev` so that all scroll-offset bookkeeping stays in
    /// one place. A no-op when the path is the hovered one already; when
    /// the path is not listed, the move distance is zero. Reports whether
    /// the cursor moved.
    pub fn hover(&mut self, path: &Vec<u8>, limit: usize) -> (r: bool)
        requires
            old(self).wf(),
        ensures
            final(self).wf(),
            old(self).same_listing(*final(self)),
            old(self).hovers_path(path@) ==> *final(self) == *old(self) && !r,
            !old(self).hovers_path(path@) ==> hover_moves(*old(self), *final(self), path@, limit),
            !old(self).hovers_path(path@) ==> r == (old(self).hover_target(path@) != old(
                self,
            ).cursor as int),
    {
        let already = match &self.hovered {
            Some(h) => crate::files::paths_eq(&h.path, path),
            None => false,
        };
        if already {
            return false;
        }
        let target = match self.files.position(path) {
            Some(i) => i,
            None => self.cursor,
        };
        if target > self.cursor {
            let d = target - self.cursor;
            self.next(d, limit)
        } else {
            let d = self.cursor - target;
            self.prev(d, limit)
        }
    }

    /// First tries `hover` on the entry's path; when that changed nothing
    /// and the listing is empty, adopts the given entry as the detached
    /// hovered snapshot (so a freshly created, not yet listed directory
    /// shows something at once). Reports whether the snapshot was adopted.
    pub fn hover_force(&mut self, file: File, limit: usize) -> (r: bool)
        requires
            old(self).wf(),
        ensures
            final(self).wf(),
            old(self).same_listing(*final(self)),
            old(self).files@.len() == 0 ==> (r && (final(self).hovered matches Some(h) && h == file)
                && final(self).cursor == old(self).cursor && final(self).offset == old(
                self,
            ).offset),
            old(self).files@.len() == 0 && old(self).hovers_path(file@.path) ==> final(self).page
                == old(self).page,
            old(self).files@.len() == 0 && !old(self).hovers_path(file@.path) ==> final(self).page
                == 0,
            old(self).files@.len() > 0 ==> !r,
            old(self).files@.len() > 0 && old(self).hovers_path(file@.path) ==> *final(self)
                == *old(self),
            old(self).files@.len() > 0 && !old(self).hovers_path(file@.path) ==> hover_moves(
                *old(self),
                *final(self),
                file@.path,
                limit,
            ),
    {
        let moved = self.hover(&file.path, limit);
        if !moved && self.files.is_empty() {
            self.hovered = Some(file);
            return true;
        }
        false
    }

    /// Applies a listing update (a full re-read or a search result; any
    /// other kind is a caller wiring bug and is ruled out). When the
    /// listing actually changed: clamps the offset and cursor back into
    /// range, forces a page recomputation, re-resolves the hovered path
    /// against the new listing so the cursor follows the entry's identity
    /// rather than its index, and refreshes the snapshot from the entry
    /// now under the cursor. Reports whether anything changed.
    pub fn update(&mut self, op: FilesOp, limit: usize) -> (r: bool)
        requires
            old(self).wf(),
            op matches FilesOp::Read(_, items) ==> unique_paths(items@.map_values(|f: File| f@)),
            op matches FilesOp::Search(_, items) ==> unique_paths(items@.map_values(|f: File| f@)),
            op matches FilesOp::Read(..) || op matches FilesOp::Search(..),
        ensures
            final(self).wf(),
            r == (op_items(op) != old(self).files@),
            !r ==> *final(self) == *old(self),
            r ==> final(self).files@ == op_items(op),
            r ==> final(self).files.show_hidden == old(self).files.show_hidden,
            r ==> final(self).cwd == old(self).cwd && final(self).in_search == old(self).in_search,
            r ==> ({
                let s = op_items(op);
                let len = s.len() as int;
                let c1 = if len == 0 {
                    0int
                } else if (old(self).cursor as int) < len {
                    old(self).cursor as int
                } else {
                    len - 1
                };
                let o1 = if old(self).offset as int <= c1 {
                    old(self).offset as int
                } else {
                    c1
                };
                let target = update_target(old(self).hovered, s, c1);
                &&& final(self).cursor == target
                &&& final(self).page == page_of(target, limit as int)
                &&& (target > c1 ==> final(self).offset == advance_offset(
                    o1,
                    limit as int,
                    len,
                    c1,
                    target,
                ))
                &&& (target <= c1 ==> final(self).offset == retreat_offset(o1, c1, target))
                &&& (len > 0 ==> (final(self).hovered matches Some(h2) && h2@ == s[target]))
                &&& (len == 0 ==> final(self).hovered is None)
            }),
    {
        let b = match op {
            FilesOp::Read(_, items) => self.files.update_read(items),
            FilesOp::Search(_, items) => self.files.update_search(items),
            FilesOp::IOErr(_) => unreached(),
        };
        if !b {
            return false;
        }

        let len = self.files.len();
        if self.offset > len {
            self.offset = len;
        }
        if len == 0 {
            self.cursor = 0;
        } else if self.cursor > len - 1 {
            self.cursor = len - 1;
        }
        if self.offset > self.cursor {
            self.offset = self.cursor;
        }
        self.set_page(true, limit);

        let hpath: Option<Vec<u8>> = match &self.hovered {
            Some(h) => Some(h.clone_path()),
            None => None,
        };
        if let Some(p) = hpath {
            let target = match self.files.position(&p) {
                Some(i) => i,
                None => self.cursor,
            };
            if target > self.cursor {
                let d = target - self.cursor;
                self.next(d, limit);
            } else {
                let d = self.cursor - target;
                self.prev(d, limit);
            }
        }
        self.hovered = self.files.duplicate(self.cursor);
        true
    }
}

/// How a resolved hover moves the state: the cursor lands on the
/// target, the offset and page follow the advance/retreat rules for
/// the exact distance, and the snapshot is refreshed from the entry
/// now under the cursor (cleared when the listing is empty).
pub open spec fn hover_moves(pre: Folder, post: Folder, p: Seq<u8>, limit: usize) -> bool {
    let len = pre.files@.len() as int;
    let target = pre.hover_target(p);
    &&& post.cursor == target
    &&& (target > pre.cursor as int ==> post.offset == advance_offset(
        pre.offset as int,
        limit as int,
        len,
        pre.cursor as int,
        target,
    ))
    &&& (target <= pre.cursor as int ==> post.offset == retreat_offset(
        pre.offset as int,
        pre.cursor as int,
        target,
    ))
    &&& post.page == page_of(target, limit as int)
    &&& (len > 0 ==> (post.hovered matches Some(h) && h@ == pre.files@[target]))
    &&& (len == 0 ==> post.hovered is None)
}

/// The selection flag a request leaves on an entry: forced to the given
/// state, or toggled when no state is given.
pub open spec fn applied_flag(f: bool, state: Option<bool>) -> bool {
    match state {
        Option::None => !f,
        Option::Some(s) => s,
    }
}

/// Whether a selection request on an entry with the given flag counts as
/// a change: a toggle always does, a forced state only when it differs.
pub open spec fn flag_report(f: bool, state: Option<bool>) -> bool {
    match state {
        Option::None => true,
        Option::Some(s) => s != f,
    }
}

/// The end of the visible window: one past its last entry.
pub open spec fn window_end(offset: int, limit: int, len: int) -> int {
    if offset + limit <= len {
        offset + limit
    } else {
        len
    }
}

/// The first index of the page-aligned block holding the cursor, clamped
/// to the last valid index (so a listing that exactly fills its last page
/// reports no trailing empty page).
pub open spec fn paginate_start(page: int, limit: int, len: int) -> int {
    let max = if len > 0 {
        len - 1
    } else {
        0
    };
    if page * limit <= max {
        page * limit
    } else {
        max
    }
}

/// One past the last index of the page-aligned block, clamped the same
/// way as its start.
pub open spec fn paginate_end(page: int, limit: int, len: int) -> int {
    let max = if len > 0 {
        len - 1
    } else {
        0
    };
    let s = paginate_start(page, limit, len);
    if s + limit <= max {
        s + limit
    } else {
        max
    }
}

/// The index reconciliation re-resolves to after a listing change: the
/// old hovered path's index in the new listing when it is still present,
/// else the already-clamped cursor.
pub open spec fn update_target(hovered: Option<File>, s: Seq<FileV>, c1: int) -> int {
    match hovered {
        Option::Some(h) => if has_path(s, h@.path) {
            path_index(s, h@.path)
        } else {
            c1
        },
        Option::None => c1,
    }
}

/// The listing a full-read or search update carries; empty for the kinds
/// `Folder::update` does not accept.
pub open spec fn op_items(op: FilesOp) -> Seq<FileV> {
    match op {
        FilesOp::Read(_, items) => items@.map_values(|f: File| f@),
        FilesOp::Search(_, items) => items@.map_values(|f: File| f@),
        FilesOp::IOErr(_) => Seq::empty(),
    }
}

impl Folder {
    /// Navigation state and pane identity are untouched: only the
    /// listing's entries may differ.
    pub open spec fn same_nav(self, other: Folder) -> bool {
        &&& self.cwd == other.cwd
        &&& self.offset == other.offset
        &&& self.cursor == other.cursor
        &&& self.page == other.page
        &&& self.hovered == other.hovered
        &&& self.in_search == other.in_search
    }

    /// Sets, forces or toggles selection flags: on the entry at the given
    /// index (out-of-range indices are ignored), or on every entry when no
    /// index is given. Reports whether at least one flag request counted
    /// as a change; paths, order and all navigation state are untouched.
    pub fn select(&mut self, idx: Option<usize>, state: Option<bool>) -> (r: bool)
        requires
            old(self).wf(),
        ensures
            final(self).wf(),
            old(self).same_nav(*final(self)),
            final(self).files.show_hidden == old(self).files.show_hidden,
            final(self).files@.len() == old(self).files@.len(),
            forall|k: int|
                0 <= k < old(self).files@.len() ==> final(self).files@[k].path == old(
                    self,
                ).files@[k].path,
            idx matches Some(i) ==> (if i < old(self).files@.len() {
                &&& final(self).files@ == old(self).files@.update(
                    i as int,
                    (FileV {
                        path: old(self).files@[i as int].path,
                        is_selected: applied_flag(old(self).files@[i as int].is_selected, state),
                    }),
                )
                &&& r == flag_report(old(self).files@[i as int].is_selected, state)
            } else {
                &&& *final(self) == *old(self)
                &&& !r
            }),
            idx is None ==> ({
                &&& forall|k: int|
                    0 <= k < old(self).files@.len() ==> final(self).files@[k] == (FileV {
                        path: old(self).files@[k].path,
                        is_selected: applied_flag(old(self).files@[k].is_selected, state),
                    })
                &&& r == exists|k: int|
                    0 <= k < old(self).files@.len() && flag_report(
                        old(self).files@[k].is_selected,
                        state,
                    )
            }),
    {
        let len = self.files.len();
        match idx {
            Some(i) => {
                if i >= len {
                    return false;
                }
                let cur = self.files.get(i).is_selected;
                let newf = match state {
                    Some(s) => s,
                    None => !cur,
                };
                let rep = match state {
                    Some(s) => s != cur,
                    None => true,
                };
                if rep {
                    self.files.set_selected(i, newf);
                } else {
                    proof {
                        assert(self.files@ =~= old(self).files@.update(
                            i as int,
                            (FileV {
                                path: old(self).files@[i as int].path,
                                is_selected: applied_flag(
                                    old(self).files@[i as int].is_selected,
                                    state,
                                ),
                            }),
                        ));
                    }
                }
                proof {
                    lemma_same_paths_keep_unique(old(self).files@, self.files@);
                }
                rep
            },
            None => {
                let mut applied = false;
                let mut j: usize = 0;
                while j < len
                    invariant
                        old(self).wf(),
                        len == old(self).files@.len(),
                        len == self.files@.len(),
                        j <= len,
                        old(self).same_nav(*self),
                        self.files.show_hidden == old(self).files.show_hidden,
                        forall|k: int| j <= k < len ==> self.files@[k] == old(self).files@[k],
                        forall|k: int|
                            0 <= k < j ==> self.files@[k] == (FileV {
                                path: old(self).files@[k].path,
                                is_selected: applied_flag(
                                    old(self).files@[k].is_selected,
                                    state,
                                ),
                            }),
                        applied == exists|k: int|
                            0 <= k < j && flag_report(old(self).files@[k].is_selected, state),
                    decreases len - j,
                {
                    let cur = self.files.get(j).is_selected;
                    let newf = match state {
                        Some(s) => s,
                        None => !cur,
                    };
                    let rep = match state {
                        Some(s) => s != cur,
                        None => true,
                    };
                    if rep {
                        self.files.set_selected(j, newf);
                        applied = true;
                        proof {
                            assert(flag_report(old(self).files@[j as int].is_selected, state));
                        }
                    }
                    j = j + 1;
                }
                proof {
                    lemma_same_paths_keep_unique(old(self).files@, self.files@);
                }
                applied
            },
        }
    }

    /// Applies the hidden-file toggle: with no explicit value, or with one
    /// that differs from the current flag, flips the flag. Reports whether
    /// a refresh of the listing is now owed by whoever produces it; the
    /// entries themselves are never touched here.
    pub fn hidden(&mut self, show: Option<bool>) -> (r: bool)
        ensures
            r == (show is None || show != Some(old(self).files.show_hidden)),
            final(self).files.show_hidden == (if r {
                !old(self).files.show_hidden
            } else {
                old(self).files.show_hidden
            }),
            final(self).files@ == old(self).files@,
            old(self).same_nav(*final(self)),
            old(self).wf() ==> final(self).wf(),
    {
        let flip = match show {
            Some(s) => self.files.show_hidden != s,
            None => true,
        };
        if flip {
            self.files.show_hidden = !self.files.show_hidden;
        }
        flip
    }

    /// The index of the entry with the given path, or none when it is not
    /// listed.
    pub fn position(&self, path: &Vec<u8>) -> (r: Option<usize>)
        requires
            self.files.wf(),
        ensures
            match r {
                Some(i) => has_path(self.files@, path@) && i == path_index(self.files@, path@),
                None => !has_path(self.files@, path@),
            },
    {
        self.files.position(path)
    }

    /// Whether any entry is selected.
    pub fn has_selected(&self) -> (r: bool)
        ensures
            r == exists|i: int| 0 <= i < self.files@.len() && self.files@[i].is_selected,
    {
        let len = self.files.len();
        let mut i: usize = 0;
        while i < len
            invariant
                len == self.files@.len(),
                i <= len,
                forall|k: int| 0 <= k < i ==> !self.files@[k].is_selected,
            decreases len - i,
        {
            if self.files.get(i).is_selected {
                return true;
            }
            i = i + 1;
        }
        false
    }

    /// The paths of the selected entries in listing order, or none when no
    /// entry is selected.
    pub fn selected(&self) -> (r: Option<Vec<Vec<u8>>>)
        ensures
            match r {
                Some(v) => v@.map_values(|p: Vec<u8>| p@) == selected_paths(self.files@)
                    && v@.len() > 0,
                None => selected_paths(self.files@).len() == 0,
            },
    {
        let len = self.files.len();
        let mut out: Vec<Vec<u8>> = Vec::new();
        let mut i: usize = 0;
        while i < len
            invariant
                len == self.files@.len(),
                i <= len,
                out@.map_values(|p: Vec<u8>| p@) == selected_paths(
                    self.files@.subrange(0, i as int),
                ),
            decreases len - i,
        {
            let ghost prefix = self.files@.subrange(0, i as int);
            let e = self.files.get(i);
            if e.is_selected {
                let p = e.clone_path();
                out.push(p);
            }
            proof {
                let longer = self.files@.subrange(0, i + 1);
                assert(longer.drop_last() =~= prefix);
                assert(longer.last() == self.files@[i as int]);
                if self.files@[i as int].is_selected {
                    assert(out@.map_values(|p: Vec<u8>| p@) =~= selected_paths(prefix).push(
                        self.files@[i as int].path,
                    ));
                }
            }
            i = i + 1;
        }
        proof {
            assert(self.files@.subrange(0, len as int) =~= self.files@);
        }
        if out.len() == 0 {
            None
        } else {
            Some(out)
        }
    }

    /// The entries of the visible window, as detached copies: the slice of
    /// the listing from the scroll offset, at most `limit` entries long.
    pub fn window(&self, limit: usize) -> (r: Vec<File>)
        requires
            self.wf(),
        ensures
            ({
                let end = window_end(self.offset as int, limit as int, self.files@.len() as int);
                &&& r@.len() == end - self.offset
                &&& forall|k: int|
                    0 <= k < r@.len() ==> r@[k]@ == self.files@[self.offset + k]
            }),
            self.files@.len() == 0 ==> r@.len() == 0,
    {
        let len = self.files.len();
        let end = if limit >= len - self.offset {
            len
        } else {
            self.offset + limit
        };
        let mut out: Vec<File> = Vec::new();
        let mut i = self.offset;
        while i < end
            invariant
                len == self.files@.len(),
                self.offset <= i <= end,
                end == window_end(self.offset as int, limit as int, len as int),
                end <= len,
                out@.len() == i - self.offset,
                forall|k: int| 0 <= k < out@.len() ==> out@[k]@ == self.files@[self.offset + k],
            decreases end - i,
        {
            out.push(self.files.get(i).duplicate());
            i = i + 1;
        }
        out
    }
}

impl Folder {
    /// The entries of the page-aligned block holding the cursor, as
    /// detached copies. Both bounds are clamped to the last valid index,
    /// so a listing that exactly fills its last page reports no trailing
    /// empty page.
    pub fn paginate(&self, limit: usize) -> (r: Vec<File>)
        requires
            self.wf(),
        ensures
            ({
                let start = paginate_start(self.page as int, limit as int, self.files@.len() as int);
                let end = paginate_end(self.page as int, limit as int, self.files@.len() as int);
                &&& r@.len() == end - start
                &&& forall|k: int| 0 <= k < r@.len() ==> r@[k]@ == self.files@[start + k]
            }),
            self.files@.len() == 0 ==> r@.len() == 0,
    {
        let len = self.files.len();
        let max = if len == 0 {
            0
        } else {
            len - 1
        };
        let start = if limit == 0 {
            0
        } else if self.page > max / limit {
            proof {
                let p = self.page as int;
                let l = limit as int;
                let m = max as int;
                vstd::arithmetic::div_mod::lemma_fundamental_div_mod(m, l);
                vstd::arithmetic::div_mod::lemma_mod_bound(m, l);
                vstd::arithmetic::mul::lemma_mul_is_distributive_add_other_way(l, m / l, 1);
                vstd::arithmetic::mul::lemma_mul_inequality(m / l + 1, p, l);
                vstd::arithmetic::mul::lemma_mul_is_commutative(m / l, l);
                vstd::arithmetic::mul::lemma_mul_basics(l);
                assert((m / l + 1) * l == (m / l) * l + l);
                assert((m / l) * l + l > m);
                assert(p * l > m);
            }
            max
        } else {
            proof {
                let p = self.page as int;
                let l = limit as int;
                let m = max as int;
                vstd::arithmetic::div_mod::lemma_fundamental_div_mod(m, l);
                vstd::arithmetic::div_mod::lemma_mod_bound(m, l);
                vstd::arithmetic::mul::lemma_mul_inequality(p, m / l, l);
                vstd::arithmetic::mul::lemma_mul_is_commutative(m / l, l);
                assert((m / l) * l <= m);
                assert(p * l <= m);
            }
            self.page * limit
        };
        let end = if limit >= max - start {
            max
        } else {
            start + limit
        };
        let mut out: Vec<File> = Vec::new();
        let mut i = start;
        while i < end
            invariant
                len == self.files@.len(),
                start <= i <= end,
                start == paginate_start(self.page as int, limit as int, len as int),
                end == paginate_end(self.page as int, limit as int, len as int),
                end <= len,
                out@.len() == i - start,
                forall|k: int| 0 <= k < out@.len() ==> out@[k]@ == self.files@[start + k],
            decreases end - i,
        {
            out.push(self.files.get(i).duplicate());
            i = i + 1;
        }
        out
    }

    /// The screen region of the given path's row inside the current pane,
    /// for the given terminal width; none when the path is not listed, or
    /// when its row lies before the window start or beyond what a screen
    /// coordinate can address.
    pub fn rect_current(&self, path: &Vec<u8>, cols: u16) -> (r: Option<Rect>)
        requires
            self.files.wf(),
        ensures
            ({
                let s = self.files@;
                if has_path(s, path@) && path_index(s, path@) >= self.offset as int && path_index(
                    s,
                    path@,
                ) - self.offset as int <= u16::MAX as int {
                    &&& r matches Some(rect)
                    &&& rect.x == cols as int * PARENT_RATIO as int / ALL_RATIO as int
                    &&& rect.y == path_index(s, path@) - self.offset as int
                    &&& rect.width == cols as int * CURRENT_RATIO as int / ALL_RATIO as int
                    &&& rect.height == 1
                } else {
                    r is None
                }
            }),
    {
        let pos = match self.position(path) {
            Some(i) => i,
            None => {
                return None;
            },
        };
        if pos < self.offset {
            return None;
        }
        let rel = pos - self.offset;
        if rel > u16::MAX as usize {
            return None;
        }
        let x32 = cols as u32 * PARENT_RATIO / ALL_RATIO;
        let w32 = cols as u32 * CURRENT_RATIO / ALL_RATIO;
        Some(Rect { x: x32 as u16, y: rel as u16, width: w32 as u16, height: 1 })
    }
}

/// Paths unchanged pointwise keep the uniqueness invariant.
proof fn lemma_same_paths_keep_unique(pre: Seq<FileV>, post: Seq<FileV>)
    requires
        unique_paths(pre),
        post.len() == pre.len(),
        forall|k: int| 0 <= k < pre.len() ==> post[k].path == pre[k].path,
    ensures
        unique_paths(post),
{
}

/// The cursor and offset lie inside the listing and the cursor inside the
/// window of `limit` rows: what every navigation step preserves.
pub open spec fn nav_in_window(offset: int, cursor: int, len: int, limit: int) -> bool {
    &&& 0 <= offset <= cursor < len
    &&& cursor < offset + limit
}

/// LAW: one forward step keeps the cursor inside the visible window. For
/// any listing length and any viewport height of at least one row, if the
/// cursor was inside the window before `next`, it is inside afterwards.
pub proof fn lemma_advance_keeps_cursor_in_window(
    offset: int,
    cursor: int,
    step: int,
    len: int,
    limit: int,
)
    requires
        1 <= limit,
        0 <= step,
        nav_in_window(offset, cursor, len, limit),
    ensures
        ({
            let nc = advance_cursor(cursor, step, len);
            nav_in_window(advance_offset(offset, limit, len, cursor, nc), nc, len, limit)
        }),
{
}

/// LAW: one backward step keeps the cursor inside the visible window, as
/// `lemma_advance_keeps_cursor_in_window` states for forward steps.
pub proof fn lemma_retreat_keeps_cursor_in_window(
    offset: int,
    cursor: int,
    step: int,
    len: int,
    limit: int,
)
    requires
        1 <= limit,
        0 <= step,
        nav_in_window(offset, cursor, len, limit),
    ensures
        ({
            let nc = retreat_cursor(cursor, step);
            nav_in_window(retreat_offset(offset, cursor, nc), nc, len, limit)
        }),
{
}

/// The scroll state after a whole sequence of navigation steps, each a
/// direction (true for forward) and a step width.
pub open spec fn run_nav(
    offset: int,
    cursor: int,
    ops: Seq<(bool, int)>,
    len: int,
    limit: int,
) -> (int, int)
    decreases ops.len(),
{
    if ops.len() == 0 {
        (offset, cursor)
    } else {
        let (o1, c1) = run_nav(offset, cursor, ops.drop_last(), len, limit);
        let op = ops.last();
        if op.0 {
            let nc = advance_cursor(c1, op.1, len);
            (advance_offset(o1, limit, len, c1, nc), nc)
        } else {
            let nc = retreat_cursor(c1, op.1);
            (retreat_offset(o1, c1, nc), nc)
        }
    }
}

/// LAW: when the hovered path survives a listing replacement, the
/// re-resolved cursor is that path's index in the new listing — the
/// cursor follows the entry's identity, not its old position.
pub proof fn lemma_reconciliation_follows_identity(h: File, s: Seq<FileV>, c1: int)
    requires
        has_path(s, h@.path),
    ensures
        update_target(Some(h), s, c1) == path_index(s, h@.path),
{
}

/// LAW: when a replacement removed the hovered path, the re-resolved
/// cursor is the old cursor clamped into the new range; with
/// `Folder::update`'s postcondition, the snapshot then reflects whatever
/// entry now occupies that index.
pub proof fn lemma_reconciliation_clamps_lost_path(h: File, s: Seq<FileV>, c1: int)
    requires
        !has_path(s, h@.path),
    ensures
        update_target(Some(h), s, c1) == c1,
{
}

/// LAW: the re-resolved cursor always lies inside the new listing (or on
/// 0 when the listing is empty), whatever was hovered before.
pub proof fn lemma_reconciliation_stays_in_range(hovered: Option<File>, s: Seq<FileV>, c1: int)
    requires
        0 <= c1,
        s.len() > 0 ==> c1 < s.len(),
        s.len() == 0 ==> c1 == 0,
    ensures
        0 <= update_target(hovered, s, c1),
        s.len() > 0 ==> update_target(hovered, s, c1) < s.len(),
        s.len() == 0 ==> update_target(hovered, s, c1) == 0,
{
}

/// LAW: for every non-empty listing and viewport height of at least one
/// row, after any sequence of forward and backward steps the cursor still
/// lies inside the visible window:
/// `offset <= cursor < offset + limit`, with both inside the listing.
pub proof fn lemma_nav_sequence_keeps_cursor_in_window(
    offset: int,
    cursor: int,
    ops: Seq<(bool, int)>,
    len: int,
    limit: int,
)
    requires
        1 <= limit,
        nav_in_window(offset, cursor, len, limit),
        forall|k: int| 0 <= k < ops.len() ==> (#[trigger] ops[k]).1 >= 0,
    ensures
        ({
            let (no, nc) = run_nav(offset, cursor, ops, len, limit);
            nav_in_window(no, nc, len, limit)
        }),
    decreases ops.len(),
{
    if ops.len() > 0 {
        let rest = ops.drop_last();
        assert(forall|k: int| 0 <= k < rest.len() ==> (#[trigger] rest[k]).1 >= 0);
        lemma_nav_sequence_keeps_cursor_in_window(offset, cursor, rest, len, limit);
        let (o1, c1) = run_nav(offset, cursor, rest, len, limit);
        let op = ops.last();
        if op.0 {
            lemma_advance_keeps_cursor_in_window(o1, c1, op.1, len, limit);
        } else {
            lemma_retreat_keeps_cursor_in_window(o1, c1, op.1, len, limit);
        }
    }
}

} // verus!

