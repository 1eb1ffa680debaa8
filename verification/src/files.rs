//! The ordered, path-keyed listing that one directory pane displays.
//!
//! Entries are kept in listing order (not necessarily sorted); paths are
//! unique. The listing is replaced wholesale by full re-reads or by search
//! results; the per-entry selection flag is the only field mutated in place.

use vstd::prelude::*;
use vstd::std_specs::cmp::PartialEqSpec;

verus! {

/// Mathematical value of one directory entry: its path and selection flag.
pub ghost struct FileV {
    pub path: Seq<u8>,
    pub is_selected: bool,
}

/// One directory entry: its path (as raw bytes) and the selection flag.
pub struct File {
    pub path: Vec<u8>,
    pub is_selected: bool,
}

impl View for File {
    type V = FileV;

    open spec fn view(&self) -> FileV {
        FileV { path: self.path@, is_selected: self.is_selected }
    }
}

impl File {
    /// A fresh, unselected entry for the given path.
    pub fn new(path: Vec<u8>) -> (r: File)
        ensures
            r@ == (FileV { path: path@, is_selected: false }),
    {
        File { path, is_selected: false }
    }

    /// An owned copy of this entry's path.
    pub fn clone_path(&self) -> (r: Vec<u8>)
        ensures
            r@ == self@.path,
    {
        let mut p: Vec<u8> = Vec::new();
        let mut i: usize = 0;
        while i < self.path.len()
            invariant
                i <= self.path@.len(),
                p@ == self.path@.subrange(0, i as int),
            decreases self.path@.len() - i,
        {
            p.push(self.path[i]);
            proof {
                assert(self.path@.subrange(0, i + 1) =~= self.path@.subrange(0, i as int).push(
                    self.path@[i as int],
                ));
            }
            i = i + 1;
        }
        proof {
            assert(p@ =~= self.path@);
        }
        p
    }

    /// A detached copy of this entry, equal to it in value.
    pub fn duplicate(&self) -> (r: File)
        ensures
            r@ == self@,
    {
        File { path: self.clone_path(), is_selected: self.is_selected }
    }
}

/// Whether two paths hold the same bytes.
pub fn paths_eq(a: &Vec<u8>, b: &Vec<u8>) -> (r: bool)
    ensures
        r == (a@ == b@),
{
    let r = a == b;
    proof {
        if r {
            assert(a@ =~= b@);
        } else {
            if a@ == b@ {
                assert(a.eq_spec(b));
            }
        }
    }
    r
}

/// No two entries of the listing share a path.
pub open spec fn unique_paths(s: Seq<FileV>) -> bool {
    forall|i: int, j: int| 0 <= i < j < s.len() ==> s[i].path != s[j].path
}

/// Whether some entry of the listing has the given path.
pub open spec fn has_path(s: Seq<FileV>, p: Seq<u8>) -> bool {
    exists|i: int| 0 <= i < s.len() && s[i].path == p
}

/// The index of the entry with the given path (meaningful when
/// `unique_paths` holds and the path is present).
pub open spec fn path_index(s: Seq<FileV>, p: Seq<u8>) -> int {
    choose|i: int| 0 <= i < s.len() && s[i].path == p
}

/// The paths of the selected entries, in listing order.
pub open spec fn selected_paths(s: Seq<FileV>) -> Seq<Seq<u8>>
    decreases s.len(),
{
    if s.len() == 0 {
        Seq::empty()
    } else {
        let rest = selected_paths(s.drop_last());
        if s.last().is_selected {
            rest.push(s.last().path)
        } else {
            rest
        }
    }
}

/// A listing update delivered by the collection collaborator.
pub enum FilesOp {
    /// A full re-read of the pane's directory: the complete new listing.
    Read(Vec<u8>, Vec<File>),
    /// A search-result listing for the pane's path.
    Search(Vec<u8>, Vec<File>),
    /// A failed read of the pane's directory. `Folder::update` does not
    /// accept this kind: receiving it there is a caller wiring bug.
    IOErr(Vec<u8>),
}

/// The ordered, path-keyed listing of one pane, with the hidden-file flag.
pub struct Files {
    /// The entries in listing order. Mutate only through the methods below:
    /// they keep the paths unique and are what the contracts speak of.
    pub entries: Vec<File>,
    /// Whether hidden entries should be listed; filtering itself is done by
    /// whoever produces the listings, on the next refresh.
    pub show_hidden: bool,
}

impl View for Files {
    type V = Seq<FileV>;

    open spec fn view(&self) -> Seq<FileV> {
        self.entries@.map_values(|f: File| f@)
    }
}

impl Files {
    /// Paths are unique within the listing.
    pub open spec fn wf(self) -> bool {
        unique_paths(self@)
    }

    /// An empty listing.
    pub fn new() -> (r: Files)
        ensures
            r.wf(),
            r@ == Seq::<FileV>::empty(),
            !r.show_hidden,
    {
        let r = Files { entries: Vec::new(), show_hidden: false };
        proof {
            assert(r@ =~= Seq::<FileV>::empty());
        }
        r
    }

    /// How many entries the listing holds.
    pub fn len(&self) -> (r: usize)
        ensures
            r == self@.len(),
    {
        self.entries.len()
    }

    /// Whether the listing holds no entry.
    pub fn is_empty(&self) -> (r: bool)
        ensures
            r == (self@.len() == 0),
    {
        self.entries.len() == 0
    }

    /// The entry at the given index.
    pub fn get(&self, i: usize) -> (r: &File)
        requires
            i < self@.len(),
        ensures
            r@ == self@[i as int],
    {
        &self.entries[i]
    }

    /// A detached copy of the entry at the given index, or none when the
    /// index is out of range.
    pub fn duplicate(&self, i: usize) -> (r: Option<File>)
        ensures
            i < self@.len() ==> (r matches Some(f) && f@ == self@[i as int]),
            i >= self@.len() ==> r is None,
    {
        if i < self.entries.len() {
            Some(self.entries[i].duplicate())
        } else {
            None
        }
    }

    /// The index of the entry with the given path, scanning in listing
    /// order; none when no entry has it.
    pub fn position(&self, path: &Vec<u8>) -> (r: Option<usize>)
        requires
            self.wf(),
        ensures
            match r {
                Some(i) => has_path(self@, path@) && i == path_index(self@, path@),
                None => !has_path(self@, path@),
            },
    {
        let n = self.entries.len();
        let mut i: usize = 0;
        while i < n
            invariant
                self.wf(),
                n == self@.len(),
                i <= n,
                forall|j: int| 0 <= j < i ==> self@[j].path != path@,
            decreases n - i,
        {
            if paths_eq(&self.entries[i].path, path) {
                proof {
                    assert(self@[i as int].path == path@);
                    let k = path_index(self@, path@);
                    assert(0 <= k < self@.len() && self@[k].path == path@);
                    if k != i {
                        assert(self@[k].path != self@[i as int].path);
                    }
                }
                return Some(i);
            }
            i = i + 1;
        }
        None
    }

    /// Forces the selection flag of the entry at the given index, leaving
    /// every path and every other entry as they were.
    pub fn set_selected(&mut self, i: usize, v: bool)
        requires
            i < old(self)@.len(),
        ensures
            final(self)@ == old(self)@.update(
                i as int,
                FileV { path: old(self)@[i as int].path, is_selected: v },
            ),
            final(self).show_hidden == old(self).show_hidden,
            old(self).wf() ==> final(self).wf(),
    {
        let e = &mut self.entries[i];
        e.is_selected = v;
        proof {
            assert(self@ =~= old(self)@.update(
                i as int,
                FileV { path: old(self)@[i as int].path, is_selected: v },
            ));
            if old(self).wf() {
                assert forall|a: int, b: int| 0 <= a < b < self@.len() implies self@[a].path
                    != self@[b].path by {
                    assert(self@[a].path == old(self)@[a].path);
                    assert(self@[b].path == old(self)@[b].path);
                }
            }
        }
    }

    /// Replaces the listing with the given one if their contents differ;
    /// reports whether they did. (Shared body of the two update kinds.)
    fn replace(&mut self, items: Vec<File>) -> (r: bool)
        ensures
            r == (items@.map_values(|f: File| f@) != old(self)@),
            r ==> final(self)@ == items@.map_values(|f: File| f@),
            !r ==> *final(self) == *old(self),
            final(self).show_hidden == old(self).show_hidden,
            unique_paths(items@.map_values(|f: File| f@)) && old(self).wf() ==> final(self).wf(),
    {
        let ghost itv = items@.map_values(|f: File| f@);
        proof {
            assert(itv.len() == items@.len());
        }
        let n = items.len();
        let mut same = n == self.entries.len();
        if same {
            let mut i: usize = 0;
            while i < n
                invariant
                    *self == *old(self),
                    n == items@.len(),
                    n == self@.len(),
                    i <= n,
                    itv == items@.map_values(|f: File| f@),
                    same ==> forall|j: int| 0 <= j < i ==> itv[j] == self@[j],
                    !same ==> itv != self@,
                decreases n - i,
            {
                if !paths_eq(&items[i].path, &self.entries[i].path) || items[i].is_selected
                    != self.entries[i].is_selected {
                    proof {
                        assert(itv[i as int] != self@[i as int]);
                    }
                    same = false;
                }
                i = i + 1;
            }
        }
        if same {
            proof {
                assert(itv =~= self@);
            }
            false
        } else {
            self.entries = items;
            true
        }
    }

    /// Applies a full directory re-read; reports whether anything changed.
    pub fn update_read(&mut self, items: Vec<File>) -> (r: bool)
        ensures
            r == (items@.map_values(|f: File| f@) != old(self)@),
            r ==> final(self)@ == items@.map_values(|f: File| f@),
            !r ==> *final(self) == *old(self),
            final(self).show_hidden == old(self).show_hidden,
            unique_paths(items@.map_values(|f: File| f@)) && old(self).wf() ==> final(self).wf(),
    {
        self.replace(items)
    }

    /// Applies a search-result listing; reports whether anything changed.
    pub fn update_search(&mut self, items: Vec<File>) -> (r: bool)
        ensures
            r == (items@.map_values(|f: File| f@) != old(self)@),
            r ==> final(self)@ == items@.map_values(|f: File| f@),
            !r ==> *final(self) == *old(self),
            final(self).show_hidden == old(self).show_hidden,
            unique_paths(items@.map_values(|f: File| f@)) && old(self).wf() ==> final(self).wf(),
    {
        self.replace(items)
    }
}

} // verus!
