//! The window collection: the authoritative association of live window
//! identities with their records.
//!
//! The collection is a sequence of `(id, window)` entries with pairwise
//! distinct ids; broadcasts walk it in entry order. Its view abstracts each
//! window to its [`WindowView`]; the specification-level helpers in this
//! module are shared with the routing engine's model.

use vstd::prelude::*;

use crate::protocol::{IWindow, TypeTag, Window, WindowId, WindowView};

verus! {

/// Whether some entry of `s` carries the id `id`.
pub open spec fn has_id<B: IWindow>(s: Seq<(WindowId, WindowView<B>)>, id: WindowId) -> bool {
    exists|j: int| 0 <= j < s.len() && s[j].0 == id
}

/// The index of the entry carrying `id`; meaningful only when `has_id` holds
/// and the ids of `s` are pairwise distinct.
pub open spec fn idx_of<B: IWindow>(s: Seq<(WindowId, WindowView<B>)>, id: WindowId) -> int {
    choose|j: int| 0 <= j < s.len() && s[j].0 == id
}

/// The window stored under `id`; meaningful only when `has_id` holds.
pub open spec fn lookup<B: IWindow>(s: Seq<(WindowId, WindowView<B>)>, id: WindowId) -> WindowView<
    B,
> {
    s[idx_of(s, id)].1
}

/// Whether some live window of `s` has the kind tag `tag`.
pub open spec fn has_tag<B: IWindow>(s: Seq<(WindowId, WindowView<B>)>, tag: TypeTag) -> bool {
    exists|j: int| 0 <= j < s.len() && s[j].1.data_type_id == tag
}

/// The ids of `s` are pairwise distinct.
pub open spec fn unique_ids<B: IWindow>(s: Seq<(WindowId, WindowView<B>)>) -> bool {
    forall|j: int, k: int| 0 <= j < k < s.len() ==> s[j].0 != s[k].0
}

/// The kind tags of `s` are pairwise distinct: at most one live window per
/// kind.
pub open spec fn unique_tags<B: IWindow>(s: Seq<(WindowId, WindowView<B>)>) -> bool {
    forall|j: int, k: int| 0 <= j < k < s.len() ==> s[j].1.data_type_id != s[k].1.data_type_id
}

/// `s` with the title of the window under `id` replaced; `s` itself when the
/// id is stale.
pub open spec fn set_title_s<B: IWindow>(
    s: Seq<(WindowId, WindowView<B>)>,
    id: WindowId,
    title: Seq<char>,
) -> Seq<(WindowId, WindowView<B>)> {
    if has_id(s, id) {
        let j = idx_of(s, id);
        s.update(j, (s[j].0, WindowView { title, ..s[j].1 }))
    } else {
        s
    }
}

/// `s` with the modal-child reference of the window under `id` replaced;
/// `s` itself when the id is stale.
pub open spec fn set_child_s<B: IWindow>(
    s: Seq<(WindowId, WindowView<B>)>,
    id: WindowId,
    child_id: Option<WindowId>,
) -> Seq<(WindowId, WindowView<B>)> {
    if has_id(s, id) {
        let j = idx_of(s, id);
        s.update(j, (s[j].0, WindowView { child_id, ..s[j].1 }))
    } else {
        s
    }
}

/// `s` without the entry under `id`; `s` itself when the id is stale.
pub open spec fn remove_id_s<B: IWindow>(
    s: Seq<(WindowId, WindowView<B>)>,
    id: WindowId,
) -> Seq<(WindowId, WindowView<B>)> {
    if has_id(s, id) {
        s.remove(idx_of(s, id))
    } else {
        s
    }
}

/// With pairwise distinct ids, any entry carrying `id` stands at `idx_of`.
pub proof fn lemma_idx_of_unique<B: IWindow>(
    s: Seq<(WindowId, WindowView<B>)>,
    id: WindowId,
    j: int,
)
    requires
        unique_ids(s),
        0 <= j < s.len(),
        s[j].0 == id,
    ensures
        has_id(s, id),
        idx_of(s, id) == j,
{
    assert(has_id(s, id));
    let k = idx_of(s, id);
    assert(0 <= k < s.len() && s[k].0 == id);
    if k != j {
        if k < j {
            assert(s[k].0 != s[j].0);
        } else {
            assert(s[j].0 != s[k].0);
        }
    }
}

/// The authoritative map of live windows, keyed by their opaque identifier.
/// Entry order is the order broadcasts are delivered in.
pub struct WindowCollection<B: IWindow> {
    entries: Vec<(WindowId, Window<B>)>,
}

impl<B: IWindow> View for WindowCollection<B> {
    type V = Seq<(WindowId, WindowView<B>)>;

    closed spec fn view(&self) -> Seq<(WindowId, WindowView<B>)> {
        self.entries@.map_values(|e: (WindowId, Window<B>)| (e.0, e.1@))
    }
}

impl<B: IWindow> WindowCollection<B> {
    /// An empty collection.
    pub fn new() -> (r: Self)
        ensures
            r@ == Seq::<(WindowId, WindowView<B>)>::empty(),
    {
        let entries: Vec<(WindowId, Window<B>)> = Vec::new();
        let r = WindowCollection { entries };
        proof {
            assert(r@ =~= Seq::<(WindowId, WindowView<B>)>::empty());
        }
        r
    }

    /// How many windows are live.
    pub fn len(&self) -> (r: usize)
        ensures
            r == self@.len(),
    {
        self.entries.len()
    }

    /// The index of the entry carrying `id`, scanning from the front.
    pub fn find(&self, id: WindowId) -> (r: Option<usize>)
        ensures
            match r {
                Some(i) => i < self@.len() && self@[i as int].0 == id,
                None => !has_id(self@, id),
            },
    {
        let mut i: usize = 0;
        while i < self.entries.len()
            invariant
                i <= self@.len(),
                self@.len() == self.entries@.len(),
                forall|j: int| 0 <= j < self@.len() ==> (#[trigger] self@[j]).0
                    == self.entries@[j].0,
                forall|j: int| 0 <= j < i ==> (#[trigger] self@[j]).0 != id,
            decreases self@.len() - i,
        {
            if self.entries[i].0 == id {
                return Some(i);
            }
            i = i + 1;
        }
        None
    }

    /// The window under `id`, or nothing when the id is stale.
    pub fn get(&self, id: WindowId) -> (r: Option<&Window<B>>)
        requires
            unique_ids(self@),
        ensures
            match r {
                Some(w) => has_id(self@, id) && w@ == lookup(self@, id),
                None => !has_id(self@, id),
            },
    {
        match self.find(id) {
            Some(i) => {
                proof {
                    lemma_idx_of_unique(self@, id, i as int);
                    assert(self@[i as int] == (
                        self.entries@[i as int].0,
                        self.entries@[i as int].1@,
                    ));
                }
                Some(&self.entries[i].1)
            },
            None => None,
        }
    }

    /// Whether a live window carries the kind tag `tag`.
    pub fn contains_tag(&self, tag: TypeTag) -> (r: bool)
        ensures
            r == has_tag(self@, tag),
    {
        let mut i: usize = 0;
        while i < self.entries.len()
            invariant
                i <= self@.len(),
                self@.len() == self.entries@.len(),
                forall|j: int| 0 <= j < self@.len() ==> (#[trigger] self@[j]).1.data_type_id
                    == self.entries@[j].1.data_type_id,
                forall|j: int| 0 <= j < i ==> (#[trigger] self@[j]).1.data_type_id != tag,
            decreases self@.len() - i,
        {
            if self.entries[i].1.data_type_id == tag {
                proof {
                    assert(self@[i as int].1.data_type_id == tag);
                }
                return true;
            }
            i = i + 1;
        }
        false
    }

    /// Replaces the title of the window under `id`; a stale id is a no-op.
    pub fn set_title(&mut self, id: WindowId, title: String)
        requires
            unique_ids(old(self)@),
        ensures
            final(self)@ == set_title_s(old(self)@, id, title@),
    {
        match self.find(id) {
            Some(i) => {
                proof {
                    lemma_idx_of_unique(self@, id, i as int);
                }
                let mut e = self.entries.remove(i);
                e.1.title = title;
                self.entries.insert(i, e);
                proof {
                    assert(final(self)@ =~= set_title_s(old(self)@, id, title@));
                }
            },
            None => {},
        }
    }

    /// Replaces the modal-child reference of the window under `id`; a stale
    /// id is a no-op.
    pub fn set_child(&mut self, id: WindowId, child_id: Option<WindowId>)
        requires
            unique_ids(old(self)@),
        ensures
            final(self)@ == set_child_s(old(self)@, id, child_id),
    {
        match self.find(id) {
            Some(i) => {
                proof {
                    lemma_idx_of_unique(self@, id, i as int);
                }
                let mut e = self.entries.remove(i);
                e.1.child_id = child_id;
                self.entries.insert(i, e);
                proof {
                    assert(final(self)@ =~= set_child_s(old(self)@, id, child_id));
                }
            },
            None => {},
        }
    }

    /// Appends a fresh entry at the back.
    pub fn push_entry(&mut self, id: WindowId, window: Window<B>)
        ensures
            final(self)@ == old(self)@.push((id, window@)),
    {
        let ghost wv = window@;
        self.entries.push((id, window));
        proof {
            assert(final(self)@ =~= old(self)@.push((id, wv)));
        }
    }

    /// Removes the entry under `id`; a stale id is a no-op.
    pub fn remove_entry(&mut self, id: WindowId)
        requires
            unique_ids(old(self)@),
        ensures
            final(self)@ == remove_id_s(old(self)@, id),
    {
        match self.find(id) {
            Some(i) => {
                proof {
                    lemma_idx_of_unique(self@, id, i as int);
                }
                let _ = self.entries.remove(i);
                proof {
                    assert(final(self)@ =~= old(self)@.remove(i as int));
                }
            },
            None => {},
        }
    }

    /// Takes the entry at position `i` out of the collection.
    pub fn take_at(&mut self, i: usize) -> (r: (WindowId, Window<B>))
        requires
            i < old(self)@.len(),
        ensures
            (r.0, r.1@) == old(self)@[i as int],
            final(self)@ == old(self)@.remove(i as int),
    {
        let r = self.entries.remove(i);
        proof {
            assert(final(self)@ =~= old(self)@.remove(i as int));
        }
        r
    }

    /// Puts an entry back at position `i`.
    pub fn put_at(&mut self, i: usize, e: (WindowId, Window<B>))
        requires
            i <= old(self)@.len(),
        ensures
            final(self)@ == old(self)@.insert(i as int, (e.0, e.1@)),
    {
        let ghost ev = (e.0, e.1@);
        self.entries.insert(i, e);
        proof {
            assert(final(self)@ =~= old(self)@.insert(i as int, ev));
        }
    }
}

} // verus!
