//! The navigation state machine: a stack of frames over the loaded
//! definitions, with staleness-checked installation of asynchronously
//! computed results.

use vstd::prelude::*;

use crate::config::SearchConfig;
use crate::item::Item;
use crate::spell::{find_spell, lookup_spell, spell_like, spells_unique, Spell};

verus! {

/// Lifecycle of the whole application state.
#[derive(Clone, Copy, Debug, PartialEq, Eq, Structural)]
pub enum AppStatus {
    NotStarted,
    Booting,
    Loading,
    Ready,
    Error,
}

/// What `handle_escape` did: cleared the query, popped a frame, or nothing.
#[derive(Clone, Copy, Debug, PartialEq, Eq, Structural)]
pub enum EscapeResult {
    ClearedQuery,
    PoppedFrame,
    Noop,
}

/// One entry of the navigation stack: an active definition's query, items
/// and selection.
pub struct Frame {
    pub id: u64,
    pub spell_id: String,
    pub query: String,
    pub all_items: Vec<Item>,
    pub filtered_items: Vec<Item>,
    pub is_filtering: bool,
    pub selected_idx: usize,
}

/// The owned aggregate state: status, definitions, the frame stack and the
/// frame-id counter.
pub struct AppInner {
    pub status: AppStatus,
    pub spells: Vec<Spell>,
    pub stack: Vec<Frame>,
    pub next_frame_id: u64,
}

/// The state machine; the embedding program shares it behind its own
/// exclusion primitive and calls the operations below.
pub struct AppState {
    pub inner: AppInner,
}

/// The immutable view handed to the front end after every state-affecting
/// operation.
pub struct StateSnapshot {
    pub status: AppStatus,
    pub no_of_spells: usize,
    pub spell_names: Vec<String>,
    pub top_items: Vec<Item>,
    pub query: String,
    pub is_filtering: bool,
    pub selected_index: usize,
    pub selected_item: Option<Item>,
    pub total_items: usize,
}

/// A selection index clamped into the filtered list: zero on an empty list.
pub open spec fn clamp_sel(len: int, idx: int) -> int {
    if len == 0 {
        0
    } else if idx < len {
        idx
    } else {
        len - 1
    }
}

/// Frame invariant: the selection is in range (or zero when nothing is
/// filtered) and the filtered items are drawn from the loaded items.
pub open spec fn frame_wf(f: Frame) -> bool {
    &&& f.filtered_items@.len() == 0 ==> f.selected_idx == 0
    &&& f.filtered_items@.len() > 0 ==> (f.selected_idx as int) < f.filtered_items@.len()
    &&& forall|i: int|
        0 <= i < f.filtered_items@.len() ==> f.all_items@.contains(#[trigger] f.filtered_items@[i])
}

/// Whole-state invariant: every frame is well-formed, frame ids are unique
/// and below the counter, and definition ids are unique.
pub open spec fn inner_wf(s: AppInner) -> bool {
    &&& forall|i: int| 0 <= i < s.stack@.len() ==> frame_wf(#[trigger] s.stack@[i])
    &&& forall|i: int| 0 <= i < s.stack@.len() ==> (#[trigger] s.stack@[i]).id < s.next_frame_id
    &&& forall|i: int, j: int|
        0 <= i < j < s.stack@.len() ==> s.stack@[i].id != s.stack@[j].id
    &&& spells_unique(s.spells@)
}

/// A frame freshly created for a definition: empty query and items, nothing
/// selected.
pub open spec fn fresh_frame(f: Frame, id: u64, sid: Seq<char>) -> bool {
    &&& f.id == id
    &&& f.spell_id@ == sid
    &&& f.query@ == Seq::<char>::empty()
    &&& f.all_items@ == Seq::<Item>::empty()
    &&& f.filtered_items@ == Seq::<Item>::empty()
    &&& !f.is_filtering
    &&& f.selected_idx == 0
}

/// The asynchronous-result staleness check: the frame the work was started
/// for is still the top of the stack.
pub open spec fn is_top(s: AppInner, uid: u64) -> bool {
    s.stack@.len() > 0 && s.stack@.last().id == uid
}

/// The definition owning the current (top) frame, if any.
pub open spec fn current_spell(s: AppInner) -> Option<Spell> {
    if s.stack@.len() == 0 {
        None
    } else {
        find_spell(s.spells@, s.stack@.last().spell_id@)
    }
}

/// The top frame's search configuration: that of its owning definition.
pub open spec fn spell_cfg(s: AppInner) -> Option<SearchConfig> {
    match current_spell(s) {
        Some(sp) => sp.search,
        None => None,
    }
}

/// How `set_query` rewrites the state: the top frame takes the new query
/// with the selection reset and filtering marked pending; an empty stack is
/// left alone.
pub open spec fn set_query_rel(pre: AppInner, q: Seq<char>, post: AppInner) -> bool {
    if pre.stack@.len() == 0 {
        post == pre
    } else {
        &&& post.stack@.len() == pre.stack@.len()
        &&& forall|i: int| 0 <= i < pre.stack@.len() - 1 ==> post.stack@[i] == pre.stack@[i]
        &&& sets_query(pre.stack@.last(), post.stack@.last(), q)
        &&& post.status == pre.status
        &&& post.spells == pre.spells
        &&& post.next_frame_id == pre.next_frame_id
    }
}

/// The frame-level effect of `set_query`.
pub open spec fn sets_query(pre: Frame, post: Frame, q: Seq<char>) -> bool {
    &&& post.id == pre.id
    &&& post.spell_id == pre.spell_id
    &&& post.query@ == q
    &&& post.all_items == pre.all_items
    &&& post.filtered_items == pre.filtered_items
    &&& post.is_filtering
    &&& post.selected_idx == 0
}

/// The frame-level effect of the first escape stage: query cleared, the
/// filtered set restored to all loaded items, selection reset.
pub open spec fn clears_query(pre: Frame, post: Frame) -> bool {
    &&& post.id == pre.id
    &&& post.spell_id == pre.spell_id
    &&& post.query@ == Seq::<char>::empty()
    &&& post.all_items == pre.all_items
    &&& post.filtered_items@ == pre.all_items@
    &&& !post.is_filtering
    &&& post.selected_idx == 0
}

/// The frame-level effect of clamping a selection, all else untouched.
pub open spec fn clamps_to(pre: Frame, post: Frame) -> bool {
    &&& post.id == pre.id
    &&& post.spell_id == pre.spell_id
    &&& post.query == pre.query
    &&& post.all_items == pre.all_items
    &&& post.filtered_items == pre.filtered_items
    &&& post.is_filtering == pre.is_filtering
    &&& post.selected_idx as int == clamp_sel(
        pre.filtered_items@.len() as int,
        pre.selected_idx as int,
    )
}

/// How `handle_escape` rewrites the state: a non-empty query on the top
/// frame is cleared first; only a second escape pops, clamping the newly
/// exposed frame's selection; a lone frame with an empty query is left
/// alone.
pub open spec fn escape_rel(pre: AppInner, post: AppInner, r: EscapeResult) -> bool {
    if pre.stack@.len() > 0 && pre.stack@.last().query@.len() > 0 {
        &&& r == EscapeResult::ClearedQuery
        &&& post.stack@.len() == pre.stack@.len()
        &&& forall|i: int| 0 <= i < pre.stack@.len() - 1 ==> post.stack@[i] == pre.stack@[i]
        &&& clears_query(pre.stack@.last(), post.stack@.last())
        &&& post.status == pre.status
        &&& post.spells == pre.spells
        &&& post.next_frame_id == pre.next_frame_id
    } else if pre.stack@.len() > 1 {
        &&& r == EscapeResult::PoppedFrame
        &&& post.stack@.len() == pre.stack@.len() - 1
        &&& forall|i: int| 0 <= i < post.stack@.len() - 1 ==> post.stack@[i] == pre.stack@[i]
        &&& clamps_to(pre.stack@[pre.stack@.len() - 2], post.stack@.last())
        &&& post.status == AppStatus::Ready
        &&& post.spells == pre.spells
        &&& post.next_frame_id == pre.next_frame_id
    } else {
        &&& r == EscapeResult::Noop
        &&& post == pre
    }
}

/// Escape is two-staged: from a stack of depth two with a live query on
/// top, the first escape only clears the query (depth unchanged, the
/// filtered set restored to all items), and the second pops to depth one.
pub proof fn lemma_escape_two_stage(
    s0: AppInner,
    s1: AppInner,
    s2: AppInner,
    r1: EscapeResult,
    r2: EscapeResult,
)
    requires
        s0.stack@.len() == 2,
        s0.stack@.last().query@.len() > 0,
        escape_rel(s0, s1, r1),
        escape_rel(s1, s2, r2),
    ensures
        r1 == EscapeResult::ClearedQuery,
        s1.stack@.len() == 2,
        s1.stack@.last().query@.len() == 0,
        s1.stack@.last().filtered_items@ == s1.stack@.last().all_items@,
        r2 == EscapeResult::PoppedFrame,
        s2.stack@.len() == 1,
{
}

/// Creates the next frame for a definition, advancing the id counter.
fn new_frame(inner: &mut AppInner, spell_id: String) -> (f: Frame)
    requires
        old(inner).next_frame_id < u64::MAX,
    ensures
        fresh_frame(f, old(inner).next_frame_id, spell_id@),
        final(inner).next_frame_id == old(inner).next_frame_id + 1,
        final(inner).status == old(inner).status,
        final(inner).spells == old(inner).spells,
        final(inner).stack == old(inner).stack,
{
    let id = inner.next_frame_id;
    inner.next_frame_id = inner.next_frame_id + 1;
    Frame {
        id,
        spell_id,
        query: String::new(),
        all_items: Vec::new(),
        filtered_items: Vec::new(),
        is_filtering: false,
        selected_idx: 0,
    }
}

/// Clamps a frame's selection into its filtered list.
fn clamp_selection(frame: &mut Frame)
    ensures
        clamps_to(*old(frame), *final(frame)),
{
    let len = frame.filtered_items.len();
    if len == 0 {
        frame.selected_idx = 0;
    } else if frame.selected_idx >= len {
        frame.selected_idx = len - 1;
    }
}

/// Clones a list of items, value for value.
pub fn clone_items(v: &Vec<Item>) -> (r: Vec<Item>)
    ensures
        r@ == v@,
{
    let n = v.len();
    let mut out: Vec<Item> = Vec::new();
    let mut i: usize = 0;
    while i < n
        invariant
            0 <= i <= n,
            n == v@.len(),
            out@ == v@.subrange(0, i as int),
        decreases n - i,
    {
        out.push(v[i].clone());
        proof {
            assert(v@.subrange(0, i + 1) =~= v@.subrange(0, i as int).push(v@[i as int]));
        }
        i += 1;
    }
    proof {
        assert(v@.subrange(0, n as int) =~= v@);
    }
    out
}

impl AppState {
    /// The state invariant the operations preserve.
    pub open spec fn wf(self) -> bool {
        inner_wf(self.inner)
    }

    /// A fresh, not yet started state.
    pub fn new() -> (r: Self)
        ensures
            r.wf(),
            r.inner.status == AppStatus::NotStarted,
            r.inner.spells@ == Seq::<Spell>::empty(),
            r.inner.stack@ == Seq::<Frame>::empty(),
            r.inner.next_frame_id == 0,
    {
        AppState {
            inner: AppInner {
                status: AppStatus::NotStarted,
                spells: Vec::new(),
                stack: Vec::new(),
                next_frame_id: 0,
            },
        }
    }

    /// Installs the loaded definitions and pushes the single starting frame,
    /// moving to `Loading`. Fails, changing nothing, when already started.
    pub fn begin_loading_with_spells(&mut self, spells: Vec<Spell>) -> (r: Result<(), String>)
        requires
            old(self).wf(),
            spells_unique(spells@),
            old(self).inner.next_frame_id < u64::MAX,
        ensures
            final(self).wf(),
            old(self).inner.status != AppStatus::NotStarted ==> {
                &&& r matches Err(e) && e@ == "already started"@
                &&& *final(self) == *old(self)
            },
            old(self).inner.status == AppStatus::NotStarted ==> {
                &&& r is Ok
                &&& final(self).inner.status == AppStatus::Loading
                &&& final(self).inner.spells == spells
                &&& final(self).inner.stack@.len() == 1
                &&& fresh_frame(
                    final(self).inner.stack@[0],
                    old(self).inner.next_frame_id,
                    "quickspell"@,
                )
                &&& final(self).inner.next_frame_id == old(self).inner.next_frame_id + 1
            },
    {
        if !matches!(self.inner.status, AppStatus::NotStarted) {
            return Err("already started".to_owned());
        }
        self.inner.status = AppStatus::Booting;
        self.inner.spells = spells;
        self.inner.status = AppStatus::Loading;
        let f = new_frame(&mut self.inner, "quickspell".to_owned());
        self.inner.stack = Vec::new();
        self.inner.stack.push(f);
        Ok(())
    }

    /// Installs a completed provider batch into the frame it was started
    /// for — only if that frame is still the top (else a no-op) — and moves
    /// to `Ready`.
    pub fn finish_loading_with_items(&mut self, items: Vec<Item>, frame_uid: u64)
        requires
            old(self).wf(),
        ensures
            final(self).wf(),
            !is_top(old(self).inner, frame_uid) ==> *final(self) == *old(self),
            is_top(old(self).inner, frame_uid) ==> {
                &&& final(self).inner.status == AppStatus::Ready
                &&& final(self).inner.stack@.len() == old(self).inner.stack@.len()
                &&& forall|i: int|
                    0 <= i < old(self).inner.stack@.len() - 1 ==> final(self).inner.stack@[i]
                        == old(self).inner.stack@[i]
                &&& installs_items(
                    old(self).inner.stack@.last(),
                    final(self).inner.stack@.last(),
                    items@,
                )
                &&& final(self).inner.spells == old(self).inner.spells
                &&& final(self).inner.next_frame_id == old(self).inner.next_frame_id
            },
    {
        let n = self.inner.stack.len();
        if n == 0 {
            return ;
        }
        if self.inner.stack[n - 1].id != frame_uid {
            return ;
        }
        let ghost pre = self.inner.stack@;
        let mut f = self.inner.stack.pop().unwrap();
        let copy = clone_items(&items);
        f.all_items = items;
        f.filtered_items = copy;
        clamp_selection(&mut f);
        self.inner.stack.push(f);
        self.inner.status = AppStatus::Ready;
        proof {
            assert(final(self).inner.stack@ =~= pre.update(n - 1, final(self).inner.stack@.last()));
        }
    }

    /// Tears the state down to `Error`: definitions and stack cleared.
    pub fn set_error(&mut self)
        ensures
            final(self).wf(),
            final(self).inner.status == AppStatus::Error,
            final(self).inner.spells@ == Seq::<Spell>::empty(),
            final(self).inner.stack@ == Seq::<Frame>::empty(),
            final(self).inner.next_frame_id == old(self).inner.next_frame_id,
    {
        self.inner.status = AppStatus::Error;
        self.inner.spells = Vec::new();
        self.inner.stack = Vec::new();
    }

    /// Marks the state `Ready`, touching nothing else.
    pub fn set_ready(&mut self)
        requires
            old(self).wf(),
        ensures
            final(self).wf(),
            final(self).inner.status == AppStatus::Ready,
            final(self).inner.spells == old(self).inner.spells,
            final(self).inner.stack == old(self).inner.stack,
            final(self).inner.next_frame_id == old(self).inner.next_frame_id,
    {
        self.inner.status = AppStatus::Ready;
    }

    /// The definition owning the current frame, as a field-wise copy.
    pub fn get_current_spell(&self) -> (r: Option<Spell>)
        ensures
            r is Some <==> current_spell(self.inner) is Some,
            r matches Some(s) ==> current_spell(self.inner) matches Some(f) && spell_like(s, f),
    {
        let n = self.inner.stack.len();
        if n == 0 {
            return None;
        }
        lookup_spell(&self.inner.spells, self.inner.stack[n - 1].spell_id.as_str())
    }

    /// Stores a new query on the current frame, resetting the selection and
    /// marking filtering pending. Re-ranking is the caller's next step.
    pub fn set_query(&mut self, query: String)
        requires
            old(self).wf(),
        ensures
            final(self).wf(),
            set_query_rel(old(self).inner, query@, final(self).inner),
    {
        let n = self.inner.stack.len();
        if n == 0 {
            return ;
        }
        let ghost pre = self.inner.stack@;
        let mut f = self.inner.stack.pop().unwrap();
        f.query = query;
        f.selected_idx = 0;
        f.is_filtering = true;
        self.inner.stack.push(f);
        proof {
            assert(final(self).inner.stack@ =~= pre.update(n - 1, final(self).inner.stack@.last()));
        }
    }

    /// Whether the given frame id is still the current top of stack.
    pub fn is_current_frame(&self, frame_uid: u64) -> (r: bool)
        ensures
            r == is_top(self.inner, frame_uid),
    {
        let n = self.inner.stack.len();
        n > 0 && self.inner.stack[n - 1].id == frame_uid
    }

    /// Appends a streamed batch to the frame it was read for, both to the
    /// loaded and the filtered items — only if that frame is still the top;
    /// a stale batch is discarded.
    pub fn append_items_for_frame(&mut self, frame_uid: u64, new_items: Vec<Item>)
        requires
            old(self).wf(),
        ensures
            final(self).wf(),
            !is_top(old(self).inner, frame_uid) ==> *final(self) == *old(self),
            is_top(old(self).inner, frame_uid) ==> {
                &&& final(self).inner.stack@.len() == old(self).inner.stack@.len()
                &&& forall|i: int|
                    0 <= i < old(self).inner.stack@.len() - 1 ==> final(self).inner.stack@[i]
                        == old(self).inner.stack@[i]
                &&& appends_items(
                    old(self).inner.stack@.last(),
                    final(self).inner.stack@.last(),
                    new_items@,
                )
                &&& final(self).inner.status == old(self).inner.status
                &&& final(self).inner.spells == old(self).inner.spells
                &&& final(self).inner.next_frame_id == old(self).inner.next_frame_id
            },
    {
        let n = self.inner.stack.len();
        if n == 0 {
            return ;
        }
        if self.inner.stack[n - 1].id != frame_uid {
            return ;
        }
        let ghost pre = self.inner.stack@;
        let mut f = self.inner.stack.pop().unwrap();
        let ghost fpre = f;
        let mut copy = clone_items(&new_items);
        let mut moved = new_items;
        f.all_items.append(&mut moved);
        f.filtered_items.append(&mut copy);
        self.inner.stack.push(f);
        proof {
            let fpost = final(self).inner.stack@.last();
            assert(final(self).inner.stack@ =~= pre.update(n - 1, fpost));
            assert forall|i: int|
                0 <= i < fpost.filtered_items@.len() implies fpost.all_items@.contains(
                #[trigger] fpost.filtered_items@[i],
            ) by {
                if i < fpre.filtered_items@.len() {
                    assert(fpre.all_items@.contains(fpre.filtered_items@[i]));
                    let k = choose|k: int|
                        0 <= k < fpre.all_items@.len() && fpre.all_items@[k]
                            == fpre.filtered_items@[i];
                    assert(fpost.all_items@[k] == fpost.filtered_items@[i]);
                } else {
                    let k = fpre.all_items@.len() + (i - fpre.filtered_items@.len());
                    assert(fpost.all_items@[k] == fpost.filtered_items@[i]);
                }
            }
        }
    }

    /// Moves the selection by a delta, clamped into the filtered list; an
    /// empty list forces index zero. Returns whether a frame was there to
    /// move in.
    pub fn set_selection_delta(&mut self, delta: isize) -> (r: bool)
        requires
            old(self).wf(),
        ensures
            final(self).wf(),
            old(self).inner.stack@.len() == 0 ==> !r && *final(self) == *old(self),
            old(self).inner.stack@.len() > 0 ==> {
                &&& r
                &&& final(self).inner.stack@.len() == old(self).inner.stack@.len()
                &&& forall|i: int|
                    0 <= i < old(self).inner.stack@.len() - 1 ==> final(self).inner.stack@[i]
                        == old(self).inner.stack@[i]
                &&& moves_selection(
                    old(self).inner.stack@.last(),
                    final(self).inner.stack@.last(),
                    delta as int,
                )
                &&& final(self).inner.status == old(self).inner.status
                &&& final(self).inner.spells == old(self).inner.spells
                &&& final(self).inner.next_frame_id == old(self).inner.next_frame_id
            },
    {
        let n = self.inner.stack.len();
        if n == 0 {
            return false;
        }
        let ghost pre = self.inner.stack@;
        let mut f = self.inner.stack.pop().unwrap();
        let len = f.filtered_items.len();
        if len == 0 {
            f.selected_idx = 0;
        } else {
            let current = if f.selected_idx < len {
                f.selected_idx
            } else {
                len - 1
            };
            if delta >= 0 {
                let d = delta as usize;
                if d >= len - 1 - current {
                    f.selected_idx = len - 1;
                } else {
                    f.selected_idx = current + d;
                }
            } else {
                let d: usize = if delta == isize::MIN {
                    (isize::MAX as usize) + 1
                } else {
                    (-delta) as usize
                };
                if d > current {
                    f.selected_idx = 0;
                } else {
                    f.selected_idx = current - d;
                }
            }
        }
        self.inner.stack.push(f);
        proof {
            assert(final(self).inner.stack@ =~= pre.update(n - 1, final(self).inner.stack@.last()));
        }
        true
    }

    /// The two-stage escape: clear a live query first; pop only when the
    /// top frame's query is already empty and a frame lies beneath.
    pub fn handle_escape(&mut self) -> (r: EscapeResult)
        requires
            old(self).wf(),
        ensures
            final(self).wf(),
            escape_rel(old(self).inner, final(self).inner, r),
    {
        let n = self.inner.stack.len();
        if n > 0 && self.inner.stack[n - 1].query.as_str().unicode_len() > 0 {
            let ghost pre = self.inner.stack@;
            let mut f = self.inner.stack.pop().unwrap();
            f.query = String::new();
            f.selected_idx = 0;
            f.filtered_items = clone_items(&f.all_items);
            f.is_filtering = false;
            self.inner.stack.push(f);
            proof {
                let fpost = final(self).inner.stack@.last();
                assert(final(self).inner.stack@ =~= pre.update(n - 1, fpost));
                assert forall|i: int|
                    0 <= i < fpost.filtered_items@.len() implies fpost.all_items@.contains(
                    #[trigger] fpost.filtered_items@[i],
                ) by {
                    assert(fpost.filtered_items@[i] == fpost.all_items@[i]);
                }
            }
            return EscapeResult::ClearedQuery;
        }
        if n > 1 {
            let ghost pre = self.inner.stack@;
            let _ = self.inner.stack.pop();
            let mut f = self.inner.stack.pop().unwrap();
            clamp_selection(&mut f);
            self.inner.stack.push(f);
            self.inner.status = AppStatus::Ready;
            proof {
                assert(final(self).inner.stack@ =~= pre.drop_last().update(
                    n - 2,
                    final(self).inner.stack@.last(),
                ));
            }
            return EscapeResult::PoppedFrame;
        }
        EscapeResult::Noop
    }
}

/// What re-filtering computes for a frame: the ranked list — or, with an
/// empty query or no search configuration, the items unchanged — truncated
/// to the 100-entry display cap.
pub open spec fn filtered_view(items: Seq<Item>, q: Seq<char>, cfg: Option<SearchConfig>) -> Seq<
    Item,
> {
    let full = if q.len() == 0 {
        items
    } else {
        match cfg {
            Some(c) => crate::search::ranked_items(items, q, c),
            None => items,
        }
    };
    if full.len() > 100 {
        full.take(100)
    } else {
        full
    }
}

/// Ranks a frame's loaded items against a query under the owning
/// definition's configuration (no configuration means no filtering) and
/// truncates to at most 100 entries.
pub fn compute_filtered(all_items: &Vec<Item>, query: &str, config: &Option<SearchConfig>) -> (r:
    Vec<Item>)
    ensures
        r@ == filtered_view(all_items@, query@, *config),
        r@.len() <= 100,
        forall|j: int| 0 <= j < r@.len() ==> all_items@.contains(#[trigger] r@[j]),
{
    let ghost full = if query@.len() == 0 {
        all_items@
    } else {
        match *config {
            Some(c) => crate::search::ranked_items(all_items@, query@, c),
            None => all_items@,
        }
    };
    let mut out: Vec<Item>;
    if query.unicode_len() == 0 {
        out = clone_items(all_items);
    } else {
        match config {
            Some(c) => {
                out = crate::search::filter_items(all_items, query, c);
                proof {
                    crate::search::lemma_ranked_items_subset(all_items@, query@, *c);
                }
            },
            None => {
                out = clone_items(all_items);
            },
        }
    }
    proof {
        assert(forall|j: int| 0 <= j < full.len() ==> all_items@.contains(#[trigger] full[j]));
    }
    if out.len() > 100 {
        out.truncate(100);
        proof {
            assert(out@ == full.subrange(0, 100));
            assert(forall|j: int| 0 <= j < out@.len() ==> out@[j] == full[j]);
            assert(full.take(100) == full.subrange(0, 100));
        }
    }
    out
}

/// The frame-level effect of applying a filter result: it becomes the
/// filtered set, the selection clamped into it, filtering no longer
/// pending.
pub open spec fn applies_filter(pre: Frame, post: Frame, filt: Seq<Item>) -> bool {
    &&& post.id == pre.id
    &&& post.spell_id == pre.spell_id
    &&& post.query == pre.query
    &&& post.all_items == pre.all_items
    &&& post.filtered_items@ == filt
    &&& !post.is_filtering
    &&& post.selected_idx as int == clamp_sel(filt.len() as int, pre.selected_idx as int)
}

/// How applying a filter result rewrites the state: the write happens only
/// if the frame's stored query still equals the query that was filtered
/// against; a stale result is rejected and changes nothing.
pub open spec fn apply_rel(
    pre: AppInner,
    q: Seq<char>,
    filt: Seq<Item>,
    post: AppInner,
    applied: bool,
) -> bool {
    if pre.stack@.len() > 0 && pre.stack@.last().query@ == q {
        &&& applied
        &&& post.stack@.len() == pre.stack@.len()
        &&& forall|i: int| 0 <= i < pre.stack@.len() - 1 ==> post.stack@[i] == pre.stack@[i]
        &&& applies_filter(pre.stack@.last(), post.stack@.last(), filt)
        &&& post.status == pre.status
        &&& post.spells == pre.spells
        &&& post.next_frame_id == pre.next_frame_id
    } else {
        &&& !applied
        &&& post == pre
    }
}

/// A filter result computed against a superseded query is never applied:
/// after `set_query(a)` then `set_query(b)`, applying the result for `a`
/// is rejected and the frame's filtered items stay what they were.
pub proof fn lemma_stale_filter_rejected(
    s0: AppInner,
    qa: Seq<char>,
    qb: Seq<char>,
    s1: AppInner,
    s2: AppInner,
    filt: Seq<Item>,
    s3: AppInner,
    applied: bool,
)
    requires
        s0.stack@.len() > 0,
        qa != qb,
        set_query_rel(s0, qa, s1),
        set_query_rel(s1, qb, s2),
        apply_rel(s2, qa, filt, s3, applied),
    ensures
        !applied,
        s3 == s2,
        s2.stack@.last().filtered_items == s0.stack@.last().filtered_items,
{
}

/// Where each spell name shown in the snapshot's context chain comes from:
/// the owning definition's name, or the raw id when no definition matches.
pub open spec fn display_name(s: AppInner, i: int) -> Seq<char> {
    match find_spell(s.spells@, s.stack@[i].spell_id@) {
        Some(sp) => sp.name@,
        None => s.stack@[i].spell_id@,
    }
}

impl AppState {
    /// The inputs re-filtering needs, copied out so ranking can run off the
    /// caller's lock: the current frame's items and query, and the owning
    /// definition's search configuration.
    pub fn current_filter_input(&self) -> (r: Option<(Vec<Item>, String, Option<SearchConfig>)>)
        ensures
            r is Some <==> self.inner.stack@.len() > 0,
            r matches Some(t) ==> {
                &&& t.0@ == self.inner.stack@.last().all_items@
                &&& t.1@ == self.inner.stack@.last().query@
                &&& t.2 == spell_cfg(self.inner)
            },
    {
        let n = self.inner.stack.len();
        if n == 0 {
            return None;
        }
        let all = clone_items(&self.inner.stack[n - 1].all_items);
        let q = self.inner.stack[n - 1].query.clone();
        let cfg = match self.get_current_spell() {
            Some(sp) => sp.search,
            None => None,
        };
        Some((all, q, cfg))
    }

    /// Writes a computed filter result back — only if the frame's stored
    /// query still equals the query it was computed for. Returns whether
    /// the write was applied.
    pub fn apply_filtered(&mut self, query: &str, filtered: Vec<Item>) -> (applied: bool)
        requires
            old(self).wf(),
            old(self).inner.stack@.len() > 0 ==> forall|j: int|
                0 <= j < filtered@.len() ==> old(self).inner.stack@.last().all_items@.contains(
                    #[trigger] filtered@[j],
                ),
        ensures
            final(self).wf(),
            apply_rel(old(self).inner, query@, filtered@, final(self).inner, applied),
    {
        let n = self.inner.stack.len();
        if n == 0 {
            return false;
        }
        if !crate::strutil::str_eq(self.inner.stack[n - 1].query.as_str(), query) {
            return false;
        }
        let ghost pre = self.inner.stack@;
        let mut f = self.inner.stack.pop().unwrap();
        f.filtered_items = filtered;
        clamp_selection(&mut f);
        f.is_filtering = false;
        self.inner.stack.push(f);
        proof {
            assert(final(self).inner.stack@ =~= pre.update(n - 1, final(self).inner.stack@.last()));
        }
        true
    }

    /// One whole re-filter pass over the current frame: read the inputs,
    /// rank, and write back under the staleness check. With no concurrent
    /// query change the write is always applied; the result is capped at
    /// 100 entries.
    pub fn filter_items(&mut self) -> (applied: bool)
        requires
            old(self).wf(),
        ensures
            final(self).wf(),
            old(self).inner.stack@.len() == 0 ==> !applied && *final(self) == *old(self),
            old(self).inner.stack@.len() > 0 ==> apply_rel(
                old(self).inner,
                old(self).inner.stack@.last().query@,
                filtered_view(
                    old(self).inner.stack@.last().all_items@,
                    old(self).inner.stack@.last().query@,
                    spell_cfg(old(self).inner),
                ),
                final(self).inner,
                applied,
            ),
    {
        match self.current_filter_input() {
            None => false,
            Some((all, query, cfg)) => {
                let filtered = compute_filtered(&all, query.as_str(), &cfg);
                self.apply_filtered(query.as_str(), filtered)
            },
        }
    }

    /// An immutable view of the state for rendering: never panics, and
    /// falls back to defensive defaults on an empty stack.
    pub fn snapshot(&self) -> (r: StateSnapshot)
        ensures
            r.status == self.inner.status,
            r.no_of_spells == self.inner.spells@.len(),
            r.spell_names@.len() == self.inner.stack@.len(),
            forall|i: int|
                0 <= i < self.inner.stack@.len() ==> (#[trigger] r.spell_names@[i])@
                    == display_name(self.inner, i),
            self.inner.stack@.len() == 0 ==> {
                &&& r.top_items@ == Seq::<Item>::empty()
                &&& r.total_items == 0
                &&& r.query@ == Seq::<char>::empty()
                &&& !r.is_filtering
                &&& r.selected_index == 0
                &&& r.selected_item is None
            },
            self.inner.stack@.len() > 0 ==> {
                let top = self.inner.stack@.last();
                let len = top.filtered_items@.len() as int;
                &&& r.top_items@ == top.filtered_items@.take(
                    if len > 100 {
                        100int
                    } else {
                        len
                    },
                )
                &&& r.total_items == len
                &&& r.query@ == top.query@
                &&& r.is_filtering == top.is_filtering
                &&& r.selected_index as int == clamp_sel(len, top.selected_idx as int)
                &&& (len == 0 ==> r.selected_item is None)
                &&& (len > 0 ==> r.selected_item == Some(
                    top.filtered_items@[clamp_sel(len, top.selected_idx as int)],
                ))
            },
    {
        let n = self.inner.stack.len();
        let mut names: Vec<String> = Vec::new();
        let mut i: usize = 0;
        while i < n
            invariant
                0 <= i <= n,
                n == self.inner.stack@.len(),
                names@.len() == i,
                forall|k: int|
                    0 <= k < i ==> (#[trigger] names@[k])@ == display_name(self.inner, k),
            decreases n - i,
        {
            let name = match lookup_spell(&self.inner.spells, self.inner.stack[i].spell_id.as_str())
                {
                Some(sp) => sp.name,
                None => self.inner.stack[i].spell_id.clone(),
            };
            names.push(name);
            i += 1;
        }
        if n == 0 {
            return StateSnapshot {
                status: self.inner.status,
                no_of_spells: self.inner.spells.len(),
                spell_names: names,
                top_items: Vec::new(),
                query: String::new(),
                is_filtering: false,
                selected_index: 0,
                selected_item: None,
                total_items: 0,
            };
        }
        let top = &self.inner.stack[n - 1];
        let len = top.filtered_items.len();
        let cap = if len > 100 {
            100
        } else {
            len
        };
        let mut top_items: Vec<Item> = Vec::new();
        let mut j: usize = 0;
        while j < cap
            invariant
                0 <= j <= cap,
                cap <= top.filtered_items@.len(),
                top == self.inner.stack@.last(),
                top_items@ == top.filtered_items@.subrange(0, j as int),
            decreases cap - j,
        {
            top_items.push(top.filtered_items[j].clone());
            proof {
                assert(top.filtered_items@.subrange(0, j + 1) =~= top.filtered_items@.subrange(
                    0,
                    j as int,
                ).push(top.filtered_items@[j as int]));
            }
            j += 1;
        }
        let clamped = if len == 0 {
            0
        } else if top.selected_idx < len {
            top.selected_idx
        } else {
            len - 1
        };
        let selected_item = if len == 0 {
            None
        } else {
            Some(top.filtered_items[clamped].clone())
        };
        StateSnapshot {
            status: self.inner.status,
            no_of_spells: self.inner.spells.len(),
            spell_names: names,
            top_items,
            query: top.query.clone(),
            is_filtering: top.is_filtering,
            selected_index: clamped,
            selected_item,
            total_items: len,
        }
    }
}

impl AppState {
    /// Decides what invoking a label on the current definition comes down
    /// to: scans its actions in declaration order, evaluating conditions
    /// against the stack, and hands back the first passing action's plan.
    /// Running that plan is the embedding program's part.
    pub fn plan_action(&self, label: &str) -> (r: Result<crate::actions::ActionPlan, String>)
        ensures
            current_spell(self.inner) is None ==> (r matches Err(e) && e@ == "no active spell"@),
            current_spell(self.inner) matches Some(sp) ==> crate::actions::plan_matches(
                sp.actions@,
                self.inner.stack@,
                label@,
                r,
            ),
    {
        match self.get_current_spell() {
            None => Err("no active spell".to_owned()),
            Some(sp) => crate::actions::resolve_action(&sp.actions, label, &self.inner.stack),
        }
    }

    /// Pushes a new frame for a resolved target definition and moves to
    /// `Loading`; an unknown id fails without touching the stack.
    pub fn push_spell_frame(&mut self, target_id: &str) -> (r: Result<(), String>)
        requires
            old(self).wf(),
            old(self).inner.next_frame_id < u64::MAX,
        ensures
            final(self).wf(),
            find_spell(old(self).inner.spells@, target_id@) is None ==> {
                &&& *final(self) == *old(self)
                &&& r matches Err(e) && e@ == "spell "@ + target_id@ + " not found"@
            },
            find_spell(old(self).inner.spells@, target_id@) is Some ==> {
                &&& r is Ok
                &&& final(self).inner.stack@.len() == old(self).inner.stack@.len() + 1
                &&& forall|i: int|
                    0 <= i < old(self).inner.stack@.len() ==> final(self).inner.stack@[i] == old(
                        self,
                    ).inner.stack@[i]
                &&& fresh_frame(
                    final(self).inner.stack@.last(),
                    old(self).inner.next_frame_id,
                    target_id@,
                )
                &&& final(self).inner.status == AppStatus::Loading
                &&& final(self).inner.spells == old(self).inner.spells
                &&& final(self).inner.next_frame_id == old(self).inner.next_frame_id + 1
            },
    {
        let known = lookup_spell(&self.inner.spells, target_id);
        if known.is_none() {
            let mut msg = "spell ".to_owned();
            msg.append(target_id);
            msg.append(" not found");
            return Err(msg);
        }
        let f = new_frame(&mut self.inner, target_id.to_owned());
        self.inner.stack.push(f);
        self.inner.status = AppStatus::Loading;
        Ok(())
    }
}

impl Default for AppState {
    fn default() -> (r: Self)
        ensures
            r.wf(),
            r.inner.status == AppStatus::NotStarted,
            r.inner.spells@ == Seq::<Spell>::empty(),
            r.inner.stack@ == Seq::<Frame>::empty(),
            r.inner.next_frame_id == 0,
    {
        AppState::new()
    }
}

/// The frame-level effect of `finish_loading_with_items`: the batch becomes
/// both the loaded and the filtered set, the selection clamped into it.
pub open spec fn installs_items(pre: Frame, post: Frame, items: Seq<Item>) -> bool {
    &&& post.id == pre.id
    &&& post.spell_id == pre.spell_id
    &&& post.query == pre.query
    &&& post.all_items@ == items
    &&& post.filtered_items@ == items
    &&& post.is_filtering == pre.is_filtering
    &&& post.selected_idx as int == clamp_sel(items.len() as int, pre.selected_idx as int)
}

/// The frame-level effect of `append_items_for_frame`: the batch lands at
/// the end of both the loaded and the filtered set.
pub open spec fn appends_items(pre: Frame, post: Frame, batch: Seq<Item>) -> bool {
    &&& post.id == pre.id
    &&& post.spell_id == pre.spell_id
    &&& post.query == pre.query
    &&& post.all_items@ == pre.all_items@ + batch
    &&& post.filtered_items@ == pre.filtered_items@ + batch
    &&& post.is_filtering == pre.is_filtering
    &&& post.selected_idx == pre.selected_idx
}

/// The frame-level effect of `set_selection_delta` on a frame.
pub open spec fn moves_selection(pre: Frame, post: Frame, delta: int) -> bool {
    &&& post.id == pre.id
    &&& post.spell_id == pre.spell_id
    &&& post.query == pre.query
    &&& post.all_items == pre.all_items
    &&& post.filtered_items == pre.filtered_items
    &&& post.is_filtering == pre.is_filtering
    &&& post.selected_idx as int == moved_sel(
        pre.filtered_items@.len() as int,
        pre.selected_idx as int,
        delta,
    )
}

/// Where the selection lands: the clamped current index moved by the delta,
/// saturated into `[0, len - 1]`; an empty list forces zero.
pub open spec fn moved_sel(len: int, sel: int, delta: int) -> int {
    if len == 0 {
        0
    } else {
        let cur = if sel < len {
            sel
        } else {
            len - 1
        };
        let t = cur + delta;
        if t < 0 {
            0
        } else if t > len - 1 {
            len - 1
        } else {
            t
        }
    }
}

} // verus!
