//! Workspace domain: the fixed eleven-slot workspace snapshot kept in sync
//! with the compositor's events, the widget state derived from it, and the
//! normalized workspace listing assembled from a raw compositor dump.

use vstd::prelude::*;
use crate::text::{dec_rep, u64_to_string};

verus! {

/// How many workspace slots the bar shows: one special slot (index 0) and
/// ten numbered ones.
pub const SLOT_COUNT: usize = 11;

/// One workspace slot of the bar.
#[derive(Debug, PartialEq, Eq)]
pub struct Workspace {
    pub id: i32,
    pub name: String,
    pub active: bool,
    pub visible: bool,
}

impl Clone for Workspace {
    /// A copy equal to the original in every field.
    fn clone(&self) -> (r: Self)
        ensures
            r == *self,
    {
        Workspace {
            id: self.id,
            name: self.name.clone(),
            active: self.active,
            visible: self.visible,
        }
    }
}

/// Negative (special) workspace identifiers collapse onto slot 0; others
/// name their own slot.
pub open spec fn spec_clamp_workspace_id(id: i32) -> int {
    if id < 0 {
        0
    } else {
        id as int
    }
}

/// Clamps a workspace identifier to a slot index: negative identifiers go
/// to slot 0.
pub fn clamp_workspace_id(id: i32) -> (r: usize)
    requires
        id < SLOT_COUNT as i32,
    ensures
        r as int == spec_clamp_workspace_id(id),
        r < SLOT_COUNT,
{
    if id < 0 {
        0
    } else {
        id as usize
    }
}

/// Snapshot of the workspace domain: the eleven slots and the index of the
/// active one.
#[derive(Debug)]
pub struct WorkspacesData {
    pub workspaces: Vec<Workspace>,
    pub active: usize,
}

impl Clone for WorkspacesData {
    /// A copy equal to the original in every field.
    fn clone(&self) -> (r: Self)
        ensures
            r.active == self.active,
            r.workspaces@ == self.workspaces@,
    {
        WorkspacesData { workspaces: clone_workspaces(&self.workspaces), active: self.active }
    }
}

/// Copies a workspace list element by element.
pub fn clone_workspaces(v: &Vec<Workspace>) -> (r: Vec<Workspace>)
    ensures
        r@ == v@,
{
    let mut r: Vec<Workspace> = Vec::new();
    let n = v.len();
    let mut i: usize = 0;
    while i < n
        invariant
            i <= n,
            n == v@.len(),
            r@ == v@.take(i as int),
        decreases n - i,
    {
        r.push(v[i].clone());
        proof {
            assert(r@ =~= v@.take(i + 1));
        }
        i = i + 1;
    }
    proof {
        assert(v@.take(n as int) =~= v@);
    }
    r
}

impl WorkspacesData {
    /// The slots are always the eleven fixed ones, in order, and the active
    /// index points at one of them.
    pub open spec fn wf(self) -> bool {
        &&& self.workspaces@.len() == SLOT_COUNT
        &&& self.active < SLOT_COUNT
        &&& forall|k: int| 0 <= k < SLOT_COUNT ==> (#[trigger] self.workspaces@[k]).id == k
    }

    /// The name each slot carries: "S" for the special slot, the slot
    /// number for the others.
    pub open spec fn spec_slot_name(k: int) -> Seq<char> {
        if k == 0 {
            "S"@
        } else {
            dec_rep(k as nat)
        }
    }

    /// Builds the snapshot from the initial compositor query: `active` is
    /// the active workspace's identifier and `visible_ids` the identifiers
    /// of the existing workspaces, negatives clamped to slot 0. A slot is
    /// visible exactly when some listed identifier lands on it; only slot
    /// `active` is marked active.
    pub fn init(active: usize, visible_ids: &Vec<i32>) -> (r: Self)
        requires
            active < SLOT_COUNT,
            forall|j: int|
                0 <= j < visible_ids@.len() ==> (#[trigger] visible_ids@[j]) < SLOT_COUNT as i32,
        ensures
            r.wf(),
            r.active == active,
            forall|k: int|
                0 <= k < SLOT_COUNT ==> (#[trigger] r.workspaces@[k]).name@ == Self::spec_slot_name(
                    k,
                ),
            forall|k: int|
                0 <= k < SLOT_COUNT ==> ((#[trigger] r.workspaces@[k]).visible <==> exists|j: int|
                    0 <= j < visible_ids@.len() && spec_clamp_workspace_id(
                        #[trigger] visible_ids@[j],
                    ) == k),
            forall|k: int|
                0 <= k < SLOT_COUNT ==> ((#[trigger] r.workspaces@[k]).active <==> k == active),
    {
        let mut workspaces: Vec<Workspace> = Vec::new();
        workspaces.push(
            Workspace { id: 0, name: String::from_str("S"), active: false, visible: false },
        );
        let mut i: usize = 1;
        while i < SLOT_COUNT
            invariant
                1 <= i <= SLOT_COUNT,
                workspaces@.len() == i,
                forall|k: int|
                    0 <= k < i ==> (#[trigger] workspaces@[k]) == (Workspace {
                        id: k as i32,
                        name: workspaces@[k].name,
                        active: false,
                        visible: false,
                    }),
                forall|k: int|
                    0 <= k < i ==> (#[trigger] workspaces@[k]).name@ == Self::spec_slot_name(k),
            decreases SLOT_COUNT - i,
        {
            workspaces.push(
                Workspace {
                    id: i as i32,
                    name: u64_to_string(i as u64),
                    active: false,
                    visible: false,
                },
            );
            i = i + 1;
        }
        let mut r = WorkspacesData { workspaces, active };
        let m = visible_ids.len();
        let mut j: usize = 0;
        while j < m
            invariant
                j <= m,
                m == visible_ids@.len(),
                forall|jj: int|
                    0 <= jj < visible_ids@.len() ==> (#[trigger] visible_ids@[jj])
                        < SLOT_COUNT as i32,
                r.active == active,
                r.workspaces@.len() == SLOT_COUNT,
                forall|k: int| 0 <= k < SLOT_COUNT ==> (#[trigger] r.workspaces@[k]).id == k,
                forall|k: int|
                    0 <= k < SLOT_COUNT ==> (#[trigger] r.workspaces@[k]).name@
                        == Self::spec_slot_name(k),
                forall|k: int| 0 <= k < SLOT_COUNT ==> !(#[trigger] r.workspaces@[k]).active,
                forall|k: int|
                    0 <= k < SLOT_COUNT ==> ((#[trigger] r.workspaces@[k]).visible <==> exists|
                        jj: int,
                    |
                        0 <= jj < j && spec_clamp_workspace_id(#[trigger] visible_ids@[jj]) == k),
            decreases m - j,
        {
            let slot = clamp_workspace_id(visible_ids[j]);
            let ghost before = r.workspaces@;
            r.workspaces[slot].visible = true;
            proof {
                assert(r.workspaces@[slot as int] == (Workspace {
                    visible: true,
                    ..before[slot as int]
                }));
                assert forall|k: int| 0 <= k < SLOT_COUNT implies ((
                #[trigger] r.workspaces@[k]).visible <==> exists|jj: int|
                    0 <= jj < j + 1 && spec_clamp_workspace_id(#[trigger] visible_ids@[jj])
                        == k) by {
                    if k == slot {
                        assert(spec_clamp_workspace_id(visible_ids@[j as int]) == k);
                    } else {
                        assert(r.workspaces@[k] == before[k]);
                    }
                };
            }
            j = j + 1;
        }
        let ghost before = r.workspaces@;
        r.workspaces[active].active = true;
        proof {
            assert(r.workspaces@[active as int] == (Workspace {
                active: true,
                ..before[active as int]
            }));
        }
        r
    }

    /// The compositor switched workspaces: the previously active slot is
    /// cleared, the new one becomes active and visible, and the active
    /// index follows.
    pub fn on_workspace_changed(&mut self, id: usize)
        requires
            old(self).wf(),
            id < SLOT_COUNT,
        ensures
            final(self).wf(),
            final(self).active == id,
            final(self).workspaces@.len() == old(self).workspaces@.len(),
            forall|k: int|
                0 <= k < SLOT_COUNT && k != id && k != old(self).active
                    ==> #[trigger] final(self).workspaces@[k] == old(self).workspaces@[k],
            id != old(self).active ==> final(self).workspaces@[old(self).active as int]
                == (Workspace { active: false, ..old(self).workspaces@[old(self).active as int] }),
            final(self).workspaces@[id as int] == (Workspace {
                active: true,
                visible: true,
                ..old(self).workspaces@[id as int]
            }),
    {
        let prev = self.active;
        self.workspaces[prev].active = false;
        self.workspaces[id].active = true;
        self.workspaces[id].visible = true;
        self.active = id;
    }

    /// The compositor reported a new workspace: its slot becomes visible,
    /// negative identifiers landing on slot 0.
    pub fn on_workspace_added(&mut self, id: i32)
        requires
            old(self).wf(),
            id < SLOT_COUNT as i32,
        ensures
            final(self).wf(),
            final(self).active == old(self).active,
            final(self).workspaces@.len() == old(self).workspaces@.len(),
            forall|k: int|
                0 <= k < SLOT_COUNT && k != spec_clamp_workspace_id(id)
                    ==> #[trigger] final(self).workspaces@[k] == old(self).workspaces@[k],
            final(self).workspaces@[spec_clamp_workspace_id(id)] == (Workspace {
                visible: true,
                ..old(self).workspaces@[spec_clamp_workspace_id(id)]
            }),
    {
        let slot = clamp_workspace_id(id);
        self.workspaces[slot].visible = true;
    }

    /// The compositor removed a workspace: its slot stops being visible,
    /// negative identifiers landing on slot 0.
    pub fn on_workspace_deleted(&mut self, id: i32)
        requires
            old(self).wf(),
            id < SLOT_COUNT as i32,
        ensures
            final(self).wf(),
            final(self).active == old(self).active,
            final(self).workspaces@.len() == old(self).workspaces@.len(),
            forall|k: int|
                0 <= k < SLOT_COUNT && k != spec_clamp_workspace_id(id)
                    ==> #[trigger] final(self).workspaces@[k] == old(self).workspaces@[k],
            final(self).workspaces@[spec_clamp_workspace_id(id)] == (Workspace {
                visible: false,
                ..old(self).workspaces@[spec_clamp_workspace_id(id)]
            }),
    {
        let slot = clamp_workspace_id(id);
        self.workspaces[slot].visible = false;
    }
}

/// What the bar draws for one workspace: a fixed-size rounded button whose
/// border is highlighted in pink while the workspace is active, and which
/// switches to the workspace when clicked.
#[derive(Clone, Debug, PartialEq, Eq)]
pub struct WorkspaceButton {
    pub label: String,
    pub size: u32,
    pub border: u32,
    pub rounded: u32,
    pub border_color: Option<u32>,
    pub switch_to: i32,
}

/// The border highlight of the active workspace button, as 0xRRGGBB.
pub const ACTIVE_BORDER_COLOR: u32 = 0xffc0cb;

/// Builds the button shown for one workspace slot.
pub fn workspace_button(w: Workspace) -> (b: WorkspaceButton)
    ensures
        b.label == w.name,
        b.size == 28,
        b.border == 2,
        b.rounded == 10,
        b.border_color == (if w.active {
            Some(ACTIVE_BORDER_COLOR)
        } else {
            None::<u32>
        }),
        b.switch_to == w.id,
{
    let border_color = if w.active {
        Some(ACTIVE_BORDER_COLOR)
    } else {
        None
    };
    WorkspaceButton {
        label: w.name,
        size: 28,
        border: 2,
        rounded: 10,
        border_color,
        switch_to: w.id,
    }
}

/// The characters after the last ':' of `s`; all of `s` when it has none.
/// Special workspace names arrive as "special:name" and only the part after
/// the colon is shown.
pub open spec fn suffix_after_last_colon(s: Seq<char>) -> Seq<char>
    decreases s.len(),
{
    if s.len() == 0 {
        s
    } else if s.last() == ':' {
        Seq::empty()
    } else {
        suffix_after_last_colon(s.drop_last()).push(s.last())
    }
}

proof fn lemma_suffix_no_colon(s: Seq<char>)
    requires
        forall|j: int| 0 <= j < s.len() ==> s[j] != ':',
    ensures
        suffix_after_last_colon(s) == s,
    decreases s.len(),
{
    if s.len() > 0 {
        lemma_suffix_no_colon(s.drop_last());
        assert(s.drop_last().push(s.last()) =~= s);
    }
}

proof fn lemma_suffix_from_colon(s: Seq<char>, i: int)
    requires
        0 <= i < s.len(),
        s[i] == ':',
        forall|j: int| i < j < s.len() ==> s[j] != ':',
    ensures
        suffix_after_last_colon(s) == s.subrange(i + 1, s.len() as int),
    decreases s.len(),
{
    if i == s.len() - 1 {
        assert(s.subrange(i + 1, s.len() as int) =~= Seq::<char>::empty());
    } else {
        assert(s.drop_last()[i] == ':');
        lemma_suffix_from_colon(s.drop_last(), i);
        assert(s.drop_last().subrange(i + 1, s.drop_last().len() as int).push(s.last()) =~= s
            .subrange(i + 1, s.len() as int));
    }
}

/// The part of a workspace name after its last ':'; the whole name when it
/// has none.
pub fn after_last_colon(s: &str) -> (r: String)
    ensures
        r@ == suffix_after_last_colon(s@),
{
    let n = s.unicode_len();
    let mut i: usize = n;
    while i > 0
        invariant
            i <= n,
            n == s@.len(),
            forall|j: int| i <= j < n ==> s@[j] != ':',
        decreases i,
    {
        let c = s.get_char(i - 1);
        if c == ':' {
            let r = String::from_str(s.substring_char(i, n));
            proof {
                lemma_suffix_from_colon(s@, i - 1);
            }
            return r;
        }
        i = i - 1;
    }
    proof {
        lemma_suffix_no_colon(s@);
        assert(s@.subrange(0, n as int) =~= s@);
    }
    String::from_str(s.substring_char(0, n))
}

/// Whether a listed identifier equals `id`.
fn contains_id_i32(v: &Vec<i32>, id: i32) -> (r: bool)
    ensures
        r == v@.contains(id),
{
    let n = v.len();
    let mut i: usize = 0;
    while i < n
        invariant
            i <= n,
            n == v@.len(),
            forall|j: int| 0 <= j < i ==> v@[j] != id,
        decreases n - i,
    {
        if v[i] == id {
            return true;
        }
        i = i + 1;
    }
    false
}

/// One workspace as the compositor dumps it.
#[derive(Debug, PartialEq, Eq)]
pub struct RawWorkspace {
    pub id: i32,
    pub name: String,
    pub monitor_id: usize,
    pub windows: u16,
}

impl Clone for RawWorkspace {
    /// A copy equal to the original in every field.
    fn clone(&self) -> (r: Self)
        ensures
            r == *self,
    {
        RawWorkspace {
            id: self.id,
            name: self.name.clone(),
            monitor_id: self.monitor_id,
            windows: self.windows,
        }
    }
}

/// One entry of the normalized workspace listing.
#[derive(Debug, PartialEq, Eq)]
pub struct WorkspaceEntry {
    pub id: i32,
    pub name: String,
    pub monitor_id: Option<usize>,
    pub active: bool,
    pub windows: u16,
}

impl Clone for WorkspaceEntry {
    /// A copy equal to the original in every field.
    fn clone(&self) -> (r: Self)
        ensures
            r == *self,
    {
        WorkspaceEntry {
            id: self.id,
            name: self.name.clone(),
            monitor_id: self.monitor_id,
            active: self.active,
            windows: self.windows,
        }
    }
}

/// How a dumped workspace appears in the listing: a special (negative)
/// workspace keeps its identifier, shows the name part after the last
/// colon, and is active when some monitor has it as its special workspace;
/// a numbered workspace keeps name and identifier and is active when it is
/// the compositor's active workspace.
pub open spec fn entry_matches_raw(
    e: WorkspaceEntry,
    w: RawWorkspace,
    active_id: Option<i32>,
    specials: Seq<i32>,
) -> bool {
    &&& e.id == w.id
    &&& e.windows == w.windows
    &&& e.monitor_id == Some(w.monitor_id)
    &&& (w.id < 0 ==> e.name@ == suffix_after_last_colon(w.name@) && e.active == specials.contains(
        w.id,
    ))
    &&& (w.id >= 0 ==> e.name@ == w.name@ && e.active == (active_id == Some(w.id)))
}

/// A listing entry standing in for a numbered workspace the compositor did
/// not report: it shows the bare number and is never active.
pub open spec fn entry_is_placeholder(e: WorkspaceEntry) -> bool {
    &&& e.id >= 1
    &&& e.name@ == dec_rep(e.id as nat)
    &&& e.monitor_id is None
    &&& !e.active
    &&& e.windows == 0
}

/// Some dumped workspace has this identifier.
pub open spec fn raw_has_id(s: Seq<RawWorkspace>, id: int) -> bool {
    exists|j: int| 0 <= j < s.len() && s[j].id == id
}

/// Some listing entry has this identifier.
pub open spec fn listing_has_id(s: Seq<WorkspaceEntry>, id: int) -> bool {
    exists|k: int| 0 <= k < s.len() && s[k].id == id
}

/// Some dumped workspace has an identifier at least this large.
pub open spec fn raw_id_at_least(s: Seq<RawWorkspace>, id: int) -> bool {
    exists|j: int| 0 <= j < s.len() && s[j].id >= id
}

/// The predicate selecting the slots the bar draws.
pub open spec fn visible_pred() -> spec_fn(Workspace) -> bool {
    |w: Workspace| w.visible
}

/// Workspace widget state: the last applied snapshot.
#[derive(Debug)]
pub struct Workspaces {
    pub workspaces: Vec<Workspace>,
    pub active: usize,
}

impl Workspaces {
    /// The state shown before the first snapshot arrives: no slots at all.
    pub fn new() -> (r: Self)
        ensures
            r.workspaces@.len() == 0,
            r.active == 0,
    {
        Workspaces { workspaces: Vec::new(), active: 0 }
    }

    /// Applies a snapshot wholesale. Pure state update: no side effect; the
    /// caller requests the redraw.
    pub fn update(&mut self, data: &WorkspacesData)
        ensures
            final(self).workspaces@ == data.workspaces@,
            final(self).active == data.active,
    {
        self.active = data.active;
        self.workspaces = clone_workspaces(&data.workspaces);
    }

    /// The slots the bar currently draws: the visible ones, in slot order.
    pub fn visible_workspaces(&self) -> (r: Vec<Workspace>)
        ensures
            r@ == self.workspaces@.filter(visible_pred()),
    {
        let mut r: Vec<Workspace> = Vec::new();
        let n = self.workspaces.len();
        let mut i: usize = 0;
        proof {
            reveal_with_fuel(Seq::filter, 2);
            assert(self.workspaces@.take(0).filter(visible_pred()) =~= Seq::empty());
        }
        while i < n
            invariant
                i <= n,
                n == self.workspaces@.len(),
                r@ == self.workspaces@.take(i as int).filter(visible_pred()),
            decreases n - i,
        {
            let ghost r0 = r@;
            proof {
                assert(self.workspaces@.take(i + 1).drop_last() =~= self.workspaces@.take(
                    i as int,
                ));
                assert(self.workspaces@.take(i + 1).last() == self.workspaces@[i as int]);
            }
            if self.workspaces[i].visible {
                r.push(self.workspaces[i].clone());
                proof {
                    reveal_with_fuel(Seq::filter, 2);
                    assert(visible_pred()(self.workspaces@[i as int]));
                    assert(r@ =~= self.workspaces@.take(i + 1).filter(visible_pred()));
                }
            } else {
                proof {
                    reveal_with_fuel(Seq::filter, 2);
                    assert(!visible_pred()(self.workspaces@[i as int]));
                    assert(r@ =~= self.workspaces@.take(i + 1).filter(visible_pred()));
                }
            }
            i = i + 1;
        }
        proof {
            assert(self.workspaces@.take(n as int) =~= self.workspaces@);
        }
        r
    }
}


/// Sorts a compositor dump by workspace identifier. Identifiers are unique,
/// so the order is strict.
fn sort_raw_by_id(input: Vec<RawWorkspace>) -> (out: Vec<RawWorkspace>)
    requires
        forall|p: int, q: int|
            0 <= p < q < input@.len() ==> (#[trigger] input@[p]).id != (#[trigger] input@[q]).id,
    ensures
        out@.len() == input@.len(),
        forall|p: int, q: int|
            0 <= p < q < out@.len() ==> (#[trigger] out@[p]).id < (#[trigger] out@[q]).id,
        forall|k: int| 0 <= k < out@.len() ==> input@.contains(#[trigger] out@[k]),
        forall|j: int| 0 <= j < input@.len() ==> out@.contains(#[trigger] input@[j]),
{
    let mut rest = input;
    let mut out: Vec<RawWorkspace> = Vec::new();
    // The position in `out` of each input element moved so far, newest last.
    let ghost mut moved: Seq<int> = Seq::empty();
    while rest.len() > 0
        invariant
            out@.len() + rest@.len() == input@.len(),
            forall|p: int, q: int|
                0 <= p < q < out@.len() ==> (#[trigger] out@[p]).id < (#[trigger] out@[q]).id,
            forall|p: int, q: int|
                0 <= p < out@.len() && 0 <= q < rest@.len() ==> (#[trigger] out@[p]).id < (
                #[trigger] rest@[q]).id,
            forall|p: int, q: int|
                0 <= p < q < rest@.len() ==> (#[trigger] rest@[p]).id != (#[trigger] rest@[q]).id,
            forall|k: int| 0 <= k < out@.len() ==> input@.contains(#[trigger] out@[k]),
            forall|q: int| 0 <= q < rest@.len() ==> input@.contains(#[trigger] rest@[q]),
            moved.len() + rest@.len() == input@.len(),
            forall|j: int|
                0 <= j < moved.len() ==> 0 <= #[trigger] moved[j] < out@.len(),
            forall|j: int|
                0 <= j < input@.len() ==> out@.contains(#[trigger] input@[j]) || rest@.contains(
                    input@[j],
                ),
        decreases rest@.len(),
    {
        let mut m: usize = 0;
        let mut i: usize = 1;
        while i < rest.len()
            invariant
                m < i <= rest@.len(),
                forall|j: int| 0 <= j < i ==> rest@[m as int].id <= (#[trigger] rest@[j]).id,
            decreases rest@.len() - i,
        {
            if rest[i].id < rest[m].id {
                m = i;
            }
            i = i + 1;
        }
        let ghost out0 = out@;
        let ghost rest0 = rest@;
        let x = rest.remove(m);
        out.push(x);
        proof {
            moved = moved.push(out0.len() as int);
            assert(x == rest0[m as int]);
            assert(rest0.contains(x));
            assert forall|q: int| 0 <= q < rest@.len() implies input@.contains(
                #[trigger] rest@[q],
            ) by {
                if q < m {
                    assert(rest@[q] == rest0[q]);
                } else {
                    assert(rest@[q] == rest0[q + 1]);
                }
            };
            assert forall|p: int, q: int| 0 <= p < q < rest@.len() implies (
            #[trigger] rest@[p]).id != (#[trigger] rest@[q]).id by {
                let p0: int = if p < m { p } else { p + 1 };
                let q0: int = if q < m { q } else { q + 1 };
                assert(rest@[p] == rest0[p0]);
                assert(rest@[q] == rest0[q0]);
            };
            assert forall|p: int, q: int|
                0 <= p < out@.len() && 0 <= q < rest@.len() implies (#[trigger] out@[p]).id < (
            #[trigger] rest@[q]).id by {
                let q0: int = if q < m { q } else { q + 1 };
                assert(rest@[q] == rest0[q0]);
                if p < out0.len() {
                    assert(out@[p] == out0[p]);
                } else {
                    assert(out@[p] == x);
                    if q0 != m {
                        assert(rest0[m as int].id <= rest0[q0].id);
                        assert(rest0[m as int].id != rest0[q0].id);
                    }
                }
            };
            assert forall|j: int|
                0 <= j < input@.len() implies out@.contains(#[trigger] input@[j])
                || rest@.contains(input@[j]) by {
                if rest0.contains(input@[j]) {
                    let q0 = choose|q0: int| 0 <= q0 < rest0.len() && rest0[q0] == input@[j];
                    if q0 == m {
                        assert(out@[out0.len() as int] == input@[j]);
                    } else if q0 < m {
                        assert(rest@[q0] == input@[j]);
                    } else {
                        assert(rest@[q0 - 1] == input@[j]);
                    }
                } else {
                    let k = choose|k: int| 0 <= k < out0.len() && out0[k] == input@[j];
                    assert(out@[k] == input@[j]);
                }
            };
        }
    }
    out
}

/// Builds the normalized workspace listing from a compositor dump:
/// workspaces sorted by identifier, the gaps between numbered workspaces
/// filled with placeholders so the numbered part runs 1, 2, 3, ... up to
/// the highest dumped identifier, and special (negative) workspaces first.
/// `active_id` is the active workspace, if any; `special_ids` lists the
/// special workspace each monitor currently shows.
pub fn normalize_workspaces(
    raw: Vec<RawWorkspace>,
    active_id: Option<i32>,
    special_ids: &Vec<i32>,
) -> (out: Vec<WorkspaceEntry>)
    requires
        forall|p: int, q: int|
            0 <= p < q < raw@.len() ==> (#[trigger] raw@[p]).id != (#[trigger] raw@[q]).id,
        forall|j: int| 0 <= j < raw@.len() ==> (#[trigger] raw@[j]).id != 0,
    ensures
        forall|p: int, q: int|
            0 <= p < q < out@.len() ==> (#[trigger] out@[p]).id < (#[trigger] out@[q]).id,
        forall|k: int, j: int|
            0 <= k < out@.len() && 0 <= j < raw@.len() && (#[trigger] out@[k]).id == (
            #[trigger] raw@[j]).id ==> entry_matches_raw(out@[k], raw@[j], active_id, special_ids@),
        forall|k: int|
            0 <= k < out@.len() && !raw_has_id(raw@, out@[k].id as int) ==> entry_is_placeholder(
                #[trigger] out@[k],
            ),
        forall|j: int| 0 <= j < raw@.len() ==> listing_has_id(out@, (#[trigger] raw@[j]).id as int),
        forall|k: int|
            #![trigger out@[k]]
            0 <= k < out@.len() - 1 && out@[k].id >= 1 ==> out@[k + 1].id == out@[k].id + 1,
        forall|k: int|
            #![trigger out@[k]]
            0 <= k < out@.len() && out@[k].id >= 1 && (forall|p: int|
                0 <= p < k ==> out@[p].id < 0) ==> out@[k].id == 1,
        forall|k: int|
            0 <= k < out@.len() && (#[trigger] out@[k]).id >= 1 ==> raw_id_at_least(
                raw@,
                out@[k].id as int,
            ),
{
    let ghost rawv = raw@;
    let sorted = sort_raw_by_id(raw);
    let mut out: Vec<WorkspaceEntry> = Vec::new();
    let mut current: u64 = 1;
    let mut idx: usize = 0;
    let ghost mut negs: int = 0;
    // The position in `out` of the entry made for each processed workspace.
    let ghost mut poss: Seq<int> = Seq::empty();
    while idx < sorted.len()
        invariant
            idx <= sorted@.len(),
            sorted@.len() == rawv.len(),
            forall|p: int, q: int|
                0 <= p < q < sorted@.len() ==> (#[trigger] sorted@[p]).id < (
                #[trigger] sorted@[q]).id,
            forall|k: int| 0 <= k < sorted@.len() ==> rawv.contains(#[trigger] sorted@[k]),
            forall|j: int| 0 <= j < rawv.len() ==> sorted@.contains(#[trigger] rawv[j]),
            forall|p: int, q: int|
                0 <= p < q < rawv.len() ==> (#[trigger] rawv[p]).id != (#[trigger] rawv[q]).id,
            forall|j: int| 0 <= j < rawv.len() ==> (#[trigger] rawv[j]).id != 0,
            1 <= current <= 0x8000_0000u64,
            0 <= negs <= idx,
            out@.len() == negs + current - 1,
            forall|k: int|
                0 <= k < negs ==> (#[trigger] out@[k]).id == sorted@[k].id && sorted@[k].id < 0
                    && entry_matches_raw(out@[k], sorted@[k], active_id, special_ids@),
            forall|k: int| negs <= k < out@.len() ==> (#[trigger] out@[k]).id == k - negs + 1,
            forall|k: int, j: int|
                0 <= k < out@.len() && 0 <= j < sorted@.len() && (#[trigger] out@[k]).id == (
                #[trigger] sorted@[j]).id ==> entry_matches_raw(
                    out@[k],
                    sorted@[j],
                    active_id,
                    special_ids@,
                ),
            forall|k: int|
                0 <= k < out@.len() && !raw_has_id(sorted@, out@[k].id as int) ==> entry_is_placeholder(
                    #[trigger] out@[k],
                ),
            forall|j: int| 0 <= j < negs ==> (#[trigger] sorted@[j]).id < 0,
            forall|j: int| negs <= j < idx ==> (#[trigger] sorted@[j]).id >= 1,
            forall|j: int| negs <= j < idx ==> (#[trigger] sorted@[j]).id < current as int,
            forall|j: int|
                idx <= j < sorted@.len() && (#[trigger] sorted@[j]).id >= 1 ==> current as int
                    <= sorted@[j].id,
            current > 1 ==> raw_has_id(sorted@, current as int - 1),
            poss.len() == idx,
            forall|j: int|
                0 <= j < idx ==> 0 <= #[trigger] poss[j] < out@.len() && out@[poss[j]].id
                    == sorted@[j].id,
        decreases sorted@.len() - idx,
    {
        let ghost out0 = out@;
        let w_id = sorted[idx].id;
        proof {
            assert(rawv.contains(sorted@[idx as int]));
            if w_id >= 0 {
                let j = choose|j: int| 0 <= j < rawv.len() && rawv[j] == sorted@[idx as int];
                assert(rawv[j].id != 0);
            }
        }
        if w_id < 0 {
            proof {
                if negs < idx {
                    assert(sorted@[negs].id >= 1);
                    assert(sorted@[negs].id < sorted@[idx as int].id);
                }
                assert(negs == idx);
                assert(out@.len() == negs);
                assert(current == 1);
            }
            let name = after_last_colon(sorted[idx].name.as_str());
            let act = contains_id_i32(special_ids, w_id);
            out.push(
                WorkspaceEntry {
                    id: w_id,
                    name,
                    monitor_id: Some(sorted[idx].monitor_id),
                    active: act,
                    windows: sorted[idx].windows,
                },
            );
            proof {
                poss = poss.push(out0.len() as int);
                negs = negs + 1;
                assert forall|k: int, j: int|
                    0 <= k < out@.len() && 0 <= j < sorted@.len() && (#[trigger] out@[k]).id == (
                #[trigger] sorted@[j]).id implies entry_matches_raw(
                    out@[k],
                    sorted@[j],
                    active_id,
                    special_ids@,
                ) by {
                    if k < out0.len() {
                        assert(out@[k] == out0[k]);
                    } else {
                        assert(out@[k] == out@[out0.len() as int]);
                        if j != idx {
                            assert(sorted@[j].id != sorted@[idx as int].id);
                        }
                    }
                };
                assert forall|k: int|
                    0 <= k < out@.len() && !raw_has_id(sorted@, out@[k].id as int)
                    implies entry_is_placeholder(#[trigger] out@[k]) by {
                    if k < out0.len() {
                        assert(out@[k] == out0[k]);
                    } else {
                        assert(out@[k].id == sorted@[idx as int].id);
                        assert(raw_has_id(sorted@, out@[k].id as int));
                    }
                };
            }
        } else {
            proof {
                assert(current as int <= sorted@[idx as int].id);
                assert(sorted@[idx as int].id < 0x8000_0000u64 as int);
            }
            let target = w_id as u64;
            while current < target
                invariant
                    1 <= current <= target,
                    target == sorted@[idx as int].id as int,
                    idx < sorted@.len(),
                    target < 0x8000_0000u64,
                    out@.len() == negs + current - 1,
                    0 <= negs <= idx,
                    poss.len() == idx,
                    forall|p: int, q: int|
                        0 <= p < q < sorted@.len() ==> (#[trigger] sorted@[p]).id < (
                        #[trigger] sorted@[q]).id,
                    forall|j: int| 0 <= j < negs ==> (#[trigger] sorted@[j]).id < 0,
                    forall|j: int| negs <= j < idx ==> (#[trigger] sorted@[j]).id >= 1,
                    forall|j: int|
                        negs <= j < idx ==> (#[trigger] sorted@[j]).id < current as int,
                    forall|k: int|
                        0 <= k < negs ==> (#[trigger] out@[k]).id == sorted@[k].id && sorted@[k].id
                            < 0 && entry_matches_raw(out@[k], sorted@[k], active_id, special_ids@),
                    forall|k: int|
                        negs <= k < out@.len() ==> (#[trigger] out@[k]).id == k - negs + 1,
                    forall|k: int, j: int|
                        0 <= k < out@.len() && 0 <= j < sorted@.len() && (#[trigger] out@[k]).id
                            == (#[trigger] sorted@[j]).id ==> entry_matches_raw(
                            out@[k],
                            sorted@[j],
                            active_id,
                            special_ids@,
                        ),
                    forall|k: int|
                        0 <= k < out@.len() && !raw_has_id(sorted@, out@[k].id as int)
                            ==> entry_is_placeholder(#[trigger] out@[k]),
                    forall|j: int|
                        idx <= j < sorted@.len() && (#[trigger] sorted@[j]).id >= 1
                            ==> current as int <= sorted@[j].id,
                    current > 1 ==> raw_has_id(sorted@, current as int - 1) || current as int
                        <= sorted@[idx as int].id,
                    forall|j: int|
                        0 <= j < idx ==> 0 <= #[trigger] poss[j] < out@.len() && out@[poss[j]].id
                            == sorted@[j].id,
                decreases target - current,
        {
                let ghost outp = out@;
                out.push(
                    WorkspaceEntry {
                        id: current as i32,
                        name: u64_to_string(current),
                        monitor_id: None,
                        active: false,
                        windows: 0,
                    },
                );
                proof {
                    assert forall|k: int, j: int|
                        0 <= k < out@.len() && 0 <= j < sorted@.len() && (#[trigger] out@[k]).id
                            == (#[trigger] sorted@[j]).id implies entry_matches_raw(
                        out@[k],
                        sorted@[j],
                        active_id,
                        special_ids@,
                    ) by {
                        if k < outp.len() {
                            assert(out@[k] == outp[k]);
                        } else {
                            assert(out@[k].id == current as int);
                            if j < negs {
                                assert(sorted@[j].id < 0);
                            } else if j < idx {
                                assert(sorted@[j].id < current as int);
                            } else if j == idx {
                                assert(sorted@[j].id == target as int);
                            } else {
                                assert(sorted@[idx as int].id < sorted@[j].id);
                            }
                        }
                    };
                    assert forall|k: int|
                        0 <= k < out@.len() && !raw_has_id(sorted@, out@[k].id as int)
                        implies entry_is_placeholder(#[trigger] out@[k]) by {
                        if k < outp.len() {
                            assert(out@[k] == outp[k]);
                        } else {
                            assert(out@[k] == (WorkspaceEntry {
                                id: current as i32,
                                name: out@[k].name,
                                monitor_id: None,
                                active: false,
                                windows: 0,
                            }));
                        }
                    };
                }
                current = current + 1;
            }
            proof {
                assert(current == target);
            }
            let act = match active_id {
                Option::Some(a) => a == w_id,
                Option::None => false,
            };
            let ghost out1 = out@;
            out.push(
                WorkspaceEntry {
                    id: w_id,
                    name: sorted[idx].name.clone(),
                    monitor_id: Some(sorted[idx].monitor_id),
                    active: act,
                    windows: sorted[idx].windows,
                },
            );
            current = current + 1;
            proof {
                poss = poss.push(out1.len() as int);
                assert(raw_has_id(sorted@, current as int - 1));
                assert forall|k: int, j: int|
                    0 <= k < out@.len() && 0 <= j < sorted@.len() && (#[trigger] out@[k]).id == (
                #[trigger] sorted@[j]).id implies entry_matches_raw(
                    out@[k],
                    sorted@[j],
                    active_id,
                    special_ids@,
                ) by {
                    if k < out1.len() {
                        assert(out@[k] == out1[k]);
                    } else {
                        assert(out@[k] == out@[out1.len() as int]);
                        if j != idx {
                            assert(sorted@[j].id != sorted@[idx as int].id);
                        }
                    }
                };
                assert forall|k: int|
                    0 <= k < out@.len() && !raw_has_id(sorted@, out@[k].id as int)
                    implies entry_is_placeholder(#[trigger] out@[k]) by {
                    if k < out1.len() {
                        assert(out@[k] == out1[k]);
                    } else {
                        assert(out@[k].id == sorted@[idx as int].id);
                        assert(raw_has_id(sorted@, out@[k].id as int));
                    }
                };
            }
        }
        idx = idx + 1;
    }
    proof {
        assert forall|p: int, q: int| 0 <= p < q < out@.len() implies (#[trigger] out@[p]).id < (
        #[trigger] out@[q]).id by {
            if q < negs {
                assert(sorted@[p].id < sorted@[q].id);
            } else if p < negs {
                assert(out@[p].id < 0);
                assert(out@[q].id == q - negs + 1);
            } else {
                assert(out@[p].id == p - negs + 1);
                assert(out@[q].id == q - negs + 1);
            }
        };
        assert forall|k: int, j: int|
            0 <= k < out@.len() && 0 <= j < rawv.len() && (#[trigger] out@[k]).id == (
        #[trigger] rawv[j]).id implies entry_matches_raw(out@[k], rawv[j], active_id, special_ids@)
            by {
            assert(sorted@.contains(rawv[j]));
            let j2 = choose|j2: int| 0 <= j2 < sorted@.len() && sorted@[j2] == rawv[j];
            assert(entry_matches_raw(out@[k], sorted@[j2], active_id, special_ids@));
        };
        assert forall|k: int|
            0 <= k < out@.len() && !raw_has_id(rawv, out@[k].id as int) implies entry_is_placeholder(
            #[trigger] out@[k],
        ) by {
            if raw_has_id(sorted@, out@[k].id as int) {
                let j2 = choose|j2: int|
                    0 <= j2 < sorted@.len() && sorted@[j2].id == out@[k].id as int;
                assert(rawv.contains(sorted@[j2]));
                let j = choose|j: int| 0 <= j < rawv.len() && rawv[j] == sorted@[j2];
                assert(rawv[j].id == out@[k].id);
            }
        };
        assert forall|j: int| 0 <= j < rawv.len() implies listing_has_id(
            out@,
            (#[trigger] rawv[j]).id as int,
        ) by {
            assert(sorted@.contains(rawv[j]));
            let j2 = choose|j2: int| 0 <= j2 < sorted@.len() && sorted@[j2] == rawv[j];
            assert(out@[poss[j2]].id == sorted@[j2].id);
        };
        assert forall|k: int|
            #![trigger out@[k]]
            0 <= k < out@.len() && out@[k].id >= 1 && (forall|p: int|
                0 <= p < k ==> out@[p].id < 0) implies out@[k].id == 1 by {
            assert(negs <= k);
            if k > negs {
                assert(out@[negs].id == 1);
                assert(out@[negs].id < 0);
            }
        };
        assert forall|k: int|
            0 <= k < out@.len() && (#[trigger] out@[k]).id >= 1 implies raw_id_at_least(
            rawv,
            out@[k].id as int,
        ) by {
            assert(k >= negs);
            assert(out@[k].id == k - negs + 1);
            assert(out@[k].id <= current - 1);
            assert(current > 1);
            assert(raw_has_id(sorted@, current as int - 1));
            let j2 = choose|j2: int|
                0 <= j2 < sorted@.len() && sorted@[j2].id == current as int - 1;
            assert(rawv.contains(sorted@[j2]));
            let j = choose|j: int| 0 <= j < rawv.len() && rawv[j] == sorted@[j2];
            assert(rawv[j].id >= out@[k].id);
        };
    }
    out
}

} // verus!
