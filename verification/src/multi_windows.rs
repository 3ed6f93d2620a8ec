//! The routing engine: it owns the window collection, interprets every
//! inbound message — including the messages its own handling derives — and
//! answers with the commands the host must perform.
//!
//! Message handling is a small state machine. One inbound message seeds a
//! stack of pending work; every unit of work is one [`step`] of the
//! specification-level machine, and [`Program::update`] runs the machine
//! until the stack drains (or a generous step budget is exhausted, which
//! guards against window code that derives messages forever). The
//! [`Execution`] model ties the executable engine to the machine: `update`
//! promises that its outcome is exactly a run of `step`.

use vstd::prelude::*;

use crate::collection::{
    has_id, has_tag, idx_of, lemma_idx_of_unique, lookup, remove_id_s, set_child_s, set_title_s,
    unique_ids, unique_tags, WindowCollection,
};
use crate::protocol::{
    DialogResult, EventMessage, IWindow, IconHandle, Message, ScaleCode, ThemeCode, TypeTag,
    Window, WindowData, WindowId, WindowSettings, WindowView,
};

verus! {

/// A command the engine asks the host to perform. Commands of one `update`
/// run may be performed in any order the host likes; `Exit` supersedes every
/// other pending command.
#[derive(Debug, Clone, Copy, PartialEq)]
pub enum HostCommand {
    /// Allocate and display a native window for the given settings, known to
    /// the engine under the given id from now on.
    OpenWindow(WindowId, WindowSettings),
    /// Destroy the native window behind the given id; fire-and-forget.
    CloseWindow(WindowId),
    /// Terminate the process; fire-and-forget, supersedes all else.
    Exit,
}

/// One pending unit of routing work.
pub enum WorkItem<B: IWindow> {
    /// Interpret one message.
    Handle(Message<B>),
    /// Tear down the window behind `id`: drop its record and terminate the
    /// program when the collection drained. Scheduled only by the handling
    /// of a `Closed` event, after the window's last-chance callback ran.
    Finish(WindowId),
}

/// The engine's persistent state at the specification level.
pub ghost struct EngineState<B: IWindow> {
    /// The live windows, in delivery order.
    pub windows: Seq<(WindowId, WindowView<B>)>,
    /// The theme shared by all windows.
    pub theme: ThemeCode,
    /// The scale factor shared by all windows.
    pub scale: ScaleCode,
    /// The root window's icon, inherited by windows opened without one.
    pub icon: Option<IconHandle>,
    /// The next window id to hand out; ids are never reused.
    pub next_id: u64,
    /// Every close-hook invocation so far: the closing window and the
    /// outcome the hook saw, in order. (History only; the engine never
    /// reads it back.)
    pub hook_runs: Seq<(WindowId, DialogResult)>,
}

/// One configuration of the routing machine: the engine state, the stack of
/// pending work (top at the back) and the commands gathered so far.
pub ghost struct Execution<B: IWindow> {
    /// The engine's persistent state.
    pub st: EngineState<B>,
    /// Pending work, processed back to front.
    pub work: Seq<WorkItem<B>>,
    /// Host commands gathered so far, in the order they were decided.
    pub cmds: Seq<HostCommand>,
}

/// The machine configuration one inbound message starts from.
pub open spec fn start_execution<B: IWindow>(st: EngineState<B>, m: Message<B>) -> Execution<B> {
    Execution { st, work: seq![WorkItem::Handle(m)], cmds: Seq::empty() }
}

/// Schedules the messages `msgs` so that they are handled first and in
/// order: they are pushed onto the stack back to front.
pub open spec fn queue_all<B: IWindow>(
    work: Seq<WorkItem<B>>,
    msgs: Seq<Message<B>>,
) -> Seq<WorkItem<B>> {
    work + msgs.reverse().map_values(|m: Message<B>| WorkItem::Handle(m))
}

/// Delivers a broadcast payload to the windows of `s` from position `i` on,
/// in entry order: the result is the windows after every delivery together
/// with the derived messages that were not `Nothing`, in entry order.
pub open spec fn broadcast_fold<B: IWindow>(
    s: Seq<(WindowId, WindowView<B>)>,
    payload: B::Payload,
    i: int,
) -> (Seq<(WindowId, WindowView<B>)>, Seq<Message<B>>)
    decreases s.len() - i,
{
    if 0 <= i < s.len() {
        let r = s[i].1.data.spec_update(s[i].0, payload);
        let s2 = s.update(i, (s[i].0, WindowView { data: r.0, ..s[i].1 }));
        let rec = broadcast_fold(s2, payload, i + 1);
        (rec.0, if r.1 is Nothing {
            rec.1
        } else {
            seq![r.1] + rec.1
        })
    } else {
        (s, Seq::empty())
    }
}

/// One step on a host-reported window event.
pub open spec fn step_event<B: IWindow>(
    st: EngineState<B>,
    work: Seq<WorkItem<B>>,
    cmds: Seq<HostCommand>,
    ev: EventMessage,
) -> Execution<B> {
    match ev {
        EventMessage::Close(id, dialog_result) => {
            let cmds2 = cmds.push(HostCommand::CloseWindow(id));
            let closed = WorkItem::Handle(
                Message::EventMessage(EventMessage::Closed(id, dialog_result)),
            );
            if has_id(st.windows, id) {
                let w = lookup(st.windows, id);
                if w.parent_id is Some && has_id(st.windows, w.parent_id->0)
                    && w.window_closed_callback is Some {
                    let p = w.parent_id->0;
                    let m1 = B::spec_hook(
                        w.window_closed_callback->0,
                        p,
                        dialog_result,
                        lookup(st.windows, p).data,
                    );
                    Execution {
                        st: EngineState {
                            hook_runs: st.hook_runs.push((id, dialog_result)),
                            ..st
                        },
                        work: work.push(closed).push(WorkItem::Handle(m1)),
                        cmds: cmds2,
                    }
                } else {
                    Execution { st, work: work.push(closed), cmds: cmds2 }
                }
            } else {
                Execution { st, work: work.push(closed), cmds: cmds2 }
            }
        },
        EventMessage::Closed(id, dialog_result) => {
            if has_id(st.windows, id) {
                let w0 = lookup(st.windows, id);
                let windows1 = if w0.parent_id is Some {
                    set_child_s(st.windows, w0.parent_id->0, Option::<WindowId>::None)
                } else {
                    st.windows
                };
                let m1 = lookup(windows1, id).data.spec_on_window_closed(id, dialog_result);
                Execution {
                    st: EngineState { windows: windows1, ..st },
                    work: work.push(WorkItem::Finish(id)).push(WorkItem::Handle(m1)),
                    cmds,
                }
            } else if st.windows.len() == 0 {
                Execution { st, work, cmds: cmds.push(HostCommand::Exit) }
            } else {
                Execution { st, work, cmds }
            }
        },
        EventMessage::Opened { id, position, size } => {
            if has_id(st.windows, id) {
                let m = lookup(st.windows, id).data.spec_on_opened(id, position, size);
                Execution { st, work: work.push(WorkItem::Handle(m)), cmds }
            } else {
                Execution { st, work, cmds }
            }
        },
        EventMessage::Moved { id, x, y } => {
            if has_id(st.windows, id) {
                let m = lookup(st.windows, id).data.spec_on_moved(id, x, y);
                Execution { st, work: work.push(WorkItem::Handle(m)), cmds }
            } else {
                Execution { st, work, cmds }
            }
        },
        EventMessage::Resized { id, width, height } => {
            if has_id(st.windows, id) {
                let m = lookup(st.windows, id).data.spec_on_resized(id, width, height);
                Execution { st, work: work.push(WorkItem::Handle(m)), cmds }
            } else {
                Execution { st, work, cmds }
            }
        },
        EventMessage::CloseRequest(id) => {
            if has_id(st.windows, id) {
                let m = lookup(st.windows, id).data.spec_on_close_request(id);
                Execution { st, work: work.push(WorkItem::Handle(m)), cmds }
            } else {
                Execution { st, work, cmds }
            }
        },
        EventMessage::Focused(id) => {
            if has_id(st.windows, id) {
                let m = lookup(st.windows, id).data.spec_on_focus(id);
                Execution { st, work: work.push(WorkItem::Handle(m)), cmds }
            } else {
                Execution { st, work, cmds }
            }
        },
        EventMessage::Unfocused(id) => {
            if has_id(st.windows, id) {
                let m = lookup(st.windows, id).data.spec_on_unfocus(id);
                Execution { st, work: work.push(WorkItem::Handle(m)), cmds }
            } else {
                Execution { st, work, cmds }
            }
        },
    }
}

/// One step on an open request: dropped while a window of the same kind tag
/// is live (or when the id space drained); otherwise the new window is
/// materialized, inherits the root icon when it has none of its own, is
/// linked to its parent, and an open command is issued under a fresh id.
pub open spec fn step_open<B: IWindow>(
    st: EngineState<B>,
    work: Seq<WorkItem<B>>,
    cmds: Seq<HostCommand>,
    wd: WindowData<B>,
) -> Execution<B> {
    if has_tag(st.windows, wd.data_type_id) || st.next_id == u64::MAX {
        Execution { st, work, cmds }
    } else {
        let w0 = wd.data.spec_new_window();
        let w1 = WindowView {
            settings: WindowSettings {
                icon: if w0.settings.icon is None {
                    st.icon
                } else {
                    w0.settings.icon
                },
                ..w0.settings
            },
            parent_id: wd.parent_id,
            child_id: Option::<WindowId>::None,
            data_type_id: wd.data_type_id,
            window_closed_callback: wd.callback,
            ..w0
        };
        let id = WindowId(st.next_id);
        let windows1 = st.windows.push((id, w1));
        let windows2 = if wd.parent_id is Some {
            set_child_s(windows1, wd.parent_id->0, Some(id))
        } else {
            windows1
        };
        Execution {
            st: EngineState {
                windows: windows2,
                next_id: (st.next_id + 1) as u64,
                ..st
            },
            work,
            cmds: cmds.push(HostCommand::OpenWindow(id, w1.settings)),
        }
    }
}

/// One step on one message.
pub open spec fn step_handle<B: IWindow>(
    st: EngineState<B>,
    work: Seq<WorkItem<B>>,
    cmds: Seq<HostCommand>,
    m: Message<B>,
) -> Execution<B> {
    match m {
        Message::Nothing => Execution { st, work, cmds },
        Message::Theme(t) => Execution { st: EngineState { theme: t, ..st }, work, cmds },
        Message::Scale(sc) => Execution { st: EngineState { scale: sc, ..st }, work, cmds },
        Message::TitleChanged(id, title) => Execution {
            st: EngineState { windows: set_title_s(st.windows, id, title@), ..st },
            work,
            cmds,
        },
        Message::EventMessage(ev) => step_event(st, work, cmds, ev),
        Message::WindowMessage(wm) => {
            let r = broadcast_fold(st.windows, wm.msg, 0);
            Execution {
                st: EngineState { windows: r.0, ..st },
                work: queue_all(work, r.1),
                cmds,
            }
        },
        Message::NewWindow(wd) => step_open(st, work, cmds, wd),
        Message::MultMessage(msgs) => Execution { st, work: queue_all(work, msgs@), cmds },
        Message::Exit => Execution { st, work, cmds: cmds.push(HostCommand::Exit) },
    }
}

/// One step on the teardown of window `id`: the record leaves the
/// collection, and the program terminates when the collection drained.
pub open spec fn step_finish<B: IWindow>(
    st: EngineState<B>,
    work: Seq<WorkItem<B>>,
    cmds: Seq<HostCommand>,
    id: WindowId,
) -> Execution<B> {
    let windows1 = remove_id_s(st.windows, id);
    Execution {
        st: EngineState { windows: windows1, ..st },
        work,
        cmds: if windows1.len() == 0 {
            cmds.push(HostCommand::Exit)
        } else {
            cmds
        },
    }
}

/// One step of the routing machine: the top unit of work is popped and
/// interpreted. A drained configuration is a fixpoint.
pub open spec fn step<B: IWindow>(e: Execution<B>) -> Execution<B> {
    if e.work.len() == 0 {
        e
    } else {
        let rest = e.work.drop_last();
        match e.work.last() {
            WorkItem::Handle(m) => step_handle(e.st, rest, e.cmds, m),
            WorkItem::Finish(id) => step_finish(e.st, rest, e.cmds, id),
        }
    }
}

/// `n` steps of the routing machine.
pub open spec fn run_steps<B: IWindow>(e: Execution<B>, n: nat) -> Execution<B>
    decreases n,
{
    if n == 0 {
        e
    } else {
        step(run_steps(e, (n - 1) as nat))
    }
}

/// Running splits into consecutive runs.
pub proof fn lemma_run_steps_add<B: IWindow>(e: Execution<B>, m: nat, n: nat)
    ensures
        run_steps(e, m + n) == run_steps(run_steps(e, m), n),
    decreases n,
{
    if n > 0 {
        lemma_run_steps_add(e, m, (n - 1) as nat);
        assert(m + n - 1 == m + (n - 1) as nat);
    }
}

/// A drained configuration stays as it is.
pub proof fn lemma_done_absorbs<B: IWindow>(e: Execution<B>, n: nat)
    requires
        e.work.len() == 0,
    ensures
        run_steps(e, n) == e,
    decreases n,
{
    if n > 0 {
        lemma_done_absorbs(e, (n - 1) as nat);
    }
}

/// Whatever step counts drain the machine, they drain it into the same
/// configuration: the outcome of an update is well defined.
pub proof fn lemma_run_done_unique<B: IWindow>(e: Execution<B>, m: nat, n: nat)
    requires
        run_steps(e, m).work.len() == 0,
        run_steps(e, n).work.len() == 0,
    ensures
        run_steps(e, m) == run_steps(e, n),
{
    if m <= n {
        lemma_run_steps_add(e, m, (n - m) as nat);
        lemma_done_absorbs(run_steps(e, m), (n - m) as nat);
    } else {
        lemma_run_steps_add(e, n, (m - n) as nat);
        lemma_done_absorbs(run_steps(e, n), (m - n) as nat);
    }
}

/// No live window holds `id` as its modal child.
pub open spec fn no_child_refs<B: IWindow>(s: Seq<(WindowId, WindowView<B>)>, id: WindowId) -> bool {
    forall|j: int| 0 <= j < s.len() ==> (#[trigger] s[j]).1.child_id != Some(id)
}

/// Well-formedness of the window collection: ids and kind tags are pairwise
/// distinct, every id is below the allocation bound, and every modal-child
/// reference points at a live window whose parent reference points back.
pub open spec fn windows_inv<B: IWindow>(s: Seq<(WindowId, WindowView<B>)>, next_id: u64) -> bool {
    &&& unique_ids(s)
    &&& unique_tags(s)
    &&& forall|j: int| 0 <= j < s.len() ==> (#[trigger] s[j]).0.0 < next_id
    &&& forall|j: int|
        0 <= j < s.len() && (#[trigger] s[j]).1.child_id is Some ==> has_id(
            s,
            s[j].1.child_id->0,
        ) && lookup(s, s[j].1.child_id->0).parent_id == Some(s[j].0)
}

/// Well-formedness of the engine state.
pub open spec fn state_inv<B: IWindow>(st: EngineState<B>) -> bool {
    windows_inv(st.windows, st.next_id)
}

/// Side condition of a pending teardown: the id is already allocated, and no
/// live window still holds it as its modal child (the `Closed` handling that
/// scheduled the teardown cleared that link first).
pub open spec fn finish_ok<B: IWindow>(st: EngineState<B>, it: WorkItem<B>) -> bool {
    it matches WorkItem::Finish(id) ==> id.0 < st.next_id && no_child_refs(st.windows, id)
}

/// Well-formedness of a whole machine configuration.
pub open spec fn exec_inv<B: IWindow>(e: Execution<B>) -> bool {
    &&& state_inv(e.st)
    &&& forall|k: int| 0 <= k < e.work.len() ==> finish_ok(e.st, #[trigger] e.work[k])
}

/// Entry-wise rewrites that keep ids, kind tags and both link fields keep
/// the collection well formed, every stale-id fact and every absent
/// child-reference fact.
pub proof fn lemma_same_links_inv<B: IWindow>(
    s: Seq<(WindowId, WindowView<B>)>,
    s2: Seq<(WindowId, WindowView<B>)>,
    next_id: u64,
)
    requires
        s2.len() == s.len(),
        forall|j: int|
            0 <= j < s.len() ==> (#[trigger] s2[j]).0 == s[j].0 && s2[j].1.parent_id
                == s[j].1.parent_id && s2[j].1.child_id == s[j].1.child_id && s2[j].1.data_type_id
                == s[j].1.data_type_id,
        windows_inv(s, next_id),
    ensures
        windows_inv(s2, next_id),
        forall|id: WindowId| has_id(s2, id) == has_id(s, id),
        forall|id: WindowId| no_child_refs(s, id) ==> no_child_refs(s2, id),
{
    assert forall|id: WindowId| has_id(s2, id) == has_id(s, id) by {
        if has_id(s2, id) {
            let j = choose|j: int| 0 <= j < s2.len() && s2[j].0 == id;
            assert(s[j].0 == id);
        }
        if has_id(s, id) {
            let j = choose|j: int| 0 <= j < s.len() && s[j].0 == id;
            assert(s2[j].0 == id);
        }
    }
    assert forall|j: int|
        0 <= j < s2.len() && (#[trigger] s2[j]).1.child_id is Some implies has_id(
        s2,
        s2[j].1.child_id->0,
    ) && lookup(s2, s2[j].1.child_id->0).parent_id == Some(s2[j].0) by {
        let c = s2[j].1.child_id->0;
        assert(s[j].1.child_id == s2[j].1.child_id);
        assert(has_id(s, c));
        let k = idx_of(s, c);
        assert(0 <= k < s.len() && s[k].0 == c);
        assert(s2[k].0 == c);
        lemma_idx_of_unique(s2, c, k);
        assert(lookup(s2, c).parent_id == s2[k].1.parent_id);
        assert(lookup(s, c).parent_id == s[k].1.parent_id);
    }
}

/// Replacing one title keeps every well-formedness fact.
pub proof fn lemma_set_title_inv<B: IWindow>(
    s: Seq<(WindowId, WindowView<B>)>,
    next_id: u64,
    id: WindowId,
    title: Seq<char>,
)
    requires
        windows_inv(s, next_id),
    ensures
        windows_inv(set_title_s(s, id, title), next_id),
        forall|fid: WindowId| no_child_refs(s, fid) ==> no_child_refs(
            set_title_s(s, id, title),
            fid,
        ),
{
    if has_id(s, id) {
        lemma_same_links_inv(s, set_title_s(s, id, title), next_id);
    }
}

/// The shape of a broadcast delivery: every window keeps its id,
/// configuration and links; only the application state of the windows from
/// position `i` on is replaced by what its own delivery yields.
pub proof fn lemma_fold_windows<B: IWindow>(
    s: Seq<(WindowId, WindowView<B>)>,
    payload: B::Payload,
    i: int,
)
    requires
        0 <= i,
    ensures
        broadcast_fold(s, payload, i).0.len() == s.len(),
        forall|j: int| 0 <= j < i && j < s.len() ==> broadcast_fold(s, payload, i).0[j] == s[j],
        forall|j: int|
            i <= j < s.len() ==> broadcast_fold(s, payload, i).0[j] == (
            s[j].0,
            WindowView {
                data: (#[trigger] s[j]).1.data.spec_update(s[j].0, payload).0,
                ..s[j].1
            },
        ),
    decreases s.len() - i,
{
    if 0 <= i < s.len() {
        let r = s[i].1.data.spec_update(s[i].0, payload);
        let s2 = s.update(i, (s[i].0, WindowView { data: r.0, ..s[i].1 }));
        let rec = broadcast_fold(s2, payload, i + 1);
        assert(broadcast_fold(s, payload, i).0 == rec.0);
        lemma_fold_windows(s2, payload, i + 1);
        assert forall|j: int| 0 <= j < i && j < s.len() implies #[trigger] rec.0[j] == s[j] by {
            assert(rec.0[j] == s2[j]);
            assert(s2[j] == s[j]);
        }
        assert forall|j: int|
            i <= j < s.len() implies #[trigger] rec.0[j] == (
            s[j].0,
            WindowView { data: s[j].1.data.spec_update(s[j].0, payload).0, ..s[j].1 },
        ) by {
            if j == i {
                assert(rec.0[j] == s2[i]);
                assert(s2[i] == (s[i].0, WindowView { data: r.0, ..s[i].1 }));
            } else {
                assert(rec.0[j] == (
                    s2[j].0,
                    WindowView { data: s2[j].1.data.spec_update(s2[j].0, payload).0, ..s2[j].1 },
                ));
                assert(s2[j] == s[j]);
            }
        }
    }
}

/// A broadcast keeps every well-formedness fact of the collection.
proof fn lemma_fold_inv<B: IWindow>(
    s: Seq<(WindowId, WindowView<B>)>,
    next_id: u64,
    payload: B::Payload,
)
    requires
        windows_inv(s, next_id),
    ensures
        windows_inv(broadcast_fold(s, payload, 0).0, next_id),
        forall|fid: WindowId| no_child_refs(s, fid) ==> no_child_refs(
            broadcast_fold(s, payload, 0).0,
            fid,
        ),
{
    lemma_fold_windows(s, payload, 0);
    lemma_same_links_inv(s, broadcast_fold(s, payload, 0).0, next_id);
}

/// Clearing the modal-child reference of the window that pointed at `id`
/// leaves the collection well formed and no window pointing at `id`.
pub proof fn lemma_closed_clears_links<B: IWindow>(
    s: Seq<(WindowId, WindowView<B>)>,
    next_id: u64,
    id: WindowId,
)
    requires
        windows_inv(s, next_id),
        has_id(s, id),
    ensures
        ({
            let w0 = lookup(s, id);
            let s1 = if w0.parent_id is Some {
                set_child_s(s, w0.parent_id->0, Option::<WindowId>::None)
            } else {
                s
            };
            windows_inv(s1, next_id) && no_child_refs(s1, id) && (forall|fid: WindowId|
                no_child_refs(s, fid) ==> no_child_refs(s1, fid))
        }),
{
    let w0 = lookup(s, id);
    let i0 = idx_of(s, id);
    if w0.parent_id is Some {
        let p = w0.parent_id->0;
        let s1 = set_child_s(s, p, Option::<WindowId>::None);
        if has_id(s, p) {
            let jp = idx_of(s, p);
            // Well-formedness: ids, tags, parents untouched; the one changed
            // child reference is cleared, which no clause constrains.
            assert forall|j: int|
                0 <= j < s1.len() && (#[trigger] s1[j]).1.child_id is Some implies has_id(
                s1,
                s1[j].1.child_id->0,
            ) && lookup(s1, s1[j].1.child_id->0).parent_id == Some(s1[j].0) by {
                assert(j != jp);
                assert(s1[j] == s[j]);
                let c = s[j].1.child_id->0;
                let k = idx_of(s, c);
                assert(0 <= k < s.len() && s[k].0 == c);
                assert(s1[k].0 == c);
                lemma_idx_of_unique(s1, c, k);
                assert(s1[k].1.parent_id == s[k].1.parent_id);
            }
            // No window still points at `id`: only its unique parent could,
            // and that reference was just cleared.
            assert forall|j: int| 0 <= j < s1.len() implies (#[trigger] s1[j]).1.child_id != Some(
                id,
            ) by {
                if j != jp && s[j].1.child_id == Some(id) {
                    assert(lookup(s, id).parent_id == Some(s[j].0));
                    lemma_idx_of_unique(s, p, j);
                }
            }
        } else {
            assert(s1 == s);
            assert forall|j: int| 0 <= j < s.len() implies (#[trigger] s[j]).1.child_id != Some(
                id,
            ) by {
                if s[j].1.child_id == Some(id) {
                    assert(lookup(s, id).parent_id == Some(s[j].0));
                    assert(has_id(s, p));
                }
            }
        }
    } else {
        assert forall|j: int| 0 <= j < s.len() implies (#[trigger] s[j]).1.child_id != Some(
            id,
        ) by {
            if s[j].1.child_id == Some(id) {
                assert(lookup(s, id).parent_id == Some(s[j].0));
            }
        }
    }
}

/// Removing a window nothing points at keeps the collection well formed and
/// keeps every absent child-reference fact.
pub proof fn lemma_finish_inv<B: IWindow>(s: Seq<(WindowId, WindowView<B>)>, next_id: u64, id: WindowId)
    requires
        windows_inv(s, next_id),
        no_child_refs(s, id),
    ensures
        windows_inv(remove_id_s(s, id), next_id),
        no_child_refs(remove_id_s(s, id), id),
        forall|fid: WindowId| no_child_refs(s, fid) ==> no_child_refs(remove_id_s(s, id), fid),
{
    if has_id(s, id) {
        let i0 = idx_of(s, id);
        let s1 = s.remove(i0);
        assert(s1 == remove_id_s(s, id));
        // Every remaining entry is an entry of `s` other than position i0.
        assert forall|j: int| 0 <= j < s1.len() implies #[trigger] s1[j] == s[if j < i0 {
            j
        } else {
            j + 1
        }] by {}
        assert forall|j: int|
            0 <= j < s1.len() && (#[trigger] s1[j]).1.child_id is Some implies has_id(
            s1,
            s1[j].1.child_id->0,
        ) && lookup(s1, s1[j].1.child_id->0).parent_id == Some(s1[j].0) by {
            let jo = if j < i0 {
                j
            } else {
                j + 1
            };
            let c = s1[j].1.child_id->0;
            assert(s[jo].1.child_id == Some(c));
            assert(c != id);
            let k = idx_of(s, c);
            assert(0 <= k < s.len() && s[k].0 == c);
            assert(k != i0);
            let k1 = if k < i0 {
                k
            } else {
                k - 1
            };
            assert(s1[k1] == s[k]);
            lemma_idx_of_unique(s1, c, k1);
        }
    }
}

/// An accepted open request keeps the collection well formed under the
/// advanced allocation bound, and introduces child references only to the
/// fresh id.
pub proof fn lemma_open_inv<B: IWindow>(
    st: EngineState<B>,
    wd: WindowData<B>,
)
    requires
        state_inv(st),
        !has_tag(st.windows, wd.data_type_id),
        st.next_id < u64::MAX,
    ensures
        ({
            let e2 = step_open(st, Seq::empty(), Seq::empty(), wd);
            windows_inv(e2.st.windows, e2.st.next_id) && (forall|fid: WindowId|
                fid.0 < st.next_id && no_child_refs(st.windows, fid) ==> no_child_refs(
                    e2.st.windows,
                    fid,
                ))
        }),
{
    let s = st.windows;
    let w0 = wd.data.spec_new_window();
    let w1 = WindowView {
        settings: WindowSettings {
            icon: if w0.settings.icon is None {
                st.icon
            } else {
                w0.settings.icon
            },
            ..w0.settings
        },
        parent_id: wd.parent_id,
        child_id: Option::<WindowId>::None,
        data_type_id: wd.data_type_id,
        window_closed_callback: wd.callback,
        ..w0
    };
    let id = WindowId(st.next_id);
    let s1 = s.push((id, w1));
    assert(!has_id(s, id));
    assert(unique_ids(s1));
    assert(unique_tags(s1));
    assert forall|j: int|
        0 <= j < s1.len() && (#[trigger] s1[j]).1.child_id is Some implies has_id(
        s1,
        s1[j].1.child_id->0,
    ) && lookup(s1, s1[j].1.child_id->0).parent_id == Some(s1[j].0) by {
        if j < s.len() {
            assert(s1[j] == s[j]);
            let c = s[j].1.child_id->0;
            let k = idx_of(s, c);
            assert(0 <= k < s.len() && s[k].0 == c);
            assert(s1[k] == s[k]);
            lemma_idx_of_unique(s1, c, k);
        }
    }
    if wd.parent_id is Some {
        let p = wd.parent_id->0;
        let s2 = set_child_s(s1, p, Some(id));
        if has_id(s1, p) {
            let jp = idx_of(s1, p);
            assert(s2 == s1.update(jp, (s1[jp].0, WindowView { child_id: Some(id), ..s1[jp].1 })));
            assert(unique_ids(s2));
            assert(unique_tags(s2));
            assert forall|j: int|
                0 <= j < s2.len() && (#[trigger] s2[j]).1.child_id is Some implies has_id(
                s2,
                s2[j].1.child_id->0,
            ) && lookup(s2, s2[j].1.child_id->0).parent_id == Some(s2[j].0) by {
                let c = s2[j].1.child_id->0;
                if j == jp {
                    assert(c == id);
                    assert(s2[s.len() as int].0 == id || jp == s.len());
                    if jp == s.len() {
                        assert(s2[jp].0 == id);
                        lemma_idx_of_unique(s2, id, jp);
                        assert(lookup(s2, id).parent_id == wd.parent_id);
                    } else {
                        assert(s2[s.len() as int] == s1[s.len() as int]);
                        lemma_idx_of_unique(s2, id, s.len() as int);
                        assert(lookup(s2, id).parent_id == wd.parent_id);
                        assert(s1[jp].0 == p);
                    }
                } else {
                    assert(s2[j] == s1[j]);
                    assert(s1[j].1.child_id is Some);
                    let k = idx_of(s1, c);
                    assert(0 <= k < s1.len() && s1[k].0 == c);
                    lemma_idx_of_unique(s2, c, k);
                    assert(s2[k].1.parent_id == s1[k].1.parent_id);
                }
            }
            assert forall|fid: WindowId|
                fid.0 < st.next_id && no_child_refs(s, fid) implies no_child_refs(s2, fid) by {
                assert(fid != id);
                assert forall|j: int| 0 <= j < s2.len() implies (#[trigger] s2[j]).1.child_id
                    != Some(fid) by {
                    if j == jp {
                    } else if j < s.len() {
                        assert(s2[j] == s[j]);
                    }
                }
            }
        } else {
            assert(s2 == s1);
            assert forall|fid: WindowId|
                fid.0 < st.next_id && no_child_refs(s, fid) implies no_child_refs(s1, fid) by {
                assert(fid != id);
                assert forall|j: int| 0 <= j < s1.len() implies (#[trigger] s1[j]).1.child_id
                    != Some(fid) by {
                    if j < s.len() {
                        assert(s1[j] == s[j]);
                    }
                }
            }
        }
    } else {
        assert forall|fid: WindowId|
            fid.0 < st.next_id && no_child_refs(s, fid) implies no_child_refs(s1, fid) by {
            assert(fid != id);
            assert forall|j: int| 0 <= j < s1.len() implies (#[trigger] s1[j]).1.child_id != Some(
                fid,
            ) by {
                if j < s.len() {
                    assert(s1[j] == s[j]);
                }
            }
        }
    }
}

/// One step keeps the whole machine configuration well formed, and never
/// lowers the allocation bound.
pub proof fn lemma_step_preserves_exec_inv<B: IWindow>(e: Execution<B>)
    requires
        exec_inv(e),
    ensures
        exec_inv(step(e)),
        e.st.next_id <= step(e).st.next_id,
{
    if e.work.len() == 0 {
        return ;
    }
    let rest = e.work.drop_last();
    assert(forall|k: int| 0 <= k < rest.len() ==> rest[k] == e.work[k]);
    match e.work.last() {
        WorkItem::Handle(m) => {
            match m {
                Message::Nothing => {},
                Message::Theme(_t) => {},
                Message::Scale(_sc) => {},
                Message::TitleChanged(id, title) => {
                    lemma_set_title_inv(e.st.windows, e.st.next_id, id, title@);
                },
                Message::EventMessage(ev) => {
                    lemma_step_event_inv(e, ev);
                },
                Message::WindowMessage(wm) => {
                    lemma_fold_inv(e.st.windows, e.st.next_id, wm.msg);
                },
                Message::NewWindow(wd) => {
                    if !(has_tag(e.st.windows, wd.data_type_id) || e.st.next_id == u64::MAX) {
                        lemma_open_inv(e.st, wd);
                        let e1 = step_open(e.st, Seq::empty(), Seq::empty(), wd);
                        let e2 = step_open(e.st, rest, e.cmds, wd);
                        assert(e2.st == e1.st);
                    }
                },
                Message::MultMessage(_msgs) => {},
                Message::Exit => {},
            }
        },
        WorkItem::Finish(id) => {
            assert(finish_ok(e.st, e.work[e.work.len() - 1]));
            lemma_finish_inv(e.st.windows, e.st.next_id, id);
        },
    }
}

/// The derived messages a broadcast of `payload` gathers from the windows
/// of `s` from position `i` on, described window by window: each window's
/// answer depends on its own state alone.
pub open spec fn collect_msgs<B: IWindow>(
    s: Seq<(WindowId, WindowView<B>)>,
    payload: B::Payload,
    i: int,
) -> Seq<Message<B>>
    decreases s.len() - i,
{
    if 0 <= i < s.len() {
        let m = s[i].1.data.spec_update(s[i].0, payload).1;
        (if m is Nothing {
            Seq::<Message<B>>::empty()
        } else {
            seq![m]
        }) + collect_msgs(s, payload, i + 1)
    } else {
        Seq::empty()
    }
}

/// `collect_msgs` reads only the entries from position `i` on.
pub proof fn lemma_collect_congruent<B: IWindow>(
    s: Seq<(WindowId, WindowView<B>)>,
    s2: Seq<(WindowId, WindowView<B>)>,
    payload: B::Payload,
    i: int,
)
    requires
        s2.len() == s.len(),
        forall|j: int| i <= j < s.len() ==> s2[j] == s[j],
    ensures
        collect_msgs(s2, payload, i) == collect_msgs(s, payload, i),
    decreases s.len() - i,
{
    if 0 <= i < s.len() {
        lemma_collect_congruent(s, s2, payload, i + 1);
    }
}

/// The messages a broadcast delivery gathers are exactly `collect_msgs`.
pub proof fn lemma_fold_msgs<B: IWindow>(s: Seq<(WindowId, WindowView<B>)>, payload: B::Payload, i: int)
    requires
        0 <= i,
    ensures
        broadcast_fold(s, payload, i).1 == collect_msgs(s, payload, i),
    decreases s.len() - i,
{
    if 0 <= i < s.len() {
        let r = s[i].1.data.spec_update(s[i].0, payload);
        let s2 = s.update(i, (s[i].0, WindowView { data: r.0, ..s[i].1 }));
        lemma_fold_msgs(s2, payload, i + 1);
        lemma_collect_congruent(s, s2, payload, i + 1);
        if r.1 is Nothing {
            assert(collect_msgs(s, payload, i) =~= collect_msgs(s, payload, i + 1));
        }
    }
}

/// Pushes the messages of `msgs` onto the work stack back to front, so that
/// they will be handled in list order.
fn queue_messages<B: IWindow>(work: &mut Vec<WorkItem<B>>, msgs: Vec<Message<B>>)
    ensures
        final(work)@ == queue_all(old(work)@, msgs@),
{
    let ghost w_base = work@;
    let ghost g_all = msgs@;
    let mut msgs = msgs;
    proof {
        assert(g_all.skip(g_all.len() as int) =~= Seq::<Message<B>>::empty());
        assert(work@ =~= w_base + g_all.skip(g_all.len() as int).reverse().map_values(
            |m: Message<B>| WorkItem::Handle(m),
        ));
    }
    while msgs.len() > 0
        invariant
            msgs@.len() <= g_all.len(),
            msgs@ == g_all.take(msgs@.len() as int),
            work@ == w_base + g_all.skip(msgs@.len() as int).reverse().map_values(
                |m: Message<B>| WorkItem::Handle(m),
            ),
        decreases msgs.len(),
    {
        let ghost k = msgs@.len() as int;
        let ghost msgs_pre = msgs@;
        let m = msgs.pop().unwrap();
        work.push(WorkItem::Handle(m));
        proof {
            let f = |mm: Message<B>| WorkItem::<B>::Handle(mm);
            assert(1 <= k <= g_all.len());
            assert(m == msgs_pre[k - 1]);
            assert(msgs_pre[k - 1] == g_all.take(k)[k - 1]);
            assert(g_all.take(k)[k - 1] == g_all[k - 1]);
            assert(m == g_all[k - 1]);
            assert(msgs@ =~= g_all.take(k - 1));
            assert(g_all.skip(k - 1) =~= seq![g_all[k - 1]] + g_all.skip(k));
            assert(g_all.skip(k - 1).reverse() =~= g_all.skip(k).reverse().push(g_all[k - 1]));
            assert(g_all.skip(k - 1).reverse().map_values(f) =~= g_all.skip(
                k,
            ).reverse().map_values(f).push(f(g_all[k - 1])));
            assert(work@ =~= w_base + g_all.skip(k - 1).reverse().map_values(f));
        }
    }
    proof {
        assert(g_all.skip(0) =~= g_all);
        assert(work@ =~= queue_all(w_base, g_all));
    }
}

/// The event arms of [`lemma_step_preserves_exec_inv`].
proof fn lemma_step_event_inv<B: IWindow>(e: Execution<B>, ev: EventMessage)
    requires
        exec_inv(e),
        e.work.len() > 0,
        e.work.last() == WorkItem::Handle(Message::<B>::EventMessage(ev)),
    ensures
        exec_inv(step(e)),
        e.st.next_id <= step(e).st.next_id,
{
    let rest = e.work.drop_last();
    assert(forall|k: int| 0 <= k < rest.len() ==> rest[k] == e.work[k]);
    match ev {
        EventMessage::Close(_id, _dialog_result) => {},
        EventMessage::Closed(id, _dialog_result) => {
            if has_id(e.st.windows, id) {
                lemma_closed_clears_links(e.st.windows, e.st.next_id, id);
                assert(id.0 < e.st.next_id) by {
                    let j = idx_of(e.st.windows, id);
                    assert(e.st.windows[j].0.0 < e.st.next_id);
                }
            }
        },
        EventMessage::Opened { .. } => {},
        EventMessage::Moved { .. } => {},
        EventMessage::Resized { .. } => {},
        EventMessage::CloseRequest(_id) => {},
        EventMessage::Focused(_id) => {},
        EventMessage::Unfocused(_id) => {},
    }
}

/// What [`Program::update`] promises, resolved: if some step count `m`
/// within the budget drains the machine, then every step count the
/// promise may have picked reaches that same configuration.
pub proof fn lemma_run_decided<B: IWindow>(e: Execution<B>, m: nat, n: nat)
    requires
        run_steps(e, m).work.len() == 0,
        m <= STEP_BUDGET,
        run_steps(e, n).work.len() == 0 || n == STEP_BUDGET,
    ensures
        run_steps(e, n) == run_steps(e, m),
{
    if run_steps(e, n).work.len() == 0 {
        lemma_run_done_unique(e, m, n);
    } else {
        lemma_run_steps_add(e, m, (n - m) as nat);
        lemma_done_absorbs(run_steps(e, m), (n - m) as nat);
    }
}

/// How many machine steps one `update` call is willing to take before it
/// stops interpreting derived messages. Window code that keeps deriving new
/// messages forever would otherwise keep the engine from returning to the
/// host; every well-behaved interaction drains in a handful of steps.
pub const STEP_BUDGET: u64 = 1000000;

/// The routing engine: the owner of the window collection and the shared
/// display state, driven by one inbound message at a time.
pub struct Program<B: IWindow> {
    windows: WindowCollection<B>,
    theme: ThemeCode,
    scale: ScaleCode,
    icon: Option<IconHandle>,
    next_id: u64,
    hook_runs: Ghost<Seq<(WindowId, DialogResult)>>,
}

impl<B: IWindow> View for Program<B> {
    type V = EngineState<B>;

    closed spec fn view(&self) -> EngineState<B> {
        EngineState {
            windows: self.windows@,
            theme: self.theme,
            scale: self.scale,
            icon: self.icon,
            next_id: self.next_id,
            hook_runs: self.hook_runs@,
        }
    }
}

impl<B: IWindow> Program<B> {
    /// The engine's well-formedness: established by [`Program::new`] and
    /// kept by [`Program::update`].
    pub open spec fn inv(&self) -> bool {
        state_inv(self@)
    }

    /// Opens the main window: the engine starts with exactly that window
    /// live — under the first id, with no modal child — and with an open
    /// command for it already issued. Theme and scale carry the host's
    /// default encoding until a message changes them; the main window's icon
    /// becomes the icon that later windows without one inherit.
    pub fn new(data: B) -> (r: (Program<B>, Vec<HostCommand>))
        ensures
            r.0.inv(),
            r.0@ == (EngineState {
                windows: seq![
                    (
                        WindowId(0),
                        WindowView {
                            child_id: Option::<WindowId>::None,
                            ..data.spec_new_window()
                        },
                    ),
                ],
                theme: ThemeCode(0),
                scale: ScaleCode(0),
                icon: data.spec_new_window().settings.icon,
                next_id: 1,
                hook_runs: Seq::<(WindowId, DialogResult)>::empty(),
            }),
            r.1@ == seq![
                HostCommand::OpenWindow(WindowId(0), data.spec_new_window().settings),
            ],
    {
        let mut w1 = data.new_window();
        w1.child_id = None;
        let settings = w1.settings;
        let icon = w1.settings.icon;
        let mut windows = WindowCollection::new();
        windows.push_entry(WindowId(0), w1);
        let mut cmds: Vec<HostCommand> = Vec::new();
        cmds.push(HostCommand::OpenWindow(WindowId(0), settings));
        let p = Program {
            windows,
            theme: ThemeCode(0),
            scale: ScaleCode(0),
            icon,
            next_id: 1,
            hook_runs: Ghost(Seq::empty()),
        };
        proof {
            assert(p@.windows =~= seq![
                (
                    WindowId(0),
                    WindowView { child_id: Option::<WindowId>::None, ..data.spec_new_window() },
                ),
            ]);
            assert(cmds@ =~= seq![
                HostCommand::OpenWindow(WindowId(0), data.spec_new_window().settings),
            ]);
        }
        (p, cmds)
    }

    /// The title of the window behind `id`, or the empty string for a stale
    /// id.
    pub fn title(&self, window: WindowId) -> (r: String)
        requires
            self.inv(),
        ensures
            has_id(self@.windows, window) ==> r@ == lookup(self@.windows, window).title,
            !has_id(self@.windows, window) ==> r@ == Seq::<char>::empty(),
    {
        match self.windows.get(window) {
            Some(w) => w.title.clone(),
            None => String::new(),
        }
    }

    /// A read-only snapshot of the window record behind `id`, handed to the
    /// display collaborator; nothing for a stale id.
    pub fn get_window(&self, window: WindowId) -> (r: Option<&Window<B>>)
        requires
            self.inv(),
        ensures
            (match r {
                Some(w) => has_id(self@.windows, window) && w@ == lookup(self@.windows, window),
                None => !has_id(self@.windows, window),
            }),
    {
        self.windows.get(window)
    }

    /// How many windows are live.
    pub fn window_count(&self) -> (r: usize)
        ensures
            r == self@.windows.len(),
    {
        self.windows.len()
    }

    /// The theme shared by all windows; the host asks per window, the
    /// answer is the same for every one.
    pub fn theme(&self, _window: WindowId) -> (r: ThemeCode)
        ensures
            r == self@.theme,
    {
        self.theme
    }

    /// The scale factor shared by all windows; the host asks per window,
    /// the answer is the same for every one.
    pub fn scale_factor(&self, _window: WindowId) -> (r: ScaleCode)
        ensures
            r == self@.scale,
    {
        self.scale
    }

    /// Interprets one inbound message, mutating the engine and answering
    /// the commands the host must perform.
    ///
    /// The outcome is exactly a run of the specification machine seeded
    /// with the message: there is a step count under the budget whose run
    /// drains the work stack (or exhausts the budget) and yields precisely
    /// the new engine state and the answered commands.
    pub fn update(&mut self, message: Message<B>) -> (cmds: Vec<HostCommand>)
        requires
            old(self).inv(),
        ensures
            final(self).inv(),
            exists|n: nat|
                n <= STEP_BUDGET && {
                    let e = #[trigger] run_steps(start_execution(old(self)@, message), n);
                    final(self)@ == e.st && cmds@ == e.cmds && (e.work.len() == 0 || n
                        == STEP_BUDGET)
                },
    {
        let ghost e0 = start_execution(old(self)@, message);
        let mut work: Vec<WorkItem<B>> = Vec::new();
        let mut cmds: Vec<HostCommand> = Vec::new();
        work.push(WorkItem::Handle(message));
        let ghost mut n: nat = 0;
        let mut fuel: u64 = STEP_BUDGET;
        proof {
            assert(e0.work =~= work@);
            assert(e0.cmds =~= cmds@);
            assert(run_steps(e0, 0) == e0);
        }
        while work.len() > 0 && fuel > 0
            invariant
                fuel <= STEP_BUDGET,
                n + fuel == STEP_BUDGET,
                run_steps(e0, n) == (Execution { st: self@, work: work@, cmds: cmds@ }),
                exec_inv(Execution { st: self@, work: work@, cmds: cmds@ }),
            decreases fuel,
        {
            let ghost e_pre = Execution { st: self@, work: work@, cmds: cmds@ };
            proof {
                lemma_step_preserves_exec_inv(e_pre);
            }
            fuel = fuel - 1;
            let item = work.pop().unwrap();
            proof {
                assert(work@ == e_pre.work.drop_last());
                assert(item == e_pre.work.last());
            }
            match item {
                WorkItem::Handle(m) => {
                    self.handle_message(m, &mut work, &mut cmds, Ghost(e_pre));
                },
                WorkItem::Finish(id) => {
                    self.windows.remove_entry(id);
                    if self.windows.len() == 0 {
                        cmds.push(HostCommand::Exit);
                    }
                    proof {
                        assert((Execution { st: self@, work: work@, cmds: cmds@ }) == step(
                            e_pre,
                        ));
                    }
                },
            }
            proof {
                n = n + 1;
                assert(run_steps(e0, n) == step(run_steps(e0, (n - 1) as nat)));
            }
        }
        proof {
            let e = run_steps(e0, n);
            assert(e.work.len() == 0 || n == STEP_BUDGET);
            assert(n <= STEP_BUDGET && {
                let e = run_steps(start_execution(old(self)@, message), n);
                self@ == e.st && cmds@ == e.cmds && (e.work.len() == 0 || n == STEP_BUDGET)
            });
        }
        cmds
    }

    /// One [`step_handle`] of the machine, applied to the engine in place:
    /// `e_pre` is the configuration whose top the popped message was.
    fn handle_message(
        &mut self,
        m: Message<B>,
        work: &mut Vec<WorkItem<B>>,
        cmds: &mut Vec<HostCommand>,
        Ghost(e_pre): Ghost<Execution<B>>,
    )
        requires
            exec_inv(e_pre),
            e_pre.work.len() > 0,
            e_pre.work.last() == WorkItem::Handle(m),
            old(self)@ == e_pre.st,
            old(work)@ == e_pre.work.drop_last(),
            old(cmds)@ == e_pre.cmds,
        ensures
            (Execution { st: final(self)@, work: final(work)@, cmds: final(cmds)@ }) == step(
                e_pre,
            ),
    {
        match m {
            Message::Nothing => {},
            Message::Theme(t) => {
                self.theme = t;
            },
            Message::Scale(sc) => {
                self.scale = sc;
            },
            Message::TitleChanged(id, title) => {
                self.windows.set_title(id, title);
            },
            Message::EventMessage(ev) => {
                self.handle_event(ev, work, cmds, Ghost(e_pre));
            },
            Message::WindowMessage(wm) => {
                self.handle_broadcast(wm.msg, work, Ghost(e_pre));
            },
            Message::NewWindow(wd) => {
                self.handle_open(wd, cmds, Ghost(e_pre));
            },
            Message::MultMessage(msgs) => {
                queue_messages(work, msgs);
            },
            Message::Exit => {
                cmds.push(HostCommand::Exit);
            },
        }
    }

    /// The broadcast arm: delivers the payload to every window in entry
    /// order, then schedules the gathered derived messages.
    fn handle_broadcast(
        &mut self,
        payload: B::Payload,
        work: &mut Vec<WorkItem<B>>,
        Ghost(e_pre): Ghost<Execution<B>>,
    )
        requires
            old(self)@ == e_pre.st,
        ensures
            final(self)@ == (EngineState {
                windows: broadcast_fold(e_pre.st.windows, payload, 0).0,
                ..e_pre.st
            }),
            final(work)@ == queue_all(old(work)@, broadcast_fold(e_pre.st.windows, payload, 0).1),
    {
        let ghost s0 = self@.windows;
        let mut gathered: Vec<Message<B>> = Vec::new();
        let mut i: usize = 0;
        proof {
            lemma_fold_windows(s0, payload, 0);
            lemma_fold_msgs(s0, payload, 0);
        }
        while i < self.windows.len()
            invariant
                i <= self.windows@.len(),
                self.windows@.len() == s0.len(),
                self.theme == e_pre.st.theme,
                self.scale == e_pre.st.scale,
                self.icon == e_pre.st.icon,
                self.next_id == e_pre.st.next_id,
                self.hook_runs@ == e_pre.st.hook_runs,
                s0 == e_pre.st.windows,
                forall|j: int| 0 <= j < i ==> #[trigger] self.windows@[j] == broadcast_fold(
                    s0,
                    payload,
                    0,
                ).0[j],
                forall|j: int| i <= j < s0.len() ==> #[trigger] self.windows@[j] == s0[j],
                collect_msgs(s0, payload, 0) == gathered@ + collect_msgs(s0, payload, i as int),
            decreases self.windows@.len() - i,
        {
            let ghost gathered_pre = gathered@;
            let ghost w_pre = self.windows@;
            let (id, mut win) = self.windows.take_at(i);
            let ghost win0 = win@;
            let m = win.data.update(id, &payload);
            self.windows.put_at(i, (id, win));
            proof {
                assert(self.windows@ =~= w_pre.update(i as int, (id, win@)));
                assert(w_pre[i as int] == s0[i as int]);
                assert(id == s0[i as int].0 && win0 == s0[i as int].1);
                assert(win@ == WindowView { data: win.data, ..win0 });
                assert(win.data == s0[i as int].1.data.spec_update(s0[i as int].0, payload).0);
                lemma_fold_windows(s0, payload, 0);
                assert(broadcast_fold(s0, payload, 0).0[i as int] == (id, win@));
            }
            match m {
                Message::Nothing => {},
                mm => {
                    gathered.push(mm);
                },
            }
            proof {
                let g = collect_msgs(s0, payload, i as int);
                let g1 = collect_msgs(s0, payload, i + 1 as int);
                let sm = s0[i as int].1.data.spec_update(s0[i as int].0, payload).1;
                if sm is Nothing {
                    assert(g =~= g1);
                    assert(gathered@ =~= gathered_pre);
                } else {
                    assert(g =~= seq![sm] + g1);
                    assert(gathered@ =~= gathered_pre.push(sm));
                }
                assert(collect_msgs(s0, payload, 0) =~= gathered@ + g1);
                assert(self.windows@ =~= self.windows@.update(i as int, (id, win@)));
            }
            i = i + 1;
        }
        proof {
            lemma_fold_windows(s0, payload, 0);
            lemma_fold_msgs(s0, payload, 0);
            assert(self.windows@ =~= broadcast_fold(s0, payload, 0).0);
            assert(collect_msgs(s0, payload, s0.len() as int) =~= Seq::<Message<B>>::empty());
            assert(gathered@ =~= collect_msgs(s0, payload, 0));
        }
        queue_messages(work, gathered);
    }

    /// The open-request arm: the singleton-per-tag rule, icon inheritance,
    /// fresh-id allocation and the parent's modal-child link.
    fn handle_open(
        &mut self,
        wd: WindowData<B>,
        cmds: &mut Vec<HostCommand>,
        Ghost(e_pre): Ghost<Execution<B>>,
    )
        requires
            state_inv(e_pre.st),
            old(self)@ == e_pre.st,
        ensures
            ({
                let e2 = step_open(e_pre.st, Seq::<WorkItem<B>>::empty(), old(cmds)@, wd);
                final(self)@ == e2.st && final(cmds)@ == e2.cmds
            }),
    {
        let WindowData { parent_id, data, data_type_id, callback } = wd;
        if !self.windows.contains_tag(data_type_id) && self.next_id < u64::MAX {
            let mut w1 = data.new_window();
            if w1.settings.icon.is_none() {
                w1.settings.icon = self.icon;
            }
            w1.parent_id = parent_id;
            w1.child_id = None;
            w1.data_type_id = data_type_id;
            w1.window_closed_callback = callback;
            let id = WindowId(self.next_id);
            self.next_id = self.next_id + 1;
            let settings = w1.settings;
            self.windows.push_entry(id, w1);
            if let Some(p) = parent_id {
                self.windows.set_child(p, Some(id));
            }
            cmds.push(HostCommand::OpenWindow(id, settings));
        }
    }

    /// The host-event arms: look the window up, run its own reaction, and
    /// schedule what it derived; `Close` and `Closed` drive the teardown
    /// sequence.
    fn handle_event(
        &mut self,
        ev: EventMessage,
        work: &mut Vec<WorkItem<B>>,
        cmds: &mut Vec<HostCommand>,
        Ghost(e_pre): Ghost<Execution<B>>,
    )
        requires
            exec_inv(e_pre),
            old(self)@ == e_pre.st,
        ensures
            ({
                let e2 = step_event(e_pre.st, old(work)@, old(cmds)@, ev);
                final(self)@ == e2.st && final(work)@ == e2.work && final(cmds)@ == e2.cmds
            }),
    {
        match ev {
            EventMessage::Close(id, dialog_result) => {
                cmds.push(HostCommand::CloseWindow(id));
                let mut hook_msg: Option<Message<B>> = None;
                if let Some(w) = self.windows.get(id) {
                    if let Some(p) = w.parent_id {
                        if let Some(pw) = self.windows.get(p) {
                            if let Some(h) = &w.window_closed_callback {
                                let m1 = B::run_hook(h, p, dialog_result, &pw.data);
                                hook_msg = Some(m1);
                            }
                        }
                    }
                }
                if hook_msg.is_some() {
                    self.hook_runs = Ghost(self.hook_runs@.push((id, dialog_result)));
                }
                work.push(
                    WorkItem::Handle(
                        Message::EventMessage(EventMessage::Closed(id, dialog_result)),
                    ),
                );
                if let Some(m1) = hook_msg {
                    work.push(WorkItem::Handle(m1));
                }
            },
            EventMessage::Closed(id, dialog_result) => {
                let mut parent_opt: Option<WindowId> = None;
                let mut found = false;
                if let Some(w) = self.windows.get(id) {
                    parent_opt = w.parent_id;
                    found = true;
                }
                if let Some(p) = parent_opt {
                    self.windows.set_child(p, None);
                    proof {
                        let s = e_pre.st.windows;
                        let s1 = set_child_s(s, p, Option::<WindowId>::None);
                        assert(s1.len() == s.len());
                        assert forall|j: int| 0 <= j < s.len() implies (#[trigger] s1[j]).0
                            == s[j].0 by {
                            if has_id(s, p) && j == idx_of(s, p) {
                            } else {
                                assert(s1[j] == s[j]);
                            }
                        }
                        let k = idx_of(s, id);
                        assert(s1[k].0 == id);
                        lemma_idx_of_unique(s1, id, k);
                    }
                }
                if found {
                    let m1 = match self.windows.get(id) {
                        Some(w) => w.data.on_window_closed(id, dialog_result),
                        None => Message::Nothing,
                    };
                    work.push(WorkItem::Finish(id));
                    work.push(WorkItem::Handle(m1));
                } else {
                    if self.windows.len() == 0 {
                        cmds.push(HostCommand::Exit);
                    }
                }
            },
            EventMessage::Opened { id, position, size } => {
                if let Some(w) = self.windows.get(id) {
                    let m = w.data.on_opened(id, position, size);
                    work.push(WorkItem::Handle(m));
                }
            },
            EventMessage::Moved { id, x, y } => {
                if let Some(w) = self.windows.get(id) {
                    let m = w.data.on_moved(id, x, y);
                    work.push(WorkItem::Handle(m));
                }
            },
            EventMessage::Resized { id, width, height } => {
                if let Some(w) = self.windows.get(id) {
                    let m = w.data.on_resized(id, width, height);
                    work.push(WorkItem::Handle(m));
                }
            },
            EventMessage::CloseRequest(id) => {
                if let Some(w) = self.windows.get(id) {
                    let m = w.data.on_close_request(id);
                    work.push(WorkItem::Handle(m));
                }
            },
            EventMessage::Focused(id) => {
                if let Some(w) = self.windows.get(id) {
                    let m = w.data.on_focus(id);
                    work.push(WorkItem::Handle(m));
                }
            },
            EventMessage::Unfocused(id) => {
                if let Some(w) = self.windows.get(id) {
                    let m = w.data.on_unfocus(id);
                    work.push(WorkItem::Handle(m));
                }
            },
        }
    }
}

} // verus!
