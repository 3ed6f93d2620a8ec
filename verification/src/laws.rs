//! The routing engine's guarantees, stated and proved over the machine of
//! [`crate::multi_windows`]: singleton windows per kind, termination on the
//! last close, modal parent/child linkage, one-shot close hooks, broadcast
//! isolation and batch ordering.

use vstd::prelude::*;

use crate::collection::{has_id, has_tag, idx_of, lemma_idx_of_unique, lookup, remove_id_s,
    set_child_s, unique_tags};
use crate::multi_windows::{broadcast_fold, collect_msgs, exec_inv, lemma_closed_clears_links,
    lemma_fold_msgs, lemma_fold_windows, lemma_run_steps_add, lemma_step_preserves_exec_inv,
    no_child_refs, queue_all, run_steps, start_execution, step, EngineState, Execution,
    HostCommand, WorkItem};
use crate::protocol::{DialogResult, EventMessage, IWindow, Message, WindowData, WindowId, WindowView};

verus! {

/// Well-formedness is kept along every run of the machine: in every
/// reachable configuration the window ids are distinct, the kind tags are
/// distinct (at most one live window per kind, at all times), and every
/// modal-child reference points at a live window that points back.
pub proof fn lemma_run_preserves_exec_inv<B: IWindow>(e: Execution<B>, n: nat)
    requires
        exec_inv(e),
    ensures
        exec_inv(run_steps(e, n)),
    decreases n,
{
    if n > 0 {
        lemma_run_preserves_exec_inv(e, (n - 1) as nat);
        lemma_step_preserves_exec_inv(run_steps(e, (n - 1) as nat));
    }
}

/// Singleton per kind tag. An open request whose tag is already live is
/// silently dropped: the state does not change and no command is issued.
/// An open request for a fresh tag grows the collection by exactly one
/// window, which carries that tag — and by well-formedness the collection
/// then holds exactly one window of that tag.
pub proof fn lemma_singleton_per_tag<B: IWindow>(e: Execution<B>, wd: WindowData<B>)
    requires
        exec_inv(e),
        e.work.len() > 0,
        e.work.last() == WorkItem::Handle(Message::<B>::NewWindow(wd)),
    ensures
        has_tag(e.st.windows, wd.data_type_id) ==> step(e).st == e.st && step(e).cmds == e.cmds,
        !has_tag(e.st.windows, wd.data_type_id) && e.st.next_id < u64::MAX ==> {
            &&& step(e).st.windows.len() == e.st.windows.len() + 1
            &&& has_tag(step(e).st.windows, wd.data_type_id)
            &&& unique_tags(step(e).st.windows)
        },
{
    lemma_step_preserves_exec_inv(e);
    if !has_tag(e.st.windows, wd.data_type_id) && e.st.next_id < u64::MAX {
        let e2 = step(e);
        let s = e.st.windows;
        let s1 = s.push((WindowId(e.st.next_id), step_open_window(e.st, wd)));
        assert(s1[s.len() as int].1.data_type_id == wd.data_type_id);
        if wd.parent_id is Some && has_id(s1, wd.parent_id->0) {
            let p = wd.parent_id->0;
            let jp = idx_of(s1, p);
            assert(e2.st.windows == s1.update(
                jp,
                (s1[jp].0, WindowView { child_id: Some(WindowId(e.st.next_id)), ..s1[jp].1 }),
            ));
            assert(e2.st.windows[s.len() as int].1.data_type_id == wd.data_type_id
                || e2.st.windows[jp].1.data_type_id == wd.data_type_id);
            assert(has_tag(e2.st.windows, wd.data_type_id));
        } else {
            assert(e2.st.windows == s1);
            assert(has_tag(e2.st.windows, wd.data_type_id));
        }
    }
}

/// The window record an accepted open request materializes (only used to
/// speak about the new entry in proofs).
pub open spec fn step_open_window<B: IWindow>(st: EngineState<B>, wd: WindowData<B>) -> WindowView<
    B,
> {
    let w0 = wd.data.spec_new_window();
    WindowView {
        settings: crate::protocol::WindowSettings {
            icon: if w0.settings.icon is None {
                st.icon
            } else {
                w0.settings.icon
            },
            ..w0.settings
        },
        parent_id: wd.parent_id,
        child_id: Option::<WindowId>::None,
        data_type_id: wd.data_type_id,
        window_closed_callback: wd.callback,
        ..w0
    }
}

/// Termination exactly on the last close. The teardown of a window removes
/// exactly its record; the program is told to terminate if and only if that
/// removal drained the collection. Tearing down a non-last window never
/// terminates the program, and a `Closed` event for a stale id on an
/// already-empty collection terminates as well.
pub proof fn lemma_termination<B: IWindow>(e: Execution<B>, id: WindowId)
    requires
        exec_inv(e),
        e.work.len() > 0,
        e.work.last() == WorkItem::<B>::Finish(id),
    ensures
        step(e).st.windows == remove_id_s(e.st.windows, id),
        remove_id_s(e.st.windows, id).len() == 0 ==> step(e).cmds == e.cmds.push(
            HostCommand::Exit,
        ),
        remove_id_s(e.st.windows, id).len() != 0 ==> step(e).cmds == e.cmds,
{
}

/// Modal linkage at opening: when an accepted open request names a live
/// parent, the parent's modal-child reference becomes exactly the fresh id,
/// and the new window's parent reference points back.
pub proof fn lemma_modal_link_open<B: IWindow>(e: Execution<B>, wd: WindowData<B>, p: WindowId)
    requires
        exec_inv(e),
        e.work.len() > 0,
        e.work.last() == WorkItem::Handle(Message::<B>::NewWindow(wd)),
        !has_tag(e.st.windows, wd.data_type_id),
        e.st.next_id < u64::MAX,
        wd.parent_id == Some(p),
        has_id(e.st.windows, p),
    ensures
        ({
            let id = WindowId(e.st.next_id);
            &&& has_id(step(e).st.windows, id)
            &&& has_id(step(e).st.windows, p)
            &&& lookup(step(e).st.windows, p).child_id == Some(id)
            &&& lookup(step(e).st.windows, id).parent_id == Some(p)
        }),
{
    lemma_step_preserves_exec_inv(e);
    let e2 = step(e);
    let s = e.st.windows;
    let id = WindowId(e.st.next_id);
    let w1 = step_open_window(e.st, wd);
    let s1 = s.push((id, w1));
    assert(forall|j: int| 0 <= j < s.len() ==> (#[trigger] s1[j]) == s[j]);
    assert(s1[s.len() as int] == (id, w1));
    assert(has_id(s1, p)) by {
        let jp = idx_of(s, p);
        assert(s1[jp].0 == p);
    }
    let jp = idx_of(s1, p);
    assert(e2.st.windows == s1.update(jp, (s1[jp].0, WindowView { child_id: Some(id), ..s1[jp].1 })));
    let s2 = e2.st.windows;
    assert(s2[jp].0 == p);
    lemma_idx_of_unique(s2, p, jp);
    if jp == s.len() {
        // The request named the fresh id itself as parent: the new window
        // is its own parent and its own modal child.
        assert(lookup(s2, p).child_id == Some(id));
        assert(s2[jp].1.parent_id == wd.parent_id);
        lemma_idx_of_unique(s2, id, jp);
    } else {
        assert(s2[s.len() as int] == (id, w1));
        lemma_idx_of_unique(s2, id, s.len() as int);
        assert(lookup(s2, id).parent_id == Some(p));
    }
}

/// Modal linkage at closing: the moment a window's `Closed` event is
/// processed, no live window holds it as modal child any more — in
/// particular its parent's `child_id` is cleared.
pub proof fn lemma_modal_link_close<B: IWindow>(
    e: Execution<B>,
    id: WindowId,
    dialog_result: DialogResult,
)
    requires
        exec_inv(e),
        e.work.len() > 0,
        e.work.last() == WorkItem::Handle(
            Message::<B>::EventMessage(EventMessage::Closed(id, dialog_result)),
        ),
        has_id(e.st.windows, id),
    ensures
        no_child_refs(step(e).st.windows, id),
{
    lemma_closed_clears_links(e.st.windows, e.st.next_id, id);
}

/// One-shot close hooks, first half: processing a window's `Close` event
/// runs its hook exactly once, right then — the hook history grows by
/// exactly the one record of this closing — provided the window is live and
/// has both a hook and a live parent for the hook to observe. In every
/// other case the history does not grow.
pub proof fn lemma_hook_runs_on_close<B: IWindow>(
    e: Execution<B>,
    id: WindowId,
    dialog_result: DialogResult,
)
    requires
        e.work.len() > 0,
        e.work.last() == WorkItem::Handle(
            Message::<B>::EventMessage(EventMessage::Close(id, dialog_result)),
        ),
    ensures
        ({
            let live = has_id(e.st.windows, id);
            let w = lookup(e.st.windows, id);
            if live && w.parent_id is Some && has_id(e.st.windows, w.parent_id->0)
                && w.window_closed_callback is Some {
                step(e).st.hook_runs == e.st.hook_runs.push((id, dialog_result))
            } else {
                step(e).st.hook_runs == e.st.hook_runs
            }
        }),
        step(e).st.windows == e.st.windows,
{
}

/// One-shot close hooks, second half: a `Close` event for a stale id — in
/// particular a second delivery after the window was torn down — is a
/// no-op: the state is unchanged (only the fire-and-forget close command is
/// still issued) and the teardown it schedules finds nothing either.
pub proof fn lemma_stale_close_is_noop<B: IWindow>(
    e: Execution<B>,
    id: WindowId,
    dialog_result: DialogResult,
)
    requires
        e.work.len() > 0,
        e.work.last() == WorkItem::Handle(
            Message::<B>::EventMessage(EventMessage::Close(id, dialog_result)),
        ),
        !has_id(e.st.windows, id),
    ensures
        step(e).st == e.st,
        step(e).cmds == e.cmds.push(HostCommand::CloseWindow(id)),
        step(e).work == e.work.drop_last().push(
            WorkItem::Handle(Message::EventMessage(EventMessage::Closed(id, dialog_result))),
        ),
{
}

/// Ids are never reused: once a window id is stale and below the allocation
/// bound, no step brings it back, and no later hook record is attributed to
/// it.
pub proof fn lemma_no_resurrection<B: IWindow>(e: Execution<B>, id: WindowId)
    requires
        exec_inv(e),
        !has_id(e.st.windows, id),
        id.0 < e.st.next_id,
    ensures
        exec_inv(step(e)),
        !has_id(step(e).st.windows, id),
        id.0 < step(e).st.next_id,
        step(e).st.hook_runs == e.st.hook_runs || (step(e).st.hook_runs.len() == e.st.hook_runs.len()
            + 1 && step(e).st.hook_runs.drop_last() == e.st.hook_runs
            && step(e).st.hook_runs.last().0 != id),
{
    lemma_step_preserves_exec_inv(e);
    if e.work.len() == 0 {
        return ;
    }
    let s = e.st.windows;
    match e.work.last() {
        WorkItem::Handle(m) => {
            match m {
                Message::TitleChanged(tid, title) => {
                    if has_id(s, tid) {
                        let j = idx_of(s, tid);
                        assert forall|k: int|
                            0 <= k < step(e).st.windows.len() implies (#[trigger] step(
                            e,
                        ).st.windows[k]).0 != id by {
                            assert(step(e).st.windows[k].0 == s[k].0);
                        }
                    }
                },
                Message::EventMessage(ev) => {
                    lemma_no_resurrection_event(e, id, ev);
                },
                Message::WindowMessage(wm) => {
                    lemma_fold_windows(s, wm.msg, 0);
                    assert forall|k: int|
                        0 <= k < step(e).st.windows.len() implies (#[trigger] step(
                        e,
                    ).st.windows[k]).0 != id by {
                        assert(step(e).st.windows[k].0 == s[k].0);
                    }
                },
                Message::NewWindow(wd) => {
                    if !(has_tag(s, wd.data_type_id) || e.st.next_id == u64::MAX) {
                        let s1 = s.push((WindowId(e.st.next_id), step_open_window(e.st, wd)));
                        assert(forall|k: int|
                            0 <= k < s1.len() ==> (#[trigger] s1[k]).0 != id);
                        if wd.parent_id is Some && has_id(s1, wd.parent_id->0) {
                            let jp = idx_of(s1, wd.parent_id->0);
                            assert forall|k: int|
                                0 <= k < step(e).st.windows.len() implies (#[trigger] step(
                                e,
                            ).st.windows[k]).0 != id by {
                                assert(step(e).st.windows[k].0 == s1[k].0);
                            }
                        }
                    }
                },
                _ => {},
            }
        },
        WorkItem::Finish(fid) => {
            if has_id(s, fid) {
                let j = idx_of(s, fid);
                assert forall|k: int|
                    0 <= k < step(e).st.windows.len() implies (#[trigger] step(
                    e,
                ).st.windows[k]).0 != id by {
                    let ko = if k < j {
                        k
                    } else {
                        k + 1
                    };
                    assert(step(e).st.windows[k] == s[ko]);
                }
            }
        },
    }
}

/// Once a window is gone, its hook never runs again: over any number of
/// further steps the hook history only grows by records of other windows.
pub proof fn lemma_hook_never_again<B: IWindow>(e: Execution<B>, id: WindowId, n: nat)
    requires
        exec_inv(e),
        !has_id(e.st.windows, id),
        id.0 < e.st.next_id,
    ensures
        run_steps(e, n).st.hook_runs.len() >= e.st.hook_runs.len(),
        run_steps(e, n).st.hook_runs.take(e.st.hook_runs.len() as int) == e.st.hook_runs,
        forall|k: int|
            e.st.hook_runs.len() <= k < run_steps(e, n).st.hook_runs.len() ==> (#[trigger] run_steps(
                e,
                n,
            ).st.hook_runs[k]).0 != id,
        exec_inv(run_steps(e, n)),
        !has_id(run_steps(e, n).st.windows, id),
        id.0 < run_steps(e, n).st.next_id,
    decreases n,
{
    if n == 0 {
        assert(run_steps(e, 0).st.hook_runs.take(e.st.hook_runs.len() as int)
            =~= e.st.hook_runs);
    } else {
        lemma_hook_never_again(e, id, (n - 1) as nat);
        let ep = run_steps(e, (n - 1) as nat);
        lemma_no_resurrection(ep, id);
        let h0 = e.st.hook_runs;
        let hp = ep.st.hook_runs;
        let hn = run_steps(e, n).st.hook_runs;
        if hn == hp {
            assert(hn.take(h0.len() as int) == h0);
        } else {
            assert(hn.drop_last() == hp);
            assert(hn.take(h0.len() as int) =~= hp.take(h0.len() as int));
            assert forall|k: int| h0.len() <= k < hn.len() implies (#[trigger] hn[k]).0
                != id by {
                if k < hn.len() - 1 {
                    assert(hn[k] == hp[k]);
                } else {
                    assert(hn[k] == hn.last());
                }
            }
        }
    }
}

/// A window's answer to a broadcast payload that is not meant for it:
/// its state stays as it is and it derives nothing.
pub open spec fn ignores<B: IWindow>(w: (WindowId, WindowView<B>), payload: B::Payload) -> bool {
    w.1.data.spec_update(w.0, payload) == (w.1.data, Message::<B>::Nothing)
}

/// The derived messages of a broadcast where at most the window at `k`
/// answers: exactly that window's answer, if any.
proof fn lemma_collect_isolated<B: IWindow>(
    s: Seq<(WindowId, WindowView<B>)>,
    payload: B::Payload,
    k: int,
    i: int,
)
    requires
        0 <= i,
        0 <= k < s.len(),
        forall|j: int| 0 <= j < s.len() && j != k ==> ignores(#[trigger] s[j], payload),
    ensures
        collect_msgs(s, payload, i) == if i <= k {
            let m = s[k].1.data.spec_update(s[k].0, payload).1;
            if m is Nothing {
                Seq::<Message<B>>::empty()
            } else {
                seq![m]
            }
        } else {
            Seq::<Message<B>>::empty()
        },
    decreases s.len() - i,
{
    if i < s.len() {
        lemma_collect_isolated(s, payload, k, i + 1);
        let m = s[i].1.data.spec_update(s[i].0, payload).1;
        if i == k {
            if m is Nothing {
                assert(collect_msgs(s, payload, i) =~= Seq::<Message<B>>::empty());
            } else {
                assert(collect_msgs(s, payload, i) =~= seq![m]);
            }
        } else {
            assert(ignores(s[i], payload));
            assert(collect_msgs(s, payload, i) =~= collect_msgs(s, payload, i + 1));
        }
    }
}

/// Broadcast isolation: delivering a payload that only the window at `k`
/// answers mutates only that window's state — every other window stays
/// bit for bit as it was — and schedules only that window's derived
/// message, if it derived one at all.
pub proof fn lemma_broadcast_isolation<B: IWindow>(e: Execution<B>, payload: B::Payload, k: int)
    requires
        e.work.len() > 0,
        (e.work.last() matches WorkItem::Handle(m) && m matches Message::WindowMessage(wm)
            && wm.msg == payload),
        0 <= k < e.st.windows.len(),
        forall|j: int|
            0 <= j < e.st.windows.len() && j != k ==> ignores(
                #[trigger] e.st.windows[j],
                payload,
            ),
    ensures
        ({
            let s = e.st.windows;
            let r = s[k].1.data.spec_update(s[k].0, payload);
            &&& step(e).st.windows.len() == s.len()
            &&& step(e).st.windows[k] == (s[k].0, WindowView { data: r.0, ..s[k].1 })
            &&& forall|j: int| 0 <= j < s.len() && j != k ==> #[trigger] step(e).st.windows[j]
                == s[j]
            &&& step(e).cmds == e.cmds
            &&& step(e).work == if r.1 is Nothing {
                e.work.drop_last()
            } else {
                e.work.drop_last().push(WorkItem::Handle(r.1))
            }
        }),
{
    let s = e.st.windows;
    let rest = e.work.drop_last();
    lemma_fold_windows(s, payload, 0);
    lemma_fold_msgs(s, payload, 0);
    lemma_collect_isolated(s, payload, k, 0);
    let r = s[k].1.data.spec_update(s[k].0, payload);
    assert forall|j: int| 0 <= j < s.len() && j != k implies #[trigger] step(e).st.windows[j]
        == s[j] by {
        assert(ignores(s[j], payload));
        assert(step(e).st.windows[j] == (
            s[j].0,
            WindowView { data: s[j].1.data.spec_update(s[j].0, payload).0, ..s[j].1 },
        ));
    }
    if r.1 is Nothing {
        assert(broadcast_fold(s, payload, 0).1 =~= Seq::<Message<B>>::empty());
        assert(queue_all(rest, broadcast_fold(s, payload, 0).1) =~= rest);
    } else {
        assert(broadcast_fold(s, payload, 0).1 =~= seq![r.1]);
        assert(seq![r.1].reverse() =~= seq![r.1]);
        assert(queue_all(rest, seq![r.1]) =~= rest.push(WorkItem::Handle(r.1)));
    }
}

/// The machine never looks below the top of the work stack, and only
/// appends to the command list: a step is unchanged under work stacked
/// below and commands gathered before.
pub proof fn lemma_step_frame<B: IWindow>(
    e: Execution<B>,
    bottom: Seq<WorkItem<B>>,
    pre: Seq<HostCommand>,
)
    requires
        e.work.len() > 0,
    ensures
        step(Execution { st: e.st, work: bottom + e.work, cmds: pre + e.cmds }) == (Execution {
            st: step(e).st,
            work: bottom + step(e).work,
            cmds: pre + step(e).cmds,
        }),
{
    let eb = Execution { st: e.st, work: bottom + e.work, cmds: pre + e.cmds };
    let rest = e.work.drop_last();
    let restb = eb.work.drop_last();
    assert(eb.work.last() == e.work.last());
    assert(restb =~= bottom + rest);
    assert forall|x: WorkItem<B>| #[trigger] restb.push(x) == bottom + rest.push(x) by {
        assert(restb.push(x) =~= bottom + rest.push(x));
    }
    assert forall|x: WorkItem<B>, y: WorkItem<B>| #[trigger] restb.push(x).push(y) == bottom
        + rest.push(x).push(y) by {
        assert(restb.push(x).push(y) =~= bottom + rest.push(x).push(y));
    }
    assert forall|ms: Seq<Message<B>>| #[trigger] queue_all(restb, ms) == bottom + queue_all(
        rest,
        ms,
    ) by {
        assert(queue_all(restb, ms) =~= bottom + queue_all(rest, ms));
    }
    assert forall|y: HostCommand| #[trigger] eb.cmds.push(y) == pre + e.cmds.push(y) by {
        assert(eb.cmds.push(y) =~= pre + e.cmds.push(y));
    }
    assert(restb == bottom + rest);
    assert(step(eb).st == step(e).st && step(eb).work == bottom + step(e).work && step(eb).cmds
        == pre + step(e).cmds);
}

/// [`lemma_step_frame`], iterated over a run that has not drained yet.
pub proof fn lemma_run_frame<B: IWindow>(
    e: Execution<B>,
    bottom: Seq<WorkItem<B>>,
    pre: Seq<HostCommand>,
    n: nat,
)
    requires
        forall|k: nat| k < n ==> (#[trigger] run_steps(e, k)).work.len() > 0,
    ensures
        run_steps(Execution { st: e.st, work: bottom + e.work, cmds: pre + e.cmds }, n)
            == (Execution {
            st: run_steps(e, n).st,
            work: bottom + run_steps(e, n).work,
            cmds: pre + run_steps(e, n).cmds,
        }),
    decreases n,
{
    if n > 0 {
        lemma_run_frame(e, bottom, pre, (n - 1) as nat);
        assert(run_steps(e, (n - 1) as nat).work.len() > 0);
        lemma_step_frame(run_steps(e, (n - 1) as nat), bottom, pre);
    }
}

/// Batch ordering: handling `Batch([a, b])` drains into exactly the state
/// that handling `a` to completion and then handling `b` to completion
/// reaches, and gathers exactly the commands of the two runs, in order.
pub proof fn lemma_batch_ordering<B: IWindow>(
    st: EngineState<B>,
    msgs: Vec<Message<B>>,
    na: nat,
    nb: nat,
)
    requires
        msgs@.len() == 2,
        run_steps(start_execution(st, msgs@[0]), na).work.len() == 0,
        forall|k: nat|
            k < na ==> (#[trigger] run_steps(start_execution(st, msgs@[0]), k)).work.len() > 0,
        run_steps(
            start_execution(run_steps(start_execution(st, msgs@[0]), na).st, msgs@[1]),
            nb,
        ).work.len() == 0,
        forall|k: nat|
            k < nb ==> (#[trigger] run_steps(
                start_execution(run_steps(start_execution(st, msgs@[0]), na).st, msgs@[1]),
                k,
            )).work.len() > 0,
    ensures
        ({
            let ea = run_steps(start_execution(st, msgs@[0]), na);
            let eb = run_steps(start_execution(ea.st, msgs@[1]), nb);
            let ebatch = run_steps(start_execution(st, Message::MultMessage(msgs)), 1 + na + nb);
            &&& ebatch.work.len() == 0
            &&& ebatch.st == eb.st
            &&& ebatch.cmds == ea.cmds + eb.cmds
        }),
{
    let a = msgs@[0];
    let b = msgs@[1];
    let c0 = start_execution(st, Message::<B>::MultMessage(msgs));
    let c1 = step(c0);
    assert(run_steps(c0, 1) == step(run_steps(c0, 0)));
    assert(run_steps(c0, 0) == c0);
    assert(c1.st == st && c1.cmds == Seq::<HostCommand>::empty());
    assert(msgs@.reverse() =~= seq![b, a]);
    assert(c1.work =~= seq![WorkItem::<B>::Handle(b), WorkItem::<B>::Handle(a)]);

    // Phase one: the first message runs to completion on top of the second.
    let ea0 = start_execution(st, a);
    let ea = run_steps(ea0, na);
    lemma_run_frame(ea0, seq![WorkItem::<B>::Handle(b)], Seq::<HostCommand>::empty(), na);
    let c1x = Execution {
        st: ea0.st,
        work: seq![WorkItem::<B>::Handle(b)] + ea0.work,
        cmds: Seq::<HostCommand>::empty() + ea0.cmds,
    };
    assert(c1.work =~= c1x.work);
    assert(c1.cmds =~= c1x.cmds);
    assert(c1 == c1x);
    let c2 = run_steps(c1, na);
    assert(c2 == (Execution {
        st: ea.st,
        work: seq![WorkItem::<B>::Handle(b)] + ea.work,
        cmds: Seq::<HostCommand>::empty() + ea.cmds,
    }));

    // Phase two: the second message runs to completion on the reached state.
    let eb0 = start_execution(ea.st, b);
    let eb = run_steps(eb0, nb);
    lemma_run_frame(eb0, Seq::<WorkItem<B>>::empty(), ea.cmds, nb);
    let c2x = Execution {
        st: eb0.st,
        work: Seq::<WorkItem<B>>::empty() + eb0.work,
        cmds: ea.cmds + eb0.cmds,
    };
    assert(c2.work =~= c2x.work);
    assert(c2.cmds =~= c2x.cmds);
    assert(c2 == c2x);
    let c3 = run_steps(c2, nb);
    assert(c3 == (Execution {
        st: eb.st,
        work: Seq::<WorkItem<B>>::empty() + eb.work,
        cmds: ea.cmds + eb.cmds,
    }));

    // Chain the three phases.
    lemma_run_steps_add(c0, 1, na + nb);
    lemma_run_steps_add(c1, na, nb);
    assert(run_steps(c0, 1 + na + nb) == run_steps(run_steps(c0, 1), na + nb));
    assert(run_steps(c0, 1) == c1);
    assert(run_steps(c1, na + nb) == run_steps(c2, nb));
    assert(c3.work =~= Seq::<WorkItem<B>>::empty());
}

/// The event arms of [`lemma_no_resurrection`].
proof fn lemma_no_resurrection_event<B: IWindow>(e: Execution<B>, id: WindowId, ev: EventMessage)
    requires
        exec_inv(e),
        !has_id(e.st.windows, id),
        id.0 < e.st.next_id,
        e.work.len() > 0,
        e.work.last() == WorkItem::Handle(Message::<B>::EventMessage(ev)),
    ensures
        !has_id(step(e).st.windows, id),
        step(e).st.hook_runs == e.st.hook_runs || (step(e).st.hook_runs.len() == e.st.hook_runs.len()
            + 1 && step(e).st.hook_runs.drop_last() == e.st.hook_runs
            && step(e).st.hook_runs.last().0 != id),
{
    let s = e.st.windows;
    match ev {
        EventMessage::Close(cid, dialog_result) => {
            assert(cid != id || !has_id(s, cid));
        },
        EventMessage::Closed(cid, dialog_result) => {
            if has_id(s, cid) {
                let w0 = lookup(s, cid);
                if w0.parent_id is Some {
                    let p = w0.parent_id->0;
                    let s1 = set_child_s(s, p, Option::<WindowId>::None);
                    assert forall|k: int| 0 <= k < s1.len() implies (#[trigger] s1[k]).0
                        != id by {
                        if has_id(s, p) && k == idx_of(s, p) {
                            assert(s1[k].0 == s[k].0);
                        } else {
                            assert(s1[k] == s[k]);
                        }
                    }
                }
            }
        },
        _ => {},
    }
}

} // verus!
