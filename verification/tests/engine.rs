use iced_kim::multi_windows::{HostCommand, Program};
use iced_kim::protocol::{
    DialogResult, EventMessage, IWindow, IconHandle, Message, Point, ScaleCode, Size, ThemeCode,
    TypeTag, Window, WindowId, WindowMessage, WindowSettings, WindowView,
};

/// A configurable window kind for exercising the routing engine.
///
/// Its broadcast vocabulary is `u64`: a payload equal to its own tag
/// increments `hits`; the payload `999` is answered with a title report of
/// the current count; everything else is "not for me".
#[derive(Debug, Clone, PartialEq)]
struct TestWin {
    tag: u64,
    hits: u64,
    icon: Option<IconHandle>,
    veto: bool,
    focus_title: Option<String>,
}

impl TestWin {
    fn with_tag(tag: u64) -> TestWin {
        TestWin { tag, hits: 0, icon: None, veto: false, focus_title: None }
    }
}

impl IWindow for TestWin {
    type Payload = u64;
    type Hook = String;

    fn spec_new_window(self) -> WindowView<TestWin> {
        panic!("specification twin; never called at run time")
    }

    fn spec_type_tag(self) -> TypeTag {
        TypeTag(self.tag)
    }

    fn spec_update(self, id: WindowId, msg: u64) -> (TestWin, Message<TestWin>) {
        let mut d = self;
        let m = d.update(id, &msg);
        (d, m)
    }

    fn spec_on_opened(self, id: WindowId, position: Option<Point>, size: Size) -> Message<TestWin> {
        self.on_opened(id, position, size)
    }

    fn spec_on_window_closed(self, id: WindowId, dialog_result: DialogResult) -> Message<TestWin> {
        self.on_window_closed(id, dialog_result)
    }

    fn spec_on_close_request(self, id: WindowId) -> Message<TestWin> {
        self.on_close_request(id)
    }

    fn spec_on_focus(self, id: WindowId) -> Message<TestWin> {
        self.on_focus(id)
    }

    fn spec_on_unfocus(self, id: WindowId) -> Message<TestWin> {
        self.on_unfocus(id)
    }

    fn spec_on_moved(self, id: WindowId, x: i32, y: i32) -> Message<TestWin> {
        self.on_moved(id, x, y)
    }

    fn spec_on_resized(self, id: WindowId, width: u32, height: u32) -> Message<TestWin> {
        self.on_resized(id, width, height)
    }

    fn spec_hook(
        hook: String,
        parent_id: WindowId,
        dialog_result: DialogResult,
        parent: TestWin,
    ) -> Message<TestWin> {
        TestWin::run_hook(&hook, parent_id, dialog_result, &parent)
    }

    fn new_window(&self) -> Window<TestWin> {
        Window {
            title: format!("win{}", self.tag),
            settings: WindowSettings {
                size: Size { width: 640, height: 480 },
                resizable: true,
                exit_on_close_request: false,
                icon: self.icon,
            },
            parent_id: None,
            child_id: None,
            data: self.clone(),
            data_type_id: TypeTag(self.tag),
            window_closed_callback: None,
        }
    }

    fn type_tag(&self) -> TypeTag {
        TypeTag(self.tag)
    }

    fn update(&mut self, id: WindowId, msg: &u64) -> Message<TestWin> {
        if *msg == self.tag {
            self.hits += 1;
            Message::Nothing
        } else if *msg == 999 {
            Message::TitleChanged(id, format!("hits={}", self.hits))
        } else {
            Message::Nothing
        }
    }

    fn on_opened(&self, _id: WindowId, _position: Option<Point>, _size: Size) -> Message<TestWin> {
        Message::Nothing
    }

    fn on_window_closed(&self, _id: WindowId, _dialog_result: DialogResult) -> Message<TestWin> {
        Message::Nothing
    }

    fn on_close_request(&self, id: WindowId) -> Message<TestWin> {
        if self.veto {
            Message::Nothing
        } else {
            Message::event(EventMessage::Close(id, DialogResult::NoResult))
        }
    }

    fn on_focus(&self, id: WindowId) -> Message<TestWin> {
        match &self.focus_title {
            Some(t) => Message::TitleChanged(id, t.clone()),
            None => Message::Nothing,
        }
    }

    fn on_unfocus(&self, _id: WindowId) -> Message<TestWin> {
        Message::Nothing
    }

    fn on_moved(&self, _id: WindowId, _x: i32, _y: i32) -> Message<TestWin> {
        Message::Nothing
    }

    fn on_resized(&self, _id: WindowId, _width: u32, _height: u32) -> Message<TestWin> {
        Message::Nothing
    }

    fn run_hook(
        hook: &String,
        parent_id: WindowId,
        dialog_result: DialogResult,
        _parent: &TestWin,
    ) -> Message<TestWin> {
        match dialog_result {
            DialogResult::Okay => Message::TitleChanged(parent_id, hook.clone()),
            DialogResult::Custom(c) => Message::TitleChanged(parent_id, format!("custom{}", c)),
            _ => Message::Nothing,
        }
    }
}

fn fresh() -> Program<TestWin> {
    Program::new(TestWin::with_tag(1)).0
}

fn open_window_commands(cmds: &[HostCommand]) -> Vec<(WindowId, WindowSettings)> {
    cmds.iter()
        .filter_map(|c| match c {
            HostCommand::OpenWindow(id, s) => Some((*id, *s)),
            _ => None,
        })
        .collect()
}

fn bmsg(payload: u64) -> Message<TestWin> {
    Message::WindowMessage(WindowMessage { msg: payload, msg_type_id: TypeTag(payload) })
}

fn has_exit(cmds: &[HostCommand]) -> bool {
    cmds.iter().any(|c| matches!(c, HostCommand::Exit))
}

#[test]
fn new_program_opens_the_main_window() {
    let (p, cmds) = Program::new(TestWin::with_tag(1));
    assert_eq!(p.title(WindowId(0)), "win1".to_string());
    assert_eq!(p.window_count(), 1);
    assert_eq!(cmds.len(), 1);
    assert!(matches!(cmds[0], HostCommand::OpenWindow(WindowId(0), _)));
}

#[test]
fn title_changed_renames_a_live_window() {
    let mut p = fresh();
    let cmds = p.update(Message::TitleChanged(WindowId(0), "renamed".to_string()));
    assert_eq!(cmds.len(), 0);
    assert_eq!(p.title(WindowId(0)), "renamed".to_string());
}

#[test]
fn title_changed_for_a_stale_id_is_a_no_op() {
    let mut p = fresh();
    let cmds = p.update(Message::TitleChanged(WindowId(77), "renamed".to_string()));
    assert_eq!(cmds.len(), 0);
    assert_eq!(p.title(WindowId(0)), "win1".to_string());
    assert_eq!(p.title(WindowId(77)), String::new());
}

#[test]
fn theme_and_scale_are_stored_verbatim() {
    let mut p = fresh();
    assert_eq!(p.theme(WindowId(0)), ThemeCode(0));
    assert_eq!(p.scale_factor(WindowId(0)), ScaleCode(0));
    assert!(p.update(Message::Theme(ThemeCode(9))).is_empty());
    assert!(p.update(Message::Scale(ScaleCode(4640049870757101568))).is_empty());
    assert_eq!(p.theme(WindowId(0)), ThemeCode(9));
    assert_eq!(p.scale_factor(WindowId(0)), ScaleCode(4640049870757101568));
}

#[test]
fn exit_message_yields_the_exit_command() {
    let mut p = fresh();
    let cmds = p.update(Message::Exit);
    assert_eq!(cmds, vec![HostCommand::Exit]);
    assert_eq!(p.window_count(), 1);
}

#[test]
fn singleton_same_tag_request_is_silently_dropped() {
    let mut p = fresh();
    let cmds = p.update(Message::new_window(WindowId(0), TestWin::with_tag(2)));
    assert_eq!(p.window_count(), 2);
    assert_eq!(open_window_commands(&cmds).len(), 1);
    let cmds = p.update(Message::new_window(WindowId(0), TestWin::with_tag(2)));
    assert_eq!(p.window_count(), 2);
    assert!(cmds.is_empty());
    // Even a request to reopen the main window's own kind is dropped.
    let cmds = p.update(Message::new_window(WindowId(1), TestWin::with_tag(1)));
    assert_eq!(p.window_count(), 2);
    assert!(cmds.is_empty());
}

#[test]
fn distinct_tag_always_grows_the_collection() {
    let mut p = fresh();
    p.update(Message::new_window(WindowId(0), TestWin::with_tag(2)));
    p.update(Message::new_window(WindowId(0), TestWin::with_tag(3)));
    assert_eq!(p.window_count(), 3);
    assert_eq!(p.title(WindowId(1)), "win2".to_string());
    assert_eq!(p.title(WindowId(2)), "win3".to_string());
}

#[test]
fn modal_child_is_linked_on_open() {
    let mut p = fresh();
    let cmds = p.update(Message::new_window(WindowId(0), TestWin::with_tag(2)));
    let opened = open_window_commands(&cmds);
    assert_eq!(opened.len(), 1);
    let child = opened[0].0;
    assert_eq!(child, WindowId(1));
    assert_eq!(p.get_window(WindowId(0)).unwrap().child_id, Some(child));
    assert_eq!(p.get_window(child).unwrap().parent_id, Some(WindowId(0)));
}

#[test]
fn modal_child_is_cleared_when_the_child_closes() {
    let mut p = fresh();
    p.update(Message::new_window(WindowId(0), TestWin::with_tag(2)));
    let cmds = p.update(Message::event(EventMessage::Close(WindowId(1), DialogResult::NoResult)));
    assert_eq!(p.window_count(), 1);
    assert!(p.get_window(WindowId(1)).is_none());
    assert_eq!(p.get_window(WindowId(0)).unwrap().child_id, None);
    assert!(cmds.contains(&HostCommand::CloseWindow(WindowId(1))));
    assert!(!has_exit(&cmds));
}

#[test]
fn close_hook_runs_exactly_once() {
    let mut p = fresh();
    p.update(Message::show_dialog(WindowId(0), TestWin::with_tag(2), "updated".to_string()));
    assert_eq!(p.window_count(), 2);
    let cmds = p.update(Message::event(EventMessage::Close(WindowId(1), DialogResult::Okay)));
    assert_eq!(p.title(WindowId(0)), "updated".to_string());
    assert_eq!(p.get_window(WindowId(0)).unwrap().child_id, None);
    assert_eq!(p.window_count(), 1);
    assert!(cmds.contains(&HostCommand::CloseWindow(WindowId(1))));
    // A second delivery finds no window: the hook does not run again.
    p.update(Message::TitleChanged(WindowId(0), "later".to_string()));
    let cmds = p.update(Message::event(EventMessage::Close(WindowId(1), DialogResult::Okay)));
    assert_eq!(p.title(WindowId(0)), "later".to_string());
    assert_eq!(p.window_count(), 1);
    assert_eq!(cmds, vec![HostCommand::CloseWindow(WindowId(1))]);
}

#[test]
fn close_hook_sees_the_dialog_outcome() {
    let mut p = fresh();
    p.update(Message::show_dialog(WindowId(0), TestWin::with_tag(2), "updated".to_string()));
    // A cancelled dialog leaves the opener untouched.
    p.update(Message::event(EventMessage::Close(WindowId(1), DialogResult::Cancel)));
    assert_eq!(p.title(WindowId(0)), "win1".to_string());
    // A custom outcome reaches the hook as its code.
    p.update(Message::show_dialog(WindowId(0), TestWin::with_tag(2), "updated".to_string()));
    p.update(Message::event(EventMessage::Close(WindowId(2), DialogResult::Custom(42))));
    assert_eq!(p.title(WindowId(0)), "custom42".to_string());
}

#[test]
fn closing_the_last_window_terminates_the_program() {
    let mut p = fresh();
    let cmds = p.update(Message::event(EventMessage::Close(WindowId(0), DialogResult::NoResult)));
    assert_eq!(p.window_count(), 0);
    assert!(cmds.contains(&HostCommand::CloseWindow(WindowId(0))));
    assert!(has_exit(&cmds));
}

#[test]
fn closing_a_non_last_window_does_not_terminate() {
    let mut p = fresh();
    p.update(Message::new_window(WindowId(0), TestWin::with_tag(2)));
    let cmds = p.update(Message::event(EventMessage::Close(WindowId(1), DialogResult::NoResult)));
    assert_eq!(p.window_count(), 1);
    assert!(!has_exit(&cmds));
}

#[test]
fn closed_event_on_an_empty_collection_terminates() {
    let mut p = fresh();
    p.update(Message::event(EventMessage::Close(WindowId(0), DialogResult::NoResult)));
    assert_eq!(p.window_count(), 0);
    let cmds = p.update(Message::event(EventMessage::Closed(WindowId(5), DialogResult::NoResult)));
    assert!(has_exit(&cmds));
}

#[test]
fn broadcast_mutates_only_the_matching_window() {
    let mut p = fresh();
    p.update(Message::new_window(WindowId(0), TestWin::with_tag(2)));
    let w0_before = p.get_window(WindowId(0)).unwrap().data.clone();
    let cmds = p.update(bmsg(2));
    assert!(cmds.is_empty());
    assert_eq!(p.get_window(WindowId(1)).unwrap().data.hits, 1);
    assert_eq!(p.get_window(WindowId(0)).unwrap().data, w0_before);
    assert_eq!(p.title(WindowId(0)), "win1".to_string());
    assert_eq!(p.title(WindowId(1)), "win2".to_string());
}

#[test]
fn broadcast_derived_messages_are_processed() {
    let mut p = fresh();
    p.update(bmsg(1));
    p.update(bmsg(1));
    p.update(bmsg(999));
    assert_eq!(p.title(WindowId(0)), "hits=2".to_string());
}

#[test]
fn batch_applies_messages_in_list_order() {
    // A mutates state that B's handler reads: batching equals sequencing.
    let mut batched = fresh();
    batched.update(Message::MultMessage(vec![
        bmsg(1),
        bmsg(999),
    ]));
    let mut sequential = fresh();
    sequential.update(bmsg(1));
    sequential.update(bmsg(999));
    assert_eq!(batched.title(WindowId(0)), "hits=1".to_string());
    assert_eq!(batched.title(WindowId(0)), sequential.title(WindowId(0)));
    assert_eq!(
        batched.get_window(WindowId(0)).unwrap().data,
        sequential.get_window(WindowId(0)).unwrap().data
    );
}

#[test]
fn nested_batches_apply_depth_first() {
    let mut p = fresh();
    p.update(Message::MultMessage(vec![
        Message::MultMessage(vec![bmsg(1), bmsg(999)]),
        Message::TitleChanged(WindowId(0), "after".to_string()),
    ]));
    // The inner batch fully applies, derived messages included, before the
    // message that follows it.
    assert_eq!(p.get_window(WindowId(0)).unwrap().data.hits, 1);
    assert_eq!(p.title(WindowId(0)), "after".to_string());
}

#[test]
fn batch_aggregates_the_commands_of_its_messages() {
    let mut p = fresh();
    let cmds = p.update(Message::MultMessage(vec![
        Message::new_window(WindowId(0), TestWin::with_tag(2)),
        Message::new_window(WindowId(0), TestWin::with_tag(3)),
    ]));
    assert_eq!(p.window_count(), 3);
    assert_eq!(open_window_commands(&cmds).len(), 2);
}

#[test]
fn a_window_may_veto_its_close_request() {
    let mut veto_win = TestWin::with_tag(1);
    veto_win.veto = true;
    let (mut p, _) = Program::new(veto_win);
    let cmds = p.update(Message::event(EventMessage::CloseRequest(WindowId(0))));
    assert_eq!(p.window_count(), 1);
    assert!(cmds.is_empty());
}

#[test]
fn a_close_request_closes_by_default() {
    let mut p = fresh();
    let cmds = p.update(Message::event(EventMessage::CloseRequest(WindowId(0))));
    assert_eq!(p.window_count(), 0);
    assert!(cmds.contains(&HostCommand::CloseWindow(WindowId(0))));
    assert!(has_exit(&cmds));
}

#[test]
fn focus_reaction_is_routed_back_into_the_engine() {
    let mut win = TestWin::with_tag(1);
    win.focus_title = Some("focused".to_string());
    let (mut p, _) = Program::new(win);
    p.update(Message::event(EventMessage::Focused(WindowId(0))));
    assert_eq!(p.title(WindowId(0)), "focused".to_string());
}

#[test]
fn host_events_are_no_ops_by_default() {
    let mut p = fresh();
    let before = p.get_window(WindowId(0)).unwrap().data.clone();
    assert!(p.update(Message::event(EventMessage::Opened {
        id: WindowId(0),
        position: Some(Point { x: 3, y: 4 }),
        size: Size { width: 640, height: 480 },
    })).is_empty());
    assert!(p.update(Message::event(EventMessage::Moved { id: WindowId(0), x: 10, y: 20 })).is_empty());
    assert!(p.update(Message::event(EventMessage::Resized {
        id: WindowId(0),
        width: 800,
        height: 600,
    })).is_empty());
    assert!(p.update(Message::event(EventMessage::Unfocused(WindowId(0)))).is_empty());
    assert!(p.update(Message::Nothing).is_empty());
    assert_eq!(p.window_count(), 1);
    assert_eq!(p.get_window(WindowId(0)).unwrap().data, before);
}

#[test]
fn events_for_stale_ids_are_no_ops() {
    let mut p = fresh();
    assert!(p.update(Message::event(EventMessage::Focused(WindowId(9)))).is_empty());
    assert!(p.update(Message::event(EventMessage::Opened {
        id: WindowId(9),
        position: None,
        size: Size { width: 1, height: 1 },
    })).is_empty());
    assert_eq!(p.window_count(), 1);
}

#[test]
fn a_window_without_an_icon_inherits_the_root_icon() {
    let mut root = TestWin::with_tag(1);
    root.icon = Some(IconHandle(5));
    let (mut p, cmds) = Program::new(root);
    let opened = open_window_commands(&cmds);
    assert_eq!(opened[0].1.icon, Some(IconHandle(5)));
    let cmds = p.update(Message::new_window(WindowId(0), TestWin::with_tag(2)));
    let opened = open_window_commands(&cmds);
    assert_eq!(opened[0].1.icon, Some(IconHandle(5)));
    let mut own_icon = TestWin::with_tag(3);
    own_icon.icon = Some(IconHandle(7));
    let cmds = p.update(Message::new_window(WindowId(0), own_icon));
    let opened = open_window_commands(&cmds);
    assert_eq!(opened[0].1.icon, Some(IconHandle(7)));
}

#[test]
fn window_ids_are_never_reused() {
    let mut p = fresh();
    p.update(Message::new_window(WindowId(0), TestWin::with_tag(2)));
    p.update(Message::event(EventMessage::Close(WindowId(1), DialogResult::NoResult)));
    assert!(p.get_window(WindowId(1)).is_none());
    p.update(Message::new_window(WindowId(0), TestWin::with_tag(2)));
    assert!(p.get_window(WindowId(1)).is_none());
    assert_eq!(p.title(WindowId(2)), "win2".to_string());
}

#[test]
fn full_dialog_round_trip() {
    // The whole modal story in one sitting: open, duplicate drop, close
    // with an outcome, terminate.
    let (mut p, _) = Program::new(TestWin::with_tag(1));
    p.update(Message::show_dialog(WindowId(0), TestWin::with_tag(2), "updated".to_string()));
    assert_eq!(p.window_count(), 2);
    assert_eq!(p.get_window(WindowId(0)).unwrap().child_id, Some(WindowId(1)));

    p.update(Message::show_dialog(WindowId(0), TestWin::with_tag(2), "updated".to_string()));
    assert_eq!(p.window_count(), 2);

    p.update(Message::event(EventMessage::Close(WindowId(1), DialogResult::Okay)));
    assert_eq!(p.title(WindowId(0)), "updated".to_string());
    assert_eq!(p.get_window(WindowId(0)).unwrap().child_id, None);
    assert_eq!(p.window_count(), 1);

    let cmds = p.update(Message::event(EventMessage::Close(WindowId(0), DialogResult::NoResult)));
    assert_eq!(p.window_count(), 0);
    assert!(has_exit(&cmds));
}

#[test]
fn message_events_builds_an_ordered_batch() {
    let m: Message<TestWin> = Message::events(vec![
        EventMessage::Focused(WindowId(0)),
        EventMessage::Unfocused(WindowId(1)),
    ]);
    match m {
        Message::MultMessage(items) => {
            assert_eq!(items.len(), 2);
            assert!(matches!(
                items[0],
                Message::EventMessage(EventMessage::Focused(WindowId(0)))
            ));
            assert!(matches!(
                items[1],
                Message::EventMessage(EventMessage::Unfocused(WindowId(1)))
            ));
        },
        _ => panic!("events must build a batch"),
    }
}

#[test]
fn new_window_and_show_dialog_build_open_requests() {
    let m = Message::new_window(WindowId(3), TestWin::with_tag(4));
    match m {
        Message::NewWindow(wd) => {
            assert_eq!(wd.parent_id, Some(WindowId(3)));
            assert_eq!(wd.data_type_id, TypeTag(4));
            assert!(wd.callback.is_none());
        },
        _ => panic!("new_window must build an open request"),
    }
    let m = Message::show_dialog(WindowId(3), TestWin::with_tag(4), "done".to_string());
    match m {
        Message::NewWindow(wd) => {
            assert_eq!(wd.parent_id, Some(WindowId(3)));
            assert_eq!(wd.data_type_id, TypeTag(4));
            assert_eq!(wd.callback, Some("done".to_string()));
        },
        _ => panic!("show_dialog must build an open request"),
    }
}
