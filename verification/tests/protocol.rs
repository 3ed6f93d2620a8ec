use iced_kim::protocol::{
    DialogResult, EventMessage, IWindow, IWindowMessage, Message, Point, Size, TypeTag, Window,
    WindowData, WindowId, WindowMessage, WindowSettings, WindowView,
};

/// A window-specific payload carrying its vocabulary tag.
#[derive(Debug, Clone, PartialEq)]
struct Ping {
    tag: u64,
    round: u32,
}

impl IWindowMessage for Ping {
    fn spec_type_id(self) -> TypeTag {
        TypeTag(self.tag)
    }

    fn type_id(&self) -> TypeTag {
        TypeTag(self.tag)
    }
}

/// A minimal window kind whose broadcasts carry [`Ping`] payloads.
#[derive(Debug, Clone, PartialEq)]
struct PingWin {
    tag: u64,
}

impl IWindow for PingWin {
    type Payload = Ping;
    type Hook = u64;

    fn spec_new_window(self) -> WindowView<PingWin> {
        panic!("specification twin; never called at run time")
    }

    fn spec_type_tag(self) -> TypeTag {
        TypeTag(self.tag)
    }

    fn spec_update(self, id: WindowId, msg: Ping) -> (PingWin, Message<PingWin>) {
        let mut d = self;
        let m = d.update(id, &msg);
        (d, m)
    }

    fn spec_on_opened(self, id: WindowId, position: Option<Point>, size: Size) -> Message<PingWin> {
        self.on_opened(id, position, size)
    }

    fn spec_on_window_closed(self, id: WindowId, dialog_result: DialogResult) -> Message<PingWin> {
        self.on_window_closed(id, dialog_result)
    }

    fn spec_on_close_request(self, id: WindowId) -> Message<PingWin> {
        self.on_close_request(id)
    }

    fn spec_on_focus(self, id: WindowId) -> Message<PingWin> {
        self.on_focus(id)
    }

    fn spec_on_unfocus(self, id: WindowId) -> Message<PingWin> {
        self.on_unfocus(id)
    }

    fn spec_on_moved(self, id: WindowId, x: i32, y: i32) -> Message<PingWin> {
        self.on_moved(id, x, y)
    }

    fn spec_on_resized(self, id: WindowId, width: u32, height: u32) -> Message<PingWin> {
        self.on_resized(id, width, height)
    }

    fn spec_hook(
        hook: u64,
        parent_id: WindowId,
        dialog_result: DialogResult,
        parent: PingWin,
    ) -> Message<PingWin> {
        PingWin::run_hook(&hook, parent_id, dialog_result, &parent)
    }

    fn new_window(&self) -> Window<PingWin> {
        Window {
            title: "ping".to_string(),
            settings: WindowSettings::new(Size { width: 100, height: 100 }),
            parent_id: None,
            child_id: None,
            data: self.clone(),
            data_type_id: TypeTag(self.tag),
            window_closed_callback: None,
        }
    }

    fn type_tag(&self) -> TypeTag {
        TypeTag(self.tag)
    }

    fn update(&mut self, _id: WindowId, _msg: &Ping) -> Message<PingWin> {
        Message::Nothing
    }

    fn on_opened(&self, _id: WindowId, _position: Option<Point>, _size: Size) -> Message<PingWin> {
        Message::Nothing
    }

    fn on_window_closed(&self, _id: WindowId, _dialog_result: DialogResult) -> Message<PingWin> {
        Message::Nothing
    }

    fn on_close_request(&self, id: WindowId) -> Message<PingWin> {
        Message::event(EventMessage::Close(id, DialogResult::NoResult))
    }

    fn on_focus(&self, _id: WindowId) -> Message<PingWin> {
        Message::Nothing
    }

    fn on_unfocus(&self, _id: WindowId) -> Message<PingWin> {
        Message::Nothing
    }

    fn on_moved(&self, _id: WindowId, _x: i32, _y: i32) -> Message<PingWin> {
        Message::Nothing
    }

    fn on_resized(&self, _id: WindowId, _width: u32, _height: u32) -> Message<PingWin> {
        Message::Nothing
    }

    fn run_hook(
        _hook: &u64,
        _parent_id: WindowId,
        _dialog_result: DialogResult,
        _parent: &PingWin,
    ) -> Message<PingWin> {
        Message::Nothing
    }
}

#[test]
fn window_message_new_carries_the_payload_tag() {
    let wm = WindowMessage::new(Ping { tag: 11, round: 3 });
    assert_eq!(wm.msg_type_id, TypeTag(11));
    assert_eq!(wm.msg, Ping { tag: 11, round: 3 });
}

#[test]
fn message_window_message_wraps_a_payload() {
    let m: Message<PingWin> = Message::window_message(Ping { tag: 8, round: 1 });
    match m {
        Message::WindowMessage(wm) => {
            assert_eq!(wm.msg_type_id, TypeTag(8));
            assert_eq!(wm.msg.round, 1);
        },
        _ => panic!("window_message must wrap into a broadcast"),
    }
}

#[test]
fn message_window_messages_builds_an_ordered_batch() {
    let m: Message<PingWin> = Message::window_messages(vec![
        Ping { tag: 1, round: 1 },
        Ping { tag: 2, round: 2 },
    ]);
    match m {
        Message::MultMessage(items) => {
            assert_eq!(items.len(), 2);
            match &items[0] {
                Message::WindowMessage(wm) => assert_eq!(wm.msg_type_id, TypeTag(1)),
                _ => panic!("expected a broadcast"),
            }
            match &items[1] {
                Message::WindowMessage(wm) => assert_eq!(wm.msg_type_id, TypeTag(2)),
                _ => panic!("expected a broadcast"),
            }
        },
        _ => panic!("window_messages must build a batch"),
    }
}

#[test]
fn window_data_new_has_no_hook() {
    let wd = WindowData::new(Some(WindowId(4)), PingWin { tag: 6 });
    assert_eq!(wd.parent_id, Some(WindowId(4)));
    assert_eq!(wd.data_type_id, TypeTag(6));
    assert_eq!(wd.data, PingWin { tag: 6 });
    assert!(wd.callback.is_none());
}

#[test]
fn window_settings_new_defaults() {
    let s = WindowSettings::new(Size { width: 300, height: 200 });
    assert_eq!(s.size, Size { width: 300, height: 200 });
    assert!(s.resizable);
    assert!(!s.exit_on_close_request);
    assert!(s.icon.is_none());
}

#[test]
fn dialog_results_compare_by_variant_and_code() {
    assert_eq!(DialogResult::Okay, DialogResult::Okay);
    assert_ne!(DialogResult::Okay, DialogResult::Cancel);
    assert_eq!(DialogResult::Custom(7), DialogResult::Custom(7));
    assert_ne!(DialogResult::Custom(7), DialogResult::Custom(8));
    assert_ne!(DialogResult::NoResult, DialogResult::No);
    assert_ne!(DialogResult::Retry, DialogResult::TryAgain);
    assert_ne!(DialogResult::Yes, DialogResult::Ignore);
    assert_ne!(DialogResult::Abort, DialogResult::Continue);
}
