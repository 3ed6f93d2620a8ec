//! The message protocol and the window entity: the vocabulary every window
//! kind and the routing engine share.
//!
//! A window's application state is any type implementing [`IWindow`]; the
//! routing engine is generic over that type. Each window kind is told apart by
//! a [`TypeTag`] value, compared by equality, so that at most one window of a
//! kind is ever live at a time.

use vstd::prelude::*;

verus! {

/// Identity of one live window. Assigned by the routing engine when a window
/// is opened and never reused for the lifetime of the engine.
#[derive(Debug, Clone, Copy, PartialEq, Eq, Structural, Hash)]
pub struct WindowId(pub u64);

/// Identifies the *kind* of a window's application state: one tag per window
/// "page" type. Used only for the singleton-per-kind rule, never for content.
#[derive(Debug, Clone, Copy, PartialEq, Eq, Structural, Hash)]
pub struct TypeTag(pub u64);

/// An opaque handle to a host icon resource. The engine only copies it around;
/// the host adapter decides what it denotes.
#[derive(Debug, Clone, Copy, PartialEq, Eq, Structural)]
pub struct IconHandle(pub u64);

/// An opaque theme chosen by the host or the application; the engine stores
/// the latest one verbatim.
#[derive(Debug, Clone, Copy, PartialEq, Eq, Structural)]
pub struct ThemeCode(pub u64);

/// An opaque scale-factor encoding chosen by the host adapter (for example a
/// bit pattern of its floating-point factor); stored verbatim.
#[derive(Debug, Clone, Copy, PartialEq, Eq, Structural)]
pub struct ScaleCode(pub u64);

/// A logical point reported by the host for window positions.
#[derive(Debug, Clone, Copy, PartialEq, Eq, Structural)]
pub struct Point {
    pub x: i32,
    pub y: i32,
}

/// A logical size reported by the host or requested for a window.
#[derive(Debug, Clone, Copy, PartialEq, Eq, Structural)]
pub struct Size {
    pub width: u32,
    pub height: u32,
}

/// Dialog outcome attached to window-close events; carries user intent from a
/// closed window to its parent's close hook.
#[derive(Debug, Clone, Copy, PartialEq, Eq, Structural)]
pub enum DialogResult {
    /// No outcome was recorded (the window was simply closed).
    NoResult,
    Okay,
    Cancel,
    Abort,
    Retry,
    Ignore,
    Yes,
    No,
    TryAgain,
    Continue,
    Custom(u32),
}

/// Declarative configuration for one window, handed verbatim to the host when
/// the window is opened. The routing engine reads only the `icon` field: a
/// window opened without an icon inherits the engine's root icon.
#[derive(Debug, Clone, Copy, PartialEq)]
pub struct WindowSettings {
    /// Requested inner size of the window.
    pub size: Size,
    /// Whether the user may resize the window.
    pub resizable: bool,
    /// When false the host reports a close request instead of closing by
    /// itself, which lets a window veto its own closing.
    pub exit_on_close_request: bool,
    /// The window's icon; inherited from the root window when absent.
    pub icon: Option<IconHandle>,
}

impl WindowSettings {
    /// A plain resizable window with no icon of its own.
    pub fn new(size: Size) -> (r: Self)
        ensures
            r == (WindowSettings {
                size,
                resizable: true,
                exit_on_close_request: false,
                icon: Option::<IconHandle>::None,
            }),
    {
        WindowSettings { size, resizable: true, exit_on_close_request: false, icon: None }
    }
}

/// One live window: identity-free record combining configuration, links to
/// its parent and (at most one) modal child, the opaque application state,
/// the state's kind tag and the optional one-shot close hook.
///
/// Its specification-level twin is [`WindowView`]; `w@` abstracts the title
/// to its character sequence and keeps every other field as it is.
pub struct Window<B: IWindow> {
    /// The window title, shown by the host.
    pub title: String,
    /// Configuration handed to the host when the window opens.
    pub settings: WindowSettings,
    /// The window this one was opened from, if any; a weak back-reference
    /// used for lookup only, never mutated after creation.
    pub parent_id: Option<WindowId>,
    /// The currently open modal child, if any; non-null only while that child
    /// is alive, cleared the instant the child is fully removed.
    pub child_id: Option<WindowId>,
    /// The window's own application state.
    pub data: B,
    /// The kind tag of `data`; at most one live window per tag.
    pub data_type_id: TypeTag,
    /// One-shot callback run when this window receives its close event; it
    /// observes the *parent's* state and the dialog outcome.
    pub window_closed_callback: Option<B::Hook>,
}

/// The specification-level twin of a [`Window`] record: the same fields,
/// with the title as its character sequence. All of the routing engine's
/// contracts speak of windows in this form.
pub ghost struct WindowView<B: IWindow> {
    /// The window title.
    pub title: Seq<char>,
    /// Configuration handed to the host when the window opens.
    pub settings: WindowSettings,
    /// The window this one was opened from, if any.
    pub parent_id: Option<WindowId>,
    /// The currently open modal child, if any.
    pub child_id: Option<WindowId>,
    /// The window's own application state.
    pub data: B,
    /// The kind tag of `data`.
    pub data_type_id: TypeTag,
    /// One-shot callback run when this window receives its close event.
    pub window_closed_callback: Option<B::Hook>,
}

impl<B: IWindow> View for Window<B> {
    type V = WindowView<B>;

    open spec fn view(&self) -> WindowView<B> {
        WindowView {
            title: self.title@,
            settings: self.settings,
            parent_id: self.parent_id,
            child_id: self.child_id,
            data: self.data,
            data_type_id: self.data_type_id,
            window_closed_callback: self.window_closed_callback,
        }
    }
}

/// Host-reported window events, wrapped into [`Message::EventMessage`].
#[derive(Debug, Clone, Copy, PartialEq)]
pub enum EventMessage {
    /// The authoritative decision to close a window, with its outcome.
    Close(WindowId, DialogResult),
    /// The host finished opening a window.
    Opened { id: WindowId, position: Option<Point>, size: Size },
    /// A window is fully torn down.
    Closed(WindowId, DialogResult),
    /// The host moved a window.
    Moved { id: WindowId, x: i32, y: i32 },
    /// The host resized a window.
    Resized { id: WindowId, width: u32, height: u32 },
    /// The host asks to close a window; the window may veto.
    CloseRequest(WindowId),
    /// A window gained focus.
    Focused(WindowId),
    /// A window lost focus.
    Unfocused(WindowId),
}

/// Implemented by every window-specific payload type: it names the window
/// vocabulary the payload belongs to, so a broadcast can carry the tag along.
pub trait IWindowMessage: Sized {
    /// The tag of the window vocabulary this payload value belongs to.
    spec fn spec_type_id(self) -> TypeTag;

    /// Computes the vocabulary tag of this payload value.
    fn type_id(&self) -> (t: TypeTag)
        ensures
            t == self.spec_type_id(),
    ;
}

/// A broadcast payload together with the tag of the vocabulary it belongs to.
/// The engine never reads the tag: each window checks for itself whether the
/// payload is meant for it.
#[derive(Debug, Clone, PartialEq)]
pub struct WindowMessage<P> {
    /// The window-specific payload.
    pub msg: P,
    /// The tag of the vocabulary `msg` belongs to.
    pub msg_type_id: TypeTag,
}

impl<P: IWindowMessage> WindowMessage<P> {
    /// Wraps a payload with its own vocabulary tag.
    pub fn new(msg: P) -> (r: Self)
        ensures
            r.msg == msg,
            r.msg_type_id == msg.spec_type_id(),
    {
        let t = msg.type_id();
        WindowMessage { msg, msg_type_id: t }
    }
}

/// A request to open one new window: the state to build it from, its kind
/// tag, the requesting (parent) window and the optional close hook.
pub struct WindowData<B: IWindow> {
    /// The window the request came from; becomes the new window's parent.
    pub parent_id: Option<WindowId>,
    /// The application state the new window is materialized from.
    pub data: B,
    /// The kind tag of `data`; the request is dropped while a window of this
    /// tag is live.
    pub data_type_id: TypeTag,
    /// Close hook to attach to the new window, if any.
    pub callback: Option<B::Hook>,
}

impl<B: IWindow> WindowData<B> {
    /// A plain open request without a close hook.
    pub fn new(parent_id: Option<WindowId>, data: B) -> (r: Self)
        ensures
            r.parent_id == parent_id,
            r.data == data,
            r.data_type_id == data.spec_type_tag(),
            r.callback is None,
    {
        let t = data.type_tag();
        WindowData { parent_id, data, data_type_id: t, callback: None }
    }
}

/// The only unit of communication into the routing engine; immutable once
/// constructed. `Nothing` is the no-op every handler may answer with.
pub enum Message<B: IWindow> {
    /// Do nothing.
    Nothing,
    /// Change the shared theme of all windows.
    Theme(ThemeCode),
    /// Change the shared scale factor of all windows.
    Scale(ScaleCode),
    /// Change the title of one window; a stale id is a silent no-op.
    TitleChanged(WindowId, String),
    /// A host-reported window event.
    EventMessage(EventMessage),
    /// Broadcast a window-specific payload to every live window.
    WindowMessage(WindowMessage<B::Payload>),
    /// Ask for a new window; dropped while a window of the same tag is live.
    NewWindow(WindowData<B>),
    /// An ordered batch, processed one message after another.
    MultMessage(Vec<Message<B>>),
    /// End the program.
    Exit,
}

impl<B: IWindow> Message<B> {
    /// Wraps a single window event.
    pub fn event(msg: EventMessage) -> (r: Self)
        ensures
            r == Message::<B>::EventMessage(msg),
    {
        Message::EventMessage(msg)
    }

    /// Wraps several window events into one ordered batch.
    pub fn events(msgs: Vec<EventMessage>) -> (r: Self)
        ensures
            r matches Message::MultMessage(b) && b@ =~= msgs@.map_values(
                |e: EventMessage| Message::<B>::EventMessage(e),
            ),
    {
        let mut batch: Vec<Message<B>> = Vec::new();
        let mut i: usize = 0;
        while i < msgs.len()
            invariant
                i <= msgs.len(),
                batch@ =~= msgs@.subrange(0, i as int).map_values(
                    |e: EventMessage| Message::<B>::EventMessage(e),
                ),
            decreases msgs.len() - i,
        {
            batch.push(Message::EventMessage(msgs[i]));
            proof {
                let f = |e: EventMessage| Message::<B>::EventMessage(e);
                assert(msgs@.subrange(0, i as int + 1) =~= msgs@.subrange(0, i as int).push(
                    msgs@[i as int],
                ));
                assert(msgs@.subrange(0, i as int + 1).map_values(f) =~= msgs@.subrange(
                    0,
                    i as int,
                ).map_values(f).push(f(msgs@[i as int])));
            }
            i = i + 1;
        }
        proof {
            assert(msgs@.subrange(0, msgs@.len() as int) =~= msgs@);
        }
        Message::MultMessage(batch)
    }

    /// Wraps one window-specific payload for broadcast.
    pub fn window_message(msg: B::Payload) -> (r: Self)
        where
            B::Payload: IWindowMessage,
        ensures
            r matches Message::WindowMessage(w) && w.msg == msg && w.msg_type_id
                == msg.spec_type_id(),
    {
        Message::WindowMessage(WindowMessage::new(msg))
    }

    /// Wraps several window-specific payloads into one ordered batch of
    /// broadcasts.
    pub fn window_messages(msgs: Vec<B::Payload>) -> (r: Self)
        where
            B::Payload: IWindowMessage,
        ensures
            r matches Message::MultMessage(b) && b@.len() == msgs@.len() && (forall|j: int|
                0 <= j < msgs@.len() ==> (#[trigger] b@[j] matches Message::WindowMessage(w)
                    && w.msg == msgs@[j] && w.msg_type_id == msgs@[j].spec_type_id())),
    {
        let mut msgs = msgs;
        let ghost orig = msgs@;
        let mut batch: Vec<Message<B>> = Vec::new();
        proof {
            assert(msgs@ =~= orig.skip(0));
        }
        while msgs.len() > 0
            invariant
                batch@.len() + msgs@.len() == orig.len(),
                msgs@ == orig.skip(batch@.len() as int),
                forall|j: int|
                    0 <= j < batch@.len() ==> (#[trigger] batch@[j] matches Message::WindowMessage(
                        w,
                    ) && w.msg == orig[j] && w.msg_type_id == orig[j].spec_type_id()),
            decreases msgs.len(),
        {
            let ghost k = batch@.len() as int;
            let p = msgs.remove(0);
            proof {
                assert(p == orig.skip(k)[0]);
                assert(orig.skip(k)[0] == orig[k]);
            }
            batch.push(Message::WindowMessage(WindowMessage::new(p)));
            proof {
                assert(msgs@ =~= orig.skip(k + 1));
            }
        }
        Message::MultMessage(batch)
    }

    /// A request to open a new window from `data`, with the requesting window
    /// `id` as its parent and no close hook.
    pub fn new_window(id: WindowId, data: B) -> (r: Self)
        ensures
            r matches Message::NewWindow(w) && w.parent_id == Some(id) && w.data == data
                && w.data_type_id == data.spec_type_tag() && w.callback is None,
    {
        Message::NewWindow(WindowData::new(Some(id), data))
    }

    /// A request to open a new window from `data` with a close hook attached:
    /// when the new window closes, the hook runs against the state of the
    /// requesting window `id` and sees the dialog outcome.
    pub fn show_dialog(id: WindowId, data: B, window_close_callback: B::Hook) -> (r: Self)
        ensures
            r matches Message::NewWindow(w) && w.parent_id == Some(id) && w.data == data
                && w.data_type_id == data.spec_type_tag() && w.callback == Some(
                window_close_callback,
            ),
    {
        let t = data.type_tag();
        Message::NewWindow(
            WindowData { parent_id: Some(id), data, data_type_id: t, callback: Some(window_close_callback) },
        )
    }
}

/// The capability every window kind implements: how to materialize its
/// window, how to react to host events, broadcasts and closing, and how its
/// close hooks run.
///
/// Each exec method is pinned to a spec-level twin, so that the routing
/// engine's behaviour is fully described at the specification level.
pub trait IWindow: Sized {
    /// The window-specific payload vocabulary broadcasts carry.
    type Payload;

    /// The close-hook values windows of this kind may attach to children.
    type Hook;

    /// Model of [`Self::new_window`].
    spec fn spec_new_window(self) -> WindowView<Self>;

    /// Builds this window's initial record: title, settings and owned state.
    /// Called once, when an accepted open request is materialized. The
    /// record agrees with [`Self::spec_new_window`] field by field (stated
    /// so rather than as one view equation, which the termination check of
    /// trait specifications does not take).
    fn new_window(&self) -> (w: Window<Self>)
        ensures
            w.title@ == self.spec_new_window().title,
            w.settings == self.spec_new_window().settings,
            w.parent_id == self.spec_new_window().parent_id,
            w.child_id == self.spec_new_window().child_id,
            w.data == self.spec_new_window().data,
            w.data_type_id == self.spec_new_window().data_type_id,
            w.window_closed_callback == self.spec_new_window().window_closed_callback,
    ;

    /// Model of [`Self::type_tag`].
    spec fn spec_type_tag(self) -> TypeTag;

    /// The kind tag of this state value, compared for the singleton rule.
    fn type_tag(&self) -> (t: TypeTag)
        ensures
            t == self.spec_type_tag(),
    ;

    /// Model of [`Self::update`]: the state after the delivery and the
    /// derived message.
    spec fn spec_update(self, id: WindowId, msg: Self::Payload) -> (Self, Message<Self>);

    /// Delivers a broadcast payload to this window. A payload that does not
    /// belong to this window's vocabulary is answered with
    /// [`Message::Nothing`] and must leave the state unchanged.
    fn update(&mut self, id: WindowId, msg: &Self::Payload) -> (m: Message<Self>)
        ensures
            (*final(self), m) == old(self).spec_update(id, *msg),
    ;

    /// Model of [`Self::on_opened`].
    spec fn spec_on_opened(self, id: WindowId, position: Option<Point>, size: Size) -> Message<
        Self,
    >;

    /// Reaction to the host finishing the opening of this window.
    fn on_opened(&self, id: WindowId, position: Option<Point>, size: Size) -> (m: Message<Self>)
        ensures
            m == self.spec_on_opened(id, position, size),
    ;

    /// Model of [`Self::on_window_closed`].
    spec fn spec_on_window_closed(self, id: WindowId, dialog_result: DialogResult) -> Message<
        Self,
    >;

    /// Last chance to react before this window's record is discarded.
    fn on_window_closed(&self, id: WindowId, dialog_result: DialogResult) -> (m: Message<Self>)
        ensures
            m == self.spec_on_window_closed(id, dialog_result),
    ;

    /// Model of [`Self::on_close_request`].
    spec fn spec_on_close_request(self, id: WindowId) -> Message<Self>;

    /// The host asked to close this window. Answering
    /// `Message::event(EventMessage::Close(id, DialogResult::NoResult))`
    /// accepts; answering [`Message::Nothing`] vetoes.
    fn on_close_request(&self, id: WindowId) -> (m: Message<Self>)
        ensures
            m == self.spec_on_close_request(id),
    ;

    /// Model of [`Self::on_focus`].
    spec fn spec_on_focus(self, id: WindowId) -> Message<Self>;

    /// Reaction to this window gaining focus.
    fn on_focus(&self, id: WindowId) -> (m: Message<Self>)
        ensures
            m == self.spec_on_focus(id),
    ;

    /// Model of [`Self::on_unfocus`].
    spec fn spec_on_unfocus(self, id: WindowId) -> Message<Self>;

    /// Reaction to this window losing focus.
    fn on_unfocus(&self, id: WindowId) -> (m: Message<Self>)
        ensures
            m == self.spec_on_unfocus(id),
    ;

    /// Model of [`Self::on_moved`].
    spec fn spec_on_moved(self, id: WindowId, x: i32, y: i32) -> Message<Self>;

    /// Reaction to the host moving this window.
    fn on_moved(&self, id: WindowId, x: i32, y: i32) -> (m: Message<Self>)
        ensures
            m == self.spec_on_moved(id, x, y),
    ;

    /// Model of [`Self::on_resized`].
    spec fn spec_on_resized(self, id: WindowId, width: u32, height: u32) -> Message<Self>;

    /// Reaction to the host resizing this window.
    fn on_resized(&self, id: WindowId, width: u32, height: u32) -> (m: Message<Self>)
        ensures
            m == self.spec_on_resized(id, width, height),
    ;

    /// Model of [`Self::run_hook`].
    spec fn spec_hook(
        hook: Self::Hook,
        parent_id: WindowId,
        dialog_result: DialogResult,
        parent: Self,
    ) -> Message<Self>;

    /// Runs a close hook: it observes the *parent's* state together with the
    /// closing window's dialog outcome, and answers a message the engine
    /// processes before the closed window is torn down.
    fn run_hook(
        hook: &Self::Hook,
        parent_id: WindowId,
        dialog_result: DialogResult,
        parent: &Self,
    ) -> (m: Message<Self>)
        ensures
            m == Self::spec_hook(*hook, parent_id, dialog_result, *parent),
    ;
}

} // verus!
