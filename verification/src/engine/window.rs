//! The settings a window is built with, and what a window remembers of the
//! keys, the mouse buttons and its size from frame to frame.

use vstd::prelude::*;

verus! {

/// The number of key codes; a key code is less than this.
pub const KEY_COUNT: usize = 349;

/// The number of mouse button codes.
pub const MOUSE_BUTTON_COUNT: usize = 8;

pub const KEY_SPACE: usize = 32;

pub const KEY_S: usize = 83;

pub const KEY_Z: usize = 90;

pub const KEY_LEFT_SHIFT: usize = 340;

pub const KEY_LEFT_CONTROL: usize = 341;

pub const KEY_LEFT_ALT: usize = 342;

pub const KEY_RIGHT_SHIFT: usize = 344;

pub const KEY_RIGHT_CONTROL: usize = 345;

pub const KEY_RIGHT_ALT: usize = 346;

pub const MOUSE_BUTTON_LEFT: usize = 0;

/// The settings of a window, as a mathematical value.
#[verifier::ext_equal]
pub struct WindowSettings {
    pub width: u32,
    pub height: u32,
    pub title: Seq<char>,
    pub vsync: bool,
    pub max_fps: u32,
    pub msaa: u32,
}

impl WindowSettings {
    /// The time a frame lasts at least, in nanoseconds: none without a frame
    /// rate limit, and otherwise a second divided by the limit, rounded down.
    pub open spec fn frame_nanos(self) -> int {
        if self.max_fps == 0 {
            0
        } else {
            1000000000int / (self.max_fps as int)
        }
    }
}

/// Collects the settings of a window.
pub struct WindowBuilder {
    width: u32,
    height: u32,
    title: String,
    vsync: bool,
    max_fps: u32,
    msaa: u32,
}

impl View for WindowBuilder {
    type V = WindowSettings;

    closed spec fn view(&self) -> WindowSettings {
        WindowSettings {
            width: self.width,
            height: self.height,
            title: self.title@,
            vsync: self.vsync,
            max_fps: self.max_fps,
            msaa: self.msaa,
        }
    }
}

impl Default for WindowBuilder {
    /// A window of 960 by 540 pixels named "Untitled", synchronised with the
    /// display, without frame rate limit and without multisampling.
    fn default() -> (b: WindowBuilder)
        ensures
            b@ == (WindowSettings {
                width: 960,
                height: 540,
                title: "Untitled"@,
                vsync: true,
                max_fps: 0,
                msaa: 0,
            }),
    {
        WindowBuilder {
            width: 960,
            height: 540,
            title: "Untitled".to_owned(),
            vsync: true,
            max_fps: 0,
            msaa: 0,
        }
    }
}

impl WindowBuilder {
    /// The frame rate limit that stands for no limit.
    pub const NO_MAX_FPS: u32 = 0;

    pub fn with_size(self, width: u32, height: u32) -> (b: WindowBuilder)
        ensures
            b@ == (WindowSettings { width, height, ..self@ }),
    {
        let mut b = self;
        b.width = width;
        b.height = height;
        b
    }

    pub fn with_title(self, title: &str) -> (b: WindowBuilder)
        ensures
            b@ == (WindowSettings { title: title@, ..self@ }),
    {
        let mut b = self;
        b.title = title.to_owned();
        b
    }

    pub fn with_vsync(self, vsync: bool) -> (b: WindowBuilder)
        ensures
            b@ == (WindowSettings { vsync, ..self@ }),
    {
        let mut b = self;
        b.vsync = vsync;
        b
    }

    pub fn with_max_fps(self, max_fps: u32) -> (b: WindowBuilder)
        ensures
            b@ == (WindowSettings { max_fps, ..self@ }),
    {
        let mut b = self;
        b.max_fps = max_fps;
        b
    }

    pub fn with_msaa(self, msaa_quality: u32) -> (b: WindowBuilder)
        ensures
            b@ == (WindowSettings { msaa: msaa_quality, ..self@ }),
    {
        let mut b = self;
        b.msaa = msaa_quality;
        b
    }

    pub fn width(&self) -> (width: u32)
        ensures
            width == self@.width,
    {
        self.width
    }

    pub fn height(&self) -> (height: u32)
        ensures
            height == self@.height,
    {
        self.height
    }

    pub fn title(&self) -> (title: &str)
        ensures
            title@ == self@.title,
    {
        self.title.as_str()
    }

    pub fn vsync(&self) -> (vsync: bool)
        ensures
            vsync == self@.vsync,
    {
        self.vsync
    }

    pub fn max_fps(&self) -> (max_fps: u32)
        ensures
            max_fps == self@.max_fps,
    {
        self.max_fps
    }

    pub fn msaa(&self) -> (msaa: u32)
        ensures
            msaa == self@.msaa,
    {
        self.msaa
    }

    /// The time a frame lasts at least, in nanoseconds.
    pub fn frame_nanos(&self) -> (nanos: u64)
        ensures
            nanos == self@.frame_nanos(),
    {
        if self.max_fps == Self::NO_MAX_FPS {
            0
        } else {
            1000000000u64 / (self.max_fps as u64)
        }
    }

    /// The state of the window that these settings give, once the window
    /// exists and its framebuffer has the given size.
    pub fn build(&self, framebuffer_width: u32, framebuffer_height: u32) -> (w: Window)
        ensures
            w@ == WindowState::new(
                framebuffer_width,
                framebuffer_height,
                self@.frame_nanos() as u64,
            ),
    {
        Window::new(framebuffer_width, framebuffer_height, self.frame_nanos())
    }
}

/// What happened to a key or a mouse button.
#[derive(Clone, Copy, PartialEq, Eq, Debug, Structural)]
pub enum Action {
    Release,
    Press,
    Repeat,
}

/// What a window remembers, as a mathematical value.
#[verifier::ext_equal]
pub struct WindowState {
    /// For each key the frame in which it went down, zero while it is up.
    pub keys: Seq<u64>,
    /// For each mouse button the frame in which it went down, zero while it
    /// is up.
    pub mouse_buttons: Seq<u64>,
    pub current_frame: u64,
    /// The time a frame lasts at least, in nanoseconds.
    pub frame_nanos: u64,
    pub width: u32,
    pub height: u32,
    pub last_width: u32,
    pub last_height: u32,
}

/// The frame stamp of a key or button after an action in frame `frame`.
pub open spec fn stamp_after(stamp: u64, action: Action, frame: u64) -> u64 {
    match action {
        Action::Press => frame,
        Action::Release => 0,
        Action::Repeat => stamp,
    }
}

impl WindowState {
    pub open spec fn new(width: u32, height: u32, frame_nanos: u64) -> WindowState {
        WindowState {
            keys: Seq::new(KEY_COUNT as nat, |k: int| 0u64),
            mouse_buttons: Seq::new(MOUSE_BUTTON_COUNT as nat, |k: int| 0u64),
            current_frame: 0,
            frame_nanos,
            width,
            height,
            last_width: width,
            last_height: height,
        }
    }

    /// There is a stamp for each key and each mouse button.
    pub open spec fn wf(self) -> bool {
        &&& self.keys.len() == KEY_COUNT
        &&& self.mouse_buttons.len() == MOUSE_BUTTON_COUNT
    }

    /// A frame begins: the frame count goes up by one, and stays where it
    /// cannot go further.
    pub open spec fn begin_frame(self) -> WindowState {
        WindowState {
            current_frame: if self.current_frame < u64::MAX {
                (self.current_frame + 1) as u64
            } else {
                self.current_frame
            },
            ..self
        }
    }

    /// The framebuffer has a new size; the size it had is kept as the last
    /// one.
    pub open spec fn framebuffer_size(self, width: u32, height: u32) -> WindowState {
        WindowState {
            last_width: self.width,
            last_height: self.height,
            width,
            height,
            ..self
        }
    }

    /// A key went down, came up or repeats.
    pub open spec fn key_event(self, key: int, action: Action) -> WindowState {
        WindowState {
            keys: self.keys.update(key, stamp_after(self.keys[key], action, self.current_frame)),
            ..self
        }
    }

    /// A mouse button went down, came up or repeats.
    pub open spec fn mouse_button_event(self, button: int, action: Action) -> WindowState {
        WindowState {
            mouse_buttons: self.mouse_buttons.update(
                button,
                stamp_after(self.mouse_buttons[button], action, self.current_frame),
            ),
            ..self
        }
    }

    /// A key is down while its stamp is not zero.
    pub open spec fn key_pressed(self, key: int) -> bool {
        self.keys[key] > 0
    }

    /// A key went down in this frame if its stamp is the current frame.
    pub open spec fn key_just_pressed(self, key: int) -> bool {
        self.keys[key] == self.current_frame
    }

    pub open spec fn mouse_button_pressed(self, button: int) -> bool {
        self.mouse_buttons[button] > 0
    }

    pub open spec fn mouse_button_just_pressed(self, button: int) -> bool {
        self.mouse_buttons[button] == self.current_frame
    }

    /// How long to wait before the next frame, in nanoseconds, when the last
    /// one began `elapsed` nanoseconds ago: the rest of the frame time, none if it
    /// is over.
    pub open spec fn pause(self, elapsed: u64) -> Option<u64> {
        if elapsed < self.frame_nanos {
            Some((self.frame_nanos - elapsed) as u64)
        } else {
            None
        }
    }
}

/// What a window is told between two frames.
#[derive(Clone, Copy, PartialEq, Eq, Debug, Structural)]
pub enum WindowEvent {
    /// The framebuffer has a new width and height.
    FramebufferSize(u32, u32),
    /// Something happened to the key with this code.
    Key(usize, Action),
    /// Something happened to the mouse button with this code.
    MouseButton(usize, Action),
}

impl WindowEvent {
    /// The event names a key or a button that exists.
    pub open spec fn in_range(self) -> bool {
        match self {
            WindowEvent::FramebufferSize(_, _) => true,
            WindowEvent::Key(key, _) => key < KEY_COUNT,
            WindowEvent::MouseButton(button, _) => button < MOUSE_BUTTON_COUNT,
        }
    }
}

impl WindowState {
    /// The window after one event.
    pub open spec fn handle(self, event: WindowEvent) -> WindowState {
        match event {
            WindowEvent::FramebufferSize(width, height) => self.framebuffer_size(width, height),
            WindowEvent::Key(key, action) => self.key_event(key as int, action),
            WindowEvent::MouseButton(button, action) => self.mouse_button_event(
                button as int,
                action,
            ),
        }
    }

    /// The window after the events, taken in order.
    pub open spec fn handle_all(self, events: Seq<WindowEvent>) -> WindowState
        decreases events.len(),
    {
        if events.len() == 0 {
            self
        } else {
            self.handle_all(events.drop_last()).handle(events.last())
        }
    }

    /// A frame begins and the events that came since the last one are taken.
    pub open spec fn poll_events(self, events: Seq<WindowEvent>) -> WindowState {
        self.begin_frame().handle_all(events)
    }
}

/// What a window remembers of the keys, the mouse buttons and its size.
pub struct Window {
    keys: [u64; KEY_COUNT],
    mouse_buttons: [u64; MOUSE_BUTTON_COUNT],
    current_frame: u64,
    frame_nanos: u64,
    width: u32,
    height: u32,
    last_width: u32,
    last_height: u32,
}

impl View for Window {
    type V = WindowState;

    closed spec fn view(&self) -> WindowState {
        WindowState {
            keys: self.keys@,
            mouse_buttons: self.mouse_buttons@,
            current_frame: self.current_frame,
            frame_nanos: self.frame_nanos,
            width: self.width,
            height: self.height,
            last_width: self.last_width,
            last_height: self.last_height,
        }
    }
}

impl Window {
    /// The state of a new window whose framebuffer has the given size: no
    /// key and no button is down, and no frame has begun.
    pub fn new(width: u32, height: u32, frame_nanos: u64) -> (w: Window)
        ensures
            w@ == WindowState::new(width, height, frame_nanos),
            w@.wf(),
    {
        let w = Window {
            keys: [0u64; KEY_COUNT],
            mouse_buttons: [0u64; MOUSE_BUTTON_COUNT],
            current_frame: 0,
            frame_nanos,
            width,
            height,
            last_width: width,
            last_height: height,
        };
        assert(w@ =~= WindowState::new(width, height, frame_nanos));
        w
    }

    /// How long to wait before the next frame, in nanoseconds.
    pub fn pause(&self, elapsed: u64) -> (nanos: Option<u64>)
        ensures
            nanos == self@.pause(elapsed),
    {
        if elapsed < self.frame_nanos {
            Some(self.frame_nanos - elapsed)
        } else {
            None
        }
    }

    /// Begins a frame.
    pub fn begin_frame(&mut self)
        ensures
            final(self)@ == old(self)@.begin_frame(),
    {
        if self.current_frame < u64::MAX {
            self.current_frame += 1;
        }
    }

    /// Takes the new size of the framebuffer.
    pub fn framebuffer_size(&mut self, width: u32, height: u32)
        ensures
            final(self)@ == old(self)@.framebuffer_size(width, height),
    {
        self.last_width = self.width;
        self.last_height = self.height;
        self.width = width;
        self.height = height;
    }

    /// Takes what happened to a key: a key that went down is stamped with
    /// the current frame, a key that came up with zero.
    pub fn key_event(&mut self, key: usize, action: Action)
        requires
            key < KEY_COUNT,
        ensures
            final(self)@ == old(self)@.key_event(key as int, action),
            final(self)@.wf(),
    {
        match action {
            Action::Press => {
                self.keys[key] = self.current_frame;
            },
            Action::Release => {
                self.keys[key] = 0;
            },
            Action::Repeat => {},
        }
        assert(self@ =~= old(self)@.key_event(key as int, action));
    }

    /// Takes what happened to a mouse button.
    pub fn mouse_button_event(&mut self, button: usize, action: Action)
        requires
            button < MOUSE_BUTTON_COUNT,
        ensures
            final(self)@ == old(self)@.mouse_button_event(button as int, action),
            final(self)@.wf(),
    {
        match action {
            Action::Press => {
                self.mouse_buttons[button] = self.current_frame;
            },
            Action::Release => {
                self.mouse_buttons[button] = 0;
            },
            Action::Repeat => {},
        }
        assert(self@ =~= old(self)@.mouse_button_event(button as int, action));
    }

    /// Takes one event.
    pub fn handle(&mut self, event: WindowEvent)
        requires
            event.in_range(),
        ensures
            final(self)@ == old(self)@.handle(event),
            final(self)@.wf(),
    {
        match event {
            WindowEvent::FramebufferSize(width, height) => {
                self.framebuffer_size(width, height);
            },
            WindowEvent::Key(key, action) => {
                self.key_event(key, action);
            },
            WindowEvent::MouseButton(button, action) => {
                self.mouse_button_event(button, action);
            },
        }
    }

    /// Begins a frame and takes the events that came since the last one, in
    /// order. A key or button that went down in these events counts as just
    /// pressed until the next call.
    pub fn poll_events(&mut self, events: &Vec<WindowEvent>)
        requires
            forall|i: int| 0 <= i < events@.len() ==> (#[trigger] events@[i]).in_range(),
        ensures
            final(self)@ == old(self)@.poll_events(events@),
            final(self)@.wf(),
    {
        self.begin_frame();
        let mut i: usize = 0;
        assert(events@.take(0) =~= Seq::<WindowEvent>::empty());
        while i < events.len()
            invariant
                i <= events.len(),
                forall|j: int| 0 <= j < events@.len() ==> (#[trigger] events@[j]).in_range(),
                self@.wf(),
                self@ == old(self)@.begin_frame().handle_all(events@.take(i as int)),
            decreases events.len() - i,
        {
            proof {
                let next = events@.take(i + 1);
                assert(next.drop_last() =~= events@.take(i as int));
                assert(next.last() == events@[i as int]);
            }
            self.handle(events[i]);
            i += 1;
        }
        assert(events@.take(i as int) =~= events@);
    }

    pub fn is_key_pressed(&self, key: usize) -> (pressed: bool)
        requires
            key < KEY_COUNT,
        ensures
            pressed == self@.key_pressed(key as int),
    {
        self.keys[key] > 0
    }

    pub fn is_key_just_pressed(&self, key: usize) -> (pressed: bool)
        requires
            key < KEY_COUNT,
        ensures
            pressed == self@.key_just_pressed(key as int),
    {
        self.keys[key] == self.current_frame
    }

    pub fn is_mouse_button_pressed(&self, button: usize) -> (pressed: bool)
        requires
            button < MOUSE_BUTTON_COUNT,
        ensures
            pressed == self@.mouse_button_pressed(button as int),
    {
        self.mouse_buttons[button] > 0
    }

    pub fn is_mouse_button_just_pressed(&self, button: usize) -> (pressed: bool)
        requires
            button < MOUSE_BUTTON_COUNT,
        ensures
            pressed == self@.mouse_button_just_pressed(button as int),
    {
        self.mouse_buttons[button] == self.current_frame
    }

    pub fn get_width(&self) -> (width: u32)
        ensures
            width == self@.width,
    {
        self.width
    }

    pub fn get_height(&self) -> (height: u32)
        ensures
            height == self@.height,
    {
        self.height
    }

    pub fn get_last_width(&self) -> (width: u32)
        ensures
            width == self@.last_width,
    {
        self.last_width
    }

    pub fn get_last_height(&self) -> (height: u32)
        ensures
            height == self@.last_height,
    {
        self.last_height
    }
}

/// A key that goes down in a frame counts as just pressed and as pressed for
/// the rest of that frame, and as pressed but not just pressed in the frames
/// after it, until it comes up.
pub proof fn law_key_press_lasts_one_frame(w: WindowState, key: int)
    requires
        w.wf(),
        0 <= key < KEY_COUNT,
        0 < w.current_frame < u64::MAX,
    ensures
        w.key_event(key, Action::Press).key_just_pressed(key),
        w.key_event(key, Action::Press).key_pressed(key),
        w.key_event(key, Action::Press).begin_frame().key_pressed(key),
        !w.key_event(key, Action::Press).begin_frame().key_just_pressed(key),
        !w.key_event(key, Action::Release).key_pressed(key),
        !w.key_event(key, Action::Release).key_just_pressed(key),
        w.key_event(key, Action::Repeat) == w,
{
    assert(w.key_event(key, Action::Repeat) =~= w);
}

} // verus!
