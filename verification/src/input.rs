use vstd::prelude::*;

verus! {

/// The keys the renderer reacts to.
#[derive(Copy, Clone, Debug, PartialEq, Eq)]
pub enum Key {
    Escape,
    W,
    S,
    A,
    D,
    Other,
}

/// The mouse buttons, as far as the renderer tells them apart.
#[derive(Copy, Clone, Debug, PartialEq, Eq)]
pub enum MouseButton {
    Left,
    Other,
}

/// One step of the camera along an axis: forward and backward move it
/// along z, left and right along x.
#[derive(Copy, Clone, Debug, PartialEq, Eq)]
pub enum CameraStep {
    Forward,
    Backward,
    Left,
    Right,
}

/// How the window is to hold the cursor: locked in place and hidden, or
/// free and visible.
#[derive(Copy, Clone, Debug, PartialEq, Eq)]
pub struct CursorSettings {
    pub locked: bool,
    pub visible: bool,
}

/// What the renderer does on a key press.
#[derive(Copy, Clone, Debug, PartialEq, Eq)]
pub struct KeyResponse {
    /// New cursor settings to apply to the window, if the grab changed.
    pub cursor: Option<CursorSettings>,
    /// The camera step to take, if any.
    pub step: Option<CameraStep>,
    /// Whether the camera is uploaded to the GPU afterwards.
    pub upload_camera: bool,
}

/// The renderer's input state: whether it holds the cursor.
#[derive(Copy, Clone, Debug, PartialEq, Eq)]
pub struct InputState {
    pub cursor_grabbed: bool,
}

/// The cursor settings that go with a grab state.
pub open spec fn cursor_settings_for(grabbed: bool) -> CursorSettings {
    CursorSettings { locked: grabbed, visible: !grabbed }
}

/// The camera step that a key asks for.
pub open spec fn step_for(key: Key) -> Option<CameraStep> {
    match key {
        Key::W => Some(CameraStep::Forward),
        Key::S => Some(CameraStep::Backward),
        Key::A => Some(CameraStep::Left),
        Key::D => Some(CameraStep::Right),
        _ => None,
    }
}

/// The input state after toggling the cursor grab: flipped when there is
/// a window, unchanged otherwise.
pub open spec fn toggled(state: InputState, has_window: bool) -> InputState {
    if has_window {
        InputState { cursor_grabbed: !state.cursor_grabbed }
    } else {
        state
    }
}

/// The cursor settings that toggling the grab hands to the window.
pub open spec fn toggle_change(state: InputState, has_window: bool) -> Option<CursorSettings> {
    if has_window {
        Some(cursor_settings_for(!state.cursor_grabbed))
    } else {
        None
    }
}

/// A key press frees the cursor: it is escape and the cursor is grabbed.
pub open spec fn key_frees_cursor(state: InputState, key: Key) -> bool {
    key == Key::Escape && state.cursor_grabbed
}

/// The input state after a key press.
pub open spec fn after_key(state: InputState, key: Key, has_window: bool) -> InputState {
    if key_frees_cursor(state, key) {
        toggled(state, has_window)
    } else {
        state
    }
}

/// The response to a key press.
pub open spec fn key_response(state: InputState, key: Key, has_window: bool) -> KeyResponse {
    KeyResponse {
        cursor: if key_frees_cursor(state, key) {
            toggle_change(state, has_window)
        } else {
            None
        },
        step: step_for(key),
        upload_camera: key != Key::Escape,
    }
}

/// A mouse press grabs the cursor: it is the left button and the cursor is
/// free.
pub open spec fn click_grabs_cursor(state: InputState, button: MouseButton) -> bool {
    button == MouseButton::Left && !state.cursor_grabbed
}

/// The input state after a mouse button press.
pub open spec fn after_click(state: InputState, button: MouseButton, has_window: bool) -> InputState {
    if click_grabs_cursor(state, button) {
        toggled(state, has_window)
    } else {
        state
    }
}

/// The cursor settings that a mouse button press hands to the window.
pub open spec fn click_change(state: InputState, button: MouseButton, has_window: bool) -> Option<
    CursorSettings,
> {
    if click_grabs_cursor(state, button) {
        toggle_change(state, has_window)
    } else {
        None
    }
}

impl InputState {
    /// The state of a fresh renderer: the cursor is free.
    pub fn new() -> (state: Self)
        ensures
            !state.cursor_grabbed,
    {
        InputState { cursor_grabbed: false }
    }

    /// Grabs a free cursor or frees a grabbed one, and gives the settings
    /// to apply to the window. Without a window nothing changes.
    pub fn toggle_cursor_grab(&mut self, has_window: bool) -> (change: Option<CursorSettings>)
        ensures
            *final(self) == toggled(*old(self), has_window),
            change == toggle_change(*old(self), has_window),
            has_window ==> final(self).cursor_grabbed == !old(self).cursor_grabbed,
            has_window ==> change == Some(
                CursorSettings { locked: !old(self).cursor_grabbed, visible: old(self).cursor_grabbed },
            ),
            !has_window ==> final(self).cursor_grabbed == old(self).cursor_grabbed && change is None,
    {
        if has_window {
            self.cursor_grabbed = !self.cursor_grabbed;
            Some(CursorSettings { locked: self.cursor_grabbed, visible: !self.cursor_grabbed })
        } else {
            None
        }
    }

    /// Reacts to a key press: escape frees a grabbed cursor, W, S, A and D
    /// move the camera, and every key but escape uploads the camera.
    pub fn key_pressed(&mut self, key: Key, has_window: bool) -> (response: KeyResponse)
        ensures
            *final(self) == after_key(*old(self), key, has_window),
            response == key_response(*old(self), key, has_window),
            key == Key::W ==> response.step == Some(CameraStep::Forward),
            key == Key::S ==> response.step == Some(CameraStep::Backward),
            key == Key::A ==> response.step == Some(CameraStep::Left),
            key == Key::D ==> response.step == Some(CameraStep::Right),
            (key == Key::Escape || key == Key::Other) ==> response.step is None,
            response.upload_camera <==> key != Key::Escape,
            key == Key::Escape && old(self).cursor_grabbed && has_window ==> !final(self).cursor_grabbed
                && response.cursor == Some(CursorSettings { locked: false, visible: true }),
            !(key == Key::Escape && old(self).cursor_grabbed && has_window) ==> final(self).cursor_grabbed
                == old(self).cursor_grabbed && response.cursor is None,
    {
        let mut cursor = None;
        let mut step = None;
        match key {
            Key::Escape => {
                if self.cursor_grabbed {
                    cursor = self.toggle_cursor_grab(has_window);
                }
            },
            Key::W => step = Some(CameraStep::Forward),
            Key::S => step = Some(CameraStep::Backward),
            Key::A => step = Some(CameraStep::Left),
            Key::D => step = Some(CameraStep::Right),
            Key::Other => {},
        }
        let upload_camera = match key {
            Key::Escape => false,
            _ => true,
        };
        KeyResponse { cursor, step, upload_camera }
    }

    /// Reacts to a mouse button press: the left button grabs a free cursor.
    pub fn mouse_pressed(&mut self, button: MouseButton, has_window: bool) -> (change: Option<
        CursorSettings,
    >)
        ensures
            *final(self) == after_click(*old(self), button, has_window),
            change == click_change(*old(self), button, has_window),
            button == MouseButton::Left && !old(self).cursor_grabbed && has_window ==> final(self).cursor_grabbed
                && change == Some(CursorSettings { locked: true, visible: false }),
            !(button == MouseButton::Left && !old(self).cursor_grabbed && has_window)
                ==> final(self).cursor_grabbed == old(self).cursor_grabbed && change is None,
    {
        let left = match button {
            MouseButton::Left => true,
            MouseButton::Other => false,
        };
        if !self.cursor_grabbed && left {
            self.toggle_cursor_grab(has_window)
        } else {
            None
        }
    }
}

/// Toggling the cursor grab twice leaves the input state as it was.
pub proof fn lemma_toggle_twice_restores(state: InputState, has_window: bool)
    ensures
        toggled(toggled(state, has_window), has_window) == state,
{
}

/// Whatever cursor settings the renderer hands to the window agree with the
/// grab state it is left in: a grabbed cursor is locked and hidden, a free
/// one unlocked and visible.
pub proof fn lemma_cursor_settings_follow_state(
    state: InputState,
    key: Key,
    button: MouseButton,
    has_window: bool,
)
    ensures
        toggle_change(state, has_window) matches Some(c) ==> c == cursor_settings_for(
            toggled(state, has_window).cursor_grabbed,
        ),
        key_response(state, key, has_window).cursor matches Some(c) ==> c == cursor_settings_for(
            after_key(state, key, has_window).cursor_grabbed,
        ),
        click_change(state, button, has_window) matches Some(c) ==> c == cursor_settings_for(
            after_click(state, button, has_window).cursor_grabbed,
        ),
{
}

/// With a window, escape always leaves the cursor free and a left click
/// always leaves it grabbed; and a press changes the grab state exactly when
/// it hands new cursor settings to the window.
pub proof fn lemma_escape_frees_click_grabs(state: InputState, key: Key, button: MouseButton)
    ensures
        !after_key(state, Key::Escape, true).cursor_grabbed,
        after_click(state, MouseButton::Left, true).cursor_grabbed,
        (after_key(state, key, true) != state) == (key_response(state, key, true).cursor is Some),
        (after_click(state, button, true) != state) == (click_change(state, button, true) is Some),
{
}

/// Toggling the grab with a window flips it and hands the window the
/// settings of the new state (a grabbed cursor locked and hidden, a free one
/// unlocked and visible); without a window it changes nothing.
pub proof fn lemma_toggle_flips_grab(state: InputState)
    ensures
        toggled(state, true).cursor_grabbed == !state.cursor_grabbed,
        toggle_change(state, true) == Some(
            CursorSettings { locked: !state.cursor_grabbed, visible: state.cursor_grabbed },
        ),
        toggled(state, false) == state,
        toggle_change(state, false) is None,
{
}

/// W, S, A and D step the camera forward, backward, left and right, and
/// escape and other keys do not step it, whatever the cursor and window;
/// every key but escape uploads the camera.
pub proof fn lemma_key_steps_ignore_cursor(state: InputState, has_window: bool)
    ensures
        key_response(state, Key::W, has_window).step == Some(CameraStep::Forward),
        key_response(state, Key::S, has_window).step == Some(CameraStep::Backward),
        key_response(state, Key::A, has_window).step == Some(CameraStep::Left),
        key_response(state, Key::D, has_window).step == Some(CameraStep::Right),
        key_response(state, Key::Escape, has_window).step is None,
        key_response(state, Key::Other, has_window).step is None,
        !key_response(state, Key::Escape, has_window).upload_camera,
        key_response(state, Key::W, has_window).upload_camera,
        key_response(state, Key::S, has_window).upload_camera,
        key_response(state, Key::A, has_window).upload_camera,
        key_response(state, Key::D, has_window).upload_camera,
        key_response(state, Key::Other, has_window).upload_camera,
{
}

/// Only escape touches the cursor: any other key leaves the state as it is
/// and hands the window nothing; escape on a free cursor does nothing either,
/// and escape on a grabbed cursor with a window frees it.
pub proof fn lemma_only_escape_frees_cursor(state: InputState, key: Key, has_window: bool)
    ensures
        key != Key::Escape ==> after_key(state, key, has_window) == state && key_response(
            state,
            key,
            has_window,
        ).cursor is None,
        !state.cursor_grabbed ==> after_key(state, Key::Escape, has_window) == state && key_response(
            state,
            Key::Escape,
            has_window,
        ).cursor is None,
        state.cursor_grabbed ==> !after_key(state, Key::Escape, true).cursor_grabbed && key_response(
            state,
            Key::Escape,
            true,
        ).cursor == Some(CursorSettings { locked: false, visible: true }),
{
}

/// Only a left click on a free cursor touches it: it grabs it (with a
/// window); any other button, and a left click on a grabbed cursor, leave the
/// state as it is and hand the window nothing.
pub proof fn lemma_only_left_click_grabs_cursor(state: InputState, has_window: bool)
    ensures
        after_click(state, MouseButton::Other, has_window) == state,
        click_change(state, MouseButton::Other, has_window) is None,
        state.cursor_grabbed ==> after_click(state, MouseButton::Left, has_window) == state
            && click_change(state, MouseButton::Left, has_window) is None,
        !state.cursor_grabbed ==> after_click(state, MouseButton::Left, true).cursor_grabbed
            && click_change(state, MouseButton::Left, true) == Some(
            CursorSettings { locked: true, visible: false },
        ),
{
}

} // verus!
