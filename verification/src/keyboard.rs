//! Keyboard input on its way to a page: keys, modifiers, typed text and input
//! method composition, and the keys that scroll or edit instead.
use vstd::prelude::*;

verus! {

/// A key of the user interface's keyboard.
#[derive(Debug, Clone, Copy, PartialEq, Eq, Structural)]
pub enum UiKey {
    Enter,
    Tab,
    Space,
    Backspace,
    Delete,
    Insert,
    Escape,
    F1,
    F2,
    F3,
    F4,
    F5,
    F6,
    F7,
    F8,
    F9,
    F10,
    F11,
    F12,
    ArrowDown,
    ArrowUp,
    ArrowLeft,
    ArrowRight,
    Home,
    End,
    PageUp,
    PageDown,
    A,
    B,
    C,
    D,
    E,
    F,
    G,
    H,
    I,
    J,
    K,
    L,
    M,
    N,
    O,
    P,
    Q,
    R,
    S,
    T,
    U,
    V,
    W,
    X,
    Y,
    Z,
    Num0,
    Num1,
    Num2,
    Num3,
    Num4,
    Num5,
    Num6,
    Num7,
    Num8,
    Num9,
    /// Any key that means nothing to a page.
    Other,
}

/// A key that a page knows by name.
#[derive(Debug, Clone, Copy, PartialEq, Eq, Structural)]
pub enum NamedKey {
    Enter,
    Tab,
    Backspace,
    Delete,
    Escape,
    F1,
    F2,
    F3,
    F4,
    F5,
    F6,
    F7,
    F8,
    F9,
    F10,
    F11,
    F12,
    ArrowDown,
    ArrowUp,
    ArrowLeft,
    ArrowRight,
    Home,
    End,
    PageUp,
    PageDown,
    Unidentified,
}

/// What a key means to a page.
#[derive(Debug, PartialEq)]
pub enum PageKey {
    Named(NamedKey),
    Character(String),
}

/// A physical key, whatever it means.
#[derive(Debug, Clone, Copy, PartialEq, Eq, Structural)]
pub enum KeyCode {
    KeyA,
    KeyB,
    KeyC,
    KeyD,
    KeyE,
    KeyF,
    KeyG,
    KeyH,
    KeyI,
    KeyJ,
    KeyK,
    KeyL,
    KeyM,
    KeyN,
    KeyO,
    KeyP,
    KeyQ,
    KeyR,
    KeyS,
    KeyT,
    KeyU,
    KeyV,
    KeyW,
    KeyX,
    KeyY,
    KeyZ,
    Digit0,
    Digit1,
    Digit2,
    Digit3,
    Digit4,
    Digit5,
    Digit6,
    Digit7,
    Digit8,
    Digit9,
    Enter,
    Escape,
    Backspace,
    Tab,
    Space,
    Delete,
    ArrowDown,
    ArrowUp,
    ArrowLeft,
    ArrowRight,
    Home,
    End,
    PageUp,
    PageDown,
    Unidentified,
}

/// The name a page knows a key by; unidentified for the letters and digits,
/// whose characters come with the typed text, and for all other keys.
pub open spec fn named_key(key: UiKey) -> NamedKey {
    match key {
        UiKey::Enter => NamedKey::Enter,
        UiKey::Tab => NamedKey::Tab,
        UiKey::Backspace => NamedKey::Backspace,
        UiKey::Delete => NamedKey::Delete,
        UiKey::Escape => NamedKey::Escape,
        UiKey::F1 => NamedKey::F1,
        UiKey::F2 => NamedKey::F2,
        UiKey::F3 => NamedKey::F3,
        UiKey::F4 => NamedKey::F4,
        UiKey::F5 => NamedKey::F5,
        UiKey::F6 => NamedKey::F6,
        UiKey::F7 => NamedKey::F7,
        UiKey::F8 => NamedKey::F8,
        UiKey::F9 => NamedKey::F9,
        UiKey::F10 => NamedKey::F10,
        UiKey::F11 => NamedKey::F11,
        UiKey::F12 => NamedKey::F12,
        UiKey::ArrowDown => NamedKey::ArrowDown,
        UiKey::ArrowUp => NamedKey::ArrowUp,
        UiKey::ArrowLeft => NamedKey::ArrowLeft,
        UiKey::ArrowRight => NamedKey::ArrowRight,
        UiKey::Home => NamedKey::Home,
        UiKey::End => NamedKey::End,
        UiKey::PageUp => NamedKey::PageUp,
        UiKey::PageDown => NamedKey::PageDown,
        _ => NamedKey::Unidentified,
    }
}

/// What a key means to a page. Letters and digits carry no case or shift
/// information, so no character is guessed for them: the character itself
/// comes with the typed text.
pub fn egui_key_to_keyboard_types(key: UiKey) -> (r: PageKey)
    ensures
        key == UiKey::Space ==> (r matches PageKey::Character(c) && c@ == " "@),
        key != UiKey::Space ==> r == PageKey::Named(named_key(key)),
{
    match key {
        UiKey::Space => PageKey::Character(" ".to_owned()),
        UiKey::Enter => PageKey::Named(NamedKey::Enter),
        UiKey::Tab => PageKey::Named(NamedKey::Tab),
        UiKey::Backspace => PageKey::Named(NamedKey::Backspace),
        UiKey::Delete => PageKey::Named(NamedKey::Delete),
        UiKey::Escape => PageKey::Named(NamedKey::Escape),
        UiKey::F1 => PageKey::Named(NamedKey::F1),
        UiKey::F2 => PageKey::Named(NamedKey::F2),
        UiKey::F3 => PageKey::Named(NamedKey::F3),
        UiKey::F4 => PageKey::Named(NamedKey::F4),
        UiKey::F5 => PageKey::Named(NamedKey::F5),
        UiKey::F6 => PageKey::Named(NamedKey::F6),
        UiKey::F7 => PageKey::Named(NamedKey::F7),
        UiKey::F8 => PageKey::Named(NamedKey::F8),
        UiKey::F9 => PageKey::Named(NamedKey::F9),
        UiKey::F10 => PageKey::Named(NamedKey::F10),
        UiKey::F11 => PageKey::Named(NamedKey::F11),
        UiKey::F12 => PageKey::Named(NamedKey::F12),
        UiKey::ArrowDown => PageKey::Named(NamedKey::ArrowDown),
        UiKey::ArrowUp => PageKey::Named(NamedKey::ArrowUp),
        UiKey::ArrowLeft => PageKey::Named(NamedKey::ArrowLeft),
        UiKey::ArrowRight => PageKey::Named(NamedKey::ArrowRight),
        UiKey::Home => PageKey::Named(NamedKey::Home),
        UiKey::End => PageKey::Named(NamedKey::End),
        UiKey::PageUp => PageKey::Named(NamedKey::PageUp),
        UiKey::PageDown => PageKey::Named(NamedKey::PageDown),
        _ => PageKey::Named(NamedKey::Unidentified),
    }
}

/// The physical key behind a key of the keyboard.
pub open spec fn physical_key(key: UiKey) -> KeyCode {
    match key {
        UiKey::A => KeyCode::KeyA,
        UiKey::B => KeyCode::KeyB,
        UiKey::C => KeyCode::KeyC,
        UiKey::D => KeyCode::KeyD,
        UiKey::E => KeyCode::KeyE,
        UiKey::F => KeyCode::KeyF,
        UiKey::G => KeyCode::KeyG,
        UiKey::H => KeyCode::KeyH,
        UiKey::I => KeyCode::KeyI,
        UiKey::J => KeyCode::KeyJ,
        UiKey::K => KeyCode::KeyK,
        UiKey::L => KeyCode::KeyL,
        UiKey::M => KeyCode::KeyM,
        UiKey::N => KeyCode::KeyN,
        UiKey::O => KeyCode::KeyO,
        UiKey::P => KeyCode::KeyP,
        UiKey::Q => KeyCode::KeyQ,
        UiKey::R => KeyCode::KeyR,
        UiKey::S => KeyCode::KeyS,
        UiKey::T => KeyCode::KeyT,
        UiKey::U => KeyCode::KeyU,
        UiKey::V => KeyCode::KeyV,
        UiKey::W => KeyCode::KeyW,
        UiKey::X => KeyCode::KeyX,
        UiKey::Y => KeyCode::KeyY,
        UiKey::Z => KeyCode::KeyZ,
        UiKey::Num0 => KeyCode::Digit0,
        UiKey::Num1 => KeyCode::Digit1,
        UiKey::Num2 => KeyCode::Digit2,
        UiKey::Num3 => KeyCode::Digit3,
        UiKey::Num4 => KeyCode::Digit4,
        UiKey::Num5 => KeyCode::Digit5,
        UiKey::Num6 => KeyCode::Digit6,
        UiKey::Num7 => KeyCode::Digit7,
        UiKey::Num8 => KeyCode::Digit8,
        UiKey::Num9 => KeyCode::Digit9,
        UiKey::Enter => KeyCode::Enter,
        UiKey::Escape => KeyCode::Escape,
        UiKey::Backspace => KeyCode::Backspace,
        UiKey::Tab => KeyCode::Tab,
        UiKey::Space => KeyCode::Space,
        UiKey::Delete => KeyCode::Delete,
        UiKey::ArrowDown => KeyCode::ArrowDown,
        UiKey::ArrowUp => KeyCode::ArrowUp,
        UiKey::ArrowLeft => KeyCode::ArrowLeft,
        UiKey::ArrowRight => KeyCode::ArrowRight,
        UiKey::Home => KeyCode::Home,
        UiKey::End => KeyCode::End,
        UiKey::PageUp => KeyCode::PageUp,
        UiKey::PageDown => KeyCode::PageDown,
        _ => KeyCode::Unidentified,
    }
}

/// The physical key behind a key of the keyboard.
pub fn egui_key_to_code(key: UiKey) -> (r: KeyCode)
    ensures
        r == physical_key(key),
{
    match key {
        UiKey::A => KeyCode::KeyA,
        UiKey::B => KeyCode::KeyB,
        UiKey::C => KeyCode::KeyC,
        UiKey::D => KeyCode::KeyD,
        UiKey::E => KeyCode::KeyE,
        UiKey::F => KeyCode::KeyF,
        UiKey::G => KeyCode::KeyG,
        UiKey::H => KeyCode::KeyH,
        UiKey::I => KeyCode::KeyI,
        UiKey::J => KeyCode::KeyJ,
        UiKey::K => KeyCode::KeyK,
        UiKey::L => KeyCode::KeyL,
        UiKey::M => KeyCode::KeyM,
        UiKey::N => KeyCode::KeyN,
        UiKey::O => KeyCode::KeyO,
        UiKey::P => KeyCode::KeyP,
        UiKey::Q => KeyCode::KeyQ,
        UiKey::R => KeyCode::KeyR,
        UiKey::S => KeyCode::KeyS,
        UiKey::T => KeyCode::KeyT,
        UiKey::U => KeyCode::KeyU,
        UiKey::V => KeyCode::KeyV,
        UiKey::W => KeyCode::KeyW,
        UiKey::X => KeyCode::KeyX,
        UiKey::Y => KeyCode::KeyY,
        UiKey::Z => KeyCode::KeyZ,
        UiKey::Num0 => KeyCode::Digit0,
        UiKey::Num1 => KeyCode::Digit1,
        UiKey::Num2 => KeyCode::Digit2,
        UiKey::Num3 => KeyCode::Digit3,
        UiKey::Num4 => KeyCode::Digit4,
        UiKey::Num5 => KeyCode::Digit5,
        UiKey::Num6 => KeyCode::Digit6,
        UiKey::Num7 => KeyCode::Digit7,
        UiKey::Num8 => KeyCode::Digit8,
        UiKey::Num9 => KeyCode::Digit9,
        UiKey::Enter => KeyCode::Enter,
        UiKey::Escape => KeyCode::Escape,
        UiKey::Backspace => KeyCode::Backspace,
        UiKey::Tab => KeyCode::Tab,
        UiKey::Space => KeyCode::Space,
        UiKey::Delete => KeyCode::Delete,
        UiKey::ArrowDown => KeyCode::ArrowDown,
        UiKey::ArrowUp => KeyCode::ArrowUp,
        UiKey::ArrowLeft => KeyCode::ArrowLeft,
        UiKey::ArrowRight => KeyCode::ArrowRight,
        UiKey::Home => KeyCode::Home,
        UiKey::End => KeyCode::End,
        UiKey::PageUp => KeyCode::PageUp,
        UiKey::PageDown => KeyCode::PageDown,
        _ => KeyCode::Unidentified,
    }
}

/// The modifier keys as the user interface reports them.
#[derive(Debug, Clone, Copy, PartialEq, Eq, Structural)]
pub struct UiModifiers {
    pub alt: bool,
    pub ctrl: bool,
    pub shift: bool,
    /// The Mac's command key; never set elsewhere.
    pub mac_cmd: bool,
    /// The key for shortcuts: control, or the command key on a Mac.
    pub command: bool,
}

/// The modifier keys as a page sees them.
#[derive(Debug, Clone, Copy, PartialEq, Eq, Structural)]
pub struct PageModifiers {
    pub shift: bool,
    pub control: bool,
    pub alt: bool,
    pub meta: bool,
}

/// The modifiers as a page sees them. Only the Mac's command key counts as
/// meta: the shortcut key elsewhere is control, which is there already.
pub fn egui_modifiers_to_keyboard_types(m: UiModifiers) -> (r: PageModifiers)
    ensures
        r == (PageModifiers { shift: m.shift, control: m.ctrl, alt: m.alt, meta: m.mac_cmd }),
{
    PageModifiers { shift: m.shift, control: m.ctrl, alt: m.alt, meta: m.mac_cmd }
}

/// One key going down or up, as a page sees it.
#[derive(Debug, PartialEq)]
pub struct KeyboardInput {
    pub pressed: bool,
    pub key: PageKey,
    pub code: KeyCode,
    pub modifiers: PageModifiers,
    pub repeat: bool,
    pub is_composing: bool,
}

/// Whether `e` is one half of typing `text`.
pub open spec fn types_text(
    e: KeyboardInput,
    text: Seq<char>,
    modifiers: PageModifiers,
    pressed: bool,
) -> bool {
    &&& e.pressed == pressed
    &&& e.key matches PageKey::Character(c) && c@ == text
    &&& e.code == KeyCode::Unidentified
    &&& e.modifiers == modifiers
    &&& !e.repeat
    &&& !e.is_composing
}

/// Typed text as the two key events, down and up, that stand for typing it,
/// unsplit however long it is. Which physical key produced it is not known.
pub fn text_to_keyboard_events(text: &str, modifiers: PageModifiers) -> (r: (
    KeyboardInput,
    KeyboardInput,
))
    ensures
        types_text(r.0, text@, modifiers, true),
        types_text(r.1, text@, modifiers, false),
{
    (
        KeyboardInput {
            pressed: true,
            key: PageKey::Character(text.to_owned()),
            code: KeyCode::Unidentified,
            modifiers,
            repeat: false,
            is_composing: false,
        },
        KeyboardInput {
            pressed: false,
            key: PageKey::Character(text.to_owned()),
            code: KeyCode::Unidentified,
            modifiers,
            repeat: false,
            is_composing: false,
        },
    )
}

/// An input method's event, as the user interface reports it.
#[derive(Debug)]
pub enum UiIme {
    Enabled,
    Preedit(String),
    Commit(String),
    Disabled,
}

/// Where a composition stands.
#[derive(Debug, Clone, Copy, PartialEq, Eq, Structural)]
pub enum CompositionState {
    Start,
    Update,
    End,
}

/// An input method's event, as a page sees it.
#[derive(Debug)]
pub enum PageIme {
    Composition { state: CompositionState, data: String },
    Dismissed,
}

/// Whether `r` is what a page sees of an input method's event.
pub open spec fn is_page_ime(event: UiIme, r: PageIme) -> bool {
    match event {
        UiIme::Enabled => r matches PageIme::Composition { state, data } && state
            == CompositionState::Start && data@ == Seq::<char>::empty(),
        UiIme::Preedit(text) => r == PageIme::Composition {
            state: CompositionState::Update,
            data: text,
        },
        UiIme::Commit(text) => r == PageIme::Composition {
            state: CompositionState::End,
            data: text,
        },
        UiIme::Disabled => r == PageIme::Dismissed,
    }
}

/// An input method's event, as a page sees it.
pub fn egui_ime_to_servo_ime(event: UiIme) -> (r: PageIme)
    ensures
        is_page_ime(event, r),
{
    match event {
        UiIme::Enabled => PageIme::Composition {
            state: CompositionState::Start,
            data: String::new(),
        },
        UiIme::Preedit(text) => PageIme::Composition {
            state: CompositionState::Update,
            data: text,
        },
        UiIme::Commit(text) => PageIme::Composition { state: CompositionState::End, data: text },
        UiIme::Disabled => PageIme::Dismissed,
    }
}

/// What a held key scrolls by.
#[derive(Debug, Clone, Copy, PartialEq, Eq, Structural)]
pub enum KeyScroll {
    LineDown,
    LineUp,
    LineRight,
    LineLeft,
    PageDown,
    PageUp,
    ToStart,
    ToEnd,
}

/// What a held key scrolls by, if it scrolls.
pub open spec fn key_scroll(key: UiKey) -> Option<KeyScroll> {
    match key {
        UiKey::ArrowDown => Some(KeyScroll::LineDown),
        UiKey::ArrowUp => Some(KeyScroll::LineUp),
        UiKey::ArrowRight => Some(KeyScroll::LineRight),
        UiKey::ArrowLeft => Some(KeyScroll::LineLeft),
        UiKey::PageDown => Some(KeyScroll::PageDown),
        UiKey::PageUp => Some(KeyScroll::PageUp),
        UiKey::Home => Some(KeyScroll::ToStart),
        UiKey::End => Some(KeyScroll::ToEnd),
        _ => None,
    }
}

/// What a held key scrolls by, if it scrolls.
pub fn scroll_for_key(key: UiKey) -> (r: Option<KeyScroll>)
    ensures
        r == key_scroll(key),
{
    match key {
        UiKey::ArrowDown => Some(KeyScroll::LineDown),
        UiKey::ArrowUp => Some(KeyScroll::LineUp),
        UiKey::ArrowRight => Some(KeyScroll::LineRight),
        UiKey::ArrowLeft => Some(KeyScroll::LineLeft),
        UiKey::PageDown => Some(KeyScroll::PageDown),
        UiKey::PageUp => Some(KeyScroll::PageUp),
        UiKey::Home => Some(KeyScroll::ToStart),
        UiKey::End => Some(KeyScroll::ToEnd),
        _ => None,
    }
}

/// A command on the page's selection.
#[derive(Debug, Clone, Copy, PartialEq, Eq, Structural)]
pub enum EditingAction {
    Copy,
    Cut,
    Paste,
}

/// The command a key stands for in a shortcut.
pub open spec fn shortcut_action(key: UiKey) -> Option<EditingAction> {
    match key {
        UiKey::C => Some(EditingAction::Copy),
        UiKey::X => Some(EditingAction::Cut),
        UiKey::V => Some(EditingAction::Paste),
        _ => None,
    }
}

/// The command that a key press stands for: C, X or V with control or command,
/// and neither shift nor alt.
pub open spec fn editing_action(
    key: UiKey,
    pressed: bool,
    modifiers: UiModifiers,
) -> Option<EditingAction> {
    if pressed && (modifiers.ctrl || modifiers.mac_cmd) && !modifiers.shift && !modifiers.alt {
        shortcut_action(key)
    } else {
        None
    }
}

/// The command a key stands for in a shortcut.
pub fn action_for(key: UiKey) -> (r: Option<EditingAction>)
    ensures
        r == shortcut_action(key),
{
    match key {
        UiKey::C => Some(EditingAction::Copy),
        UiKey::X => Some(EditingAction::Cut),
        UiKey::V => Some(EditingAction::Paste),
        _ => None,
    }
}

/// One input event of the user interface.
#[derive(Debug)]
pub enum UiEvent {
    Key { key: UiKey, pressed: bool, repeat: bool, modifiers: UiModifiers },
    Text(String),
    Ime(UiIme),
    /// Anything that is not keyboard input.
    Other,
}

/// One input event for a page.
#[derive(Debug)]
pub enum PageInput {
    Keyboard(KeyboardInput),
    Editing(EditingAction),
    Ime(PageIme),
}

/// Whether `e` is a key of the keyboard going down or up.
pub open spec fn passes_key(
    e: KeyboardInput,
    key: UiKey,
    pressed: bool,
    repeat: bool,
    modifiers: UiModifiers,
) -> bool {
    &&& e.pressed == pressed
    &&& if key == UiKey::Space {
        e.key matches PageKey::Character(c) && c@ == " "@
    } else {
        e.key == PageKey::Named(named_key(key))
    }
    &&& e.code == physical_key(key)
    &&& e.modifiers == PageModifiers {
        shift: modifiers.shift,
        control: modifiers.ctrl,
        alt: modifiers.alt,
        meta: modifiers.mac_cmd,
    }
    &&& e.repeat == repeat
    &&& !e.is_composing
}

/// Whether `inputs` is what one event sends to the page, `modifiers` being
/// those held at the time: a key unless it scrolls, and the command it stands
/// for; typed text as a key going down and up; a composition as such.
pub open spec fn is_forwarded(event: UiEvent, modifiers: UiModifiers, inputs: Seq<PageInput>) -> bool {
    match event {
        UiEvent::Key { key, pressed, repeat, modifiers: with } => {
            let keys = if key_scroll(key) is Some {
                0int
            } else {
                1int
            };
            let edits = if editing_action(key, pressed, with) is Some {
                1int
            } else {
                0int
            };
            &&& inputs.len() == keys + edits
            &&& keys == 1 ==> {
                inputs[0] matches PageInput::Keyboard(e) && passes_key(
                    e,
                    key,
                    pressed,
                    repeat,
                    with,
                )
            }
            &&& edits == 1 ==> inputs[keys] == PageInput::Editing(
                editing_action(key, pressed, with)->0,
            )
        },
        UiEvent::Text(text) => {
            let held = PageModifiers {
                shift: modifiers.shift,
                control: modifiers.ctrl,
                alt: modifiers.alt,
                meta: modifiers.mac_cmd,
            };
            &&& inputs.len() == 2
            &&& inputs[0] matches PageInput::Keyboard(e) && types_text(e, text@, held, true)
            &&& inputs[1] matches PageInput::Keyboard(e) && types_text(e, text@, held, false)
        },
        UiEvent::Ime(ime) => {
            &&& inputs.len() == 1
            &&& inputs[0] matches PageInput::Ime(p) && is_page_ime(ime, p)
        },
        UiEvent::Other => inputs.len() == 0,
    }
}

/// What one event sends to the page, while the view has the focus.
pub fn forward_event(event: UiEvent, modifiers: UiModifiers) -> (inputs: Vec<PageInput>)
    ensures
        is_forwarded(event, modifiers, inputs@),
{
    let mut inputs: Vec<PageInput> = Vec::new();
    match event {
        UiEvent::Key { key, pressed, repeat, modifiers: with } => {
            if scroll_for_key(key).is_none() {
                inputs.push(
                    PageInput::Keyboard(
                        KeyboardInput {
                            pressed,
                            key: egui_key_to_keyboard_types(key),
                            code: egui_key_to_code(key),
                            modifiers: egui_modifiers_to_keyboard_types(with),
                            repeat,
                            is_composing: false,
                        },
                    ),
                );
            }
            if pressed && (with.ctrl || with.mac_cmd) && !with.shift && !with.alt {
                match action_for(key) {
                    Some(action) => {
                        inputs.push(PageInput::Editing(action));
                    },
                    None => {},
                }
            }
        },
        UiEvent::Text(text) => {
            let (down, up) = text_to_keyboard_events(
                text.as_str(),
                egui_modifiers_to_keyboard_types(modifiers),
            );
            inputs.push(PageInput::Keyboard(down));
            inputs.push(PageInput::Keyboard(up));
        },
        UiEvent::Ime(ime) => {
            inputs.push(PageInput::Ime(egui_ime_to_servo_ime(ime)));
        },
        UiEvent::Other => {},
    }
    inputs
}

/// A key that scrolls is never sent to the page as a key as well.
pub proof fn scroll_keys_are_not_forwarded(
    key: UiKey,
    pressed: bool,
    repeat: bool,
    with: UiModifiers,
    modifiers: UiModifiers,
    inputs: Seq<PageInput>,
)
    requires
        key_scroll(key) is Some,
        is_forwarded(UiEvent::Key { key, pressed, repeat, modifiers: with }, modifiers, inputs),
    ensures
        inputs.len() == 0,
{
}

/// The letter or digit that is printed on a key.
pub open spec fn printed_on(key: UiKey) -> Option<char> {
    match key {
        UiKey::A => Some('A'),
        UiKey::B => Some('B'),
        UiKey::C => Some('C'),
        UiKey::D => Some('D'),
        UiKey::E => Some('E'),
        UiKey::F => Some('F'),
        UiKey::G => Some('G'),
        UiKey::H => Some('H'),
        UiKey::I => Some('I'),
        UiKey::J => Some('J'),
        UiKey::K => Some('K'),
        UiKey::L => Some('L'),
        UiKey::M => Some('M'),
        UiKey::N => Some('N'),
        UiKey::O => Some('O'),
        UiKey::P => Some('P'),
        UiKey::Q => Some('Q'),
        UiKey::R => Some('R'),
        UiKey::S => Some('S'),
        UiKey::T => Some('T'),
        UiKey::U => Some('U'),
        UiKey::V => Some('V'),
        UiKey::W => Some('W'),
        UiKey::X => Some('X'),
        UiKey::Y => Some('Y'),
        UiKey::Z => Some('Z'),
        UiKey::Num0 => Some('0'),
        UiKey::Num1 => Some('1'),
        UiKey::Num2 => Some('2'),
        UiKey::Num3 => Some('3'),
        UiKey::Num4 => Some('4'),
        UiKey::Num5 => Some('5'),
        UiKey::Num6 => Some('6'),
        UiKey::Num7 => Some('7'),
        UiKey::Num8 => Some('8'),
        UiKey::Num9 => Some('9'),
        _ => None,
    }
}

/// The letter or digit that a physical key is named after.
pub open spec fn named_after(code: KeyCode) -> Option<char> {
    match code {
        KeyCode::KeyA => Some('A'),
        KeyCode::KeyB => Some('B'),
        KeyCode::KeyC => Some('C'),
        KeyCode::KeyD => Some('D'),
        KeyCode::KeyE => Some('E'),
        KeyCode::KeyF => Some('F'),
        KeyCode::KeyG => Some('G'),
        KeyCode::KeyH => Some('H'),
        KeyCode::KeyI => Some('I'),
        KeyCode::KeyJ => Some('J'),
        KeyCode::KeyK => Some('K'),
        KeyCode::KeyL => Some('L'),
        KeyCode::KeyM => Some('M'),
        KeyCode::KeyN => Some('N'),
        KeyCode::KeyO => Some('O'),
        KeyCode::KeyP => Some('P'),
        KeyCode::KeyQ => Some('Q'),
        KeyCode::KeyR => Some('R'),
        KeyCode::KeyS => Some('S'),
        KeyCode::KeyT => Some('T'),
        KeyCode::KeyU => Some('U'),
        KeyCode::KeyV => Some('V'),
        KeyCode::KeyW => Some('W'),
        KeyCode::KeyX => Some('X'),
        KeyCode::KeyY => Some('Y'),
        KeyCode::KeyZ => Some('Z'),
        KeyCode::Digit0 => Some('0'),
        KeyCode::Digit1 => Some('1'),
        KeyCode::Digit2 => Some('2'),
        KeyCode::Digit3 => Some('3'),
        KeyCode::Digit4 => Some('4'),
        KeyCode::Digit5 => Some('5'),
        KeyCode::Digit6 => Some('6'),
        KeyCode::Digit7 => Some('7'),
        KeyCode::Digit8 => Some('8'),
        KeyCode::Digit9 => Some('9'),
        _ => None,
    }
}

/// The physical key of a key that is known by its name.
pub open spec fn code_of_name(name: NamedKey) -> KeyCode {
    match name {
        NamedKey::Enter => KeyCode::Enter,
        NamedKey::Tab => KeyCode::Tab,
        NamedKey::Backspace => KeyCode::Backspace,
        NamedKey::Delete => KeyCode::Delete,
        NamedKey::Escape => KeyCode::Escape,
        NamedKey::ArrowDown => KeyCode::ArrowDown,
        NamedKey::ArrowUp => KeyCode::ArrowUp,
        NamedKey::ArrowLeft => KeyCode::ArrowLeft,
        NamedKey::ArrowRight => KeyCode::ArrowRight,
        NamedKey::Home => KeyCode::Home,
        NamedKey::End => KeyCode::End,
        NamedKey::PageUp => KeyCode::PageUp,
        NamedKey::PageDown => KeyCode::PageDown,
        _ => KeyCode::Unidentified,
    }
}

/// The number of a function key.
pub open spec fn function_number(key: UiKey) -> Option<int> {
    match key {
        UiKey::F1 => Some(1int),
        UiKey::F2 => Some(2int),
        UiKey::F3 => Some(3int),
        UiKey::F4 => Some(4int),
        UiKey::F5 => Some(5int),
        UiKey::F6 => Some(6int),
        UiKey::F7 => Some(7int),
        UiKey::F8 => Some(8int),
        UiKey::F9 => Some(9int),
        UiKey::F10 => Some(10int),
        UiKey::F11 => Some(11int),
        UiKey::F12 => Some(12int),
        _ => None,
    }
}

/// The number of a function key, by its name.
pub open spec fn function_number_of(name: NamedKey) -> Option<int> {
    match name {
        NamedKey::F1 => Some(1int),
        NamedKey::F2 => Some(2int),
        NamedKey::F3 => Some(3int),
        NamedKey::F4 => Some(4int),
        NamedKey::F5 => Some(5int),
        NamedKey::F6 => Some(6int),
        NamedKey::F7 => Some(7int),
        NamedKey::F8 => Some(8int),
        NamedKey::F9 => Some(9int),
        NamedKey::F10 => Some(10int),
        NamedKey::F11 => Some(11int),
        NamedKey::F12 => Some(12int),
        _ => None,
    }
}

/// A letter or a digit has the physical key that is named after it, and no name
/// of its own; a key that a page knows by name has the physical key of that
/// name. No two keys share a name or a physical key.
pub proof fn keys_are_told_apart(key: UiKey, other: UiKey)
    ensures
        named_after(physical_key(key)) == printed_on(key),
        printed_on(key) is Some ==> named_key(key) == NamedKey::Unidentified,
        physical_key(key) == KeyCode::Space <==> key == UiKey::Space,
        printed_on(key) is None && key != UiKey::Space ==> physical_key(key) == code_of_name(
            named_key(key),
        ),
        function_number_of(named_key(key)) == function_number(key),
        named_key(key) == named_key(other) && named_key(key) != NamedKey::Unidentified ==> key
            == other,
        physical_key(key) == physical_key(other) && physical_key(key) != KeyCode::Unidentified
            ==> key == other,
        key == UiKey::Enter ==> named_key(key) == NamedKey::Enter,
        key == UiKey::Tab ==> named_key(key) == NamedKey::Tab,
        key == UiKey::Backspace ==> named_key(key) == NamedKey::Backspace,
        key == UiKey::Delete ==> named_key(key) == NamedKey::Delete,
        key == UiKey::Escape ==> named_key(key) == NamedKey::Escape,
        key == UiKey::Home ==> named_key(key) == NamedKey::Home,
        key == UiKey::End ==> named_key(key) == NamedKey::End,
        key == UiKey::PageUp ==> named_key(key) == NamedKey::PageUp,
        key == UiKey::PageDown ==> named_key(key) == NamedKey::PageDown,
        key == UiKey::ArrowDown ==> named_key(key) == NamedKey::ArrowDown,
        key == UiKey::ArrowUp ==> named_key(key) == NamedKey::ArrowUp,
        key == UiKey::ArrowLeft ==> named_key(key) == NamedKey::ArrowLeft,
        key == UiKey::ArrowRight ==> named_key(key) == NamedKey::ArrowRight,
{
}

/// The keys that scroll are those that a page knows as arrows, page keys, home
/// and end, each in its own direction.
pub proof fn scroll_keys_go_their_way(key: UiKey)
    ensures
        key_scroll(key) == Some(KeyScroll::LineDown) <==> named_key(key) == NamedKey::ArrowDown,
        key_scroll(key) == Some(KeyScroll::LineUp) <==> named_key(key) == NamedKey::ArrowUp,
        key_scroll(key) == Some(KeyScroll::LineLeft) <==> named_key(key) == NamedKey::ArrowLeft,
        key_scroll(key) == Some(KeyScroll::LineRight) <==> named_key(key) == NamedKey::ArrowRight,
        key_scroll(key) == Some(KeyScroll::PageDown) <==> named_key(key) == NamedKey::PageDown,
        key_scroll(key) == Some(KeyScroll::PageUp) <==> named_key(key) == NamedKey::PageUp,
        key_scroll(key) == Some(KeyScroll::ToStart) <==> named_key(key) == NamedKey::Home,
        key_scroll(key) == Some(KeyScroll::ToEnd) <==> named_key(key) == NamedKey::End,
{
}

/// A shortcut is the letter C, X or V, pressed with control or the Mac's command
/// key and with neither shift nor alt; its command goes to the page behind the
/// key itself. Without such a press no command does.
pub proof fn shortcuts_are_sent_with_their_key(
    key: UiKey,
    pressed: bool,
    repeat: bool,
    with: UiModifiers,
    modifiers: UiModifiers,
    inputs: Seq<PageInput>,
)
    requires
        is_forwarded(UiEvent::Key { key, pressed, repeat, modifiers: with }, modifiers, inputs),
    ensures
        ({
            let held = pressed && (with.ctrl || with.mac_cmd) && !with.shift && !with.alt;
            &&& held && printed_on(key) == Some('C') ==> inputs.len() == 2 && inputs[1]
                == PageInput::Editing(EditingAction::Copy)
            &&& held && printed_on(key) == Some('X') ==> inputs.len() == 2 && inputs[1]
                == PageInput::Editing(EditingAction::Cut)
            &&& held && printed_on(key) == Some('V') ==> inputs.len() == 2 && inputs[1]
                == PageInput::Editing(EditingAction::Paste)
            &&& !held || !(printed_on(key) == Some('C') || printed_on(key) == Some('X')
                || printed_on(key) == Some('V')) ==> inputs.len() <= 1
        }),
        key_scroll(key) is None ==> {
            &&& inputs.len() > 0
            &&& inputs[0] matches PageInput::Keyboard(e) && e.pressed == pressed && e.repeat
                == repeat && e.modifiers.shift == with.shift && e.modifiers.control == with.ctrl
                && e.modifiers.alt == with.alt && e.modifiers.meta == with.mac_cmd && e.code
                == physical_key(key)
        },
        key_scroll(key) is None && key != UiKey::Space ==> (inputs[0] matches PageInput::Keyboard(e)
            && e.key == PageKey::Named(named_key(key))),
        key == UiKey::Space ==> (inputs[0] matches PageInput::Keyboard(e) && (
        e.key matches PageKey::Character(c) && c@ == seq![' '])),
{
    reveal_strlit(" ");
    assert(" "@ == seq![' ']);
}

/// Typed text reaches the page whole, once as a key going down and once as the
/// same key coming up.
pub proof fn typed_text_goes_down_and_up(
    text: String,
    modifiers: UiModifiers,
    inputs: Seq<PageInput>,
)
    requires
        is_forwarded(UiEvent::Text(text), modifiers, inputs),
    ensures
        inputs.len() == 2,
        inputs[0] matches PageInput::Keyboard(e) && e.pressed && (
        e.key matches PageKey::Character(c) && c@ == text@),
        inputs[1] matches PageInput::Keyboard(e) && !e.pressed && (
        e.key matches PageKey::Character(c) && c@ == text@),
        forall|i: int|
            0 <= i < 2 ==> (#[trigger] inputs[i] matches PageInput::Keyboard(e)
                && e.modifiers.shift == modifiers.shift && e.modifiers.control == modifiers.ctrl
                && e.modifiers.alt == modifiers.alt && e.modifiers.meta == modifiers.mac_cmd
                && !e.repeat && !e.is_composing),
{
}

/// What is being composed reaches the page as it stands: unfinished while it is
/// still edited, finished once it is committed.
pub proof fn compositions_keep_their_text(text: String, modifiers: UiModifiers, inputs: Seq<PageInput>)
    ensures
        is_forwarded(UiEvent::Ime(UiIme::Preedit(text)), modifiers, inputs) ==> inputs.len() == 1
            && (inputs[0] matches PageInput::Ime(PageIme::Composition { state, data }) && state
            == CompositionState::Update && data@ == text@),
        is_forwarded(UiEvent::Ime(UiIme::Commit(text)), modifiers, inputs) ==> inputs.len() == 1
            && (inputs[0] matches PageInput::Ime(PageIme::Composition { state, data }) && state
            == CompositionState::End && data@ == text@),
        is_forwarded(UiEvent::Ime(UiIme::Enabled), modifiers, inputs) ==> inputs.len() == 1 && (
        inputs[0] matches PageInput::Ime(PageIme::Composition { state, data }) && state
            == CompositionState::Start && data@.len() == 0),
        is_forwarded(UiEvent::Ime(UiIme::Disabled), modifiers, inputs) ==> inputs.len() == 1
            && inputs[0] == PageInput::Ime(PageIme::Dismissed),
        is_forwarded(UiEvent::Other, modifiers, inputs) ==> inputs.len() == 0,
{
}

} // verus!
