//! Keystrokes and mouse reports, as plain values.

use vstd::prelude::*;

verus! {

/// The modifiers held with a key or a button.
#[derive(Debug, Clone, Copy, PartialEq, Eq, Structural)]
pub struct Modifiers {
    /// Shift.
    pub shift: bool,
    /// Control.
    pub control: bool,
    /// Alt, or Option.
    pub alt: bool,
    /// Super: Command, or the Windows key.
    pub cmd: bool,
    /// Any other.
    pub other: bool,
}

impl Modifiers {
    /// Whether none is held.
    pub open spec fn spec_bare(self) -> bool {
        !self.shift && !self.control && !self.alt && !self.cmd && !self.other
    }

    /// Whether Shift is held and nothing else.
    pub open spec fn spec_shift_alone(self) -> bool {
        self.shift && !self.control && !self.alt && !self.cmd && !self.other
    }

    /// No modifier at all.
    pub fn none() -> (modifiers: Self)
        ensures
            modifiers.spec_bare(),
    {
        Modifiers { shift: false, control: false, alt: false, cmd: false, other: false }
    }

    /// Whether none is held.
    pub fn bare(self) -> (bare: bool)
        ensures
            bare == self.spec_bare(),
    {
        !self.shift && !self.control && !self.alt && !self.cmd && !self.other
    }

    /// Whether Shift is held and nothing else.
    pub fn shift_alone(self) -> (alone: bool)
        ensures
            alone == self.spec_shift_alone(),
    {
        self.shift && !self.control && !self.alt && !self.cmd && !self.other
    }
}

/// A key as the terminal reports it.
#[derive(Debug, Clone, Copy, PartialEq, Eq, Structural)]
pub enum KeyCode {
    /// A character.
    Char(char),
    /// A function key.
    F(u8),
    /// Enter.
    Enter,
    /// Tab.
    Tab,
    /// Shift+Tab, which terminals report as a key of its own.
    BackTab,
    /// Backspace.
    Backspace,
    /// Delete.
    Delete,
    /// Insert.
    Insert,
    /// Escape.
    Esc,
    /// The left arrow.
    Left,
    /// The right arrow.
    Right,
    /// The up arrow.
    Up,
    /// The down arrow.
    Down,
    /// Home.
    Home,
    /// End.
    End,
    /// Page Up.
    PageUp,
    /// Page Down.
    PageDown,
    /// A modifier on its own, which some terminals report.
    Modifier,
    /// A key there is no use for: a media key, Caps Lock.
    Unused,
}

/// Whether a key went down, is being held, or came up.
#[derive(Debug, Clone, Copy, PartialEq, Eq, Structural)]
pub enum KeyKind {
    /// It went down.
    Press,
    /// It is being held.
    Repeat,
    /// It came up.
    Release,
}

/// A keystroke as the terminal reports it.
#[derive(Debug, Clone, Copy, PartialEq, Eq, Structural)]
pub struct KeyEvent {
    /// Which key.
    pub code: KeyCode,
    /// What was held with it.
    pub modifiers: Modifiers,
    /// Whether it went down or came up.
    pub kind: KeyKind,
}

/// A key as the keymap names it.
#[derive(Debug, Clone, Copy, PartialEq, Eq, Structural)]
pub enum Code {
    /// A character.
    Char(char),
    /// A function key.
    F(u8),
    /// Enter.
    Enter,
    /// Tab, with or without Shift.
    Tab,
    /// Backspace.
    Backspace,
    /// Delete.
    Delete,
    /// Insert.
    Insert,
    /// Escape.
    Esc,
    /// The left arrow.
    Left,
    /// The right arrow.
    Right,
    /// The up arrow.
    Up,
    /// The down arrow.
    Down,
    /// Home.
    Home,
    /// End.
    End,
    /// Page Up.
    PageUp,
    /// Page Down.
    PageDown,
}

/// A keystroke as the keymap names it.
#[derive(Debug, Clone, Copy, PartialEq, Eq, Structural)]
pub struct Key {
    /// Which key.
    pub code: Code,
    /// Whether Control was held.
    pub control: bool,
    /// Whether Alt was held.
    pub alt: bool,
    /// Whether Shift was held.
    pub shift: bool,
    /// Whether Command was held.
    pub cmd: bool,
}

/// What the keymap calls a key: Shift+Tab is Tab there, and an unused key has
/// no name.
pub open spec fn code_of(code: KeyCode) -> Option<Code> {
    match code {
        KeyCode::Char(ch) => Some(Code::Char(ch)),
        KeyCode::F(n) => Some(Code::F(n)),
        KeyCode::Enter => Some(Code::Enter),
        KeyCode::Tab => Some(Code::Tab),
        KeyCode::BackTab => Some(Code::Tab),
        KeyCode::Backspace => Some(Code::Backspace),
        KeyCode::Delete => Some(Code::Delete),
        KeyCode::Insert => Some(Code::Insert),
        KeyCode::Esc => Some(Code::Esc),
        KeyCode::Left => Some(Code::Left),
        KeyCode::Right => Some(Code::Right),
        KeyCode::Up => Some(Code::Up),
        KeyCode::Down => Some(Code::Down),
        KeyCode::Home => Some(Code::Home),
        KeyCode::End => Some(Code::End),
        KeyCode::PageUp => Some(Code::PageUp),
        KeyCode::PageDown => Some(Code::PageDown),
        KeyCode::Modifier | KeyCode::Unused => None,
    }
}

/// A keystroke as the keymap names it.
pub open spec fn key_of(event: KeyEvent) -> Option<Key> {
    match code_of(event.code) {
        Some(code) => Some(
            Key {
                code,
                control: event.modifiers.control,
                alt: event.modifiers.alt,
                shift: event.modifiers.shift || event.code is BackTab,
                cmd: event.modifiers.cmd,
            },
        ),
        None => None,
    }
}

/// A keystroke as the keymap names it.
///
/// `None` for keys there is no use for: media keys, lone modifiers, Caps Lock.
pub fn to_key(event: &KeyEvent) -> (key: Option<Key>)
    ensures
        key == key_of(*event),
{
    let code: Code = match event.code {
        KeyCode::Char(ch) => Code::Char(ch),
        KeyCode::F(n) => Code::F(n),
        KeyCode::Enter => Code::Enter,
        KeyCode::Tab | KeyCode::BackTab => Code::Tab,
        KeyCode::Backspace => Code::Backspace,
        KeyCode::Delete => Code::Delete,
        KeyCode::Insert => Code::Insert,
        KeyCode::Esc => Code::Esc,
        KeyCode::Left => Code::Left,
        KeyCode::Right => Code::Right,
        KeyCode::Up => Code::Up,
        KeyCode::Down => Code::Down,
        KeyCode::Home => Code::Home,
        KeyCode::End => Code::End,
        KeyCode::PageUp => Code::PageUp,
        KeyCode::PageDown => Code::PageDown,
        KeyCode::Modifier | KeyCode::Unused => return None,
    };
    Some(
        Key {
            code,
            control: event.modifiers.control,
            alt: event.modifiers.alt,
            shift: event.modifiers.shift || matches!(event.code, KeyCode::BackTab),
            cmd: event.modifiers.cmd,
        },
    )
}

/// Shift+Tab is one key to the keymap, whether the terminal reports it as Tab
/// with Shift or as a key of its own.
pub proof fn shift_tab_is_one_key(a: KeyEvent, b: KeyEvent)
    requires
        a.code is Tab,
        b.code is BackTab,
        a.modifiers == (Modifiers { shift: true, ..b.modifiers }),
    ensures
        key_of(a) == key_of(b),
{
}

/// A mouse button.
#[derive(Debug, Clone, Copy, PartialEq, Eq, Structural)]
pub enum Button {
    /// The left one.
    Left,
    /// The right one.
    Right,
    /// The middle one.
    Middle,
}

/// What the mouse did.
#[derive(Debug, Clone, Copy, PartialEq, Eq, Structural)]
pub enum MouseKind {
    /// A button went down.
    Down(Button),
    /// A button came up.
    Up(Button),
    /// The pointer moved with a button down.
    Drag(Button),
    /// The pointer moved.
    Moved,
    /// The wheel went up.
    ScrollUp,
    /// The wheel went down.
    ScrollDown,
    /// The wheel went sideways.
    ScrollSideways,
}

/// A mouse report.
#[derive(Debug, Clone, Copy, PartialEq, Eq, Structural)]
pub struct Mouse {
    /// What it did.
    pub kind: MouseKind,
    /// The column it was in.
    pub column: u16,
    /// The row it was on.
    pub row: u16,
    /// What was held with it.
    pub modifiers: Modifiers,
}

/// A signal the program was sent.
#[derive(Debug, Clone, Copy, PartialEq, Eq, Structural)]
pub enum Signal {
    /// Stop, to be continued.
    Suspend,
    /// Go on.
    Continue,
    /// The terminal changed its size.
    Resize,
    /// Shut down.
    Terminate,
    /// The terminal has gone.
    Hangup,
}

/// Something that happened.
#[derive(Debug)]
pub enum Event {
    /// A key.
    Key(KeyEvent),
    /// The mouse.
    Mouse(Mouse),
    /// Text was pasted.
    Paste(String),
    /// The terminal has this many columns and rows now.
    Resize(u16, u16),
    /// The terminal got the keyboard, or lost it.
    Focus(bool),
    /// A signal.
    Signal(Signal),
    /// There will be no more events.
    Closed,
    /// A service answered: files changed on disk, a job was done, a file was
    /// parsed, a search found something, a server spoke.
    Service,
}

/// A key is fed to the keymap as the key it is, with what was held with it; Shift and
/// Tab as Tab with Shift; a modifier on its own, and a key of no use, as none.
pub proof fn a_key_is_fed_as_it_is(event: KeyEvent)
    ensures
        key_of(event) is None <==> event.code is Modifier || event.code is Unused,
        key_of(event) matches Some(key) ==> {
            &&& key.control == event.modifiers.control
            &&& key.alt == event.modifiers.alt
            &&& key.cmd == event.modifiers.cmd
            &&& key.shift == (event.modifiers.shift || event.code is BackTab)
            &&& match key.code {
                Code::Char(ch) => event.code == KeyCode::Char(ch),
                Code::F(n) => event.code == KeyCode::F(n),
                Code::Enter => event.code is Enter,
                Code::Tab => event.code is Tab || event.code is BackTab,
                Code::Backspace => event.code is Backspace,
                Code::Delete => event.code is Delete,
                Code::Insert => event.code is Insert,
                Code::Esc => event.code is Esc,
                Code::Left => event.code is Left,
                Code::Right => event.code is Right,
                Code::Up => event.code is Up,
                Code::Down => event.code is Down,
                Code::Home => event.code is Home,
                Code::End => event.code is End,
                Code::PageUp => event.code is PageUp,
                Code::PageDown => event.code is PageDown,
            }
        },
{
}

} // verus!
