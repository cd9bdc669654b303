//! User-originated terminal actions. tmux encodes special keys and bracketed
//! paste from its current application modes; no device replies are sent back.
use vstd::prelude::*;
use crate::command;
use crate::ids::{sigiled, PaneId, SessionId, WindowId};
use crate::model::Size;
use crate::text;

verus! {

/// The most bytes that one paste may hold.
pub const MAX_PASTE_BYTES: usize = 65_536;

/// The most cells by which a pane may be asked to be resized.
pub const MAX_RESIZE_CELLS: usize = 4096;

/// What a queued action without content of its own counts for.
pub const PLAIN_ACTION_BYTES: usize = 32;

#[derive(Clone, Copy, Debug, PartialEq, Eq, Structural)]
pub enum Key {
    Enter,
    Backspace,
    Tab,
    Escape,
    Up,
    Down,
    Left,
    Right,
    Home,
    End,
    Insert,
    Delete,
    PageUp,
    PageDown,
    Function(u8),
    WheelUp,
    WheelDown,
}

#[derive(Clone, Copy, Debug, PartialEq, Eq, Structural)]
pub struct Modifiers {
    pub control: bool,
    pub alt: bool,
    pub shift: bool,
}

impl Default for Modifiers {
    fn default() -> (r: Self)
        ensures
            r == (Modifiers { control: false, alt: false, shift: false }),
    {
        Modifiers { control: false, alt: false, shift: false }
    }
}

/// Why an action was refused.
#[derive(Clone, Copy, Debug, PartialEq, Eq, Structural)]
pub enum Error {
    UnsupportedKey,
    InputSize,
    PasteSize,
    PasteControl,
    ResizeSize,
}

/// What the user is told about a refused action.
pub open spec fn error_text(error: Error) -> Seq<char> {
    match error {
        Error::UnsupportedKey => "this key is not supported"@,
        Error::InputSize => "terminal input must contain 1..=1024 bytes"@,
        Error::PasteSize => "paste must contain 1..=65536 UTF-8 bytes"@,
        Error::PasteControl => "paste contains control characters; nothing was sent (only tabs and newlines are allowed)"@,
        Error::ResizeSize => "pane size must be between 1 and 4096 cells"@,
    }
}

impl Error {
    /// What the user is told.
    pub fn to_text(self) -> (r: &'static str)
        ensures
            r@ == error_text(self),
    {
        match self {
            Error::UnsupportedKey => "this key is not supported",
            Error::InputSize => "terminal input must contain 1..=1024 bytes",
            Error::PasteSize => "paste must contain 1..=65536 UTF-8 bytes",
            Error::PasteControl => "paste contains control characters; nothing was sent (only tabs and newlines are allowed)",
            Error::ResizeSize => "pane size must be between 1 and 4096 cells",
        }
    }
}

/// tmux's name for a key without modifiers. The wheel has none: tmux would type
/// an unknown name as text.
pub open spec fn base_name(key: Key) -> Option<Seq<char>> {
    match key {
        Key::Enter => Some("Enter"@),
        Key::Backspace => Some("BSpace"@),
        Key::Tab => Some("Tab"@),
        Key::Escape => Some("Escape"@),
        Key::Up => Some("Up"@),
        Key::Down => Some("Down"@),
        Key::Left => Some("Left"@),
        Key::Right => Some("Right"@),
        Key::Home => Some("Home"@),
        Key::End => Some("End"@),
        Key::Insert => Some("IC"@),
        Key::Delete => Some("DC"@),
        Key::PageUp => Some("PPage"@),
        Key::PageDown => Some("NPage"@),
        Key::Function(number) => if 1 <= number <= 20 {
            Some(seq!['F'] + text::digits(number as nat))
        } else {
            None
        },
        Key::WheelUp | Key::WheelDown => None,
    }
}

/// The prefixes by which tmux writes modifiers, in its order.
pub open spec fn modifier_prefix(control: bool, alt: bool, shift: bool) -> Seq<char> {
    (if control {
        "C-"@
    } else {
        Seq::empty()
    }) + (if alt {
        "M-"@
    } else {
        Seq::empty()
    }) + (if shift {
        "S-"@
    } else {
        Seq::empty()
    })
}

/// tmux's name for a key with modifiers. Enter and Backspace have no shifted
/// form of their own, and Tab with Shift alone is the back tab.
pub open spec fn key_name(key: Key, modifiers: Modifiers) -> Option<Seq<char>> {
    if key == Key::Tab && modifiers.shift && !modifiers.control && !modifiers.alt {
        Some("BTab"@)
    } else {
        match base_name(key) {
            Some(base) => Some(
                modifier_prefix(
                    modifiers.control,
                    modifiers.alt,
                    modifiers.shift && key != Key::Enter && key != Key::Backspace,
                ) + base,
            ),
            None => None,
        }
    }
}

/// A letter, a digit or a hyphen.
pub open spec fn plain_char(c: char) -> bool {
    ('a' <= c && c <= 'z') || ('A' <= c && c <= 'Z') || ('0' <= c && c <= '9') || c == '-'
}

/// Made of letters, digits and hyphens alone.
pub open spec fn plain(s: Seq<char>) -> bool {
    forall|i: int| 0 <= i < s.len() ==> plain_char(#[trigger] s[i])
}

impl Key {
    /// tmux's name for the key with these modifiers.
    pub fn name(self, modifiers: Modifiers) -> (r: Result<String, Error>)
        ensures
            match r {
                Ok(name) => key_name(self, modifiers) == Some(name@),
                Err(error) => error == Error::UnsupportedKey && key_name(self, modifiers) is None,
            },
    {
        let shift: bool = match self {
            Key::Enter | Key::Backspace => false,
            _ => modifiers.shift,
        };
        let name: String = match self {
            Key::Enter => "Enter".to_owned(),
            Key::Backspace => "BSpace".to_owned(),
            Key::Tab => {
                if shift && !modifiers.control && !modifiers.alt {
                    return Ok("BTab".to_owned());
                }
                "Tab".to_owned()
            },
            Key::Escape => "Escape".to_owned(),
            Key::Up => "Up".to_owned(),
            Key::Down => "Down".to_owned(),
            Key::Left => "Left".to_owned(),
            Key::Right => "Right".to_owned(),
            Key::Home => "Home".to_owned(),
            Key::End => "End".to_owned(),
            Key::Insert => "IC".to_owned(),
            Key::Delete => "DC".to_owned(),
            Key::PageUp => "PPage".to_owned(),
            Key::PageDown => "NPage".to_owned(),
            Key::Function(number) => {
                if number < 1 || number > 20 {
                    return Err(Error::UnsupportedKey);
                }
                let mut function = String::new();
                function.push('F');
                text::push_decimal(&mut function, number as u64);
                assert(function@ =~= seq!['F'] + text::digits(number as nat));
                function
            },
            Key::WheelUp | Key::WheelDown => return Err(Error::UnsupportedKey),
        };
        let mut out = String::new();
        if modifiers.control {
            text::push_text(&mut out, "C-");
        }
        if modifiers.alt {
            text::push_text(&mut out, "M-");
        }
        if shift {
            text::push_text(&mut out, "S-");
        }
        assert(out@ =~= modifier_prefix(modifiers.control, modifiers.alt, shift));
        text::push_text(&mut out, name.as_str());
        Ok(out)
    }
}

proof fn lemma_plain_concat(a: Seq<char>, b: Seq<char>)
    requires
        plain(a),
        plain(b),
    ensures
        plain(a + b),
{
}

/// A key's name holds letters, digits and hyphens alone, so it can neither end
/// a tmux command nor begin another.
pub proof fn a_key_name_is_plain(key: Key, modifiers: Modifiers)
    ensures
        key_name(key, modifiers) is Some ==> plain(key_name(key, modifiers)->0),
{
    reveal_strlit("Enter");
    reveal_strlit("BSpace");
    reveal_strlit("Tab");
    reveal_strlit("BTab");
    reveal_strlit("Escape");
    reveal_strlit("Up");
    reveal_strlit("Down");
    reveal_strlit("Left");
    reveal_strlit("Right");
    reveal_strlit("Home");
    reveal_strlit("End");
    reveal_strlit("IC");
    reveal_strlit("DC");
    reveal_strlit("PPage");
    reveal_strlit("NPage");
    reveal_strlit("C-");
    reveal_strlit("M-");
    reveal_strlit("S-");
    if let Key::Function(number) = key {
        text::lemma_digits(number as nat);
        let d = text::digits(number as nat);
        assert forall|i: int| 0 <= i < d.len() implies plain_char(#[trigger] d[i]) by {
            assert(text::is_digit(d[i]));
        }
        lemma_plain_concat(seq!['F'], d);
    }
    let shift = modifiers.shift && key != Key::Enter && key != Key::Backspace;
    let c = if modifiers.control {
        "C-"@
    } else {
        Seq::empty()
    };
    let m = if modifiers.alt {
        "M-"@
    } else {
        Seq::empty()
    };
    let s = if shift {
        "S-"@
    } else {
        Seq::empty()
    };
    lemma_plain_concat(c, m);
    lemma_plain_concat(c + m, s);
    if let Some(base) = base_name(key) {
        lemma_plain_concat(modifier_prefix(modifiers.control, modifiers.alt, shift), base);
    }
}

/// The wheel has no key name under any modifiers.
pub proof fn the_wheel_is_never_a_key_name(modifiers: Modifiers)
    ensures
        key_name(Key::WheelUp, modifiers) is None,
        key_name(Key::WheelDown, modifiers) is None,
{
}

/// A control character other than a tab or a line ending.
pub open spec fn forbidden(c: char) -> bool {
    text::control(c) && c != '\t' && c != '\n' && c != '\r'
}

/// Some character of the text may not be pasted.
pub open spec fn has_forbidden(s: Seq<char>) -> bool {
    exists|i: int| 0 <= i < s.len() && forbidden(#[trigger] s[i])
}

/// The text with every line ending, in either of its longer forms, made a
/// single line feed.
pub open spec fn unix_lines(s: Seq<char>) -> Seq<char>
    decreases s.len(),
{
    if s.len() == 0 {
        Seq::empty()
    } else if s.last() == '\n' && s.len() > 1 && s[s.len() - 2] == '\r' {
        unix_lines(s.drop_last())
    } else if s.last() == '\r' {
        unix_lines(s.drop_last()).push('\n')
    } else {
        unix_lines(s.drop_last()).push(s.last())
    }
}

/// A text that may stand in a paste as it is: its only control characters are
/// tabs and line feeds.
pub open spec fn pasteable(s: Seq<char>) -> bool {
    forall|i: int| 0 <= i < s.len() ==> (text::control(#[trigger] s[i]) ==> s[i] == '\t' || s[i] == '\n')
}

proof fn lemma_unix_lines_no_longer(s: Seq<char>)
    ensures
        text::byte_len(unix_lines(s)) <= text::byte_len(s),
    decreases s.len(),
{
    if s.len() > 0 {
        let d = s.drop_last();
        lemma_unix_lines_no_longer(d);
        assert(s =~= d.push(s.last()));
        text::lemma_byte_len_push(d, s.last());
        if s.last() == '\n' && s.len() > 1 && s[s.len() - 2] == '\r' {
        } else if s.last() == '\r' {
            text::lemma_byte_len_push(unix_lines(d), '\n');
        } else {
            text::lemma_byte_len_push(unix_lines(d), s.last());
        }
    }
}

proof fn lemma_unix_lines_pasteable(s: Seq<char>)
    requires
        !has_forbidden(s),
    ensures
        pasteable(unix_lines(s)),
        s.len() > 0 ==> unix_lines(s).len() > 0,
    decreases s.len(),
{
    if s.len() > 0 {
        let d = s.drop_last();
        assert forall|i: int| 0 <= i < d.len() implies !forbidden(#[trigger] d[i]) by {
            assert(!forbidden(s[i]));
        }
        lemma_unix_lines_pasteable(d);
        assert(!forbidden(s[s.len() - 1]));
    }
}

/// Paste is text, not a second path for escape sequences: control characters
/// are refused and not stripped.
pub struct Paste {
    content: String,
}

impl View for Paste {
    type V = Seq<char>;

    closed spec fn view(&self) -> Seq<char> {
        self.content@
    }
}

impl Clone for Paste {
    fn clone(&self) -> (r: Self)
        ensures
            r@ == self@,
    {
        proof {
            use_type_invariant(self);
        }
        Paste { content: self.content.clone() }
    }
}

impl Paste {
    #[verifier::type_invariant]
    pub closed spec fn valid(self) -> bool {
        pasteable(self.content@) && self.content@.len() > 0 && text::byte_len(self.content@)
            <= MAX_PASTE_BYTES
    }

    pub fn new(content: &str) -> (r: Result<Self, Error>)
        ensures
            match r {
                Ok(paste) => content@.len() > 0 && text::byte_len(content@) <= MAX_PASTE_BYTES
                    && !has_forbidden(content@) && paste@ == unix_lines(content@),
                Err(Error::PasteSize) => content@.len() == 0 || text::byte_len(content@)
                    > MAX_PASTE_BYTES,
                Err(error) => error == Error::PasteControl && content@.len() > 0 && text::byte_len(
                    content@,
                ) <= MAX_PASTE_BYTES && has_forbidden(content@),
            },
    {
        let v = text::chars_of(content);
        if v.len() == 0 || text::byte_length(content) > MAX_PASTE_BYTES {
            return Err(Error::PasteSize);
        }
        let mut out = String::new();
        assert(v@.take(0) =~= Seq::<char>::empty());
        for i in 0..v.len()
            invariant
                v@ == content@,
                v@.len() > 0,
                text::byte_len(content@) <= MAX_PASTE_BYTES,
                out@ == unix_lines(v@.take(i as int)),
                forall|j: int| 0 <= j < i ==> !forbidden(#[trigger] v@[j]),
        {
            let c: char = v[i];
            assert(v@.take(i + 1).drop_last() =~= v@.take(i as int));
            if text::is_control(c) && c != '\t' && c != '\n' && c != '\r' {
                assert(forbidden(v@[i as int]));
                return Err(Error::PasteControl);
            }
            if c == '\n' && i > 0 && v[i - 1] == '\r' {
                assert(v@.take(i + 1)[i - 1] == '\r');
            } else if c == '\r' {
                out.push('\n');
            } else {
                out.push(c);
            }
            assert(out@ =~= unix_lines(v@.take(i + 1)));
        }
        assert(v@.take(v@.len() as int) =~= v@);
        proof {
            lemma_unix_lines_pasteable(content@);
            lemma_unix_lines_no_longer(content@);
        }
        Ok(Paste { content: out })
    }

    /// The text, with line feeds for line endings and no other control
    /// character but tabs.
    pub fn as_str(&self) -> (r: &str)
        ensures
            r@ == self@,
            pasteable(r@),
            r@.len() > 0,
            text::byte_len(r@) <= MAX_PASTE_BYTES,
    {
        proof {
            use_type_invariant(self);
        }
        self.content.as_str()
    }

    /// Whether the text holds a line ending.
    pub fn is_multiline(&self) -> (r: bool)
        ensures
            r == self@.contains('\n'),
    {
        let v = text::chars_of(self.content.as_str());
        for i in 0..v.len()
            invariant
                v@ == self@,
                forall|j: int| 0 <= j < i ==> v@[j] != '\n',
        {
            if v[i] == '\n' {
                assert(self@[i as int] == '\n');
                return true;
            }
        }
        false
    }
}

#[derive(Clone, Copy, Debug, PartialEq, Eq, Structural)]
pub enum Axis {
    Columns,
    Rows,
}

#[derive(Clone, Copy, Debug, PartialEq, Eq, Structural)]
pub struct Resize {
    pub axis: Axis,
    pub cells: usize,
}

/// Something the user asked for. It has no debug form: input and clipboard
/// contents must not appear in logs.
#[derive(Clone)]
pub enum Action {
    Bytes(Vec<u8>),
    Key(Key, Modifiers),
    Paste(Paste),
    Resize(Resize),
    /// The client's size in cells, from the font metrics used to paint.
    ClientSize(Size),
    Split(Axis),
    KillPane,
    ZoomPane,
    SelectPane,
    /// Swap this pane with another one of the same window.
    SwapPane(PaneId),
}

/// What an action asks for, apart from how its content is held.
pub enum Input {
    Bytes(Seq<u8>),
    Key(Key, Modifiers),
    Paste(Seq<char>),
    Resize(Resize),
    ClientSize(Size),
    Split(Axis),
    KillPane,
    ZoomPane,
    SelectPane,
    SwapPane(PaneId),
}

impl View for Action {
    type V = Input;

    open spec fn view(&self) -> Input {
        match *self {
            Action::Bytes(bytes) => Input::Bytes(bytes@),
            Action::Key(key, modifiers) => Input::Key(key, modifiers),
            Action::Paste(paste) => Input::Paste(paste@),
            Action::Resize(resize) => Input::Resize(resize),
            Action::ClientSize(size) => Input::ClientSize(size),
            Action::Split(axis) => Input::Split(axis),
            Action::KillPane => Input::KillPane,
            Action::ZoomPane => Input::ZoomPane,
            Action::SelectPane => Input::SelectPane,
            Action::SwapPane(other) => Input::SwapPane(other),
        }
    }
}

/// Why an action is refused whatever it is aimed at, if it is.
pub open spec fn input_error(input: Input) -> Option<Error> {
    match input {
        Input::Bytes(bytes) => if bytes.len() == 0 || bytes.len() > command::MAX_INPUT_BYTES {
            Some(Error::InputSize)
        } else {
            None
        },
        Input::Key(key, modifiers) => if key_name(key, modifiers) is None {
            Some(Error::UnsupportedKey)
        } else {
            None
        },
        Input::Resize(resize) => if resize.cells < 1 || resize.cells > MAX_RESIZE_CELLS {
            Some(Error::ResizeSize)
        } else {
            None
        },
        _ => None,
    }
}

/// The actions after which the pane layout is no longer what it was.
pub open spec fn alters_layout(input: Input) -> bool {
    input is Resize || input is ClientSize || input is Split || input is KillPane
        || input is ZoomPane || input is SwapPane
}

/// The actions that change the size of the shared window.
pub open spec fn alters_window_size(input: Input) -> bool {
    input is Resize || input is ClientSize
}

/// Input that may share a transaction with its neighbours.
pub open spec fn is_typing(input: Input) -> bool {
    input is Bytes || input is Key
}

/// What an action counts for in a bounded queue.
pub open spec fn input_size(input: Input) -> nat {
    match input {
        Input::Bytes(bytes) => bytes.len(),
        Input::Paste(content) => text::byte_len(content),
        _ => PLAIN_ACTION_BYTES as nat,
    }
}

impl Action {
    /// Refuses an action that no pane could take.
    pub fn validate(&self) -> (r: Result<(), Error>)
        ensures
            match r {
                Ok(()) => input_error(self@) is None,
                Err(error) => input_error(self@) == Some(error),
            },
    {
        match self {
            Action::Bytes(bytes) => if bytes.len() == 0 || bytes.len() > command::MAX_INPUT_BYTES {
                Err(Error::InputSize)
            } else {
                Ok(())
            },
            Action::Key(key, modifiers) => match key.name(*modifiers) {
                Ok(_) => Ok(()),
                Err(error) => Err(error),
            },
            Action::Resize(resize) => if resize.cells < 1 || resize.cells > MAX_RESIZE_CELLS {
                Err(Error::ResizeSize)
            } else {
                Ok(())
            },
            _ => Ok(()),
        }
    }

    /// Whether the pane layout changes.
    pub fn changes_layout(&self) -> (r: bool)
        ensures
            r == alters_layout(self@),
    {
        match self {
            Action::Resize(_)
            | Action::ClientSize(_)
            | Action::Split(_)
            | Action::KillPane
            | Action::ZoomPane
            | Action::SwapPane(_) => true,
            _ => false,
        }
    }

    /// Whether the size of the shared window changes.
    pub fn changes_window_size(&self) -> (r: bool)
        ensures
            r == alters_window_size(self@),
    {
        match self {
            Action::Resize(_) | Action::ClientSize(_) => true,
            _ => false,
        }
    }

    /// Whether this is text or a key.
    pub fn typing(&self) -> (r: bool)
        ensures
            r == is_typing(self@),
    {
        match self {
            Action::Bytes(_) | Action::Key(_, _) => true,
            _ => false,
        }
    }

    /// What the action counts for in a bounded queue.
    pub fn size(&self) -> (r: usize)
        ensures
            r == input_size(self@),
    {
        match self {
            Action::Bytes(bytes) => bytes.len(),
            Action::Paste(paste) => text::byte_length(paste.as_str()),
            _ => PLAIN_ACTION_BYTES,
        }
    }
}

/// Every action that changes the window size changes the layout, and no typing
/// does either.
pub proof fn a_window_resize_is_a_layout_change(input: Input)
    ensures
        alters_window_size(input) ==> alters_layout(input),
        alters_layout(input) ==> !is_typing(input),
{
}

/// The exact pane geometry observed when the user made an action.
#[derive(Clone, Copy, Debug, PartialEq, Eq, Structural)]
pub struct Target {
    pub session: SessionId,
    pub pane: PaneId,
    pub window: WindowId,
    pub size: Size,
    pub left: usize,
    pub top: usize,
}

/// tmux's format for "this field has this value".
pub open spec fn field_check(field: Seq<char>, value: Seq<char>) -> Seq<char> {
    "#{==:#{"@ + field + "},"@ + value + "}"@
}

/// tmux's format for "both hold".
pub open spec fn both(a: Seq<char>, b: Seq<char>) -> Seq<char> {
    "#{&&:"@ + a + ","@ + b + "}"@
}

/// tmux's format for "all hold", taken from the left.
pub open spec fn all_of(checks: Seq<Seq<char>>) -> Seq<char>
    decreases checks.len(),
{
    if checks.len() == 0 {
        Seq::empty()
    } else if checks.len() == 1 {
        checks[0]
    } else {
        both(all_of(checks.drop_last()), checks.last())
    }
}

/// Everything that must still hold of the pane when an action reaches it.
/// Input must not be broadcast; a resize must not meet a zoomed window.
pub open spec fn guard_checks(target: Target, resizing: bool) -> Seq<Seq<char>> {
    seq![
        field_check("session_id"@, sigiled('$', target.session.0)),
        field_check("window_id"@, sigiled('@', target.window.0)),
        field_check("pane_width"@, text::digits(target.size.width())),
        field_check("pane_height"@, text::digits(target.size.height())),
        field_check("pane_left"@, text::digits(target.left as nat)),
        field_check("pane_top"@, text::digits(target.top as nat)),
        field_check("pane_dead"@, "0"@),
        field_check("pane_in_mode"@, "0"@),
        field_check("pane_input_off"@, "0"@),
        if resizing {
            field_check("window_zoomed_flag"@, "0"@)
        } else {
            field_check("synchronize-panes"@, "0"@)
        },
    ]
}

fn check_field(field: &str, value: &str) -> (r: String)
    ensures
        r@ == field_check(field@, value@),
{
    let mut r = "#{==:#{".to_owned();
    text::push_text(&mut r, field);
    text::push_text(&mut r, "},");
    text::push_text(&mut r, value);
    text::push_text(&mut r, "}");
    r
}

fn conjoin(checks: &Vec<String>) -> (r: String)
    requires
        checks@.len() > 0,
    ensures
        r@ == all_of(text::strings(checks@)),
{
    let ghost all = text::strings(checks@);
    let mut r: String = checks[0].clone();
    assert(all.take(1).len() == 1 && r@ == all_of(all.take(1)));
    for i in 1..checks.len()
        invariant
            all == text::strings(checks@),
            checks@.len() > 0,
            r@ == all_of(all.take(i as int)),
    {
        assert(all.take(i + 1).drop_last() =~= all.take(i as int));
        let mut next = "#{&&:".to_owned();
        text::push_text(&mut next, r.as_str());
        text::push_text(&mut next, ",");
        text::push_text(&mut next, checks[i].as_str());
        text::push_text(&mut next, "}");
        r = next;
        assert(r@ =~= all_of(all.take(i + 1)));
    }
    assert(all.take(all.len() as int) =~= all);
    r
}

impl Target {
    /// The condition that tmux evaluates immediately before the action.
    pub fn guard(self, resizing: bool) -> (r: String)
        ensures
            r@ == all_of(guard_checks(self, resizing)),
    {
        let mut checks: Vec<String> = Vec::new();
        checks.push(check_field("session_id", self.session.to_text().as_str()));
        checks.push(check_field("window_id", self.window.to_text().as_str()));
        checks.push(
            check_field("pane_width", text::decimal(self.size.columns() as u64).as_str()),
        );
        checks.push(check_field("pane_height", text::decimal(self.size.rows() as u64).as_str()));
        checks.push(check_field("pane_left", text::decimal(self.left as u64).as_str()));
        checks.push(check_field("pane_top", text::decimal(self.top as u64).as_str()));
        checks.push(check_field("pane_dead", "0"));
        checks.push(check_field("pane_in_mode", "0"));
        checks.push(check_field("pane_input_off", "0"));
        if resizing {
            checks.push(check_field("window_zoomed_flag", "0"));
        } else {
            checks.push(check_field("synchronize-panes", "0"));
        }
        assert(text::strings(checks@) =~= guard_checks(self, resizing));
        conjoin(&checks)
    }
}

/// The cursor key of a tick of the wheel.
pub open spec fn scrolls(up: bool, r: Seq<u8>) -> bool {
    r == (if up {
        seq![0x1bu8, 0x5bu8, 0x41u8]
    } else {
        seq![0x1bu8, 0x5bu8, 0x42u8]
    })
}

/// The cursor key by which a terminal scrolls an application on the alternate
/// screen that did not ask for mouse reports.
pub fn alternate_scroll_bytes(up: bool) -> (r: Vec<u8>)
    ensures
        scrolls(up, r@),
{
    let mut r: Vec<u8> = Vec::new();
    r.push(0x1b);
    r.push(0x5b);
    if up {
        r.push(0x41);
        assert(r@ =~= seq![0x1bu8, 0x5bu8, 0x41u8]);
    } else {
        r.push(0x42);
        assert(r@ =~= seq![0x1bu8, 0x5bu8, 0x42u8]);
    }
    r
}

/// The one-based coordinate of a zero-based cell.
pub open spec fn one_based(n: usize) -> nat {
    if n < usize::MAX {
        (n + 1) as nat
    } else {
        usize::MAX as nat
    }
}

/// An SGR mouse report.
pub open spec fn sgr_report(button: nat, x: nat, y: nat, last: char) -> Seq<u8> {
    text::ascii(
        seq!['\x1b', '[', '<'] + text::digits(button) + seq![';'] + text::digits(x) + seq![';']
            + text::digits(y) + seq![last],
    )
}

/// The X10 byte for a number: held between 1 and 223, and 32 added.
pub open spec fn x10_byte(n: nat) -> u8 {
    if n < 1 {
        33
    } else if n > 223 {
        255
    } else {
        (n + 32) as u8
    }
}

/// An X10 mouse report.
pub open spec fn x10_report(button: u8, x: nat, y: nat) -> Seq<u8> {
    seq![0x1bu8, 0x5bu8, 0x4du8, (button + 32) as u8, x10_byte(x), x10_byte(y)]
}

fn above(n: usize) -> (r: usize)
    ensures
        r == one_based(n),
        r >= 1,
{
    if n < usize::MAX {
        n + 1
    } else {
        usize::MAX
    }
}

fn report_sgr(button: u64, x: usize, y: usize, last: char) -> (r: Vec<u8>)
    ensures
        r@ == sgr_report(button as nat, x as nat, y as nat, last),
{
    let mut s = String::new();
    s.push('\x1b');
    s.push('[');
    s.push('<');
    text::push_decimal(&mut s, button);
    s.push(';');
    text::push_decimal(&mut s, x as u64);
    s.push(';');
    text::push_decimal(&mut s, y as u64);
    s.push(last);
    assert(s@ =~= seq!['\x1b', '[', '<'] + text::digits(button as nat) + seq![';'] + text::digits(
        x as nat,
    ) + seq![';'] + text::digits(y as nat) + seq![last]);
    text::to_ascii(s.as_str())
}

fn encode_x10(n: usize) -> (r: u8)
    ensures
        r == x10_byte(n as nat),
{
    if n < 1 {
        33
    } else if n > 223 {
        255
    } else {
        n as u8 + 32
    }
}

fn report_x10(button: u8, x: usize, y: usize) -> (r: Vec<u8>)
    requires
        button <= 65,
    ensures
        r@ == x10_report(button, x as nat, y as nat),
{
    let mut r: Vec<u8> = Vec::new();
    r.push(0x1b);
    r.push(0x5b);
    r.push(0x4d);
    r.push(button + 32);
    r.push(encode_x10(x));
    r.push(encode_x10(y));
    assert(r@ =~= x10_report(button, x as nat, y as nat));
    r
}

/// The report of a tick of the wheel.
pub open spec fn wheels(up: bool, column: usize, row: usize, sgr: bool, r: Seq<u8>) -> bool {
    r == (if sgr {
        sgr_report(
            if up {
                64
            } else {
                65
            },
            one_based(column),
            one_based(row),
            'M',
        )
    } else {
        x10_report(
            if up {
                64
            } else {
                65
            },
            one_based(column),
            one_based(row),
        )
    })
}

/// The mouse wheel report at a zero-based pane cell, for an application that
/// enabled mouse reports.
pub fn mouse_wheel_bytes(up: bool, column: usize, row: usize, sgr: bool) -> (r: Vec<u8>)
    ensures
        wheels(up, column, row, sgr, r@),
{
    let button: u8 = if up {
        64
    } else {
        65
    };
    if sgr {
        report_sgr(button as u64, above(column), above(row), 'M')
    } else {
        report_x10(button, above(column), above(row))
    }
}

/// The report of a press or a release.
pub open spec fn clicks(press: bool, column: usize, row: usize, sgr: bool, r: Seq<u8>) -> bool {
    r == (if sgr {
        sgr_report(
            0,
            one_based(column),
            one_based(row),
            if press {
                'M'
            } else {
                'm'
            },
        )
    } else {
        x10_report(
            if press {
                0
            } else {
                3
            },
            one_based(column),
            one_based(row),
        )
    })
}

/// The report of a left-button press or release at a zero-based pane cell.
///
/// SGR names the button in both directions and tells them apart by its last
/// letter; X10 says button 0 for a press and button 3 for a release.
pub fn mouse_click_bytes(press: bool, column: usize, row: usize, sgr: bool) -> (r: Vec<u8>)
    ensures
        clicks(press, column, row, sgr, r@),
{
    if sgr {
        let last: char = if press {
            'M'
        } else {
            'm'
        };
        report_sgr(0, above(column), above(row), last)
    } else {
        let button: u8 = if press {
            0
        } else {
            3
        };
        report_x10(button, above(column), above(row))
    }
}

/// A text that can stand between single quotes on one line.
pub open spec fn quotable(s: Seq<char>) -> bool {
    forall|i: int| 0 <= i < s.len() ==> (#[trigger] s[i]) != '\'' && s[i] != '\n' && s[i] != '\r'
}

proof fn lemma_quotable_join(a: Seq<char>, b: Seq<char>)
    requires
        quotable(a),
        quotable(b),
    ensures
        quotable(a + b),
{
}

proof fn lemma_quotable_digits(n: nat)
    ensures
        quotable(text::digits(n)),
{
    text::lemma_digits(n);
    let d = text::digits(n);
    assert forall|i: int| 0 <= i < d.len() implies (#[trigger] d[i]) != '\'' && d[i] != '\n'
        && d[i] != '\r' by {
        assert(text::is_digit(d[i]));
    }
}

proof fn lemma_quotable_check(field: Seq<char>, value: Seq<char>)
    requires
        quotable(field),
        quotable(value),
    ensures
        quotable(field_check(field, value)),
{
    reveal_strlit("#{==:#{");
    reveal_strlit("},");
    reveal_strlit("}");
    lemma_quotable_join("#{==:#{"@, field);
    lemma_quotable_join("#{==:#{"@ + field, "},"@);
    lemma_quotable_join("#{==:#{"@ + field + "},"@, value);
    lemma_quotable_join("#{==:#{"@ + field + "},"@ + value, "}"@);
}

proof fn lemma_quotable_all(checks: Seq<Seq<char>>)
    requires
        forall|i: int| 0 <= i < checks.len() ==> quotable(#[trigger] checks[i]),
    ensures
        quotable(all_of(checks)),
    decreases checks.len(),
{
    reveal_strlit("#{&&:");
    reveal_strlit(",");
    reveal_strlit("}");
    if checks.len() > 1 {
        let a = all_of(checks.drop_last());
        let b = checks[checks.len() - 1];
        lemma_quotable_all(checks.drop_last());
        lemma_quotable_join("#{&&:"@, a);
        lemma_quotable_join("#{&&:"@ + a, ","@);
        lemma_quotable_join("#{&&:"@ + a + ","@, b);
        lemma_quotable_join("#{&&:"@ + a + ","@ + b, "}"@);
    }
}

/// Whatever pane it is for, a guard never ends the quotation in which it stands.
pub proof fn a_guard_stays_quoted(target: Target, resizing: bool)
    ensures
        quotable(all_of(guard_checks(target, resizing))),
{
    reveal_strlit("session_id");
    reveal_strlit("window_id");
    reveal_strlit("pane_width");
    reveal_strlit("pane_height");
    reveal_strlit("pane_left");
    reveal_strlit("pane_top");
    reveal_strlit("pane_dead");
    reveal_strlit("pane_in_mode");
    reveal_strlit("pane_input_off");
    reveal_strlit("window_zoomed_flag");
    reveal_strlit("synchronize-panes");
    reveal_strlit("0");
    lemma_quotable_digits(target.session.0 as nat);
    lemma_quotable_digits(target.window.0 as nat);
    lemma_quotable_join(seq!['$'], text::digits(target.session.0 as nat));
    lemma_quotable_join(seq!['@'], text::digits(target.window.0 as nat));
    lemma_quotable_digits(target.size.width());
    lemma_quotable_digits(target.size.height());
    lemma_quotable_digits(target.left as nat);
    lemma_quotable_digits(target.top as nat);
    lemma_quotable_check("session_id"@, sigiled('$', target.session.0));
    lemma_quotable_check("window_id"@, sigiled('@', target.window.0));
    lemma_quotable_check("pane_width"@, text::digits(target.size.width()));
    lemma_quotable_check("pane_height"@, text::digits(target.size.height()));
    lemma_quotable_check("pane_left"@, text::digits(target.left as nat));
    lemma_quotable_check("pane_top"@, text::digits(target.top as nat));
    lemma_quotable_check("pane_dead"@, "0"@);
    lemma_quotable_check("pane_in_mode"@, "0"@);
    lemma_quotable_check("pane_input_off"@, "0"@);
    lemma_quotable_check("window_zoomed_flag"@, "0"@);
    lemma_quotable_check("synchronize-panes"@, "0"@);
    lemma_quotable_all(guard_checks(target, resizing));
}

/// tmux knows each key under its own name.
pub proof fn a_key_has_its_own_name(modifiers: Modifiers)
    requires
        !modifiers.control && !modifiers.alt && !modifiers.shift,
    ensures
        key_name(Key::Enter, modifiers) == Some("Enter"@),
        key_name(Key::Backspace, modifiers) == Some("BSpace"@),
        key_name(Key::Tab, modifiers) == Some("Tab"@),
        key_name(Key::Escape, modifiers) == Some("Escape"@),
        key_name(Key::Up, modifiers) == Some("Up"@),
        key_name(Key::Down, modifiers) == Some("Down"@),
        key_name(Key::Left, modifiers) == Some("Left"@),
        key_name(Key::Right, modifiers) == Some("Right"@),
        key_name(Key::Home, modifiers) == Some("Home"@),
        key_name(Key::End, modifiers) == Some("End"@),
        key_name(Key::Insert, modifiers) == Some("IC"@),
        key_name(Key::Delete, modifiers) == Some("DC"@),
        key_name(Key::PageUp, modifiers) == Some("PPage"@),
        key_name(Key::PageDown, modifiers) == Some("NPage"@),
{
    let none = modifier_prefix(false, false, false);
    assert(none =~= Seq::<char>::empty());
    assert(none + "Enter"@ =~= "Enter"@);
    assert(none + "BSpace"@ =~= "BSpace"@);
    assert(none + "Tab"@ =~= "Tab"@);
    assert(none + "Escape"@ =~= "Escape"@);
    assert(none + "Up"@ =~= "Up"@);
    assert(none + "Down"@ =~= "Down"@);
    assert(none + "Left"@ =~= "Left"@);
    assert(none + "Right"@ =~= "Right"@);
    assert(none + "Home"@ =~= "Home"@);
    assert(none + "End"@ =~= "End"@);
    assert(none + "IC"@ =~= "IC"@);
    assert(none + "DC"@ =~= "DC"@);
    assert(none + "PPage"@ =~= "PPage"@);
    assert(none + "NPage"@ =~= "NPage"@);
}

/// The function keys from the first to the twentieth are an `F` and their number;
/// there are no others.
pub proof fn a_function_key_is_named_by_its_number(number: u8, modifiers: Modifiers)
    ensures
        key_name(Key::Function(number), modifiers) is Some <==> 1 <= number <= 20,
        1 <= number <= 20 && !modifiers.control && !modifiers.alt && !modifiers.shift ==> ({
            let name = key_name(Key::Function(number), modifiers)->0;
            name.len() > 0 && name[0] == 'F' && text::number(name.skip(1)) == Some(number as nat)
        }),
{
    text::a_rendered_number_reads_back(number as nat);
    let none = modifier_prefix(false, false, false);
    assert(none =~= Seq::<char>::empty());
    let d = text::digits(number as nat);
    assert((none + (seq!['F'] + d)).skip(1) =~= d);
}

/// A modifier puts its prefix before the name that the key has without it: control
/// before alt, and alt before shift. Enter and Backspace take no shift, and the
/// shifted tab has a name of its own.
pub proof fn a_modifier_is_a_prefix(key: Key, control: bool, alt: bool, shift: bool)
    requires
        key_name(key, Modifiers { control: false, alt: false, shift: false }) is Some,
    ensures
        ({
            let bare = key_name(key, Modifiers { control: false, alt: false, shift: false })->0;
            &&& key_name(key, Modifiers { control: true, alt, shift }) is Some
            &&& (key != Key::Tab || alt || !shift) ==> key_name(
                key,
                Modifiers { control: true, alt, shift },
            ) == Some(
                seq!['C', '-'] + key_name(key, Modifiers { control: false, alt, shift })->0,
            )
            &&& (key != Key::Tab || !shift) ==> key_name(
                key,
                Modifiers { control: false, alt: true, shift },
            ) == Some(
                seq!['M', '-'] + key_name(
                    key,
                    Modifiers { control: false, alt: false, shift },
                )->0,
            )
            &&& (key != Key::Tab && key != Key::Enter && key != Key::Backspace) ==> key_name(
                key,
                Modifiers { control: false, alt: false, shift: true },
            ) == Some(seq!['S', '-'] + bare)
            &&& (key == Key::Enter || key == Key::Backspace) ==> key_name(
                key,
                Modifiers { control, alt, shift: true },
            ) == key_name(key, Modifiers { control, alt, shift: false })
            &&& key == Key::Tab ==> key_name(
                key,
                Modifiers { control: false, alt: false, shift: true },
            ) == Some("BTab"@)
            &&& key == Key::Tab ==> key_name(
                key,
                Modifiers { control: true, alt: false, shift: true },
            ) == Some(seq!['C', '-', 'S', '-'] + bare)
            &&& key == Key::Tab ==> key_name(
                key,
                Modifiers { control: false, alt: true, shift: true },
            ) == Some(seq!['M', '-', 'S', '-'] + bare)
        }),
{
    reveal_strlit("C-");
    reveal_strlit("M-");
    reveal_strlit("S-");
    let base = base_name(key)->0;
    let s = shift && key != Key::Enter && key != Key::Backspace;
    assert(modifier_prefix(false, false, false) + base =~= base);
    assert(modifier_prefix(true, alt, s) + base =~= seq!['C', '-'] + (modifier_prefix(
        false,
        alt,
        s,
    ) + base));
    assert(modifier_prefix(false, true, s) + base =~= seq!['M', '-'] + (modifier_prefix(
        false,
        false,
        s,
    ) + base));
    assert(modifier_prefix(false, false, true) + base =~= seq!['S', '-'] + base);
    assert(modifier_prefix(true, false, true) + base =~= seq!['C', '-', 'S', '-'] + base);
    assert(modifier_prefix(false, true, true) + base =~= seq!['M', '-', 'S', '-'] + base);
}

/// Making line endings plain works piece by piece, as long as no piece ends in the
/// middle of a line ending.
pub proof fn line_endings_are_independent(a: Seq<char>, b: Seq<char>)
    requires
        !(a.len() > 0 && b.len() > 0 && a.last() == '\r' && b[0] == '\n'),
    ensures
        unix_lines(a + b) == unix_lines(a) + unix_lines(b),
    decreases b.len(),
{
    if b.len() == 0 {
        assert(a + b =~= a);
        assert(unix_lines(a) + unix_lines(b) =~= unix_lines(a));
    } else {
        let d = b.drop_last();
        let s = a + b;
        if d.len() > 0 {
            assert(d[0] == b[0]);
        }
        line_endings_are_independent(a, d);
        assert(s.drop_last() =~= a + d);
        assert(s.last() == b.last());
        if b.len() > 1 {
            assert(s[s.len() - 2] == b[b.len() - 2]);
        } else if a.len() > 0 {
            assert(s[s.len() - 2] == a.last());
        }
        assert(unix_lines(s) =~= unix_lines(a) + unix_lines(b));
    }
}

/// Each kind of line ending becomes one line feed, and any other character stays.
pub proof fn a_line_ending_becomes_a_line_feed(c: char)
    ensures
        unix_lines(seq!['\r', '\n']) == seq!['\n'],
        unix_lines(seq!['\r']) == seq!['\n'],
        unix_lines(seq!['\n']) == seq!['\n'],
        c != '\r' ==> unix_lines(seq![c]) == seq![c],
        unix_lines(Seq::empty()) == Seq::<char>::empty(),
{
    assert(seq![c].drop_last() =~= Seq::<char>::empty());
    assert(seq!['\n'].drop_last() =~= Seq::<char>::empty());
    assert(seq!['\r'].drop_last() =~= Seq::<char>::empty());
    assert(seq!['\r', '\n'].drop_last() =~= seq!['\r']);
    assert(unix_lines(Seq::<char>::empty()) =~= Seq::<char>::empty());
    assert(unix_lines(seq!['\r']) =~= seq!['\n']);
    assert(unix_lines(seq!['\n']) =~= seq!['\n']);
    assert(unix_lines(seq![c]) =~= if c == '\r' {
        seq!['\n']
    } else {
        seq![c]
    });
}

/// A plain text, with no carriage return in it, is pasted as it stands.
pub proof fn a_plain_text_is_pasted_as_it_stands(s: Seq<char>)
    requires
        !s.contains('\r'),
    ensures
        unix_lines(s) == s,
    decreases s.len(),
{
    if s.len() > 0 {
        let d = s.drop_last();
        assert forall|i: int| 0 <= i < d.len() implies d[i] != '\r' by {
            assert(s.contains(s[i]));
        }
        a_plain_text_is_pasted_as_it_stands(d);
        assert(s.contains(s[s.len() - 1]));
        if s.len() > 1 {
            assert(s.contains(s[s.len() - 2]));
        }
        assert(d.push(s.last()) =~= s);
    } else {
        assert(unix_lines(s) =~= s);
    }
}

/// A paste may hold tabs and line endings, and no other control character.
pub proof fn only_tabs_and_line_endings_are_pasted(c: char)
    ensures
        forbidden(c) <==> ((c as u32) < 32 && c != '\t' && c != '\n' && c != '\r') || (127 <= (
        c as u32) && (c as u32) < 160),
{
}

/// Typed bytes are sent from one to a thousand and twenty-four at a time, a pane is
/// given from one to four thousand and ninety-six cells, a key is pressed if it has
/// a name, and nothing else is refused beforehand.
pub proof fn an_action_is_refused_for_its_size_alone(
    bytes: Seq<u8>,
    resize: Resize,
    key: Key,
    modifiers: Modifiers,
    other: Input,
)
    ensures
        input_error(Input::Bytes(bytes)) == (if 1 <= bytes.len() <= 1024 {
            None
        } else {
            Some(Error::InputSize)
        }),
        input_error(Input::Resize(resize)) == (if 1 <= resize.cells <= 4096 {
            None
        } else {
            Some(Error::ResizeSize)
        }),
        input_error(Input::Key(key, modifiers)) == (if key_name(key, modifiers) is Some {
            None
        } else {
            Some(Error::UnsupportedKey)
        }),
        !(other is Bytes || other is Resize || other is Key) ==> input_error(other) is None,
{
}

/// Splitting, closing, zooming, swapping and resizing panes and the window change the
/// layout; typing, keys, pastes and selecting a pane do not.
pub proof fn each_action_changes_the_layout_or_not(
    axis: Axis,
    other: PaneId,
    resize: Resize,
    size: Size,
    bytes: Seq<u8>,
    key: Key,
    modifiers: Modifiers,
    content: Seq<char>,
)
    ensures
        alters_layout(Input::Split(axis)),
        alters_layout(Input::KillPane),
        alters_layout(Input::ZoomPane),
        alters_layout(Input::SwapPane(other)),
        alters_layout(Input::Resize(resize)),
        alters_layout(Input::ClientSize(size)),
        !alters_layout(Input::Bytes(bytes)),
        !alters_layout(Input::Key(key, modifiers)),
        !alters_layout(Input::Paste(content)),
        !alters_layout(Input::SelectPane),
{
}

/// Only a resize of a pane or of the client needs the consent to resize the shared
/// window.
pub proof fn only_resizing_needs_consent(input: Input)
    ensures
        alters_window_size(input) <==> (match input {
            Input::Resize(_) | Input::ClientSize(_) => true,
            Input::Bytes(_)
            | Input::Key(..)
            | Input::Paste(_)
            | Input::Split(_)
            | Input::KillPane
            | Input::ZoomPane
            | Input::SelectPane
            | Input::SwapPane(_) => false,
        }),
{
}

/// Text and keys may share a transaction; a paste and everything that acts on panes
/// stand alone.
pub proof fn only_typing_shares_a_transaction(input: Input)
    ensures
        is_typing(input) <==> (match input {
            Input::Bytes(_) | Input::Key(..) => true,
            Input::Paste(_)
            | Input::Resize(_)
            | Input::ClientSize(_)
            | Input::Split(_)
            | Input::KillPane
            | Input::ZoomPane
            | Input::SelectPane
            | Input::SwapPane(_) => false,
        }),
{
}

/// Whatever holds content counts for as many bytes as it holds, so that a queue
/// bounded by bytes bounds its content; everything else counts for a little.
pub proof fn content_counts_in_full(bytes: Seq<u8>, content: Seq<char>, other: Input)
    ensures
        input_size(Input::Bytes(bytes)) == bytes.len(),
        input_size(Input::Paste(content)) == text::byte_len(content),
        !(other is Bytes || other is Paste) ==> input_size(other) == 32,
{
}

/// A check of a field compares that field with that value.
pub proof fn a_check_compares_a_field(field: Seq<char>, value: Seq<char>)
    ensures
        field_check(field, value) == seq!['#', '{', '=', '=', ':', '#', '{'] + field + seq!['}', ',']
            + value + seq!['}'],
{
    reveal_strlit("#{==:#{");
    reveal_strlit("},");
    reveal_strlit("}");
    assert(field_check(field, value) =~= seq!['#', '{', '=', '=', ':', '#', '{'] + field + seq![
        '}',
        ',',
    ] + value + seq!['}']);
}

/// One more check narrows a guard: both the guard so far and the check must hold.
pub proof fn a_guard_holds_only_if_every_check_does(checks: Seq<Seq<char>>, check: Seq<char>)
    ensures
        all_of(seq![check]) == check,
        checks.len() > 0 ==> all_of(checks.push(check)) == seq!['#', '{', '&', '&', ':'] + all_of(
            checks,
        ) + seq![','] + check + seq!['}'],
{
    reveal_strlit("#{&&:");
    reveal_strlit(",");
    reveal_strlit("}");
    assert(checks.push(check).drop_last() =~= checks);
    if checks.len() > 0 {
        assert(all_of(checks.push(check)) =~= seq!['#', '{', '&', '&', ':'] + all_of(checks)
            + seq![','] + check + seq!['}']);
    }
}

/// A guard checks that the session, the window and the exact place and size of the
/// pane are those that the user saw, that the pane is alive, in no mode and takes
/// input, and that typing is not broadcast; a resize is checked against a zoomed
/// window in place of that.
pub proof fn a_guard_checks_everything(target: Target, resizing: bool)
    ensures
        guard_checks(target, resizing).contains(
            field_check("session_id"@, seq!['$'] + text::digits(target.session.0 as nat)),
        ),
        guard_checks(target, resizing).contains(
            field_check("window_id"@, seq!['@'] + text::digits(target.window.0 as nat)),
        ),
        guard_checks(target, resizing).contains(
            field_check("pane_width"@, text::digits(target.size.width())),
        ),
        guard_checks(target, resizing).contains(
            field_check("pane_height"@, text::digits(target.size.height())),
        ),
        guard_checks(target, resizing).contains(
            field_check("pane_left"@, text::digits(target.left as nat)),
        ),
        guard_checks(target, resizing).contains(
            field_check("pane_top"@, text::digits(target.top as nat)),
        ),
        guard_checks(target, resizing).contains(field_check("pane_dead"@, "0"@)),
        guard_checks(target, resizing).contains(field_check("pane_in_mode"@, "0"@)),
        guard_checks(target, resizing).contains(field_check("pane_input_off"@, "0"@)),
        !resizing ==> guard_checks(target, resizing).contains(
            field_check("synchronize-panes"@, "0"@),
        ),
        resizing ==> guard_checks(target, resizing).contains(
            field_check("window_zoomed_flag"@, "0"@),
        ),
        guard_checks(target, resizing).len() == 10,
{
    let all = guard_checks(target, resizing);
    assert(all.contains(all[0]));
    assert(all.contains(all[1]));
    assert(all.contains(all[2]));
    assert(all.contains(all[3]));
    assert(all.contains(all[4]));
    assert(all.contains(all[5]));
    assert(all.contains(all[6]));
    assert(all.contains(all[7]));
    assert(all.contains(all[8]));
    assert(all.contains(all[9]));
}

/// A mouse report in the SGR form names the button and the one-based cell in decimal.
pub proof fn an_sgr_report_reads_back(button: nat, column: usize, row: usize, last: char)
    requires
        column < usize::MAX,
        row < usize::MAX,
    ensures
        ({
            let report = sgr_report(button, one_based(column), one_based(row), last);
            let b = text::ascii(text::digits(button));
            let x = text::ascii(text::digits((column + 1) as nat));
            let y = text::ascii(text::digits((row + 1) as nat));
            report == seq![27u8, 91u8, 60u8] + b + seq![59u8] + x + seq![59u8] + y + seq![
                last as u8,
            ]
        }),
{
    let report = sgr_report(button, one_based(column), one_based(row), last);
    let b = text::ascii(text::digits(button));
    let x = text::ascii(text::digits((column + 1) as nat));
    let y = text::ascii(text::digits((row + 1) as nat));
    assert(report =~= seq![27u8, 91u8, 60u8] + b + seq![59u8] + x + seq![59u8] + y + seq![
        last as u8,
    ]);
}

/// A mouse report in the X10 form adds 32 to the button and to the one-based cell,
/// and holds a cell that is too far out at the last one that it can tell.
pub proof fn an_x10_report_reads_back(button: u8, column: usize, row: usize)
    requires
        button <= 65,
    ensures
        ({
            let report = x10_report(button, one_based(column), one_based(row));
            &&& report.len() == 6
            &&& report[0] == 27 && report[1] == 91 && report[2] == 77
            &&& report[3] - 32 == button
            &&& column < 223 ==> report[4] - 32 == column + 1
            &&& column >= 223 ==> report[4] == 255
            &&& row < 223 ==> report[5] - 32 == row + 1
            &&& row >= 223 ==> report[5] == 255
        }),
{
}

/// The wheel is button 64 upward and 65 downward, at the cell where it turned.
pub proof fn the_wheel_is_two_buttons(
    column: usize,
    row: usize,
    sgr: bool,
    upward: Seq<u8>,
    downward: Seq<u8>,
)
    requires
        column < 223 && row < 223,
        wheels(true, column, row, sgr, upward),
        wheels(false, column, row, sgr, downward),
    ensures
        !sgr ==> upward == seq![
            27u8,
            91u8,
            77u8,
            96u8,
            (column + 33) as u8,
            (row + 33) as u8,
        ] && downward == seq![27u8, 91u8, 77u8, 97u8, (column + 33) as u8, (row + 33) as u8],
        sgr ==> upward == sgr_report(64, (column + 1) as nat, (row + 1) as nat, 'M') && downward
            == sgr_report(65, (column + 1) as nat, (row + 1) as nat, 'M'),
{
}

/// A press and a release name the cell and differ as the form of the report has it.
pub proof fn a_press_and_a_release_differ(
    column: usize,
    row: usize,
    sgr: bool,
    press: Seq<u8>,
    release: Seq<u8>,
)
    requires
        column < 223 && row < 223,
        clicks(true, column, row, sgr, press),
        clicks(false, column, row, sgr, release),
    ensures
        !sgr ==> press == seq![27u8, 91u8, 77u8, 32u8, (column + 33) as u8, (row + 33) as u8]
            && release == seq![27u8, 91u8, 77u8, 35u8, (column + 33) as u8, (row + 33) as u8],
        sgr ==> press == sgr_report(0, (column + 1) as nat, (row + 1) as nat, 'M') && release
            == sgr_report(0, (column + 1) as nat, (row + 1) as nat, 'm'),
{
}

/// On the alternate screen the wheel is the cursor key of its own direction.
pub proof fn the_wheel_is_a_cursor_key(upward: Seq<u8>, downward: Seq<u8>)
    requires
        scrolls(true, upward),
        scrolls(false, downward),
    ensures
        upward == seq![27u8, 91u8, 65u8],
        downward == seq![27u8, 91u8, 66u8],
{
}

/// What the user is told of an action that was refused.
pub proof fn what_is_told_of_a_refused_action()
    ensures
        error_text(Error::UnsupportedKey) == "this key is not supported"@,
        error_text(Error::InputSize) == "terminal input must contain 1..=1024 bytes"@,
        error_text(Error::PasteSize) == "paste must contain 1..=65536 UTF-8 bytes"@,
        error_text(Error::PasteControl)
            == "paste contains control characters; nothing was sent (only tabs and newlines are allowed)"@,
        error_text(Error::ResizeSize) == "pane size must be between 1 and 4096 cells"@,
{
}

/// What is pasted ends its lines with line feeds alone and holds no other control
/// character but tabs, and the sizes of texts are counted in bytes.
pub proof fn what_is_pasted_is_plain(s: Seq<char>)
    requires
        !has_forbidden(s),
    ensures
        forall|i: int|
            0 <= i < unix_lines(s).len() && text::control(#[trigger] unix_lines(s)[i])
                ==> unix_lines(s)[i] == '\t' || unix_lines(s)[i] == '\n',
        s.len() > 0 ==> unix_lines(s).len() > 0,
        text::byte_len(unix_lines(s)) <= text::byte_len(s),
{
    lemma_unix_lines_pasteable(s);
    lemma_unix_lines_no_longer(s);
}

/// Letters, digits and hyphens are plain, and nothing else is; a text that can be quoted
/// holds no quote and no line end.
pub proof fn which_characters_are_plain(c: char)
    ensures
        plain_char(c) <==> ('a' <= c && c <= 'z') || ('A' <= c && c <= 'Z') || ('0' <= c && c
            <= '9') || c == '-',
        plain(seq![c]) <==> plain_char(c),
        quotable(seq![c]) <==> c != '\'' && c != '\n' && c != '\r',
{
    assert(seq![c][0] == c);
}

} // verus!
