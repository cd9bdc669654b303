//! Window events to user input. Plain Ctrl-C, X and V remain terminal control
//! keys; their shifted forms operate the local clipboard.
use vstd::prelude::*;
use crate::command;
use crate::desktop::inputs;
use crate::input;
use crate::input::{key_name, Action, Input, Key, Modifiers, Paste};
use crate::sessions::push_bytes;
use crate::text;

verus! {

/// Modifiers as the window system reports them.
#[derive(Clone, Copy, Debug, PartialEq, Eq, Structural)]
pub struct Held {
    pub alt: bool,
    pub ctrl: bool,
    pub shift: bool,
    /// The command key of a Mac.
    pub mac_cmd: bool,
}

/// The keys that mean something of their own; the others go by their names.
#[derive(Clone, Copy, Debug, PartialEq, Eq, Structural)]
pub enum Code {
    ArrowUp,
    ArrowDown,
    ArrowLeft,
    ArrowRight,
    Enter,
    Tab,
    Backspace,
    Escape,
    Home,
    End,
    Insert,
    Delete,
    PageUp,
    PageDown,
    Space,
    Num2,
    Num3,
    Num4,
    Num5,
    Num6,
    Num7,
    Num8,
    OpenBracket,
    CloseBracket,
    Backslash,
    Pipe,
    Minus,
    Slash,
    Questionmark,
    Other,
}

/// A window event as far as a terminal is concerned.
pub enum WindowEvent {
    Copy,
    Cut,
    Paste(String),
    /// Text that was typed or composed.
    Text(String),
    /// A key, with the name that the window system has for it.
    Key { code: Code, name: String, pressed: bool, held: Held },
    Other,
}

/// What a window event comes to.
pub enum Event {
    Input(Vec<Action>),
    Copy,
    Paste(Paste),
    RequestPaste,
}

/// What a window event comes to, apart from how its content is held.
pub enum Meaning {
    Input(Seq<Input>),
    Copy,
    Paste(Seq<char>),
    RequestPaste,
}

impl View for Event {
    type V = Meaning;

    open spec fn view(&self) -> Meaning {
        match *self {
            Event::Input(actions) => Meaning::Input(inputs(actions@)),
            Event::Copy => Meaning::Copy,
            Event::Paste(paste) => Meaning::Paste(paste@),
            Event::RequestPaste => Meaning::RequestPaste,
        }
    }
}

/// Bytes from `from` on as typed input, in pieces that one command can carry.
pub open spec fn pieces(bytes: Seq<u8>, from: nat) -> Seq<Input>
    decreases bytes.len() - from,
{
    if from >= bytes.len() {
        Seq::empty()
    } else {
        let to = if bytes.len() - from <= command::MAX_INPUT_BYTES {
            bytes.len()
        } else {
            from + command::MAX_INPUT_BYTES as nat
        };
        seq![Input::Bytes(bytes.subrange(from as int, to as int))] + pieces(bytes, to)
    }
}

/// Bytes as typed input.
pub open spec fn typed(bytes: Seq<u8>) -> Meaning {
    Meaning::Input(pieces(bytes, 0))
}

/// An unshifted control combination, which belongs to the terminal.
pub open spec fn plain_control(held: Held) -> bool {
    held.ctrl && !held.shift && !held.mac_cmd
}

/// An ASCII letter.
pub open spec fn letter(c: char) -> bool {
    ('a' <= c && c <= 'z') || ('A' <= c && c <= 'Z')
}

/// The control character that a key gives together with the control key.
pub open spec fn control_code(code: Code, name: Seq<char>) -> Option<u8> {
    if name.len() == 1 && letter(name[0]) {
        Some((text::lower(name[0]) as u8 - 96) as u8)
    } else {
        match code {
            Code::Space | Code::Num2 => Some(0),
            Code::OpenBracket | Code::Num3 => Some(27),
            Code::Backslash | Code::Pipe | Code::Num4 => Some(28),
            Code::CloseBracket | Code::Num5 => Some(29),
            Code::Num6 => Some(30),
            Code::Minus | Code::Slash | Code::Num7 => Some(31),
            Code::Num8 | Code::Questionmark => Some(127),
            _ => None,
        }
    }
}

/// The terminal key that a key is, if it is one.
pub open spec fn terminal_key(code: Code, name: Seq<char>) -> Option<Key> {
    match code {
        Code::ArrowUp => Some(Key::Up),
        Code::ArrowDown => Some(Key::Down),
        Code::ArrowLeft => Some(Key::Left),
        Code::ArrowRight => Some(Key::Right),
        Code::Enter => Some(Key::Enter),
        Code::Tab => Some(Key::Tab),
        Code::Backspace => Some(Key::Backspace),
        Code::Escape => Some(Key::Escape),
        Code::Home => Some(Key::Home),
        Code::End => Some(Key::End),
        Code::Insert => Some(Key::Insert),
        Code::Delete => Some(Key::Delete),
        Code::PageUp => Some(Key::PageUp),
        Code::PageDown => Some(Key::PageDown),
        _ => if name.len() > 0 && name[0] == 'F' {
            match text::number_within(name.skip(1), 255) {
                Some(n) => Some(Key::Function(n as u8)),
                None => None,
            }
        } else {
            None
        },
    }
}

/// What text that was typed comes to.
pub open spec fn typed_text(content: Seq<char>, held: Held, alt_is_escape: bool) -> Result<
    Option<Meaning>,
    input::Error,
> {
    if content.len() == 0 {
        Ok(None)
    } else if text::byte_len(content) > input::MAX_PASTE_BYTES || text::has_control(content) {
        Err(input::Error::InputSize)
    } else if held.mac_cmd {
        Ok(None)
    } else if held.alt && !held.ctrl && alt_is_escape {
        Ok(Some(typed(seq![0x1bu8] + vstd::utf8::encode_utf8(content))))
    } else {
        Ok(Some(typed(vstd::utf8::encode_utf8(content))))
    }
}

/// What a key that was pressed comes to.
pub open spec fn pressed_key(code: Code, name: Seq<char>, held: Held) -> Result<
    Option<Meaning>,
    input::Error,
> {
    if held.mac_cmd {
        Ok(None)
    } else if code == Code::Insert && held.shift && !held.ctrl && !held.alt {
        Ok(Some(Meaning::RequestPaste))
    } else if held.ctrl && control_code(code, name) is Some {
        let byte = control_code(code, name)->0;
        Ok(
            Some(
                typed(
                    if held.alt {
                        seq![0x1bu8, byte]
                    } else {
                        seq![byte]
                    },
                ),
            ),
        )
    } else {
        match terminal_key(code, name) {
            None => Ok(None),
            Some(key) => {
                let modifiers = Modifiers { control: held.ctrl, alt: held.alt, shift: held.shift };
                if key_name(key, modifiers) is None {
                    Err(input::Error::UnsupportedKey)
                } else {
                    Ok(Some(Meaning::Input(seq![Input::Key(key, modifiers)])))
                }
            },
        }
    }
}

/// What a window event comes to, with these modifiers held. Where `alt` is a
/// prefix it sends an escape before the text.
pub open spec fn meaning(event: WindowEvent, held: Held, alt_is_escape: bool) -> Result<
    Option<Meaning>,
    input::Error,
> {
    match event {
        WindowEvent::Copy => if plain_control(held) {
            Ok(Some(typed(seq![3u8])))
        } else {
            Ok(Some(Meaning::Copy))
        },
        WindowEvent::Cut => if plain_control(held) {
            Ok(Some(typed(seq![24u8])))
        } else {
            Ok(Some(Meaning::Copy))
        },
        WindowEvent::Paste(content) => if content@.len() == 0 || text::byte_len(content@)
            > input::MAX_PASTE_BYTES {
            Err(input::Error::PasteSize)
        } else if input::has_forbidden(content@) {
            Err(input::Error::PasteControl)
        } else {
            Ok(Some(Meaning::Paste(input::unix_lines(content@))))
        },
        WindowEvent::Text(content) => typed_text(content@, held, alt_is_escape),
        WindowEvent::Key { code, name, pressed, held } => if pressed {
            pressed_key(code, name@, held)
        } else {
            Ok(None)
        },
        WindowEvent::Other => Ok(None),
    }
}

fn bytes(data: &[u8]) -> (r: Event)
    ensures
        r@ == typed(data@),
{
    let ghost all = pieces(data@, 0);
    let mut actions: Vec<Action> = Vec::new();
    let mut from: usize = 0;
    assert(inputs(actions@) + pieces(data@, 0) =~= all);
    while from < data.len()
        invariant
            from <= data@.len(),
            inputs(actions@) + pieces(data@, from as nat) == all,
        decreases data@.len() - from,
    {
        let to: usize = if data.len() - from <= command::MAX_INPUT_BYTES {
            data.len()
        } else {
            from + command::MAX_INPUT_BYTES
        };
        let part = vstd::slice::slice_subrange(data, from, to);
        let mut piece: Vec<u8> = Vec::new();
        push_bytes(&mut piece, part);
        assert(piece@ =~= data@.subrange(from as int, to as int));
        let ghost before = inputs(actions@);
        actions.push(Action::Bytes(piece));
        assert(inputs(actions@) =~= before.push(Input::Bytes(piece@)));
        assert(inputs(actions@) + pieces(data@, to as nat) =~= all);
        from = to;
    }
    assert(inputs(actions@) =~= all);
    Event::Input(actions)
}

fn two_bytes(first: Option<u8>, byte: u8) -> (r: Event)
    ensures
        r@ == typed(
            match first {
                Some(first) => seq![first, byte],
                None => seq![byte],
            },
        ),
{
    let mut data: Vec<u8> = Vec::new();
    match first {
        Some(first) => {
            data.push(first);
            data.push(byte);
            assert(data@ =~= seq![first, byte]);
        },
        None => {
            data.push(byte);
            assert(data@ =~= seq![byte]);
        },
    }
    bytes(data.as_slice())
}

/// The control character that a key gives together with the control key.
pub fn control_byte(code: Code, name: &str) -> (r: Option<u8>)
    ensures
        r == control_code(code, name@),
{
    let v = text::chars_of(name);
    if v.len() == 1 {
        let c: char = v[0];
        if 'a' <= c && c <= 'z' {
            return Some(c as u8 - 96);
        }
        if 'A' <= c && c <= 'Z' {
            return Some(c as u8 - 64);
        }
    }
    match code {
        Code::Space | Code::Num2 => Some(0),
        Code::OpenBracket | Code::Num3 => Some(27),
        Code::Backslash | Code::Pipe | Code::Num4 => Some(28),
        Code::CloseBracket | Code::Num5 => Some(29),
        Code::Num6 => Some(30),
        Code::Minus | Code::Slash | Code::Num7 => Some(31),
        Code::Num8 | Code::Questionmark => Some(127),
        _ => None,
    }
}

fn key_of(code: Code, name: &str) -> (r: Option<Key>)
    ensures
        r == terminal_key(code, name@),
{
    match code {
        Code::ArrowUp => Some(Key::Up),
        Code::ArrowDown => Some(Key::Down),
        Code::ArrowLeft => Some(Key::Left),
        Code::ArrowRight => Some(Key::Right),
        Code::Enter => Some(Key::Enter),
        Code::Tab => Some(Key::Tab),
        Code::Backspace => Some(Key::Backspace),
        Code::Escape => Some(Key::Escape),
        Code::Home => Some(Key::Home),
        Code::End => Some(Key::End),
        Code::Insert => Some(Key::Insert),
        Code::Delete => Some(Key::Delete),
        Code::PageUp => Some(Key::PageUp),
        Code::PageDown => Some(Key::PageDown),
        _ => {
            let v = text::chars_of(name);
            if v.len() == 0 || v[0] != 'F' {
                return None;
            }
            let rest = vstd::slice::slice_subrange(v.as_slice(), 1, v.len());
            assert(rest@ =~= name@.skip(1));
            match text::parse(rest, 255) {
                Some(n) => Some(Key::Function(n as u8)),
                None => None,
            }
        },
    }
}

fn translate_text(content: &str, held: Held, alt_is_escape: bool) -> (r: Result<
    Option<Event>,
    input::Error,
>)
    ensures
        same_meaning(r, typed_text(content@, held, alt_is_escape)),
{
    let v = text::chars_of(content);
    if v.len() == 0 {
        return Ok(None);
    }
    if text::byte_length(content) > input::MAX_PASTE_BYTES || text::any_control(v.as_slice()) {
        return Err(input::Error::InputSize);
    }
    if held.mac_cmd {
        return Ok(None);
    }
    let data: &[u8] = content.as_bytes();
    if held.alt && !held.ctrl && alt_is_escape {
        let mut prefixed: Vec<u8> = Vec::new();
        prefixed.push(0x1b);
        push_bytes(&mut prefixed, data);
        assert(prefixed@ =~= seq![0x1bu8] + data@);
        Ok(Some(bytes(prefixed.as_slice())))
    } else {
        Ok(Some(bytes(data)))
    }
}

fn translate_key(code: Code, name: &str, held: Held) -> (r: Result<Option<Event>, input::Error>)
    ensures
        same_meaning(r, pressed_key(code, name@, held)),
{
    if held.mac_cmd {
        return Ok(None);
    }
    if code == Code::Insert && held.shift && !held.ctrl && !held.alt {
        return Ok(Some(Event::RequestPaste));
    }
    if held.ctrl {
        match control_byte(code, name) {
            Some(byte) => {
                let first: Option<u8> = if held.alt {
                    Some(0x1b)
                } else {
                    None
                };
                return Ok(Some(two_bytes(first, byte)));
            },
            None => {},
        }
    }
    let key: Key = match key_of(code, name) {
        Some(key) => key,
        None => return Ok(None),
    };
    let modifiers = Modifiers { control: held.ctrl, alt: held.alt, shift: held.shift };
    match key.name(modifiers) {
        Ok(_) => {},
        Err(error) => return Err(error),
    }
    let mut actions: Vec<Action> = Vec::new();
    actions.push(Action::Key(key, modifiers));
    assert(inputs(actions@) =~= seq![Input::Key(key, modifiers)]);
    Ok(Some(Event::Input(actions)))
}

/// A translation says what it should.
pub open spec fn same_meaning(
    r: Result<Option<Event>, input::Error>,
    should: Result<Option<Meaning>, input::Error>,
) -> bool {
    match r {
        Ok(Some(event)) => should == Ok::<Option<Meaning>, input::Error>(Some(event@)),
        Ok(None) => should == Ok::<Option<Meaning>, input::Error>(None),
        Err(error) => should == Err::<Option<Meaning>, input::Error>(error),
    }
}

/// Translates a window event, with these modifiers held, into user input.
pub fn translate(event: &WindowEvent, held: Held, alt_is_escape: bool) -> (r: Result<
    Option<Event>,
    input::Error,
>)
    ensures
        same_meaning(r, meaning(*event, held, alt_is_escape)),
{
    let plain: bool = held.ctrl && !held.shift && !held.mac_cmd;
    match event {
        WindowEvent::Copy => if plain {
            Ok(Some(two_bytes(None, 3)))
        } else {
            Ok(Some(Event::Copy))
        },
        WindowEvent::Cut => if plain {
            Ok(Some(two_bytes(None, 24)))
        } else {
            Ok(Some(Event::Copy))
        },
        WindowEvent::Paste(content) => match Paste::new(content.as_str()) {
            Ok(paste) => Ok(Some(Event::Paste(paste))),
            Err(error) => Err(error),
        },
        WindowEvent::Text(content) => translate_text(content.as_str(), held, alt_is_escape),
        WindowEvent::Key { code, name, pressed, held } => if *pressed {
            translate_key(*code, name.as_str(), *held)
        } else {
            Ok(None)
        },
        WindowEvent::Other => Ok(None),
    }
}

/// Typed keys and paste bring the view back to the live tip.
pub open spec fn follows(should: Result<Option<Meaning>, input::Error>) -> bool {
    match should {
        Ok(Some(Meaning::Copy)) => false,
        Ok(Some(_)) => true,
        _ => false,
    }
}

/// Whether an event brings the view back to the live tip: typed keys and paste
/// do; copying and events that mean nothing do not.
pub fn follows_live_tip(event: &WindowEvent, held: Held, alt_is_escape: bool) -> (r: bool)
    ensures
        r == follows(meaning(*event, held, alt_is_escape)),
{
    match translate(event, held, alt_is_escape) {
        Ok(Some(Event::Copy)) => false,
        Ok(Some(_)) => true,
        _ => false,
    }
}

/// The clipboard shortcuts that a focused terminal takes as control keys.
#[derive(Clone, Copy, Debug, PartialEq, Eq, Structural)]
pub enum ControlKey {
    C,
    V,
    X,
}

/// The control key that a typed character is, in either case.
pub open spec fn control_key_of(typed: Seq<char>) -> Option<ControlKey> {
    let low = text::lowered(typed);
    if low == "c"@ {
        Some(ControlKey::C)
    } else if low == "v"@ {
        Some(ControlKey::V)
    } else if low == "x"@ {
        Some(ControlKey::X)
    } else {
        None
    }
}

/// Whether a keystroke is a control key of the terminal, and which.
pub open spec fn takes_shortcut(
    typed: Option<Seq<char>>,
    held: Held,
    r: Option<ControlKey>,
) -> bool {
    r == (match typed {
        Some(typed) => if plain_control(held) {
            control_key_of(typed)
        } else {
            None
        },
        None => None,
    })
}

/// Whether a keystroke that the window system would take as a clipboard
/// shortcut is a control key of the terminal, and which: only unshifted ones are.
pub fn terminal_control_key(typed: Option<&str>, held: Held) -> (r: Option<ControlKey>)
    ensures
        takes_shortcut(
            match typed {
                Some(typed) => Some(typed@),
                None => None,
            },
            held,
            r,
        ),
{
    if !held.ctrl || held.shift || held.mac_cmd {
        return None;
    }
    match typed {
        Some(typed) => {
            let low = text::to_lower(typed);
            if text::same_chars(low.as_slice(), "c") {
                Some(ControlKey::C)
            } else if text::same_chars(low.as_slice(), "v") {
                Some(ControlKey::V)
            } else if text::same_chars(low.as_slice(), "x") {
                Some(ControlKey::X)
            } else {
                None
            }
        },
        None => None,
    }
}

/// The bytes of typed pieces together.
pub open spec fn joined(parts: Seq<Input>) -> Seq<u8>
    decreases parts.len(),
{
    if parts.len() == 0 {
        Seq::empty()
    } else {
        (match parts[0] {
            Input::Bytes(bytes) => bytes,
            _ => Seq::empty(),
        }) + joined(parts.skip(1))
    }
}

/// Cutting typed bytes into pieces loses and moves nothing, and every piece can
/// be sent.
pub proof fn pieces_are_the_whole(bytes: Seq<u8>, from: nat)
    requires
        from <= bytes.len(),
    ensures
        joined(pieces(bytes, from)) == bytes.skip(from as int),
        forall|i: int|
            0 <= i < pieces(bytes, from).len() ==> input::input_error(
                #[trigger] pieces(bytes, from)[i],
            ) is None,
    decreases bytes.len() - from,
{
    let all = pieces(bytes, from);
    if from < bytes.len() {
        let to = if bytes.len() - from <= command::MAX_INPUT_BYTES {
            bytes.len()
        } else {
            from + command::MAX_INPUT_BYTES as nat
        };
        pieces_are_the_whole(bytes, to);
        let rest = pieces(bytes, to);
        assert(all.skip(1) =~= rest);
        assert(joined(all) =~= bytes.skip(from as int));
        assert forall|i: int| 0 <= i < all.len() implies input::input_error(#[trigger] all[i])
            is None by {
            if i > 0 {
                assert(all[i] == rest[i - 1]);
            }
        }
    } else {
        assert(bytes.skip(from as int) =~= Seq::<u8>::empty());
    }
}

/// Copying never sends anything: an event that copies is never also input, and a
/// shifted copy stays local whatever else is held.
pub proof fn a_shifted_copy_stays_local(held: Held, alt_is_escape: bool)
    ensures
        held.shift ==> meaning(WindowEvent::Copy, held, alt_is_escape) == Ok::<
            Option<Meaning>,
            input::Error,
        >(Some(Meaning::Copy)),
        plain_control(held) ==> meaning(WindowEvent::Copy, held, alt_is_escape) == Ok::<
            Option<Meaning>,
            input::Error,
        >(Some(typed(seq![3u8]))),
{
}

/// What a key that was pressed is sent as, whatever window it was pressed in: this one
/// terminal key.
pub open spec fn sends_key(code: Code, name: String, held: Held, key: Key) -> bool {
    forall|around: Held, alt_is_escape: bool|
        (#[trigger] meaning(
            WindowEvent::Key { code, name, pressed: true, held },
            around,
            alt_is_escape,
        )) == Ok::<Option<Meaning>, input::Error>(
            Some(
                Meaning::Input(
                    seq![
                        Input::Key(
                            key,
                            Modifiers { control: held.ctrl, alt: held.alt, shift: held.shift },
                        ),
                    ],
                ),
            ),
        )
}

/// An arrow key moves its own way, with whatever modifiers are held.
pub proof fn an_arrow_moves_its_own_way(name: String, held: Held)
    requires
        !held.mac_cmd,
        held.ctrl ==> name@.len() != 1,
    ensures
        sends_key(Code::ArrowUp, name, held, Key::Up),
        sends_key(Code::ArrowDown, name, held, Key::Down),
        sends_key(Code::ArrowLeft, name, held, Key::Left),
        sends_key(Code::ArrowRight, name, held, Key::Right),
{
}

/// A key that edits is sent as itself, with whatever modifiers are held.
pub proof fn an_editing_key_is_itself(name: String, held: Held)
    requires
        !held.mac_cmd,
        held.ctrl ==> name@.len() != 1,
    ensures
        sends_key(Code::Enter, name, held, Key::Enter),
        sends_key(Code::Tab, name, held, Key::Tab),
        sends_key(Code::Backspace, name, held, Key::Backspace),
        sends_key(Code::Escape, name, held, Key::Escape),
        sends_key(Code::Delete, name, held, Key::Delete),
        (!held.shift || held.ctrl || held.alt) ==> sends_key(
            Code::Insert,
            name,
            held,
            Key::Insert,
        ),
{
}

/// A key that jumps is sent as itself, with whatever modifiers are held.
pub proof fn a_jumping_key_is_itself(name: String, held: Held)
    requires
        !held.mac_cmd,
        held.ctrl ==> name@.len() != 1,
    ensures
        sends_key(Code::Home, name, held, Key::Home),
        sends_key(Code::End, name, held, Key::End),
        sends_key(Code::PageUp, name, held, Key::PageUp),
        sends_key(Code::PageDown, name, held, Key::PageDown),
{
}

/// A function key is sent under its own number up to the twentieth, and one beyond
/// that is refused.
pub proof fn a_function_key_keeps_its_number(name: String, held: Held, n: u8)
    requires
        !held.mac_cmd,
        name@ == seq!['F'] + text::digits(n as nat),
    ensures
        1 <= n <= 20 ==> sends_key(Code::Other, name, held, Key::Function(n)),
        n == 0 || n > 20 ==> forall|around: Held, alt_is_escape: bool|
            (#[trigger] meaning(
                WindowEvent::Key { code: Code::Other, name, pressed: true, held },
                around,
                alt_is_escape,
            )) == Err::<Option<Meaning>, input::Error>(input::Error::UnsupportedKey),
{
    text::lemma_digits(n as nat);
    text::a_rendered_number_reads_back(n as nat);
    assert(name@.skip(1) =~= text::digits(n as nat));
}

/// The bytes that a window event sends, where it sends bytes.
pub open spec fn sends(
    event: WindowEvent,
    held: Held,
    alt_is_escape: bool,
    bytes: Seq<u8>,
) -> bool {
    match meaning(event, held, alt_is_escape) {
        Ok(Some(Meaning::Input(parts))) => joined(parts) == bytes && forall|i: int|
            0 <= i < parts.len() ==> #[trigger] parts[i] is Bytes && input::input_error(parts[i])
                is None,
        _ => false,
    }
}

proof fn lemma_pieces_are_bytes(bytes: Seq<u8>, from: nat)
    ensures
        forall|i: int|
            0 <= i < pieces(bytes, from).len() ==> #[trigger] pieces(bytes, from)[i] is Bytes,
    decreases bytes.len() - from,
{
    if from < bytes.len() {
        let to = if bytes.len() - from <= command::MAX_INPUT_BYTES {
            bytes.len()
        } else {
            from + command::MAX_INPUT_BYTES as nat
        };
        lemma_pieces_are_bytes(bytes, to);
        let all = pieces(bytes, from);
        let rest = pieces(bytes, to);
        assert forall|i: int| 0 <= i < all.len() implies #[trigger] all[i] is Bytes by {
            if i > 0 {
                assert(all[i] == rest[i - 1]);
            }
        }
    }
}

proof fn lemma_typed(bytes: Seq<u8>)
    ensures
        joined(pieces(bytes, 0)) == bytes,
        forall|i: int|
            0 <= i < pieces(bytes, 0).len() ==> #[trigger] pieces(bytes, 0)[i] is Bytes
                && input::input_error(pieces(bytes, 0)[i]) is None,
{
    pieces_are_the_whole(bytes, 0);
    lemma_pieces_are_bytes(bytes, 0);
    assert(bytes.skip(0) =~= bytes);
}

/// A letter with the control key is the control character that lies as far behind
/// zero as the letter lies behind `@`, whatever its case; with the alt key an escape
/// stands before it.
pub proof fn a_controlled_letter_is_its_place(
    code: Code,
    name: String,
    held: Held,
    around: Held,
    alt_is_escape: bool,
    place: u8,
)
    requires
        held.ctrl && !held.mac_cmd,
        code != Code::Insert,
        1 <= place <= 26,
        name@ == seq![(96 + place) as u8 as char] || name@ == seq![(64 + place) as u8 as char],
    ensures
        sends(
            WindowEvent::Key { code, name, pressed: true, held },
            around,
            alt_is_escape,
            if held.alt {
                seq![0x1bu8, place]
            } else {
                seq![place]
            },
        ),
{
    lemma_typed(seq![0x1bu8, place]);
    lemma_typed(seq![place]);
    let c = name@[0];
    assert(letter(c));
    assert(control_code(code, name@) == Some(place));
}

/// The other keys that give a control character together with the control key give
/// the one that a terminal's keyboard gives.
pub proof fn a_controlled_key_is_its_code(
    name: String,
    held: Held,
    around: Held,
    alt_is_escape: bool,
    code: Code,
    byte: u8,
)
    requires
        held.ctrl && !held.alt && !held.mac_cmd,
        name@.len() != 1,
        match byte {
            0 => code == Code::Space || code == Code::Num2,
            27 => code == Code::OpenBracket || code == Code::Num3,
            28 => code == Code::Backslash || code == Code::Pipe || code == Code::Num4,
            29 => code == Code::CloseBracket || code == Code::Num5,
            30 => code == Code::Num6,
            31 => code == Code::Minus || code == Code::Slash || code == Code::Num7,
            127 => code == Code::Questionmark || code == Code::Num8,
            _ => false,
        },
    ensures
        sends(
            WindowEvent::Key { code, name, pressed: true, held },
            around,
            alt_is_escape,
            seq![byte],
        ),
{
    lemma_typed(seq![byte]);
}

/// A key that is let go, or pressed together with the command key, sends nothing.
pub proof fn a_released_key_sends_nothing(
    code: Code,
    name: String,
    pressed: bool,
    held: Held,
    around: Held,
    alt_is_escape: bool,
)
    requires
        !pressed || held.mac_cmd,
    ensures
        meaning(WindowEvent::Key { code, name, pressed, held }, around, alt_is_escape) == Ok::<
            Option<Meaning>,
            input::Error,
        >(None),
{
}

/// Typed text is sent as its own bytes; where alt is a prefix it puts one escape
/// before them and changes nothing else.
pub proof fn typed_text_is_sent_whole(content: String, held: Held, alt_is_escape: bool)
    requires
        content@.len() > 0,
        text::byte_len(content@) <= 65_536,
        !text::has_control(content@),
        !held.mac_cmd,
    ensures
        !held.alt || held.ctrl || !alt_is_escape ==> sends(
            WindowEvent::Text(content),
            held,
            alt_is_escape,
            vstd::utf8::encode_utf8(content@),
        ),
        held.alt && !held.ctrl && alt_is_escape ==> sends(
            WindowEvent::Text(content),
            held,
            alt_is_escape,
            seq![27u8] + vstd::utf8::encode_utf8(content@),
        ),
{
    lemma_typed(vstd::utf8::encode_utf8(content@));
    lemma_typed(seq![27u8] + vstd::utf8::encode_utf8(content@));
}

/// Text that is empty sends nothing, text that is too long or holds a control
/// character is refused, and with the command key text sends nothing.
pub proof fn odd_text_is_not_sent(content: String, held: Held, alt_is_escape: bool)
    ensures
        content@.len() == 0 ==> meaning(WindowEvent::Text(content), held, alt_is_escape) == Ok::<
            Option<Meaning>,
            input::Error,
        >(None),
        content@.len() > 0 && (text::byte_len(content@) > 65_536 || text::has_control(content@))
            ==> meaning(WindowEvent::Text(content), held, alt_is_escape) == Err::<
            Option<Meaning>,
            input::Error,
        >(input::Error::InputSize),
        content@.len() > 0 && text::byte_len(content@) <= 65_536 && !text::has_control(content@)
            && held.mac_cmd ==> meaning(WindowEvent::Text(content), held, alt_is_escape) == Ok::<
            Option<Meaning>,
            input::Error,
        >(None),
{
}

/// Cutting and copying with the control key alone are the control characters of
/// their letters; in every other form they copy locally and send nothing.
pub proof fn plain_control_belongs_to_the_terminal(held: Held, alt_is_escape: bool)
    ensures
        held.ctrl && !held.shift && !held.mac_cmd ==> sends(
            WindowEvent::Copy,
            held,
            alt_is_escape,
            seq![3u8],
        ) && sends(WindowEvent::Cut, held, alt_is_escape, seq![24u8]),
        !held.ctrl || held.shift || held.mac_cmd ==> meaning(
            WindowEvent::Copy,
            held,
            alt_is_escape,
        ) == Ok::<Option<Meaning>, input::Error>(Some(Meaning::Copy)) && meaning(
            WindowEvent::Cut,
            held,
            alt_is_escape,
        ) == Ok::<Option<Meaning>, input::Error>(Some(Meaning::Copy)),
{
    lemma_typed(seq![3u8]);
    lemma_typed(seq![24u8]);
}

/// Shift and Insert ask for the clipboard, and a paste hands its text on with its
/// line endings made plain, or is refused.
pub proof fn a_paste_hands_its_text_on(
    content: String,
    name: String,
    held: Held,
    around: Held,
    alt_is_escape: bool,
)
    ensures
        held.shift && !held.ctrl && !held.alt && !held.mac_cmd ==> meaning(
            WindowEvent::Key { code: Code::Insert, name, pressed: true, held },
            around,
            alt_is_escape,
        ) == Ok::<Option<Meaning>, input::Error>(Some(Meaning::RequestPaste)),
        ({
            let r = meaning(WindowEvent::Paste(content), around, alt_is_escape);
            if content@.len() == 0 || text::byte_len(content@) > 65_536 {
                r == Err::<Option<Meaning>, input::Error>(input::Error::PasteSize)
            } else if input::has_forbidden(content@) {
                r == Err::<Option<Meaning>, input::Error>(input::Error::PasteControl)
            } else {
                r == Ok::<Option<Meaning>, input::Error>(
                    Some(Meaning::Paste(input::unix_lines(content@))),
                )
            }
        }),
{
}

/// Whatever sends something, or pastes, brings the view back to the live tip;
/// copying, refusals and what means nothing leave it where it is.
pub proof fn only_sending_follows_the_live_tip(event: WindowEvent, held: Held, alt_is_escape: bool)
    ensures
        match meaning(event, held, alt_is_escape) {
            Ok(Some(Meaning::Input(_))) | Ok(Some(Meaning::Paste(_))) | Ok(
                Some(Meaning::RequestPaste),
            ) => follows(meaning(event, held, alt_is_escape)),
            Ok(Some(Meaning::Copy)) | Ok(None) | Err(_) => !follows(
                meaning(event, held, alt_is_escape),
            ),
        },
{
}

/// The letters C, V and X, in either case, are themselves; nothing else is one of
/// the clipboard's letters.
pub proof fn a_clipboard_letter_is_itself(typed: Seq<char>)
    ensures
        control_key_of(typed) == Some(ControlKey::C) <==> typed == seq!['c'] || typed == seq!['C'],
        control_key_of(typed) == Some(ControlKey::V) <==> typed == seq!['v'] || typed == seq!['V'],
        control_key_of(typed) == Some(ControlKey::X) <==> typed == seq!['x'] || typed == seq!['X'],
{
    reveal_strlit("c");
    reveal_strlit("v");
    reveal_strlit("x");
    let low = text::lowered(typed);
    assert(low.len() == typed.len());
    assert(low == "c"@ ==> low[0] == 'c');
    assert(low == "v"@ ==> low[0] == 'v');
    assert(low == "x"@ ==> low[0] == 'x');
    if typed.len() == 1 {
        assert(typed =~= seq![typed[0]]);
        assert(low =~= seq![text::lower(typed[0])]);
        assert("c"@ =~= seq!['c']);
        assert("v"@ =~= seq!['v']);
        assert("x"@ =~= seq!['x']);
    }
}

/// The clipboard's letters are the terminal's only with the control key alone.
pub proof fn a_clipboard_shortcut_is_the_terminals_only_unshifted(
    typed: Option<Seq<char>>,
    held: Held,
    r: Option<ControlKey>,
)
    requires
        takes_shortcut(typed, held, r),
    ensures
        !held.ctrl || held.shift || held.mac_cmd ==> r is None,
        typed is None ==> r is None,
        typed is Some && held.ctrl && !held.shift && !held.mac_cmd ==> {
            &&& r == Some(ControlKey::C) <==> typed->0 == seq!['c'] || typed->0 == seq!['C']
            &&& r == Some(ControlKey::V) <==> typed->0 == seq!['v'] || typed->0 == seq!['V']
            &&& r == Some(ControlKey::X) <==> typed->0 == seq!['x'] || typed->0 == seq!['X']
        },
{
    if typed is Some {
        a_clipboard_letter_is_itself(typed->0);
    }
}

/// A translation that means one terminal key is the one action of that key.
pub proof fn a_translation_is_what_it_means(
    r: Result<Option<Event>, input::Error>,
    key: Key,
    modifiers: Modifiers,
    content: Seq<char>,
    error: input::Error,
)
    ensures
        same_meaning(
            r,
            Ok::<Option<Meaning>, input::Error>(
                Some(Meaning::Input(seq![Input::Key(key, modifiers)])),
            ),
        ) ==> r is Ok && r->Ok_0 is Some && r->Ok_0->0 is Input && r->Ok_0->0->Input_0@.len() == 1
            && r->Ok_0->0->Input_0@[0] == Action::Key(key, modifiers),
        same_meaning(r, Ok::<Option<Meaning>, input::Error>(Some(Meaning::Copy))) ==> r is Ok
            && r->Ok_0 is Some && r->Ok_0->0 is Copy,
        same_meaning(r, Ok::<Option<Meaning>, input::Error>(Some(Meaning::RequestPaste))) ==> r
            is Ok && r->Ok_0 is Some && r->Ok_0->0 is RequestPaste,
        same_meaning(r, Ok::<Option<Meaning>, input::Error>(Some(Meaning::Paste(content)))) ==> r
            is Ok && r->Ok_0 is Some && r->Ok_0->0 is Paste && r->Ok_0->0->Paste_0@ == content,
        same_meaning(r, Ok::<Option<Meaning>, input::Error>(None)) ==> r == Ok::<
            Option<Event>,
            input::Error,
        >(None),
        same_meaning(r, Err::<Option<Meaning>, input::Error>(error)) ==> r == Err::<
            Option<Event>,
            input::Error,
        >(error),
{
    if same_meaning(
        r,
        Ok::<Option<Meaning>, input::Error>(
            Some(Meaning::Input(seq![Input::Key(key, modifiers)])),
        ),
    ) {
        let actions = r->Ok_0->0->Input_0@;
        assert(inputs(actions) == seq![Input::Key(key, modifiers)]);
        assert(inputs(actions).len() == 1);
        assert(inputs(actions)[0] == Input::Key(key, modifiers));
        assert(actions[0]@ == Input::Key(key, modifiers));
    }
}

} // verus!
