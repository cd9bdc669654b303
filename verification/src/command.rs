//! Text for a remote shell and for tmux.
use vstd::prelude::*;
use crate::ids::{sigiled, PaneId, SessionId};
use crate::input::{Axis, Paste, Resize};
use crate::model::{SessionName, Size};
use crate::text;

verus! {

/// The most bytes that one input command carries.
pub const MAX_INPUT_BYTES: usize = 1024;

/// Control characters cannot be quoted for a remote shell.
#[derive(Clone, Copy, Debug, PartialEq, Eq, Structural)]
pub struct Unquotable;

/// A text with every single quote replaced by its quoted form: the quotation
/// closed, a single quote in double quotes, and the quotation opened again.
pub open spec fn escaped(s: Seq<char>) -> Seq<char>
    decreases s.len(),
{
    if s.len() == 0 {
        Seq::empty()
    } else if s.last() == '\'' {
        escaped(s.drop_last()) + seq!['\'', '"', '\'', '"', '\'']
    } else {
        escaped(s.drop_last()).push(s.last())
    }
}

/// One shell word that stands for the text.
pub open spec fn quoted(s: Seq<char>) -> Seq<char> {
    (seq!['\''] + escaped(s)).push('\'')
}

/// Where a POSIX shell is while it reads a word.
#[derive(Clone, Copy, Debug, PartialEq, Eq, Structural)]
pub enum Reading {
    Bare,
    Single,
    Double,
}

/// What a POSIX shell has read of a word after its characters `s`: the text so
/// far, and where it is. `None` where the word could mean more than its text:
/// a bare character, or an expansion in double quotes.
pub open spec fn shell_reads(s: Seq<char>) -> Option<(Seq<char>, Reading)>
    decreases s.len(),
{
    if s.len() == 0 {
        Some((Seq::empty(), Reading::Bare))
    } else {
        match shell_reads(s.drop_last()) {
            None => None,
            Some((word, state)) => {
                let c = s.last();
                match state {
                    Reading::Bare => if c == '\'' {
                        Some((word, Reading::Single))
                    } else if c == '"' {
                        Some((word, Reading::Double))
                    } else {
                        None
                    },
                    Reading::Single => if c == '\'' {
                        Some((word, Reading::Bare))
                    } else {
                        Some((word.push(c), Reading::Single))
                    },
                    Reading::Double => if c == '"' {
                        Some((word, Reading::Bare))
                    } else if c == '\\' || c == '$' || c == '`' {
                        None
                    } else {
                        Some((word.push(c), Reading::Double))
                    },
                }
            },
        }
    }
}

proof fn lemma_escaped_reads(s: Seq<char>)
    ensures
        shell_reads(seq!['\''] + escaped(s)) == Some((s, Reading::Single)),
    decreases s.len(),
{
    if s.len() == 0 {
        assert(seq!['\''] + escaped(s) =~= seq!['\'']);
        assert(seq!['\''].drop_last() =~= Seq::<char>::empty());
        assert(shell_reads(seq!['\''].drop_last()) == Some(
            (Seq::<char>::empty(), Reading::Bare),
        ));
        assert(s =~= Seq::<char>::empty());
    } else {
        lemma_escaped_reads(s.drop_last());
        let before = seq!['\''] + escaped(s.drop_last());
        assert(s =~= s.drop_last().push(s.last()));
        if s.last() == '\'' {
            let a = before.push('\'');
            let b = a.push('"');
            let c = b.push('\'');
            let d = c.push('"');
            let e = d.push('\'');
            assert(seq!['\''] + escaped(s) =~= e);
            assert(a.drop_last() =~= before);
            assert(b.drop_last() =~= a);
            assert(c.drop_last() =~= b);
            assert(d.drop_last() =~= c);
            assert(e.drop_last() =~= d);
            let word = s.drop_last();
            assert(shell_reads(a) == Some((word, Reading::Bare)));
            assert(shell_reads(b) == Some((word, Reading::Double)));
            assert(shell_reads(c) == Some((word.push('\''), Reading::Double)));
            assert(shell_reads(d) == Some((word.push('\''), Reading::Bare)));
        } else {
            assert(seq!['\''] + escaped(s) =~= before.push(s.last()));
            assert(before.push(s.last()).drop_last() =~= before);
        }
    }
}

/// A shell reads a quoted text as one word that is the text, with nothing in it
/// expanded and nothing left open, whatever the text holds.
pub proof fn a_shell_reads_a_quoted_text_back(s: Seq<char>)
    ensures
        shell_reads(quoted(s)) == Some((s, Reading::Bare)),
{
    lemma_escaped_reads(s);
    assert(quoted(s).drop_last() =~= seq!['\''] + escaped(s));
}

/// Quotes a text as one word of a remote shell command. Control characters are
/// refused: a command is one line.
pub fn shell_quote(s: &str) -> (r: Result<String, Unquotable>)
    ensures
        match r {
            Ok(word) => word@ == quoted(s@) && !text::has_control(s@),
            Err(_) => text::has_control(s@),
        },
{
    let v = text::chars_of(s);
    if text::any_control(v.as_slice()) {
        return Err(Unquotable);
    }
    let mut out = String::new();
    out.push('\'');
    proof {
        assert(v@.take(0) =~= Seq::<char>::empty());
        assert(out@ =~= seq!['\''] + escaped(v@.take(0)));
    }
    for i in 0..v.len()
        invariant
            v@ == s@,
            out@ == seq!['\''] + escaped(v@.take(i as int)),
    {
        assert(v@.take(i + 1).drop_last() =~= v@.take(i as int));
        if v[i] == '\'' {
            out.push('\'');
            out.push('"');
            out.push('\'');
            out.push('"');
            out.push('\'');
        } else {
            out.push(v[i]);
        }
        assert(out@ =~= seq!['\''] + escaped(v@.take(i + 1)));
    }
    assert(v@.take(v@.len() as int) =~= v@);
    out.push('\'');
    Ok(out)
}

/// The most bytes of a paste that one buffer command carries.
pub const MAX_CHUNK_BYTES: usize = 512;

/// A small hexadecimal digit.
pub open spec fn hex_digit(d: nat) -> char {
    if d < 10 {
        ((48 + d) as u8) as char
    } else {
        ((87 + d) as u8) as char
    }
}

/// A byte as two hexadecimal digits.
pub open spec fn hex(b: u8) -> Seq<char> {
    seq![hex_digit((b / 16) as nat), hex_digit((b % 16) as nat)]
}

/// Bytes in hexadecimal, each after a space.
pub open spec fn hex_words(bytes: Seq<u8>) -> Seq<char>
    decreases bytes.len(),
{
    if bytes.len() == 0 {
        Seq::empty()
    } else {
        hex_words(bytes.drop_last()) + seq![' '] + hex(bytes.last())
    }
}

/// A byte as a backslash and three octal digits.
pub open spec fn octal(b: u8) -> Seq<char> {
    seq![
        '\\',
        text::digit((b / 64) as nat),
        text::digit(((b / 8) % 8) as nat),
        text::digit((b % 8) as nat),
    ]
}

/// Bytes as octal escapes.
pub open spec fn octals(bytes: Seq<u8>) -> Seq<char>
    decreases bytes.len(),
{
    if bytes.len() == 0 {
        Seq::empty()
    } else {
        octals(bytes.drop_last()) + octal(bytes.last())
    }
}

/// A pane as the target of a command.
pub open spec fn pane_text(pane: PaneId) -> Seq<char> {
    sigiled('%', pane.0)
}

/// Types bytes into a pane.
pub open spec fn send_bytes_text(pane: PaneId, bytes: Seq<u8>) -> Seq<char> {
    "send-keys -t "@ + pane_text(pane) + " -H"@ + hex_words(bytes)
}

/// Presses a named key in a pane.
pub open spec fn send_key_text(pane: PaneId, name: Seq<char>) -> Seq<char> {
    "send-keys -t "@ + pane_text(pane) + " "@ + name
}

/// Gives a pane so many cells along one axis.
pub open spec fn resize_text(pane: PaneId, resize: Resize) -> Seq<char> {
    "resize-pane -t "@ + pane_text(pane) + (match resize.axis {
        Axis::Columns => " -x "@,
        Axis::Rows => " -y "@,
    }) + text::digits(resize.cells as nat)
}

/// Splits a pane to its right or below it.
pub open spec fn split_text(pane: PaneId, axis: Axis) -> Seq<char> {
    (match axis {
        Axis::Columns => "split-window -h -t "@,
        Axis::Rows => "split-window -v -t "@,
    }) + pane_text(pane)
}

/// A command whose only argument is a pane.
pub open spec fn pane_command_text(command: Seq<char>, pane: PaneId) -> Seq<char> {
    command + " -t "@ + pane_text(pane)
}

/// Swaps two panes.
pub open spec fn swap_text(pane: PaneId, other: PaneId) -> Seq<char> {
    "swap-pane -s "@ + pane_text(pane) + " -t "@ + pane_text(other)
}

/// Puts bytes into a private buffer, after what it already holds or afresh.
pub open spec fn set_buffer_text(name: Seq<char>, append: bool, bytes: Seq<u8>) -> Seq<char> {
    (if append {
        "set-buffer -a -b "@
    } else {
        "set-buffer -b "@
    }) + name + " \""@ + octals(bytes) + "\""@
}

/// Pastes a private buffer into a pane, bracketed where the application asked
/// for it, and deletes the buffer.
pub open spec fn paste_buffer_text(name: Seq<char>, pane: PaneId) -> Seq<char> {
    "paste-buffer -d -p -b "@ + name + " -t "@ + pane_text(pane)
}

/// The buffer commands for the bytes from `from` on, in bounded chunks.
pub open spec fn chunk_texts(name: Seq<char>, bytes: Seq<u8>, from: nat) -> Seq<Seq<char>>
    decreases bytes.len() - from,
{
    if from >= bytes.len() {
        Seq::empty()
    } else {
        let to = if bytes.len() - from <= MAX_CHUNK_BYTES {
            bytes.len()
        } else {
            from + MAX_CHUNK_BYTES as nat
        };
        seq![set_buffer_text(name, from > 0, bytes.subrange(from as int, to as int))]
            + chunk_texts(name, bytes, to)
    }
}

/// The commands that paste a text through a private buffer.
pub open spec fn paste_texts(pane: PaneId, content: Seq<char>, name: Seq<char>) -> Seq<Seq<char>> {
    chunk_texts(name, vstd::utf8::encode_utf8(content), 0).push(paste_buffer_text(name, pane))
}

/// Reports the client's size in cells.
pub open spec fn client_size_text(size: Size) -> Seq<char> {
    "refresh-client -C "@ + text::digits(size.width()) + "x"@ + text::digits(size.height())
}

/// Renames a session.
pub open spec fn rename_text(session: SessionId, name: Seq<char>) -> Seq<char> {
    "rename-session -t '"@ + sigiled('$', session.0) + "' "@ + quoted(name)
}

fn push_hex_digit(out: &mut String, d: u8)
    requires
        d < 16,
    ensures
        final(out)@ == old(out)@.push(hex_digit(d as nat)),
{
    if d < 10 {
        out.push((48 + d) as char);
    } else {
        out.push((87 + d) as char);
    }
}

/// The command that types bytes into a pane.
pub fn send_bytes(pane: PaneId, bytes: &Vec<u8>) -> (r: String)
    ensures
        r@ == send_bytes_text(pane, bytes@),
{
    let mut r = "send-keys -t ".to_owned();
    text::push_text(&mut r, pane.to_text().as_str());
    text::push_text(&mut r, " -H");
    let ghost head = r@;
    assert(bytes@.take(0) =~= Seq::<u8>::empty());
    assert(r@ =~= head + hex_words(bytes@.take(0)));
    for i in 0..bytes.len()
        invariant
            r@ == head + hex_words(bytes@.take(i as int)),
    {
        assert(bytes@.take(i + 1).drop_last() =~= bytes@.take(i as int));
        r.push(' ');
        push_hex_digit(&mut r, bytes[i] / 16);
        push_hex_digit(&mut r, bytes[i] % 16);
        assert(r@ =~= head + hex_words(bytes@.take(i + 1)));
    }
    assert(bytes@.take(bytes@.len() as int) =~= bytes@);
    r
}

/// The command that presses a key in a pane.
pub fn send_key(pane: PaneId, name: &str) -> (r: String)
    ensures
        r@ == send_key_text(pane, name@),
{
    let mut r = "send-keys -t ".to_owned();
    text::push_text(&mut r, pane.to_text().as_str());
    text::push_text(&mut r, " ");
    text::push_text(&mut r, name);
    r
}

/// The command that resizes a pane along one axis.
pub fn resize_axis(pane: PaneId, resize: Resize) -> (r: String)
    ensures
        r@ == resize_text(pane, resize),
{
    let mut r = "resize-pane -t ".to_owned();
    text::push_text(&mut r, pane.to_text().as_str());
    match resize.axis {
        Axis::Columns => text::push_text(&mut r, " -x "),
        Axis::Rows => text::push_text(&mut r, " -y "),
    }
    text::push_decimal(&mut r, resize.cells as u64);
    r
}

/// The command that splits a pane.
pub fn split_pane(pane: PaneId, axis: Axis) -> (r: String)
    ensures
        r@ == split_text(pane, axis),
{
    let mut r = match axis {
        Axis::Columns => "split-window -h -t ".to_owned(),
        Axis::Rows => "split-window -v -t ".to_owned(),
    };
    text::push_text(&mut r, pane.to_text().as_str());
    r
}

fn pane_command(command: &str, pane: PaneId) -> (r: String)
    ensures
        r@ == pane_command_text(command@, pane),
{
    let mut r = command.to_owned();
    text::push_text(&mut r, " -t ");
    text::push_text(&mut r, pane.to_text().as_str());
    r
}

/// The command that closes a pane.
pub fn kill_pane(pane: PaneId) -> (r: String)
    ensures
        r@ == pane_command_text("kill-pane"@, pane),
{
    pane_command("kill-pane", pane)
}

/// The command that zooms a pane or restores it.
pub fn zoom_pane(pane: PaneId) -> (r: String)
    ensures
        r@ == pane_command_text("resize-pane -Z"@, pane),
{
    pane_command("resize-pane -Z", pane)
}

/// The command that makes a pane the active one.
pub fn select_pane(pane: PaneId) -> (r: String)
    ensures
        r@ == pane_command_text("select-pane"@, pane),
{
    pane_command("select-pane", pane)
}

/// The command that swaps two panes.
pub fn swap_pane(pane: PaneId, other: PaneId) -> (r: String)
    ensures
        r@ == swap_text(pane, other),
{
    let mut r = "swap-pane -s ".to_owned();
    text::push_text(&mut r, pane.to_text().as_str());
    text::push_text(&mut r, " -t ");
    text::push_text(&mut r, other.to_text().as_str());
    r
}

/// The command that reports the client's size.
pub fn client_size(size: Size) -> (r: String)
    ensures
        r@ == client_size_text(size),
{
    let mut r = "refresh-client -C ".to_owned();
    text::push_decimal(&mut r, size.columns() as u64);
    text::push_text(&mut r, "x");
    text::push_decimal(&mut r, size.rows() as u64);
    r
}

/// The command that renames a session. A session's name holds no control
/// characters, so it can be quoted.
pub fn rename_session(session: SessionId, name: &SessionName) -> (r: String)
    ensures
        r@ == rename_text(session, name@),
{
    let mut r = "rename-session -t '".to_owned();
    text::push_text(&mut r, session.to_text().as_str());
    text::push_text(&mut r, "' ");
    match shell_quote(name.as_str()) {
        Ok(word) => text::push_text(&mut r, word.as_str()),
        Err(_) => {},
    }
    r
}

fn set_buffer(name: &str, append: bool, bytes: &[u8], from: usize, to: usize) -> (r: String)
    requires
        from <= to <= bytes@.len(),
    ensures
        r@ == set_buffer_text(name@, append, bytes@.subrange(from as int, to as int)),
{
    let ghost part = bytes@.subrange(from as int, to as int);
    let mut r = if append {
        "set-buffer -a -b ".to_owned()
    } else {
        "set-buffer -b ".to_owned()
    };
    text::push_text(&mut r, name);
    text::push_text(&mut r, " \"");
    let ghost head = r@;
    assert(part.take(0) =~= Seq::<u8>::empty());
    assert(r@ =~= head + octals(part.take(0)));
    for i in from..to
        invariant
            from <= i <= to <= bytes@.len(),
            part == bytes@.subrange(from as int, to as int),
            r@ == head + octals(part.take(i - from)),
    {
        assert(part.take(i - from + 1).drop_last() =~= part.take(i - from));
        assert(part.take(i - from + 1).last() == bytes@[i as int]);
        let b: u8 = bytes[i];
        r.push('\\');
        r.push((48 + b / 64) as char);
        r.push((48 + (b / 8) % 8) as char);
        r.push((48 + b % 8) as char);
        assert(r@ =~= head + octals(part.take(i - from + 1)));
    }
    assert(part.take(part.len() as int) =~= part);
    text::push_text(&mut r, "\"");
    r
}

/// The commands that paste a text through a private buffer of the given name.
pub fn paste(pane: PaneId, content: &Paste, name: &str) -> (r: Vec<String>)
    ensures
        text::strings(r@) == paste_texts(pane, content@, name@),
{
    let bytes: &[u8] = content.as_str().as_bytes();
    let ghost all = chunk_texts(name@, bytes@, 0);
    let mut r: Vec<String> = Vec::new();
    let mut from: usize = 0;
    assert(text::strings(r@) + chunk_texts(name@, bytes@, 0) =~= all);
    while from < bytes.len()
        invariant
            from <= bytes@.len(),
            text::strings(r@) + chunk_texts(name@, bytes@, from as nat) == all,
        decreases bytes@.len() - from,
    {
        let to: usize = if bytes.len() - from <= MAX_CHUNK_BYTES {
            bytes.len()
        } else {
            from + MAX_CHUNK_BYTES
        };
        let ghost before = text::strings(r@);
        let command = set_buffer(name, from > 0, bytes, from, to);
        r.push(command);
        assert(text::strings(r@) =~= before.push(command@));
        assert(text::strings(r@) + chunk_texts(name@, bytes@, to as nat) =~= all);
        from = to;
    }
    assert(text::strings(r@) =~= all);
    let ghost before = text::strings(r@);
    let mut last = "paste-buffer -d -p -b ".to_owned();
    text::push_text(&mut last, name);
    text::push_text(&mut last, " -t ");
    text::push_text(&mut last, pane.to_text().as_str());
    r.push(last);
    assert(text::strings(r@) =~= before.push(last@));
    r
}

/// A character that neither ends a tmux command nor begins, ends or escapes a
/// block of them.
pub open spec fn inert_char(c: char) -> bool {
    c != '\n' && c != '\r' && c != '\0' && c != ';' && c != '{' && c != '}' && c != '\'' && c != '#'
        && c != '$'
}

/// Made of such characters alone.
pub open spec fn inert(s: Seq<char>) -> bool {
    forall|i: int| 0 <= i < s.len() ==> inert_char(#[trigger] s[i])
}

proof fn lemma_inert_concat(a: Seq<char>, b: Seq<char>)
    requires
        inert(a),
        inert(b),
    ensures
        inert(a + b),
{
}

proof fn lemma_inert_pane(pane: PaneId)
    ensures
        inert(pane_text(pane)),
{
    text::lemma_digits(pane.0 as nat);
    let d = text::digits(pane.0 as nat);
    assert forall|i: int| 0 <= i < d.len() implies inert_char(#[trigger] d[i]) by {
        assert(text::is_digit(d[i]));
    }
    lemma_inert_concat(seq!['%'], d);
}

proof fn lemma_inert_hex(bytes: Seq<u8>)
    ensures
        inert(hex_words(bytes)),
    decreases bytes.len(),
{
    if bytes.len() > 0 {
        lemma_inert_hex(bytes.drop_last());
        let b = bytes.last();
        assert(b / 16 < 16 && b % 16 < 16);
        lemma_inert_concat(hex_words(bytes.drop_last()), seq![' ']);
        lemma_inert_concat(hex_words(bytes.drop_last()) + seq![' '], hex(b));
    }
}

proof fn lemma_inert_octals(bytes: Seq<u8>)
    ensures
        inert(octals(bytes)),
    decreases bytes.len(),
{
    if bytes.len() > 0 {
        lemma_inert_octals(bytes.drop_last());
        let b = bytes.last();
        assert(b / 64 < 4 && (b / 8) % 8 < 8 && b % 8 < 8);
        lemma_inert_concat(octals(bytes.drop_last()), octal(b));
    }
}

/// Typed text stays an argument: whatever the bytes are, the command that types
/// them holds nothing by which tmux would end it or begin another.
pub proof fn typed_text_stays_an_argument(pane: PaneId, bytes: Seq<u8>)
    ensures
        inert(send_bytes_text(pane, bytes)),
{
    reveal_strlit("send-keys -t ");
    reveal_strlit(" -H");
    lemma_inert_pane(pane);
    lemma_inert_hex(bytes);
    lemma_inert_concat("send-keys -t "@, pane_text(pane));
    lemma_inert_concat("send-keys -t "@ + pane_text(pane), " -H"@);
    lemma_inert_concat("send-keys -t "@ + pane_text(pane) + " -H"@, hex_words(bytes));
}

/// Pasted text stays an argument: whatever the text is, no command that uploads
/// it holds anything by which tmux would end it or begin another, provided that
/// the buffer's name holds nothing of the kind.
pub proof fn pasted_text_stays_an_argument(name: Seq<char>, append: bool, bytes: Seq<u8>)
    requires
        inert(name),
    ensures
        inert(set_buffer_text(name, append, bytes)),
{
    reveal_strlit("set-buffer -a -b ");
    reveal_strlit("set-buffer -b ");
    reveal_strlit(" \"");
    reveal_strlit("\"");
    lemma_inert_octals(bytes);
    let head = if append {
        "set-buffer -a -b "@
    } else {
        "set-buffer -b "@
    };
    lemma_inert_concat(head, name);
    lemma_inert_concat(head + name, " \""@);
    lemma_inert_concat(head + name + " \""@, octals(bytes));
    lemma_inert_concat(head + name + " \""@ + octals(bytes), "\""@);
}

/// Renaming names the session by its number and gives it exactly the new name, as a
/// shell would read it.
pub proof fn renaming_gives_exactly_the_name(session: SessionId, name: Seq<char>)
    ensures
        ({
            let head = "rename-session -t '$"@ + text::digits(session.0 as nat) + "' "@;
            let text = rename_text(session, name);
            &&& text.len() >= head.len()
            &&& text.take(head.len() as int) == head
            &&& shell_reads(text.skip(head.len() as int)) == Some((name, Reading::Bare))
        }),
{
    reveal_strlit("rename-session -t '");
    reveal_strlit("rename-session -t '$");
    reveal_strlit("' ");
    let head = "rename-session -t '$"@ + text::digits(session.0 as nat) + "' "@;
    let text = rename_text(session, name);
    assert(text =~= head + quoted(name));
    assert(text.take(head.len() as int) =~= head);
    assert(text.skip(head.len() as int) =~= quoted(name));
    a_shell_reads_a_quoted_text_back(name);
}

/// What ends a line, a command, a quotation or a block, and what expands, is not inert;
/// letters, digits and what commands are otherwise made of are.
pub proof fn which_characters_are_inert(c: char)
    ensures
        !inert_char('\n') && !inert_char('\r') && !inert_char('\0') && !inert_char(';'),
        !inert_char('{') && !inert_char('}') && !inert_char('\'') && !inert_char('#')
            && !inert_char('$'),
        ('a' <= c && c <= 'z') || ('A' <= c && c <= 'Z') || ('0' <= c && c <= '9') ==> inert_char(
            c,
        ),
        c == ' ' || c == '-' || c == '%' || c == '"' || c == '\\' ==> inert_char(c),
{
}

} // verus!
