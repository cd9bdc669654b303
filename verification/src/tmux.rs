//! How tmux reads the commands that are sent to it, and what they come to there.
use vstd::prelude::*;
use crate::command;
use crate::command::{hex, hex_words, octal, octals};
use crate::ids::{sigiled, PaneId};
use crate::input::{Axis, Resize};
use crate::model::Size;
use crate::text;

verus! {

/// The arguments of a command: what stands between its spaces.
pub open spec fn arguments(command: Seq<char>) -> Seq<Seq<char>> {
    text::split(command, ' ')
}

/// Texts that are joined by a separator come apart there.
pub proof fn lemma_split_join(a: Seq<char>, b: Seq<char>, separator: char)
    ensures
        text::split(a + seq![separator] + b, separator) == text::split(a, separator) + text::split(
            b,
            separator,
        ),
    decreases b.len(),
{
    let s = a + seq![separator] + b;
    text::lemma_split_first(a, separator);
    if b.len() == 0 {
        assert(s.drop_last() =~= a);
        assert(text::split(b, separator) =~= seq![Seq::<char>::empty()]);
        assert(text::split(s, separator) =~= text::split(a, separator) + text::split(
            b,
            separator,
        ));
    } else {
        lemma_split_join(a, b.drop_last(), separator);
        assert(s.drop_last() =~= a + seq![separator] + b.drop_last());
        text::lemma_split_first(b.drop_last(), separator);
        assert(s.last() == b.last());
        assert(text::split(s, separator) =~= text::split(a, separator) + text::split(
            b,
            separator,
        ));
    }
}

/// A text without a separator is one part.
pub proof fn lemma_split_one(a: Seq<char>, separator: char)
    requires
        !a.contains(separator),
    ensures
        text::split(a, separator) == seq![a],
    decreases a.len(),
{
    if a.len() > 0 {
        let d = a.drop_last();
        assert forall|i: int| 0 <= i < d.len() implies d[i] != separator by {
            assert(a.contains(a[i]));
        }
        lemma_split_one(d, separator);
        assert(a.contains(a[a.len() - 1]));
        assert(d.push(a.last()) =~= a);
        assert(text::split(a, separator) =~= seq![a]);
    } else {
        assert(a =~= Seq::<char>::empty());
    }
}

/// One more argument behind a command.
proof fn lemma_one_more(command: Seq<char>, word: Seq<char>)
    requires
        !word.contains(' '),
    ensures
        arguments(command + seq![' '] + word) == arguments(command).push(word),
{
    lemma_split_join(command, word, ' ');
    lemma_split_one(word, ' ');
    assert(arguments(command) + seq![word] =~= arguments(command).push(word));
}

proof fn lemma_no_space(sigil: char, n: u32)
    requires
        sigil != ' ',
    ensures
        !sigiled(sigil, n).contains(' '),
        !text::digits(n as nat).contains(' '),
{
    lemma_digits_no_space(n as nat);
    let d = text::digits(n as nat);
    let s = sigiled(sigil, n);
    assert forall|i: int| 0 <= i < s.len() implies s[i] != ' ' by {
        if i > 0 {
            assert(s[i] == d[i - 1]);
            assert(d.contains(d[i - 1]));
        }
    }
}

proof fn lemma_digits_no_space(n: nat)
    ensures
        !text::digits(n).contains(' '),
{
    text::lemma_digits(n);
    let d = text::digits(n);
    assert forall|i: int| 0 <= i < d.len() implies d[i] != ' ' by {
        assert(text::is_digit(d[i]));
    }
}

/// The number that a hexadecimal digit stands for.
pub open spec fn hex_value(c: char) -> Option<nat> {
    if '0' <= c && c <= '9' {
        Some((c as nat - 48) as nat)
    } else if 'a' <= c && c <= 'f' {
        Some((c as nat - 87) as nat)
    } else if 'A' <= c && c <= 'F' {
        Some((c as nat - 55) as nat)
    } else {
        None
    }
}

/// The byte that tmux types for a hexadecimal argument.
pub open spec fn hex_reads(word: Seq<char>) -> Option<nat> {
    if word.len() == 2 && hex_value(word[0]) is Some && hex_value(word[1]) is Some {
        Some(16 * hex_value(word[0])->0 + hex_value(word[1])->0)
    } else {
        None
    }
}

/// These arguments stand for these bytes, one for each.
pub open spec fn hex_all_read(words: Seq<Seq<char>>, bytes: Seq<u8>) -> bool {
    words.len() == bytes.len() && forall|i: int|
        0 <= i < words.len() ==> hex_reads(#[trigger] words[i]) == Some(bytes[i] as nat)
}

proof fn lemma_hex(b: u8)
    ensures
        hex_reads(hex(b)) == Some(b as nat),
        !hex(b).contains(' '),
{
    assert(b / 16 < 16 && b % 16 < 16);
    assert(hex_value(command::hex_digit((b / 16) as nat)) == Some((b / 16) as nat));
    assert(hex_value(command::hex_digit((b % 16) as nat)) == Some((b % 16) as nat));
    assert forall|i: int| 0 <= i < hex(b).len() implies hex(b)[i] != ' ' by {}
}

proof fn lemma_hex_words(head: Seq<char>, bytes: Seq<u8>)
    ensures
        arguments(head + hex_words(bytes)).len() == arguments(head).len() + bytes.len(),
        arguments(head + hex_words(bytes)).take(arguments(head).len() as int) == arguments(head),
        hex_all_read(
            arguments(head + hex_words(bytes)).skip(arguments(head).len() as int),
            bytes,
        ),
    decreases bytes.len(),
{
    let n = arguments(head).len() as int;
    let all = arguments(head + hex_words(bytes));
    if bytes.len() == 0 {
        assert(head + hex_words(bytes) =~= head);
        assert(all.take(n) =~= arguments(head));
    } else {
        let less = bytes.drop_last();
        lemma_hex_words(head, less);
        let before = arguments(head + hex_words(less));
        let b = bytes.last();
        lemma_hex(b);
        lemma_one_more(head + hex_words(less), hex(b));
        assert(head + hex_words(bytes) =~= head + hex_words(less) + seq![' '] + hex(b));
        assert(all == before.push(hex(b)));
        assert(all.take(n) =~= before.take(n));
        let words = all.skip(n);
        assert forall|i: int| 0 <= i < words.len() implies hex_reads(#[trigger] words[i]) == Some(
            bytes[i] as nat,
        ) by {
            if i < less.len() {
                assert(words[i] == before.skip(n)[i]);
                assert(less[i] == bytes[i]);
            } else {
                assert(words[i] == hex(b));
            }
        }
    }
}

/// tmux types exactly the bytes that were meant, in their order, into the pane that
/// was meant.
pub proof fn tmux_types_the_bytes(pane: PaneId, bytes: Seq<u8>)
    ensures
        ({
            let read = arguments(command::send_bytes_text(pane, bytes));
            &&& read.len() == 4 + bytes.len()
            &&& read[0] == "send-keys"@
            &&& read[1] == "-t"@
            &&& read[2] == seq!['%'] + text::digits(pane.0 as nat)
            &&& read[3] == "-H"@
            &&& hex_all_read(read.skip(4), bytes)
        }),
{
    reveal_strlit("send-keys -t ");
    reveal_strlit("send-keys");
    reveal_strlit("-t");
    reveal_strlit(" -H");
    reveal_strlit("-H");
    let p = command::pane_text(pane);
    lemma_no_space('%', pane.0);
    lemma_split_one("send-keys"@, ' ');
    lemma_one_more("send-keys"@, "-t"@);
    lemma_one_more("send-keys"@ + seq![' '] + "-t"@, p);
    lemma_one_more("send-keys"@ + seq![' '] + "-t"@ + seq![' '] + p, "-H"@);
    let head = "send-keys -t "@ + p + " -H"@;
    assert(head =~= "send-keys"@ + seq![' '] + "-t"@ + seq![' '] + p + seq![' '] + "-H"@);
    lemma_hex_words(head, bytes);
    let read = arguments(head + hex_words(bytes));
    let first = arguments(head);
    assert(first.len() == 4);
    assert(first[0] == "send-keys"@ && first[1] == "-t"@ && first[2] == p && first[3] == "-H"@);
    assert forall|i: int| 0 <= i < 4 implies read[i] == first[i] by {
        assert(read.take(4)[i] == first[i]);
    }
}

/// tmux presses the key of that name in the pane that was meant.
pub proof fn tmux_presses_the_key(pane: PaneId, name: Seq<char>)
    requires
        !name.contains(' '),
    ensures
        arguments(command::send_key_text(pane, name)) == seq![
            "send-keys"@,
            "-t"@,
            seq!['%'] + text::digits(pane.0 as nat),
            name,
        ],
{
    reveal_strlit("send-keys -t ");
    reveal_strlit("send-keys");
    reveal_strlit("-t");
    reveal_strlit(" ");
    let p = command::pane_text(pane);
    lemma_no_space('%', pane.0);
    lemma_split_one("send-keys"@, ' ');
    lemma_one_more("send-keys"@, "-t"@);
    lemma_one_more("send-keys"@ + seq![' '] + "-t"@, p);
    lemma_one_more("send-keys"@ + seq![' '] + "-t"@ + seq![' '] + p, name);
    assert(command::send_key_text(pane, name) =~= "send-keys"@ + seq![' '] + "-t"@ + seq![' '] + p
        + seq![' '] + name);
    assert(arguments(command::send_key_text(pane, name)) =~= seq!["send-keys"@, "-t"@, p, name]);
}

/// A split along the columns puts the new pane to the right, which tmux calls
/// horizontal; one along the rows puts it below.
pub proof fn tmux_splits_the_way_that_was_asked(pane: PaneId)
    ensures
        arguments(command::split_text(pane, Axis::Columns)) == seq![
            "split-window"@,
            "-h"@,
            "-t"@,
            seq!['%'] + text::digits(pane.0 as nat),
        ],
        arguments(command::split_text(pane, Axis::Rows)) == seq![
            "split-window"@,
            "-v"@,
            "-t"@,
            seq!['%'] + text::digits(pane.0 as nat),
        ],
{
    reveal_strlit("split-window -h -t ");
    reveal_strlit("split-window -v -t ");
    reveal_strlit("split-window");
    reveal_strlit("-h");
    reveal_strlit("-v");
    reveal_strlit("-t");
    let p = command::pane_text(pane);
    lemma_no_space('%', pane.0);
    lemma_split_one("split-window"@, ' ');
    lemma_one_more("split-window"@, "-h"@);
    lemma_one_more("split-window"@ + seq![' '] + "-h"@, "-t"@);
    lemma_one_more("split-window"@ + seq![' '] + "-h"@ + seq![' '] + "-t"@, p);
    assert(command::split_text(pane, Axis::Columns) =~= "split-window"@ + seq![' '] + "-h"@
        + seq![' '] + "-t"@ + seq![' '] + p);
    assert(arguments(command::split_text(pane, Axis::Columns)) =~= seq![
        "split-window"@,
        "-h"@,
        "-t"@,
        p,
    ]);
    lemma_one_more("split-window"@, "-v"@);
    lemma_one_more("split-window"@ + seq![' '] + "-v"@, "-t"@);
    lemma_one_more("split-window"@ + seq![' '] + "-v"@ + seq![' '] + "-t"@, p);
    assert(command::split_text(pane, Axis::Rows) =~= "split-window"@ + seq![' '] + "-v"@
        + seq![' '] + "-t"@ + seq![' '] + p);
    assert(arguments(command::split_text(pane, Axis::Rows)) =~= seq![
        "split-window"@,
        "-v"@,
        "-t"@,
        p,
    ]);
}

/// A resize along the columns sets the width, one along the rows the height, to as
/// many cells as were asked for.
pub proof fn tmux_resizes_the_side_that_was_asked(pane: PaneId, cells: usize)
    ensures
        arguments(command::resize_text(pane, Resize { axis: Axis::Columns, cells })) == seq![
            "resize-pane"@,
            "-t"@,
            seq!['%'] + text::digits(pane.0 as nat),
            "-x"@,
            text::digits(cells as nat),
        ],
        arguments(command::resize_text(pane, Resize { axis: Axis::Rows, cells })) == seq![
            "resize-pane"@,
            "-t"@,
            seq!['%'] + text::digits(pane.0 as nat),
            "-y"@,
            text::digits(cells as nat),
        ],
{
    reveal_strlit("resize-pane -t ");
    reveal_strlit("resize-pane");
    reveal_strlit("-t");
    reveal_strlit(" -x ");
    reveal_strlit("-x");
    reveal_strlit(" -y ");
    reveal_strlit("-y");
    let p = command::pane_text(pane);
    let n = text::digits(cells as nat);
    lemma_no_space('%', pane.0);
    lemma_digits_no_space(cells as nat);
    lemma_split_one("resize-pane"@, ' ');
    lemma_one_more("resize-pane"@, "-t"@);
    let a = "resize-pane"@ + seq![' '] + "-t"@;
    lemma_one_more(a, p);
    let b = a + seq![' '] + p;
    lemma_one_more(b, "-x"@);
    lemma_one_more(b + seq![' '] + "-x"@, n);
    assert(command::resize_text(pane, Resize { axis: Axis::Columns, cells }) =~= b + seq![' ']
        + "-x"@ + seq![' '] + n);
    assert(arguments(command::resize_text(pane, Resize { axis: Axis::Columns, cells })) =~= seq![
        "resize-pane"@,
        "-t"@,
        p,
        "-x"@,
        n,
    ]);
    lemma_one_more(b, "-y"@);
    lemma_one_more(b + seq![' '] + "-y"@, n);
    assert(command::resize_text(pane, Resize { axis: Axis::Rows, cells }) =~= b + seq![' '] + "-y"@
        + seq![' '] + n);
    assert(arguments(command::resize_text(pane, Resize { axis: Axis::Rows, cells })) =~= seq![
        "resize-pane"@,
        "-t"@,
        p,
        "-y"@,
        n,
    ]);
}

/// A command about one pane names it as its target, and a swap names both panes.
pub proof fn tmux_is_told_which_panes(command: Seq<char>, pane: PaneId, other: PaneId)
    ensures
        arguments(command::pane_command_text(command, pane)) == arguments(command) + seq![
            "-t"@,
            seq!['%'] + text::digits(pane.0 as nat),
        ],
        arguments(command::swap_text(pane, other)) == seq![
            "swap-pane"@,
            "-s"@,
            seq!['%'] + text::digits(pane.0 as nat),
            "-t"@,
            seq!['%'] + text::digits(other.0 as nat),
        ],
{
    reveal_strlit(" -t ");
    reveal_strlit("-t");
    reveal_strlit("-s");
    reveal_strlit("swap-pane -s ");
    reveal_strlit("swap-pane");
    let p = command::pane_text(pane);
    let o = command::pane_text(other);
    lemma_no_space('%', pane.0);
    lemma_no_space('%', other.0);
    lemma_one_more(command, "-t"@);
    lemma_one_more(command + seq![' '] + "-t"@, p);
    assert(command::pane_command_text(command, pane) =~= command + seq![' '] + "-t"@ + seq![' ']
        + p);
    assert(arguments(command::pane_command_text(command, pane)) =~= arguments(command) + seq![
        "-t"@,
        p,
    ]);
    lemma_split_one("swap-pane"@, ' ');
    lemma_one_more("swap-pane"@, "-s"@);
    let a = "swap-pane"@ + seq![' '] + "-s"@;
    lemma_one_more(a, p);
    lemma_one_more(a + seq![' '] + p, "-t"@);
    lemma_one_more(a + seq![' '] + p + seq![' '] + "-t"@, o);
    assert(command::swap_text(pane, other) =~= a + seq![' '] + p + seq![' '] + "-t"@ + seq![' ']
        + o);
    assert(arguments(command::swap_text(pane, other)) =~= seq!["swap-pane"@, "-s"@, p, "-t"@, o]);
}

/// The client's size is told as its columns, an `x` and its rows.
pub proof fn tmux_is_told_the_size(size: Size)
    ensures
        arguments(command::client_size_text(size)) == seq![
            "refresh-client"@,
            "-C"@,
            text::digits(size.width()) + seq!['x'] + text::digits(size.height()),
        ],
{
    reveal_strlit("refresh-client -C ");
    reveal_strlit("refresh-client");
    reveal_strlit("-C");
    reveal_strlit("x");
    let w = text::digits(size.width());
    let h = text::digits(size.height());
    let word = w + seq!['x'] + h;
    lemma_digits_no_space(size.width());
    lemma_digits_no_space(size.height());
    assert forall|i: int| 0 <= i < word.len() implies word[i] != ' ' by {
        if i < w.len() {
            assert(w.contains(w[i]));
        } else if i > w.len() {
            assert(h.contains(h[i - w.len() - 1]));
        }
    }
    lemma_split_one("refresh-client"@, ' ');
    lemma_one_more("refresh-client"@, "-C"@);
    lemma_one_more("refresh-client"@ + seq![' '] + "-C"@, word);
    assert(command::client_size_text(size) =~= "refresh-client"@ + seq![' '] + "-C"@ + seq![' ']
        + word);
    assert(arguments(command::client_size_text(size)) =~= seq!["refresh-client"@, "-C"@, word]);
}

/// The number that an octal digit stands for.
pub open spec fn octal_value(c: char) -> Option<nat> {
    if '0' <= c && c <= '7' {
        Some((c as nat - 48) as nat)
    } else {
        None
    }
}

/// The byte that four characters at the end of a text stand for: a backslash and
/// three octal digits.
pub open spec fn octal_ends(s: Seq<char>) -> Option<nat> {
    if s.len() < 4 || s[s.len() - 4] != '\\' {
        None
    } else {
        match (octal_value(s[s.len() - 3]), octal_value(s[s.len() - 2]), octal_value(s[s.len() - 1])) {
            (Some(a), Some(b), Some(c)) => Some(64 * a + 8 * b + c),
            _ => None,
        }
    }
}

/// The bytes that octal escapes stand for.
pub open spec fn octals_read(s: Seq<char>) -> Option<Seq<nat>>
    decreases s.len(),
{
    if s.len() == 0 {
        Some(Seq::empty())
    } else {
        match octal_ends(s) {
            None => None,
            Some(b) => match octals_read(s.take(s.len() - 4)) {
                None => None,
                Some(before) => Some(before.push(b)),
            },
        }
    }
}

/// Bytes as numbers.
pub open spec fn numbers(bytes: Seq<u8>) -> Seq<nat> {
    Seq::new(bytes.len(), |i: int| bytes[i] as nat)
}

proof fn lemma_octals_read(bytes: Seq<u8>)
    ensures
        octals_read(octals(bytes)) == Some(numbers(bytes)),
        !octals(bytes).contains(' '),
        !octals(bytes).contains('"'),
    decreases bytes.len(),
{
    if bytes.len() == 0 {
        assert(numbers(bytes) =~= Seq::<nat>::empty());
    } else {
        let less = bytes.drop_last();
        let b = bytes.last();
        lemma_octals_read(less);
        let s = octals(bytes);
        assert(b / 64 < 4 && (b / 8) % 8 < 8 && b % 8 < 8);
        assert(64 * (b / 64) + 8 * ((b / 8) % 8) + b % 8 == b) by (bit_vector);
        assert(s.take(s.len() - 4) =~= octals(less));
        assert(octal(b).len() == 4);
        assert(s[s.len() - 4] == octal(b)[0]);
        assert(s[s.len() - 3] == octal(b)[1]);
        assert(s[s.len() - 2] == octal(b)[2]);
        assert(s[s.len() - 1] == octal(b)[3]);
        assert(octal_ends(s) == Some(b as nat));
        assert(numbers(bytes) =~= numbers(less).push(b as nat));
        assert forall|i: int| 0 <= i < s.len() implies s[i] != ' ' && s[i] != '"' by {
            if i < octals(less).len() {
                assert(octals(less).contains(octals(less)[i]));
                assert(s[i] == octals(less)[i]);
            } else {
                assert(s[i] == octal(b)[i - octals(less).len()]);
            }
        }
    }
}

/// The bytes of a text in double quotes that is made of octal escapes.
pub open spec fn quoted_bytes(word: Seq<char>) -> Option<Seq<nat>> {
    if word.len() >= 2 && word[0] == '"' && word.last() == '"' {
        octals_read(word.subrange(1, word.len() - 1))
    } else {
        None
    }
}

/// What a buffer holds after a command: `set-buffer` replaces what it held, and with
/// `-a` adds to it. `None` where the command is no such command for this buffer.
pub open spec fn buffer_after(name: Seq<char>, held: Seq<nat>, command: Seq<char>) -> Option<
    Seq<nat>,
> {
    let read = arguments(command);
    if read.len() == 5 && read[0] == "set-buffer"@ && read[1] == "-a"@ && read[2] == "-b"@
        && read[3] == name {
        match quoted_bytes(read[4]) {
            Some(bytes) => Some(held + bytes),
            None => None,
        }
    } else if read.len() == 4 && read[0] == "set-buffer"@ && read[1] == "-b"@ && read[2] == name {
        quoted_bytes(read[3])
    } else {
        None
    }
}

/// What a buffer that held something holds after commands, one after the other.
pub open spec fn buffer_after_all(
    name: Seq<char>,
    held: Seq<nat>,
    commands: Seq<Seq<char>>,
) -> Option<Seq<nat>>
    decreases commands.len(),
{
    if commands.len() == 0 {
        Some(held)
    } else {
        match buffer_after(name, held, commands[0]) {
            None => None,
            Some(next) => buffer_after_all(name, next, commands.skip(1)),
        }
    }
}

proof fn lemma_set_buffer(name: Seq<char>, append: bool, bytes: Seq<u8>, held: Seq<nat>)
    requires
        !name.contains(' '),
    ensures
        buffer_after(name, held, command::set_buffer_text(name, append, bytes)) == Some(
            if append {
                held + numbers(bytes)
            } else {
                numbers(bytes)
            },
        ),
{
    reveal_strlit("set-buffer -a -b ");
    reveal_strlit("set-buffer -b ");
    reveal_strlit("set-buffer");
    reveal_strlit("-a");
    reveal_strlit("-b");
    reveal_strlit(" \"");
    reveal_strlit("\"");
    lemma_octals_read(bytes);
    let middle = octals(bytes);
    let word = seq!['"'] + middle + seq!['"'];
    assert forall|i: int| 0 <= i < word.len() implies word[i] != ' ' by {
        if 0 < i <= middle.len() {
            assert(middle.contains(middle[i - 1]));
        }
    }
    assert(word.subrange(1, word.len() - 1) =~= middle);
    let whole = command::set_buffer_text(name, append, bytes);
    lemma_split_one("set-buffer"@, ' ');
    let a = if append {
        lemma_one_more("set-buffer"@, "-a"@);
        "set-buffer"@ + seq![' '] + "-a"@
    } else {
        "set-buffer"@
    };
    lemma_one_more(a, "-b"@);
    lemma_one_more(a + seq![' '] + "-b"@, name);
    lemma_one_more(a + seq![' '] + "-b"@ + seq![' '] + name, word);
    assert(whole =~= a + seq![' '] + "-b"@ + seq![' '] + name + seq![' '] + word);
    let read = arguments(whole);
    if append {
        assert(read.len() == 5 && read[0] == "set-buffer"@ && read[1] == "-a"@ && read[2] == "-b"@
            && read[3] == name && read[4] == word);
    } else {
        assert(read.len() == 4 && read[0] == "set-buffer"@ && read[1] == "-b"@ && read[2] == name
            && read[3] == word);
    }
}

proof fn lemma_chunks(name: Seq<char>, bytes: Seq<u8>, from: nat, held: Seq<nat>)
    requires
        !name.contains(' '),
        from <= bytes.len(),
        from > 0 ==> held == numbers(bytes.take(from as int)),
    ensures
        buffer_after_all(name, held, command::chunk_texts(name, bytes, from)) == Some(
            if from < bytes.len() || from > 0 {
                numbers(bytes)
            } else {
                held
            },
        ),
    decreases bytes.len() - from,
{
    let commands = command::chunk_texts(name, bytes, from);
    if from < bytes.len() {
        let to = if bytes.len() - from <= command::MAX_CHUNK_BYTES {
            bytes.len()
        } else {
            from + command::MAX_CHUNK_BYTES as nat
        };
        let part = bytes.subrange(from as int, to as int);
        lemma_set_buffer(name, from > 0, part, held);
        let next = if from > 0 {
            held + numbers(part)
        } else {
            numbers(part)
        };
        assert(next =~= numbers(bytes.take(to as int)));
        assert(commands[0] == command::set_buffer_text(name, from > 0, part));
        assert(commands.skip(1) =~= command::chunk_texts(name, bytes, to));
        lemma_chunks(name, bytes, to, next);
    } else if from > 0 {
        assert(bytes.take(from as int) =~= bytes);
    }
}

/// A paste of any length leaves the private buffer, whatever it held before, holding
/// exactly the bytes of the text; then the buffer goes to the pane that was meant,
/// bracketed where the application asked for it, and is deleted.
pub proof fn tmux_pastes_the_whole_text(
    pane: PaneId,
    content: Seq<char>,
    name: Seq<char>,
    held: Seq<nat>,
)
    requires
        !name.contains(' '),
        vstd::utf8::encode_utf8(content).len() > 0,
    ensures
        ({
            let commands = command::paste_texts(pane, content, name);
            &&& commands.len() > 1
            &&& buffer_after_all(name, held, commands.drop_last()) == Some(
                numbers(vstd::utf8::encode_utf8(content)),
            )
            &&& arguments(commands.last()) == seq![
                "paste-buffer"@,
                "-d"@,
                "-p"@,
                "-b"@,
                name,
                "-t"@,
                seq!['%'] + text::digits(pane.0 as nat),
            ]
        }),
{
    reveal_strlit("paste-buffer -d -p -b ");
    reveal_strlit("paste-buffer");
    reveal_strlit("-d");
    reveal_strlit("-p");
    reveal_strlit("-b");
    reveal_strlit(" -t ");
    reveal_strlit("-t");
    let bytes = vstd::utf8::encode_utf8(content);
    let commands = command::paste_texts(pane, content, name);
    let p = command::pane_text(pane);
    assert(commands.drop_last() =~= command::chunk_texts(name, bytes, 0));
    assert(commands.len() > 1);
    lemma_chunks(name, bytes, 0, held);
    lemma_no_space('%', pane.0);
    lemma_split_one("paste-buffer"@, ' ');
    lemma_one_more("paste-buffer"@, "-d"@);
    let a = "paste-buffer"@ + seq![' '] + "-d"@;
    lemma_one_more(a, "-p"@);
    let b = a + seq![' '] + "-p"@;
    lemma_one_more(b, "-b"@);
    let c = b + seq![' '] + "-b"@;
    lemma_one_more(c, name);
    let d = c + seq![' '] + name;
    lemma_one_more(d, "-t"@);
    lemma_one_more(d + seq![' '] + "-t"@, p);
    assert(commands.last() =~= d + seq![' '] + "-t"@ + seq![' '] + p);
    assert(arguments(commands.last()) =~= seq![
        "paste-buffer"@,
        "-d"@,
        "-p"@,
        "-b"@,
        name,
        "-t"@,
        p,
    ]);
}

} // verus!
