//! Interactive requests: what must hold before input is enabled, and the
//! guarded transaction in which actions reach a pane.
use vstd::prelude::*;
use crate::command;
use crate::exchange::{Inspector, MAX_REPLIES};
use crate::fault;
use crate::fault::{Cause, Fault};
use crate::ids::{sigiled, PaneId, SessionId};
use crate::input;
use crate::input::{input_error, key_name, Action, Input, Target};
use crate::inspect::has_flag;
use crate::desktop::{inputs, MAX_TRANSACTION_ACTIONS};
use crate::reconnect;
use crate::reconnect::Failure;
use crate::snapshot::{PaneState, SessionView};
use crate::ssh;
use crate::text;
use crate::tmux;

verus! {

/// Why input was not enabled.
#[derive(Debug)]
pub enum EnableError {
    /// A command alias overrides a command that transactions are made of.
    Alias,
    /// A hook is configured that would run inside a transaction; its name.
    Hook(String),
    /// Not exactly one line of five fields.
    Metadata,
    NotControlMode,
    ReadOnly,
    IgnoresSize,
    Terminal,
    ProcessId,
}

/// A command that snapshots and interactive transactions are made of.
pub open spec fn interactive_command(name: Seq<char>) -> bool {
    name == "send-keys"@ || name == "set-buffer"@ || name == "paste-buffer"@ || name
        == "resize-pane"@ || name == "split-window"@ || name == "kill-pane"@ || name
        == "select-pane"@ || name == "swap-pane"@ || name == "rename-session"@ || name
        == "if-shell"@ || name == "display-message"@
}

/// The name that an alias line defines; empty where the line defines none.
pub open spec fn alias_name(line: Seq<char>) -> Seq<char> {
    let parts = text::split(line, '=');
    if parts.len() > 1 {
        parts[0]
    } else {
        Seq::empty()
    }
}

/// The hook that a line names, without the index behind it.
pub open spec fn hook_name(line: Seq<char>) -> Seq<char> {
    let words = text::words(line);
    if words.len() > 0 {
        text::split(words[0], '[')[0]
    } else {
        Seq::empty()
    }
}

/// A hook that runs after one of the interactive commands.
pub open spec fn interactive_hook(name: Seq<char>) -> bool {
    text::starts_with(name, "after-"@) && interactive_command(name.skip("after-"@.len() as int))
}

/// A hook line that would run something inside a transaction. A line that is the
/// hook's name alone configures nothing.
pub open spec fn blocking_hook(line: Seq<char>) -> bool {
    interactive_hook(hook_name(line)) && line != hook_name(line)
}

fn is_interactive_command(name: &[char]) -> (r: bool)
    ensures
        r == interactive_command(name@),
{
    text::same_chars(name, "send-keys") || text::same_chars(name, "set-buffer")
        || text::same_chars(name, "paste-buffer") || text::same_chars(name, "resize-pane")
        || text::same_chars(name, "split-window") || text::same_chars(name, "kill-pane")
        || text::same_chars(name, "select-pane") || text::same_chars(name, "swap-pane")
        || text::same_chars(name, "rename-session") || text::same_chars(name, "if-shell")
        || text::same_chars(name, "display-message")
}

/// A line that defines no alias overrides nothing.
proof fn lemma_no_name_is_no_command()
    ensures
        !interactive_command(Seq::empty()),
{
    reveal_strlit("send-keys");
    reveal_strlit("set-buffer");
    reveal_strlit("paste-buffer");
    reveal_strlit("resize-pane");
    reveal_strlit("split-window");
    reveal_strlit("kill-pane");
    reveal_strlit("select-pane");
    reveal_strlit("swap-pane");
    reveal_strlit("rename-session");
    reveal_strlit("if-shell");
    reveal_strlit("display-message");
    assert("send-keys"@.len() > 0);
    assert("set-buffer"@.len() > 0);
    assert("paste-buffer"@.len() > 0);
    assert("resize-pane"@.len() > 0);
    assert("split-window"@.len() > 0);
    assert("kill-pane"@.len() > 0);
    assert("select-pane"@.len() > 0);
    assert("swap-pane"@.len() > 0);
    assert("rename-session"@.len() > 0);
    assert("if-shell"@.len() > 0);
    assert("display-message"@.len() > 0);
}

/// Asks tmux for the command aliases.
pub fn alias_request() -> (r: &'static str)
    ensures
        r@ == "show-options -s -v command-alias"@,
{
    "show-options -s -v command-alias"
}

/// Some line of a reply overrides an interactive command.
pub open spec fn any_override(lines: Seq<String>) -> bool {
    exists|i: int|
        0 <= i < lines.len() && interactive_command(alias_name(#[trigger] lines[i]@))
}

/// Refuses aliases that override an interactive command.
pub fn check_aliases(lines: &Vec<String>) -> (r: Result<(), EnableError>)
    ensures
        match r {
            Ok(()) => !any_override(lines@),
            Err(error) => error == EnableError::Alias && any_override(lines@),
        },
{
    for i in 0..lines.len()
        invariant
            forall|j: int|
                0 <= j < i ==> !interactive_command(alias_name(#[trigger] lines@[j]@)),
    {
        let v = text::chars_of(lines[i].as_str());
        let parts = text::split_on(v.as_slice(), '=');
        let ghost all = text::split(v@, '=');
        assert(all.len() == parts@.len());
        proof {
            lemma_no_name_is_no_command();
        }
        if parts.len() > 1 {
            assert(all[0] == parts@[0]@);
            if is_interactive_command(parts[0].as_slice()) {
                assert(interactive_command(alias_name(lines@[i as int]@)));
                return Err(EnableError::Alias);
            }
        }
        assert(!interactive_command(alias_name(lines@[i as int]@)));
    }
    Ok(())
}

/// Some line of a reply configures a hook that would run inside a transaction.
pub open spec fn any_blocking_hook(lines: Seq<String>) -> bool {
    exists|i: int| 0 <= i < lines.len() && blocking_hook(#[trigger] lines[i]@)
}

/// The first line that configures such a hook: its reply, and its place there.
pub open spec fn first_blocking(replies: Seq<Vec<String>>, i: int, j: int) -> bool {
    &&& 0 <= i < replies.len()
    &&& 0 <= j < replies[i]@.len()
    &&& blocking_hook(replies[i]@[j]@)
    &&& forall|k: int| 0 <= k < i ==> !any_blocking_hook(#[trigger] replies[k]@)
    &&& forall|k: int| 0 <= k < j ==> !blocking_hook(#[trigger] replies[i]@[k]@)
}

fn check_hook_line(line: &String) -> (r: Option<String>)
    ensures
        match r {
            Some(hook) => blocking_hook(line@) && hook@ == hook_name(line@),
            None => !blocking_hook(line@),
        },
{
    let v = text::chars_of(line.as_str());
    let words = text::words_of(v.as_slice());
    let ghost all = text::words(v@);
    assert(all.len() == words@.len());
    let prefix = text::chars_of("after-");
    if words.len() == 0 {
        proof {
            reveal_strlit("after-");
        }
        return None;
    }
    assert(all[0] == words@[0]@);
    let parts = text::split_on(words[0].as_slice(), '[');
    assert(text::split(words@[0]@, '[')[0] == parts@[0]@);
    let hook: &Vec<char> = &parts[0];
    if !text::stands_at(hook.as_slice(), prefix.as_slice(), 0) {
        return None;
    }
    let rest = vstd::slice::slice_subrange(hook.as_slice(), prefix.len(), hook.len());
    assert(rest@ =~= hook@.skip(prefix@.len() as int));
    if !is_interactive_command(rest) {
        return None;
    }
    let named = text::string_of(hook.as_slice());
    if text::same(line.as_str(), named.as_str()) {
        return None;
    }
    Some(named)
}

/// Refuses hooks that would run inside a transaction, and names the first one.
pub fn check_hooks(replies: &Vec<Vec<String>>) -> (r: Result<(), EnableError>)
    ensures
        match r {
            Ok(()) => forall|i: int|
                0 <= i < replies@.len() ==> !any_blocking_hook(#[trigger] replies@[i]@),
            Err(EnableError::Hook(hook)) => exists|i: int, j: int|
                #[trigger] first_blocking(replies@, i, j) && hook@ == hook_name(replies@[i]@[j]@),
            Err(_) => false,
        },
{
    for i in 0..replies.len()
        invariant
            forall|k: int| 0 <= k < i ==> !any_blocking_hook(#[trigger] replies@[k]@),
    {
        let lines: &Vec<String> = &replies[i];
        for j in 0..lines.len()
            invariant
                0 <= i < replies@.len(),
                lines == replies@[i as int],
                forall|k: int| 0 <= k < i ==> !any_blocking_hook(#[trigger] replies@[k]@),
                forall|k: int| 0 <= k < j ==> !blocking_hook(#[trigger] lines@[k]@),
        {
            match check_hook_line(&lines[j]) {
                Some(hook) => {
                    assert(first_blocking(replies@, i as int, j as int));
                    return Err(EnableError::Hook(hook));
                },
                None => {},
            }
        }
    }
    Ok(())
}

/// Numbers in ascending order, none of them twice.
pub open spec fn strictly_ascending(v: Seq<u32>) -> bool {
    forall|i: int, j: int| 0 <= i < j < v.len() ==> v[i] < v[j]
}

/// The two hold the same numbers.
pub open spec fn same_numbers(a: Seq<u32>, b: Seq<u32>) -> bool {
    forall|n: u32| #[trigger] a.contains(n) == b.contains(n)
}

/// The windows of panes.
pub open spec fn windows_of(panes: Seq<PaneState>) -> Seq<u32> {
    Seq::new(panes.len(), |i: int| panes[i].window.0)
}

/// The numbers of panes.
pub open spec fn numbers_of(panes: Seq<PaneState>) -> Seq<u32> {
    Seq::new(panes.len(), |i: int| panes[i].id.0)
}

/// The queries for the hooks of these windows and panes.
pub open spec fn hook_query_texts(session: SessionId, windows: Seq<u32>, panes: Seq<u32>) -> Seq<
    Seq<char>,
> {
    seq![
        "show-hooks -g"@,
        "show-hooks -gw"@,
        "show-hooks -t '"@ + sigiled('$', session.0) + "'"@,
    ] + Seq::new(windows.len(), |i: int| "show-hooks -w -t "@ + sigiled('@', windows[i]))
        + Seq::new(panes.len(), |i: int| "show-hooks -p -t "@ + sigiled('%', panes[i]))
}

/// These are the queries for the hooks of a view: each of its windows and each of
/// its panes is asked about once, in ascending order.
pub open spec fn asks_for_hooks(view: SessionView, queries: Seq<Seq<char>>) -> bool {
    exists|windows: Seq<u32>, panes: Seq<u32>|
        strictly_ascending(windows) && same_numbers(windows, windows_of(view.panes@))
            && strictly_ascending(panes) && same_numbers(panes, numbers_of(view.panes@))
            && queries == #[trigger] hook_query_texts(view.session, windows, panes)
}

fn insert_number(v: &mut Vec<u32>, n: u32)
    requires
        strictly_ascending(old(v)@),
    ensures
        strictly_ascending(final(v)@),
        forall|m: u32| #[trigger] final(v)@.contains(m) == (old(v)@.contains(m) || m == n),
{
    let ghost before = v@;
    let mut at: usize = 0;
    while at < v.len() && v[at] < n
        invariant
            v@ == before,
            at <= v@.len(),
            strictly_ascending(before),
            forall|j: int| 0 <= j < at ==> before[j] < n,
        decreases v@.len() - at,
    {
        at = at + 1;
    }
    if at < v.len() && v[at] == n {
        assert(before.contains(n)) by {
            assert(before[at as int] == n);
        }
        return ;
    }
    assert forall|j: int| at <= j < before.len() implies before[j] > n by {
        if j > at {
            assert(before[at as int] < before[j]);
        }
    }
    v.insert(at, n);
    assert(v@ =~= before.insert(at as int, n));
    assert forall|m: u32| #[trigger] v@.contains(m) == (before.contains(m) || m == n) by {
        if before.contains(m) {
            let j = choose|j: int| 0 <= j < before.len() && before[j] == m;
            if j < at {
                assert(v@[j] == m);
            } else {
                assert(v@[j + 1] == m);
            }
        }
        if m == n {
            assert(v@[at as int] == n);
        }
        if v@.contains(m) {
            let j = choose|j: int| 0 <= j < v@.len() && v@[j] == m;
            if j < at {
                assert(before[j] == m);
            } else if j > at {
                assert(before[j - 1] == m);
            }
        }
    }
}

/// The queries for every hook that could run inside a transaction: global ones,
/// and those of the session, of each of its windows and of each of its panes.
pub fn hook_queries(view: &SessionView) -> (r: Vec<String>)
    ensures
        asks_for_hooks(*view, text::strings(r@)),
{
    let mut windows: Vec<u32> = Vec::new();
    let mut panes: Vec<u32> = Vec::new();
    let ghost all_windows = windows_of(view.panes@);
    let ghost all_panes = numbers_of(view.panes@);
    for i in 0..view.panes.len()
        invariant
            all_windows == windows_of(view.panes@),
            all_panes == numbers_of(view.panes@),
            strictly_ascending(windows@),
            strictly_ascending(panes@),
            same_numbers(windows@, all_windows.take(i as int)),
            same_numbers(panes@, all_panes.take(i as int)),
    {
        let ghost old_windows = windows@;
        let ghost old_panes = panes@;
        insert_number(&mut windows, view.panes[i].window.0);
        insert_number(&mut panes, view.panes[i].id.0);
        proof {
            lemma_one_more(old_windows, windows@, all_windows, i as int);
            lemma_one_more(old_panes, panes@, all_panes, i as int);
        }
    }
    assert(all_windows.take(all_windows.len() as int) =~= all_windows);
    assert(all_panes.take(all_panes.len() as int) =~= all_panes);
    let mut r: Vec<String> = Vec::new();
    r.push("show-hooks -g".to_owned());
    r.push("show-hooks -gw".to_owned());
    let mut query = "show-hooks -t '".to_owned();
    text::push_text(&mut query, view.session.to_text().as_str());
    text::push_text(&mut query, "'");
    r.push(query);
    let ghost head = hook_query_texts(view.session, Seq::empty(), Seq::empty());
    assert(text::strings(r@) =~= head);
    for i in 0..windows.len()
        invariant
            text::strings(r@) == hook_query_texts(
                view.session,
                windows@.take(i as int),
                Seq::empty(),
            ),
    {
        let ghost before = text::strings(r@);
        let mut query = "show-hooks -w -t ".to_owned();
        text::push_text(&mut query, crate::ids::WindowId(windows[i]).to_text().as_str());
        r.push(query);
        assert(text::strings(r@) =~= before.push(query@));
        assert(text::strings(r@) =~= hook_query_texts(
            view.session,
            windows@.take(i + 1),
            Seq::empty(),
        ));
    }
    assert(windows@.take(windows@.len() as int) =~= windows@);
    assert(panes@.take(0) =~= Seq::<u32>::empty());
    for i in 0..panes.len()
        invariant
            text::strings(r@) == hook_query_texts(view.session, windows@, panes@.take(i as int)),
    {
        let ghost before = text::strings(r@);
        let mut query = "show-hooks -p -t ".to_owned();
        text::push_text(&mut query, PaneId(panes[i]).to_text().as_str());
        r.push(query);
        assert(text::strings(r@) =~= before.push(query@));
        assert(text::strings(r@) =~= hook_query_texts(
            view.session,
            windows@,
            panes@.take(i + 1),
        ));
    }
    assert(panes@.take(panes@.len() as int) =~= panes@);
    r
}

proof fn lemma_one_more(before: Seq<u32>, after: Seq<u32>, all: Seq<u32>, i: int)
    requires
        0 <= i < all.len(),
        same_numbers(before, all.take(i)),
        forall|m: u32| #[trigger] after.contains(m) == (before.contains(m) || m == all[i]),
    ensures
        same_numbers(after, all.take(i + 1)),
{
    assert forall|m: u32| #[trigger] after.contains(m) == all.take(i + 1).contains(m) by {
        if before.contains(m) {
            assert(all.take(i).contains(m));
            let j = choose|j: int| 0 <= j < i && (#[trigger] all.take(i)[j]) == m;
            assert(all.take(i + 1)[j] == m);
        }
        if m == all[i] {
            assert(all.take(i + 1)[i] == m);
        }
        if all.take(i + 1).contains(m) {
            let j = choose|j: int| 0 <= j < i + 1 && (#[trigger] all.take(i + 1)[j]) == m;
            if j < i {
                assert(all.take(i)[j] == m);
                assert(all.take(i).contains(m));
            }
        }
    }
}

/// What a line of client metadata says once input is to be enabled: the client's
/// process number, or why input stays off.
pub open spec fn client_pid(line: Seq<char>) -> Result<u32, EnableError> {
    let fields = text::split(line, '|');
    if fields.len() != 5 {
        Err(EnableError::Metadata)
    } else if fields[0] != "1"@ {
        Err(EnableError::NotControlMode)
    } else if fields[1] != "0"@ {
        Err(EnableError::ReadOnly)
    } else if has_flag(fields[2], "ignore-size"@) {
        Err(EnableError::IgnoresSize)
    } else if fields[3].len() != 0 {
        Err(EnableError::Terminal)
    } else {
        match text::number_within(fields[4], u32::MAX as nat) {
            Some(pid) => Ok(pid as u32),
            None => Err(EnableError::ProcessId),
        }
    }
}

/// What the reply about the client says.
pub open spec fn client_reply(lines: Seq<String>) -> Result<u32, EnableError> {
    if lines.len() != 1 {
        Err(EnableError::Metadata)
    } else {
        client_pid(lines[0]@)
    }
}

/// Asks tmux about the client that is to type.
pub fn client_request() -> (r: &'static str)
    ensures
        r@ == "display-message -p '#{client_control_mode}|#{client_readonly}|#{client_flags}|#{client_tty}|#{client_pid}'"@,
{
    "display-message -p '#{client_control_mode}|#{client_readonly}|#{client_flags}|#{client_tty}|#{client_pid}'"
}

/// Reads the client's process number and checks that tmux lets it type.
pub fn check_client(lines: &Vec<String>) -> (r: Result<u32, EnableError>)
    ensures
        r == client_reply(lines@),
{
    if lines.len() != 1 {
        return Err(EnableError::Metadata);
    }
    let line = text::chars_of(lines[0].as_str());
    let fields = text::split_on(line.as_slice(), '|');
    let ghost all = text::split(line@, '|');
    assert(all.len() == fields@.len());
    assert(forall|i: int| 0 <= i < all.len() ==> #[trigger] all[i] == fields@[i]@);
    if fields.len() != 5 {
        return Err(EnableError::Metadata);
    }
    if !text::same_chars(fields[0].as_slice(), "1") {
        return Err(EnableError::NotControlMode);
    }
    if !text::same_chars(fields[1].as_slice(), "0") {
        return Err(EnableError::ReadOnly);
    }
    if crate::inspect::flag_among(fields[2].as_slice(), "ignore-size") {
        return Err(EnableError::IgnoresSize);
    }
    if fields[3].len() != 0 {
        return Err(EnableError::Terminal);
    }
    match text::parse(fields[4].as_slice(), u32::MAX as u64) {
        Some(pid) => Ok(pid as u32),
        None => Err(EnableError::ProcessId),
    }
}

/// The hexadecimal numeral of a number.
pub open spec fn hex_digits(n: nat) -> Seq<char>
    decreases n,
{
    if n < 16 {
        seq![command::hex_digit(n)]
    } else {
        hex_digits(n / 16).push(command::hex_digit(n % 16))
    }
}

/// The name that the private buffers of one attachment begin with, from the
/// client's process number and the time.
pub open spec fn buffer_prefix(pid: u32, stamp: u128) -> Seq<char> {
    "starcom-"@ + text::digits(pid as nat) + "-"@ + hex_digits(stamp as nat)
}

fn push_hex(out: &mut String, n: u128)
    ensures
        final(out)@ == old(out)@ + hex_digits(n as nat),
    decreases n,
{
    if n >= 16 {
        push_hex(out, n / 16);
    }
    let d: u8 = (n % 16) as u8;
    if d < 10 {
        out.push((48 + d) as char);
    } else {
        out.push((87 + d) as char);
    }
    assert(out@ =~= old(out)@ + hex_digits(n as nat));
}

/// What tmux answered before input was enabled: to the query for the aliases, to
/// the queries for the hooks of a view, and to the query about the client.
pub struct Evidence {
    pub view: SessionView,
    pub aliases: Seq<Vec<String>>,
    pub hooks: Seq<Vec<String>>,
    pub client: Seq<Vec<String>>,
}

/// No alias overrides an interactive command.
pub open spec fn aliases_pass(e: Evidence) -> bool {
    e.aliases.len() == 1 && !any_override(e.aliases[0]@)
}

/// Every query for a hook was answered, and no hook would run inside a transaction.
pub open spec fn hooks_pass(e: Evidence) -> bool {
    &&& exists|queries: Seq<Seq<char>>|
        #[trigger] asks_for_hooks(e.view, queries) && e.hooks.len() == queries.len()
    &&& forall|i: int| 0 <= i < e.hooks.len() ==> !any_blocking_hook(#[trigger] e.hooks[i]@)
}

/// tmux lets the client type.
pub open spec fn client_passes(e: Evidence) -> bool {
    e.client.len() == 1 && client_reply(e.client[0]@) is Ok
}

/// Everything that has to hold before input is enabled was checked and holds.
pub open spec fn passed(e: Evidence) -> bool {
    aliases_pass(e) && hooks_pass(e) && client_passes(e)
}

/// What lets actions be sent: the name of the private buffers, which only comes of
/// every check that was passed.
pub struct Permit {
    prefix: String,
    evidence: Ghost<Evidence>,
}

impl View for Permit {
    type V = Seq<char>;

    closed spec fn view(&self) -> Seq<char> {
        self.prefix@
    }
}

impl Permit {
    #[verifier::type_invariant]
    pub closed spec fn valid(self) -> bool {
        passed(self.evidence@)
    }

    /// What was checked.
    pub closed spec fn seen(self) -> Evidence {
        self.evidence@
    }

    /// The name that the private buffers begin with.
    pub fn prefix(&self) -> (r: &str)
        ensures
            r@ == self@,
            passed(self.seen()),
    {
        proof {
            use_type_invariant(self);
        }
        self.prefix.as_str()
    }
}

/// How far the checks before input have come.
#[derive(Clone, Copy, Debug, PartialEq, Eq, Structural)]
pub enum Check {
    Aliases,
    Hooks,
    Client,
}

/// The checks before input, one after the other.
pub struct Enabling {
    due: Check,
    queries: Vec<String>,
    evidence: Ghost<Evidence>,
}

/// What a reply to one of the checks comes to.
pub enum Enabled {
    /// It is passed, and another one is due.
    More(Enabling),
    /// Every check is passed.
    Done(Permit),
}

impl Enabling {
    #[verifier::type_invariant]
    pub closed spec fn valid(self) -> bool {
        &&& asks_for_hooks(self.evidence@.view, text::strings(self.queries@))
        &&& self.due != Check::Aliases ==> aliases_pass(self.evidence@)
        &&& self.due == Check::Client ==> hooks_pass(self.evidence@)
    }

    /// The check that is due.
    pub closed spec fn due(self) -> Check {
        self.due
    }

    /// What was checked so far.
    pub closed spec fn seen(self) -> Evidence {
        self.evidence@
    }

    /// How many commands the check that is due consists of.
    pub closed spec fn commands(self) -> nat {
        if self.due == Check::Hooks {
            self.queries@.len()
        } else {
            1
        }
    }

    /// Starts the checks for a session as it was reconstructed.
    pub fn new(view: &SessionView) -> (r: Self)
        ensures
            r.due() == Check::Aliases,
            r.seen().view == *view,
    {
        let queries = hook_queries(view);
        let ghost evidence = Evidence {
            view: *view,
            aliases: Seq::empty(),
            hooks: Seq::empty(),
            client: Seq::empty(),
        };
        Enabling { due: Check::Aliases, queries, evidence: Ghost(evidence) }
    }

    /// The commands of the check that is due.
    pub fn request(&self) -> (r: Vec<String>)
        ensures
            r@.len() == self.commands(),
            match self.due() {
                Check::Aliases => text::strings(r@) == seq!["show-options -s -v command-alias"@],
                Check::Hooks => asks_for_hooks(self.seen().view, text::strings(r@)),
                Check::Client => text::strings(r@) == seq![
                    "display-message -p '#{client_control_mode}|#{client_readonly}|#{client_flags}|#{client_tty}|#{client_pid}'"@,
                ],
            },
    {
        proof {
            use_type_invariant(self);
        }
        match self.due {
            Check::Aliases => single(alias_request().to_owned()),
            Check::Client => single(client_request().to_owned()),
            Check::Hooks => {
                let mut r: Vec<String> = Vec::new();
                for i in 0..self.queries.len()
                    invariant
                        r@.len() == i,
                        forall|j: int| 0 <= j < i ==> (#[trigger] r@[j])@ == self.queries@[j]@,
                {
                    r.push(self.queries[i].clone());
                }
                assert(text::strings(r@) =~= text::strings(self.queries@));
                r
            },
        }
    }

    /// Takes the replies to the check that is due. Only after the last of the three
    /// is there a permit; a check that fails ends them all.
    pub fn reply(self, replies: Vec<Vec<String>>, stamp: u128) -> (r: Result<Enabled, EnableError>)
        requires
            replies@.len() == self.commands(),
        ensures
            match self.due() {
                Check::Aliases => match r {
                    Ok(Enabled::More(next)) => !any_override(replies@[0]@) && next.due()
                        == Check::Hooks && next.seen() == (Evidence {
                        aliases: replies@,
                        ..self.seen()
                    }),
                    Ok(Enabled::Done(_)) => false,
                    Err(error) => error == EnableError::Alias && any_override(replies@[0]@),
                },
                Check::Hooks => match r {
                    Ok(Enabled::More(next)) => next.due() == Check::Client && next.seen() == (
                    Evidence { hooks: replies@, ..self.seen() }) && forall|i: int|
                        0 <= i < replies@.len() ==> !any_blocking_hook(#[trigger] replies@[i]@),
                    Ok(Enabled::Done(_)) => false,
                    Err(EnableError::Hook(hook)) => exists|i: int, j: int|
                        #[trigger] first_blocking(replies@, i, j) && hook@ == hook_name(
                            replies@[i]@[j]@,
                        ),
                    Err(_) => false,
                },
                Check::Client => match r {
                    Ok(Enabled::Done(permit)) => {
                        &&& client_reply(replies@[0]@) is Ok
                        &&& permit@ == buffer_prefix(client_reply(replies@[0]@)->Ok_0, stamp)
                        &&& permit.seen() == (Evidence { client: replies@, ..self.seen() })
                        &&& passed(permit.seen())
                    },
                    Ok(Enabled::More(_)) => false,
                    Err(error) => client_reply(replies@[0]@) == Err::<u32, EnableError>(error),
                },
            },
    {
        proof {
            use_type_invariant(&self);
        }
        let ghost before = self.evidence@;
        let queries = self.queries;
        match self.due {
            Check::Aliases => match check_aliases(&replies[0]) {
                Ok(()) => Ok(
                    Enabled::More(
                        Enabling {
                            due: Check::Hooks,
                            queries,
                            evidence: Ghost(Evidence { aliases: replies@, ..before }),
                        },
                    ),
                ),
                Err(error) => Err(error),
            },
            Check::Hooks => match check_hooks(&replies) {
                Ok(()) => {
                    let ghost after = Evidence { hooks: replies@, ..before };
                    assert(asks_for_hooks(after.view, text::strings(queries@)));
                    assert(aliases_pass(after));
                    Ok(
                        Enabled::More(
                            Enabling { due: Check::Client, queries, evidence: Ghost(after) },
                        ),
                    )
                },
                Err(error) => Err(error),
            },
            Check::Client => match check_client(&replies[0]) {
                Ok(pid) => {
                    let mut prefix = "starcom-".to_owned();
                    text::push_decimal(&mut prefix, pid as u64);
                    text::push_text(&mut prefix, "-");
                    push_hex(&mut prefix, stamp);
                    let ghost after = Evidence { client: replies@, ..before };
                    assert(asks_for_hooks(after.view, text::strings(queries@)));
                    assert(hooks_pass(after));
                    Ok(Enabled::Done(Permit { prefix, evidence: Ghost(after) }))
                },
                Err(error) => Err(error),
            },
        }
    }
}

impl Inspector {
    /// From here on actions are sent: every check that has to come first is passed.
    pub fn enable(&mut self, permit: Permit)
        ensures
            passed(permit.seen()),
            *final(self) == (Inspector { input_buffer_prefix: Some(permit), ..*old(self) }),
    {
        let _ = permit.prefix();
        self.input_buffer_prefix = Some(permit);
    }
}

/// Why actions are not sent.
#[derive(Clone, Copy, Debug, PartialEq, Eq, Structural)]
pub enum InteractError {
    /// No actions, or too many.
    BatchSize,
    ReadOnly,
    SequenceExhausted,
    Invalid(input::Error),
    ResizeAlone,
    SplitAlone,
    KillAlone,
    ZoomAlone,
    SelectAlone,
    SwapAlone,
    SwapSelf,
    ClientSize,
    PasteAlone,
}

/// What the user is told about actions that are not sent.
pub open spec fn interact_text(error: InteractError) -> Seq<char> {
    match error {
        InteractError::BatchSize => "invalid input batch"@,
        InteractError::ReadOnly => "read-only attachment"@,
        InteractError::SequenceExhausted => "input sequence exhausted"@,
        InteractError::Invalid(error) => input::error_text(error),
        InteractError::ResizeAlone => "resize must be a separate transaction"@,
        InteractError::SplitAlone => "split must be a separate transaction"@,
        InteractError::KillAlone => "kill-pane must be a separate transaction"@,
        InteractError::ZoomAlone => "zoom must be a separate transaction"@,
        InteractError::SelectAlone => "select-pane must be a separate transaction"@,
        InteractError::SwapAlone => "swap-pane must be a separate transaction"@,
        InteractError::SwapSelf => "cannot swap a pane with itself"@,
        InteractError::ClientSize => "client size is not a pane transaction"@,
        InteractError::PasteAlone => "paste must be a separate transaction"@,
    }
}

impl InteractError {
    /// What the user is told.
    pub fn to_text(self) -> (r: &'static str)
        ensures
            r@ == interact_text(self),
    {
        match self {
            InteractError::BatchSize => "invalid input batch",
            InteractError::ReadOnly => "read-only attachment",
            InteractError::SequenceExhausted => "input sequence exhausted",
            InteractError::Invalid(error) => error.to_text(),
            InteractError::ResizeAlone => "resize must be a separate transaction",
            InteractError::SplitAlone => "split must be a separate transaction",
            InteractError::KillAlone => "kill-pane must be a separate transaction",
            InteractError::ZoomAlone => "zoom must be a separate transaction",
            InteractError::SelectAlone => "select-pane must be a separate transaction",
            InteractError::SwapAlone => "swap-pane must be a separate transaction",
            InteractError::SwapSelf => "cannot swap a pane with itself",
            InteractError::ClientSize => "client size is not a pane transaction",
            InteractError::PasteAlone => "paste must be a separate transaction",
        }
    }
}

/// The commands that one action comes to. Everything but typing stands alone.
pub open spec fn commands_of(input: Input, pane: PaneId, alone: bool, buffer: Seq<char>) -> Result<
    Seq<Seq<char>>,
    InteractError,
> {
    match input_error(input) {
        Some(error) => Err(InteractError::Invalid(error)),
        None => match input {
            Input::Bytes(bytes) => Ok(seq![command::send_bytes_text(pane, bytes)]),
            Input::Key(key, modifiers) => Ok(
                seq![command::send_key_text(pane, key_name(key, modifiers)->0)],
            ),
            Input::Resize(resize) => if alone {
                Ok(seq![command::resize_text(pane, resize)])
            } else {
                Err(InteractError::ResizeAlone)
            },
            Input::Split(axis) => if alone {
                Ok(seq![command::split_text(pane, axis)])
            } else {
                Err(InteractError::SplitAlone)
            },
            Input::KillPane => if alone {
                Ok(seq![command::pane_command_text("kill-pane"@, pane)])
            } else {
                Err(InteractError::KillAlone)
            },
            Input::ZoomPane => if alone {
                Ok(seq![command::pane_command_text("resize-pane -Z"@, pane)])
            } else {
                Err(InteractError::ZoomAlone)
            },
            Input::SelectPane => if alone {
                Ok(seq![command::pane_command_text("select-pane"@, pane)])
            } else {
                Err(InteractError::SelectAlone)
            },
            Input::SwapPane(other) => if !alone {
                Err(InteractError::SwapAlone)
            } else if other == pane {
                Err(InteractError::SwapSelf)
            } else {
                Ok(seq![command::swap_text(pane, other)])
            },
            Input::ClientSize(_) => Err(InteractError::ClientSize),
            Input::Paste(content) => if alone {
                Ok(command::paste_texts(pane, content, buffer))
            } else {
                Err(InteractError::PasteAlone)
            },
        },
    }
}

/// The commands that actions come to, in order, up to the first that is refused.
pub open spec fn all_commands(
    inputs: Seq<Input>,
    pane: PaneId,
    alone: bool,
    buffer: Seq<char>,
) -> Result<Seq<Seq<char>>, InteractError>
    decreases inputs.len(),
{
    if inputs.len() == 0 {
        Ok(Seq::empty())
    } else {
        match all_commands(inputs.drop_last(), pane, alone, buffer) {
            Err(error) => Err(error),
            Ok(before) => match commands_of(inputs.last(), pane, alone, buffer) {
                Err(error) => Err(error),
                Ok(more) => Ok(before + more),
            },
        }
    }
}

/// Each command followed by a separator.
pub open spec fn separated(commands: Seq<Seq<char>>) -> Seq<char>
    decreases commands.len(),
{
    if commands.len() == 0 {
        Seq::empty()
    } else {
        separated(commands.drop_last()) + commands.last() + " ; "@
    }
}

/// As many commands that print nothing.
pub open spec fn silent(n: nat) -> Seq<char>
    decreases n,
{
    if n == 0 {
        Seq::empty()
    } else {
        silent((n - 1) as nat) + "display-message -p '' ; "@
    }
}

/// The transaction: tmux evaluates the guard immediately before the commands,
/// and either branch gives the same number of replies and ends with a marker.
pub open spec fn transaction_text(target: Target, resizing: bool, commands: Seq<Seq<char>>) -> Seq<
    char,
> {
    "if-shell -F -t "@ + sigiled('%', target.pane.0) + " '"@ + input::all_of(
        input::guard_checks(target, resizing),
    ) + "' { "@ + separated(commands) + "display-message -p STARCOM-APPLIED } { "@ + silent(
        commands.len(),
    ) + "display-message -p STARCOM-BLOCKED }\n"@
}

/// Some action resizes the pane.
pub open spec fn any_resize(inputs: Seq<Input>) -> bool {
    exists|i: int| 0 <= i < inputs.len() && #[trigger] inputs[i] is Resize
}

/// The name of the private buffer of one transaction.
pub open spec fn buffer_name(prefix: Seq<char>, sequence: u64) -> Seq<char> {
    prefix + "-"@ + text::digits(sequence as nat)
}

proof fn lemma_refused_actions(
    inputs: Seq<Input>,
    pane: PaneId,
    alone: bool,
    buffer: Seq<char>,
    n: int,
)
    requires
        0 <= n <= inputs.len(),
        all_commands(inputs.take(n), pane, alone, buffer) is Err,
    ensures
        all_commands(inputs, pane, alone, buffer) == all_commands(
            inputs.take(n),
            pane,
            alone,
            buffer,
        ),
    decreases inputs.len(),
{
    if n < inputs.len() {
        assert(inputs.drop_last().take(n) =~= inputs.take(n));
        lemma_refused_actions(inputs.drop_last(), pane, alone, buffer, n);
    } else {
        assert(inputs.take(n) =~= inputs);
    }
}

fn single(command: String) -> (r: Vec<String>)
    ensures
        text::strings(r@) == seq![command@],
        r@.len() == 1,
{
    let mut r: Vec<String> = Vec::new();
    r.push(command);
    assert(text::strings(r@) =~= seq![command@]);
    r
}

fn action_commands(action: &Action, pane: PaneId, alone: bool, buffer: &str) -> (r: Result<
    Vec<String>,
    InteractError,
>)
    ensures
        match r {
            Ok(commands) => commands_of(action@, pane, alone, buffer@) == Ok::<
                Seq<Seq<char>>,
                InteractError,
            >(text::strings(commands@)),
            Err(error) => commands_of(action@, pane, alone, buffer@) == Err::<
                Seq<Seq<char>>,
                InteractError,
            >(error),
        },
{
    match action.validate() {
        Ok(()) => {},
        Err(error) => return Err(InteractError::Invalid(error)),
    }
    match action {
        Action::Bytes(bytes) => Ok(single(command::send_bytes(pane, bytes))),
        Action::Key(key, modifiers) => match key.name(*modifiers) {
            Ok(name) => Ok(single(command::send_key(pane, name.as_str()))),
            Err(error) => Err(InteractError::Invalid(error)),
        },
        Action::Resize(resize) => if alone {
            Ok(single(command::resize_axis(pane, *resize)))
        } else {
            Err(InteractError::ResizeAlone)
        },
        Action::Split(axis) => if alone {
            Ok(single(command::split_pane(pane, *axis)))
        } else {
            Err(InteractError::SplitAlone)
        },
        Action::KillPane => if alone {
            Ok(single(command::kill_pane(pane)))
        } else {
            Err(InteractError::KillAlone)
        },
        Action::ZoomPane => if alone {
            Ok(single(command::zoom_pane(pane)))
        } else {
            Err(InteractError::ZoomAlone)
        },
        Action::SelectPane => if alone {
            Ok(single(command::select_pane(pane)))
        } else {
            Err(InteractError::SelectAlone)
        },
        Action::SwapPane(other) => if !alone {
            Err(InteractError::SwapAlone)
        } else if *other == pane {
            Err(InteractError::SwapSelf)
        } else {
            Ok(single(command::swap_pane(pane, *other)))
        },
        Action::ClientSize(_) => Err(InteractError::ClientSize),
        Action::Paste(content) => if alone {
            Ok(command::paste(pane, content, buffer))
        } else {
            Err(InteractError::PasteAlone)
        },
    }
}

fn actions_commands(actions: &Vec<Action>, pane: PaneId, buffer: &str) -> (r: Result<
    Vec<String>,
    InteractError,
>)
    ensures
        ({
            let all = all_commands(inputs(actions@), pane, actions@.len() == 1, buffer@);
            match r {
                Ok(commands) => all == Ok::<Seq<Seq<char>>, InteractError>(
                    text::strings(commands@),
                ),
                Err(error) => all == Err::<Seq<Seq<char>>, InteractError>(error),
            }
        }),
{
    let alone: bool = actions.len() == 1;
    let ghost all = inputs(actions@);
    let mut commands: Vec<String> = Vec::new();
    assert(all.take(0) =~= Seq::<Input>::empty());
    assert(text::strings(commands@) =~= Seq::<Seq<char>>::empty());
    for i in 0..actions.len()
        invariant
            alone == (actions@.len() == 1),
            all == inputs(actions@),
            all_commands(all.take(i as int), pane, alone, buffer@) == Ok::<
                Seq<Seq<char>>,
                InteractError,
            >(text::strings(commands@)),
    {
        assert(all.take(i + 1).drop_last() =~= all.take(i as int));
        assert(all.take(i + 1).last() == actions@[i as int]@);
        match action_commands(&actions[i], pane, alone, buffer) {
            Ok(more) => {
                let ghost before = text::strings(commands@);
                let ghost added = text::strings(more@);
                let mut more = more;
                commands.append(&mut more);
                assert(text::strings(commands@) =~= before + added);
            },
            Err(error) => {
                proof {
                    lemma_refused_actions(all, pane, alone, buffer@, i + 1);
                }
                return Err(error);
            },
        }
    }
    assert(all.take(all.len() as int) =~= all);
    Ok(commands)
}

fn has_resize(actions: &Vec<Action>) -> (r: bool)
    ensures
        r == any_resize(inputs(actions@)),
{
    for i in 0..actions.len()
        invariant
            forall|j: int| 0 <= j < i ==> !(inputs(actions@)[j] is Resize),
    {
        assert(inputs(actions@)[i as int] == actions@[i as int]@);
        if let Action::Resize(_) = &actions[i] {
            assert(inputs(actions@)[i as int] is Resize);
            return true;
        }
    }
    false
}

fn transaction(target: Target, resizing: bool, commands: &Vec<String>) -> (r: String)
    ensures
        r@ == transaction_text(target, resizing, text::strings(commands@)),
{
    let ghost all = text::strings(commands@);
    let mut wire = "if-shell -F -t ".to_owned();
    text::push_text(&mut wire, target.pane.to_text().as_str());
    text::push_text(&mut wire, " '");
    text::push_text(&mut wire, target.guard(resizing).as_str());
    text::push_text(&mut wire, "' { ");
    let ghost head = wire@;
    assert(all.take(0) =~= Seq::<Seq<char>>::empty());
    assert(wire@ =~= head + separated(all.take(0)));
    for i in 0..commands.len()
        invariant
            all == text::strings(commands@),
            wire@ == head + separated(all.take(i as int)),
    {
        assert(all.take(i + 1).drop_last() =~= all.take(i as int));
        assert(all.take(i + 1).last() == commands@[i as int]@);
        text::push_text(&mut wire, commands[i].as_str());
        text::push_text(&mut wire, " ; ");
        assert(wire@ =~= head + separated(all.take(i + 1)));
    }
    assert(all.take(all.len() as int) =~= all);
    text::push_text(&mut wire, "display-message -p STARCOM-APPLIED } { ");
    let ghost middle = wire@;
    assert(wire@ =~= middle + silent(0));
    for i in 0..commands.len()
        invariant
            wire@ == middle + silent(i as nat),
    {
        text::push_text(&mut wire, "display-message -p '' ; ");
        assert(wire@ =~= middle + silent((i + 1) as nat));
    }
    text::push_text(&mut wire, "display-message -p STARCOM-BLOCKED }\n");
    wire
}

proof fn lemma_chunk_count(name: Seq<char>, bytes: Seq<u8>, from: nat)
    requires
        from <= bytes.len(),
    ensures
        command::chunk_texts(name, bytes, from).len() <= (bytes.len() - from) / 512 + 1,
    decreases bytes.len() - from,
{
    if from < bytes.len() && bytes.len() - from > command::MAX_CHUNK_BYTES {
        lemma_chunk_count(name, bytes, from + command::MAX_CHUNK_BYTES as nat);
    } else if from < bytes.len() {
        assert(command::chunk_texts(name, bytes, bytes.len()) =~= Seq::<Seq<char>>::empty());
    }
}

proof fn lemma_few_commands(inputs: Seq<Input>, pane: PaneId, buffer: Seq<char>)
    ensures
        all_commands(inputs, pane, false, buffer) is Ok ==> all_commands(
            inputs,
            pane,
            false,
            buffer,
        )->Ok_0.len() == inputs.len(),
    decreases inputs.len(),
{
    if inputs.len() > 0 {
        lemma_few_commands(inputs.drop_last(), pane, buffer);
    }
}

/// Actions never come to more commands than one exchange has room for.
proof fn lemma_command_count(actions: &Vec<Action>, pane: PaneId, buffer: Seq<char>)
    requires
        0 < actions@.len() <= MAX_TRANSACTION_ACTIONS,
        actions@.len() == 1 && actions@[0] is Paste ==> text::byte_len(actions@[0]->Paste_0@)
            <= input::MAX_PASTE_BYTES,
    ensures
        ({
            let all = all_commands(inputs(actions@), pane, actions@.len() == 1, buffer);
            all is Ok ==> all->Ok_0.len() + 2 <= MAX_REPLIES
        }),
{
    let all = inputs(actions@);
    if actions@.len() == 1 {
        assert(all.drop_last() =~= Seq::<Input>::empty());
        assert(all.last() == actions@[0]@);
        assert(all_commands(all.drop_last(), pane, true, buffer) == Ok::<
            Seq<Seq<char>>,
            InteractError,
        >(Seq::empty()));
        if let Input::Paste(content) = all.last() {
            lemma_chunk_count(buffer, vstd::utf8::encode_utf8(content), 0);
        }
    } else {
        lemma_few_commands(all, pane, buffer);
    }
}

/// A transaction to send, and how many replies it brings.
pub struct Transaction {
    pub wire: String,
    pub replies: usize,
}

/// What sending actions comes to.
pub open spec fn interacts(
    before: Inspector,
    target: Target,
    inputs: Seq<Input>,
    r: Result<Transaction, InteractError>,
    after: Inspector,
) -> bool {
    let started = 0 < inputs.len() <= MAX_TRANSACTION_ACTIONS && before.input_buffer_prefix is Some && before.input_sequence < u64::MAX;
    &&& after == (Inspector {
        input_sequence: if started {
            (before.input_sequence + 1) as u64
        } else {
            before.input_sequence
        },
        ..before
    })
    &&& if inputs.len() == 0 || inputs.len() > MAX_TRANSACTION_ACTIONS {
        r == Err::<Transaction, InteractError>(InteractError::BatchSize)
    } else if before.input_buffer_prefix is None {
        r == Err::<Transaction, InteractError>(InteractError::ReadOnly)
    } else if before.input_sequence == u64::MAX {
        r == Err::<Transaction, InteractError>(InteractError::SequenceExhausted)
    } else {
        let all = all_commands(
            inputs,
            target.pane,
            inputs.len() == 1,
            buffer_name(
                before.input_buffer_prefix->0@,
                (before.input_sequence + 1) as u64,
            ),
        );
        match r {
            Ok(transaction) => {
                &&& all is Ok
                &&& passed(before.input_buffer_prefix->0.seen())
                &&& transaction.wire@ == transaction_text(
                    target,
                    any_resize(inputs),
                    all->Ok_0,
                )
                &&& transaction.replies == all->Ok_0.len() + 2
                &&& transaction.replies <= MAX_REPLIES
            },
            Err(error) => all == Err::<Seq<Seq<char>>, InteractError>(error),
        }
    }
}

impl Inspector {
    /// Builds the transaction that sends actions to a pane, which there is none of
    /// before every check for input was passed. Each attempt uses a number of its
    /// own, so no private buffer is ever used twice.
    pub fn interact(&mut self, target: Target, actions: &Vec<Action>) -> (r: Result<
        Transaction,
        InteractError,
    >)
        ensures
            interacts(*old(self), target, inputs(actions@), r, *final(self)),
    {
        if actions.len() == 0 || actions.len() > MAX_TRANSACTION_ACTIONS {
            return Err(InteractError::BatchSize);
        }
        let mut buffer: String = match &self.input_buffer_prefix {
            Some(permit) => permit.prefix().to_owned(),
            None => return Err(InteractError::ReadOnly),
        };
        if self.input_sequence == u64::MAX {
            return Err(InteractError::SequenceExhausted);
        }
        self.input_sequence = self.input_sequence + 1;
        text::push_text(&mut buffer, "-");
        text::push_decimal(&mut buffer, self.input_sequence);
        let commands = match actions_commands(actions, target.pane, buffer.as_str()) {
            Ok(commands) => commands,
            Err(error) => return Err(error),
        };
        if let Action::Paste(content) = &actions[0] {
            let _ = content.as_str();
        }
        proof {
            lemma_command_count(actions, target.pane, buffer@);
        }
        let resizing: bool = has_resize(actions);
        let wire = transaction(target, resizing, &commands);
        Ok(Transaction { wire, replies: commands.len() + 2 })
    }
}

/// What a transaction that failed is reported as, whatever was in it: the text
/// is fixed, and only transport loss stays transport loss.
pub open spec fn opaque_text() -> Seq<char> {
    "interactive request failed; delivery may be uncertain and was not retried"@
}

/// Hides everything about a failed transaction but whether its transport was
/// lost: a server's error may repeat what was typed.
pub fn opaque(error: &Fault) -> (r: Fault)
    ensures
        fault::single_layer(
            r,
            if reconnect::classified(error.layers@) == Failure::Transport {
                Cause::Ssh(ssh::Kind::Transport)
            } else {
                Cause::Message
            },
            opaque_text(),
        ),
{
    if reconnect::classify(error) == Failure::Transport {
        Fault::ssh(
            ssh::Error::transport(
                "interactive request failed; delivery may be uncertain and was not retried",
            ),
        )
    } else {
        Fault::message("interactive request failed; delivery may be uncertain and was not retried")
    }
}

/// Why the replies to a transaction were not understood.
#[derive(Clone, Copy, Debug, PartialEq, Eq, Structural)]
pub enum OutcomeError {
    Missing,
    Invalid,
}

/// What the last reply to a transaction says: whether the actions were applied.
pub open spec fn outcome_of(replies: Seq<Vec<String>>) -> Result<bool, OutcomeError> {
    if replies.len() == 0 {
        Err(OutcomeError::Missing)
    } else if replies.last()@.len() != 1 {
        Err(OutcomeError::Invalid)
    } else if replies.last()@[0]@ == "STARCOM-APPLIED"@ {
        Ok(true)
    } else if replies.last()@[0]@ == "STARCOM-BLOCKED"@ {
        Ok(false)
    } else {
        Err(OutcomeError::Invalid)
    }
}

/// Whether a transaction's actions were applied.
pub fn interaction_outcome(replies: &Vec<Vec<String>>) -> (r: Result<bool, OutcomeError>)
    ensures
        r == outcome_of(replies@),
{
    if replies.len() == 0 {
        return Err(OutcomeError::Missing);
    }
    let last: &Vec<String> = &replies[replies.len() - 1];
    if last.len() != 1 {
        return Err(OutcomeError::Invalid);
    }
    if text::same(last[0].as_str(), "STARCOM-APPLIED") {
        Ok(true)
    } else if text::same(last[0].as_str(), "STARCOM-BLOCKED") {
        Ok(false)
    } else {
        Err(OutcomeError::Invalid)
    }
}

/// The hexadecimal numeral is made of letters and digits.
proof fn lemma_hex_digits_plain(n: nat)
    ensures
        input::plain(hex_digits(n)),
    decreases n,
{
    if n >= 16 {
        lemma_hex_digits_plain(n / 16);
    }
}

proof fn lemma_digits_plain(n: nat)
    ensures
        input::plain(text::digits(n)),
{
    text::lemma_digits(n);
    let d = text::digits(n);
    assert forall|i: int| 0 <= i < d.len() implies input::plain_char(#[trigger] d[i]) by {
        assert(text::is_digit(d[i]));
    }
}

proof fn lemma_plain_is_inert(s: Seq<char>)
    requires
        input::plain(s),
    ensures
        command::inert(s),
{
    assert forall|i: int| 0 <= i < s.len() implies command::inert_char(#[trigger] s[i]) by {
        assert(input::plain_char(s[i]));
    }
}

/// The name of every private buffer is made of letters, digits and hyphens.
pub proof fn a_buffer_name_is_plain(pid: u32, stamp: u128, sequence: u64)
    ensures
        input::plain(buffer_name(buffer_prefix(pid, stamp), sequence)),
{
    reveal_strlit("starcom-");
    reveal_strlit("-");
    lemma_digits_plain(pid as nat);
    lemma_digits_plain(sequence as nat);
    lemma_hex_digits_plain(stamp as nat);
    let a = "starcom-"@ + text::digits(pid as nat);
    let b = a + "-"@;
    let c = b + hex_digits(stamp as nat);
    assert(input::plain(a));
    assert(input::plain(b));
    assert(input::plain(c));
    assert(input::plain(c + "-"@));
}

proof fn lemma_inert_join(a: Seq<char>, b: Seq<char>)
    requires
        command::inert(a),
        command::inert(b),
    ensures
        command::inert(a + b),
{
}

proof fn lemma_pane_inert(pane: PaneId)
    ensures
        command::inert(command::pane_text(pane)),
{
    lemma_digits_plain(pane.0 as nat);
    lemma_plain_is_inert(text::digits(pane.0 as nat));
    lemma_inert_join(seq!['%'], text::digits(pane.0 as nat));
}

/// All of a list of commands are inert.
pub open spec fn all_inert(commands: Seq<Seq<char>>) -> bool {
    forall|i: int| 0 <= i < commands.len() ==> command::inert(#[trigger] commands[i])
}

proof fn lemma_chunks_inert(name: Seq<char>, bytes: Seq<u8>, from: nat)
    requires
        command::inert(name),
    ensures
        all_inert(command::chunk_texts(name, bytes, from)),
    decreases bytes.len() - from,
{
    if from < bytes.len() {
        let to = if bytes.len() - from <= command::MAX_CHUNK_BYTES {
            bytes.len()
        } else {
            from + command::MAX_CHUNK_BYTES as nat
        };
        lemma_chunks_inert(name, bytes, to);
        command::pasted_text_stays_an_argument(
            name,
            from > 0,
            bytes.subrange(from as int, to as int),
        );
        let rest = command::chunk_texts(name, bytes, to);
        let all = command::chunk_texts(name, bytes, from);
        assert forall|i: int| 0 <= i < all.len() implies command::inert(#[trigger] all[i]) by {
            if i > 0 {
                assert(all[i] == rest[i - 1]);
            }
        }
    }
}

proof fn lemma_action_inert(input: Input, pane: PaneId, alone: bool, buffer: Seq<char>)
    requires
        command::inert(buffer),
        commands_of(input, pane, alone, buffer) is Ok,
    ensures
        all_inert(commands_of(input, pane, alone, buffer)->Ok_0),
{
    lemma_pane_inert(pane);
    let p = command::pane_text(pane);
    match input {
        Input::Bytes(bytes) => {
            command::typed_text_stays_an_argument(pane, bytes);
        },
        Input::Key(key, modifiers) => {
            reveal_strlit("send-keys -t ");
            reveal_strlit(" ");
            input::a_key_name_is_plain(key, modifiers);
            lemma_plain_is_inert(key_name(key, modifiers)->0);
            lemma_inert_join("send-keys -t "@, p);
            lemma_inert_join("send-keys -t "@ + p, " "@);
            lemma_inert_join("send-keys -t "@ + p + " "@, key_name(key, modifiers)->0);
        },
        Input::Resize(resize) => {
            reveal_strlit("resize-pane -t ");
            reveal_strlit(" -x ");
            reveal_strlit(" -y ");
            let axis = match resize.axis {
                input::Axis::Columns => " -x "@,
                input::Axis::Rows => " -y "@,
            };
            lemma_digits_plain(resize.cells as nat);
            lemma_plain_is_inert(text::digits(resize.cells as nat));
            lemma_inert_join("resize-pane -t "@, p);
            lemma_inert_join("resize-pane -t "@ + p, axis);
            lemma_inert_join("resize-pane -t "@ + p + axis, text::digits(resize.cells as nat));
        },
        Input::Split(axis) => {
            reveal_strlit("split-window -h -t ");
            reveal_strlit("split-window -v -t ");
            lemma_inert_join("split-window -h -t "@, p);
            lemma_inert_join("split-window -v -t "@, p);
        },
        Input::KillPane => {
            reveal_strlit("kill-pane");
            reveal_strlit(" -t ");
            lemma_inert_join("kill-pane"@, " -t "@);
            lemma_inert_join("kill-pane"@ + " -t "@, p);
        },
        Input::ZoomPane => {
            reveal_strlit("resize-pane -Z");
            reveal_strlit(" -t ");
            lemma_inert_join("resize-pane -Z"@, " -t "@);
            lemma_inert_join("resize-pane -Z"@ + " -t "@, p);
        },
        Input::SelectPane => {
            reveal_strlit("select-pane");
            reveal_strlit(" -t ");
            lemma_inert_join("select-pane"@, " -t "@);
            lemma_inert_join("select-pane"@ + " -t "@, p);
        },
        Input::SwapPane(other) => {
            reveal_strlit("swap-pane -s ");
            reveal_strlit(" -t ");
            lemma_pane_inert(other);
            lemma_inert_join("swap-pane -s "@, p);
            lemma_inert_join("swap-pane -s "@ + p, " -t "@);
            lemma_inert_join("swap-pane -s "@ + p + " -t "@, command::pane_text(other));
        },
        Input::ClientSize(_) => {},
        Input::Paste(content) => {
            reveal_strlit("paste-buffer -d -p -b ");
            reveal_strlit(" -t ");
            lemma_chunks_inert(buffer, vstd::utf8::encode_utf8(content), 0);
            lemma_inert_join("paste-buffer -d -p -b "@, buffer);
            lemma_inert_join("paste-buffer -d -p -b "@ + buffer, " -t "@);
            lemma_inert_join("paste-buffer -d -p -b "@ + buffer + " -t "@, p);
        },
    }
}

/// Nothing that the user types, pastes or asks for can leave its place: whatever
/// the actions are, none of the commands they come to holds a line end, a
/// command separator, a quote or a brace, so each stays one command inside the
/// guarded branch.
pub proof fn input_never_becomes_syntax(
    inputs: Seq<Input>,
    pane: PaneId,
    alone: bool,
    buffer: Seq<char>,
)
    requires
        command::inert(buffer),
    ensures
        all_commands(inputs, pane, alone, buffer) is Ok ==> all_inert(
            all_commands(inputs, pane, alone, buffer)->Ok_0,
        ),
    decreases inputs.len(),
{
    if inputs.len() > 0 && all_commands(inputs, pane, alone, buffer) is Ok {
        input_never_becomes_syntax(inputs.drop_last(), pane, alone, buffer);
        lemma_action_inert(inputs.last(), pane, alone, buffer);
        let before = all_commands(inputs.drop_last(), pane, alone, buffer)->Ok_0;
        let more = commands_of(inputs.last(), pane, alone, buffer)->Ok_0;
        let all = all_commands(inputs, pane, alone, buffer)->Ok_0;
        assert forall|i: int| 0 <= i < all.len() implies command::inert(#[trigger] all[i]) by {
            if i < before.len() {
                assert(all[i] == before[i]);
            } else {
                assert(all[i] == more[i - before.len()]);
            }
        }
    }
}

/// Nowhere among the first `n` characters does `b` follow `a`.
spec fn never_follows(s: Seq<char>, a: char, b: char, n: nat) -> bool
    decreases n,
{
    n < 2 || (!(s[n - 2] == a && s[n - 1] == b) && never_follows(s, a, b, (n - 1) as nat))
}

proof fn lemma_never_follows(s: Seq<char>, a: char, b: char, n: nat, i: int)
    requires
        n <= s.len(),
        never_follows(s, a, b, n),
        0 <= i,
        i + 1 < n,
    ensures
        !(s[i] == a && s[i + 1] == b),
    decreases n,
{
    if i + 2 < n {
        lemma_never_follows(s, a, b, (n - 1) as nat, i);
    }
}

/// A text in which `b` never follows `a` holds no text in which it does.
proof fn lemma_absent(s: Seq<char>, part: Seq<char>, a: char, b: char, at: int)
    requires
        never_follows(s, a, b, s.len()),
        0 <= at,
        at + 1 < part.len(),
        part[at] == a,
        part[at + 1] == b,
    ensures
        !text::contains(s, part),
{
    assert forall|i: int| !text::occurs_at(s, part, i) by {
        if text::occurs_at(s, part, i) {
            assert(s.subrange(i, i + part.len())[at] == part[at]);
            assert(s.subrange(i, i + part.len())[at + 1] == part[at + 1]);
            lemma_never_follows(s, a, b, s.len(), i + at);
        }
    }
}

proof fn lemma_opaque_is_small_letters()
    ensures
        opaque_text().len() == 73,
        text::lowered(opaque_text()) == opaque_text(),
{
    reveal_strlit("interactive request failed; delivery may be uncertain and was not retried");
    assert(text::lowered(opaque_text()) =~= opaque_text());
}

proof fn lemma_opaque_without_se()
    ensures
        never_follows(opaque_text(), 's', 'e', 73),
{
    reveal_strlit("interactive request failed; delivery may be uncertain and was not retried");
    reveal_with_fuel(never_follows, 75);
}

proof fn lemma_opaque_without_rr()
    ensures
        never_follows(opaque_text(), 'r', 'r', 73),
{
    reveal_strlit("interactive request failed; delivery may be uncertain and was not retried");
    reveal_with_fuel(never_follows, 75);
}

proof fn lemma_opaque_says_nothing()
    ensures
        reconnect::refusal(text::lowered(opaque_text())) is None,
{
    let s = opaque_text();
    lemma_opaque_is_small_letters();
    lemma_opaque_without_se();
    lemma_opaque_without_rr();
    reveal_strlit("can't find session");
    reveal_strlit("session not found");
    reveal_strlit("no such session");
    reveal_strlit("could not attach that session");
    reveal_strlit("no server running");
    reveal_strlit("server exited");
    reveal_strlit("error connecting to");
    lemma_absent(s, "can't find session"@, 's', 'e', 11);
    lemma_absent(s, "session not found"@, 's', 'e', 0);
    lemma_absent(s, "no such session"@, 's', 'e', 8);
    lemma_absent(s, "could not attach that session"@, 's', 'e', 22);
    lemma_absent(s, "no server running"@, 's', 'e', 3);
    lemma_absent(s, "server exited"@, 's', 'e', 0);
    lemma_absent(s, "error connecting to"@, 'r', 'r', 1);
}

/// Hiding a failed transaction keeps the one thing that matters for a retry: it
/// is transport loss afterwards exactly if it was before.
pub proof fn hiding_a_failure_keeps_its_class(error: Fault, hidden: Fault)
    requires
        fault::single_layer(
            hidden,
            if reconnect::classified(error.layers@) == Failure::Transport {
                Cause::Ssh(ssh::Kind::Transport)
            } else {
                Cause::Message
            },
            opaque_text(),
        ),
    ensures
        reconnect::classified(hidden.layers@) == (if reconnect::classified(error.layers@)
            == Failure::Transport {
            Failure::Transport
        } else {
            Failure::Protocol
        }),
{
    lemma_opaque_says_nothing();
    assert(reconnect::typed(hidden.layers@.skip(1)) is None);
}

/// Each command that transactions and snapshots are made of is watched over for aliases
/// and hooks, and no other.
pub proof fn every_command_of_a_transaction_is_watched_over(name: Seq<char>)
    ensures
        interactive_command("send-keys"@),
        interactive_command("set-buffer"@),
        interactive_command("paste-buffer"@),
        interactive_command("resize-pane"@),
        interactive_command("split-window"@),
        interactive_command("kill-pane"@),
        interactive_command("select-pane"@),
        interactive_command("swap-pane"@),
        interactive_command("rename-session"@),
        interactive_command("if-shell"@),
        interactive_command("display-message"@),
        interactive_command(name) ==> name == "send-keys"@ || name == "set-buffer"@ || name
            == "paste-buffer"@ || name == "resize-pane"@ || name == "split-window"@ || name
            == "kill-pane"@ || name == "select-pane"@ || name == "swap-pane"@ || name
            == "rename-session"@ || name == "if-shell"@ || name == "display-message"@,
{
}

/// An alias is what stands before the first equals sign; a line without one is none.
pub proof fn an_alias_is_what_stands_before_the_equals_sign(name: Seq<char>, value: Seq<char>)
    requires
        !name.contains('='),
    ensures
        alias_name(name + seq!['='] + value) == name,
        alias_name(name) == Seq::<char>::empty(),
{
    tmux::lemma_split_join(name, value, '=');
    tmux::lemma_split_one(name, '=');
    text::lemma_split_first(value, '=');
}

/// A hook is a danger if it runs after a command of a transaction and anything is
/// configured for it.
pub proof fn a_configured_hook_after_a_command_blocks(line: Seq<char>, command: Seq<char>)
    requires
        hook_name(line) == "after-"@ + command,
    ensures
        interactive_command(command) && line != "after-"@ + command ==> blocking_hook(line),
        line == "after-"@ + command ==> !blocking_hook(line),
        !interactive_command(command) ==> !blocking_hook(line),
{
    let name = hook_name(line);
    let n = "after-"@.len() as int;
    assert(name.skip(n) =~= command);
    assert(name.subrange(0, n) =~= "after-"@);
}

/// A client types only if it is a control client that may write, whose size counts and
/// that holds no terminal of its own; then its process number is what was said.
pub proof fn which_client_may_type(
    line: Seq<char>,
    control: Seq<char>,
    readonly: Seq<char>,
    flags: Seq<char>,
    tty: Seq<char>,
    pid: Seq<char>,
)
    requires
        text::split(line, '|') == seq![control, readonly, flags, tty, pid],
    ensures
        client_pid(line) is Ok <==> control == "1"@ && readonly == "0"@ && !has_flag(
            flags,
            "ignore-size"@,
        ) && tty.len() == 0 && text::number_within(pid, 0xffff_ffff) is Some,
        client_pid(line) is Ok ==> text::number_within(pid, 0xffff_ffff) == Some(
            client_pid(line)->Ok_0 as nat,
        ),
        control != "1"@ ==> client_pid(line) == Err::<u32, EnableError>(
            EnableError::NotControlMode,
        ),
        control == "1"@ && readonly != "0"@ ==> client_pid(line) == Err::<u32, EnableError>(
            EnableError::ReadOnly,
        ),
        control == "1"@ && readonly == "0"@ && has_flag(flags, "ignore-size"@) ==> client_pid(line)
            == Err::<u32, EnableError>(EnableError::IgnoresSize),
{
}

/// The hooks that could run inside a transaction are all asked for: the global ones,
/// those of the session, of each window and of each pane.
pub proof fn every_hook_is_asked_for(session: SessionId, windows: Seq<u32>, panes: Seq<u32>, i: int)
    ensures
        ({
            let all = hook_query_texts(session, windows, panes);
            &&& all.len() == 3 + windows.len() + panes.len()
            &&& all[0] == "show-hooks -g"@
            &&& all[1] == "show-hooks -gw"@
            &&& all[2] == "show-hooks -t '"@ + (seq!['$'] + text::digits(session.0 as nat)) + "'"@
            &&& 0 <= i < windows.len() ==> all[3 + i] == "show-hooks -w -t "@ + (seq!['@']
                + text::digits(windows[i] as nat))
            &&& 0 <= i < panes.len() ==> all[3 + windows.len() + i] == "show-hooks -p -t "@ + (seq![
                '%',
            ] + text::digits(panes[i] as nat))
        }),
{
}

/// The number that a hexadecimal numeral denotes.
pub open spec fn hex_number(s: Seq<char>) -> nat
    decreases s.len(),
{
    if s.len() == 0 {
        0
    } else {
        16 * hex_number(s.drop_last()) + match tmux::hex_value(s.last()) {
            Some(d) => d,
            None => 0,
        }
    }
}

/// A hexadecimal numeral reads back as its number, so numerals of different numbers
/// differ.
pub proof fn a_hexadecimal_numeral_reads_back(n: nat)
    ensures
        hex_number(hex_digits(n)) == n,
    decreases n,
{
    if n < 16 {
        let s = hex_digits(n);
        assert(s.drop_last() =~= Seq::<char>::empty());
        assert(hex_number(s.drop_last()) == 0);
        assert(tmux::hex_value(command::hex_digit(n)) == Some(n));
    } else {
        a_hexadecimal_numeral_reads_back(n / 16);
        let s = hex_digits(n);
        assert(s.drop_last() =~= hex_digits(n / 16));
        assert(n % 16 < 16);
        assert(tmux::hex_value(command::hex_digit(n % 16)) == Some(n % 16));
    }
}

/// Two transactions of one attachment never use the same private buffer.
pub proof fn no_buffer_is_used_twice(prefix: Seq<char>, a: u64, b: u64)
    requires
        a != b,
    ensures
        buffer_name(prefix, a) != buffer_name(prefix, b),
{
    let n = (prefix + "-"@).len() as int;
    text::a_rendered_number_reads_back(a as nat);
    text::a_rendered_number_reads_back(b as nat);
    assert(buffer_name(prefix, a).skip(n) =~= text::digits(a as nat));
    assert(buffer_name(prefix, b).skip(n) =~= text::digits(b as nat));
}

/// Whatever is no typing is refused beside other actions, each under its own name.
pub proof fn only_typing_shares(
    pane: PaneId,
    buffer: Seq<char>,
    axis: input::Axis,
    other: PaneId,
    content: Seq<char>,
    resize: input::Resize,
)
    ensures
        commands_of(Input::Split(axis), pane, false, buffer) == Err::<
            Seq<Seq<char>>,
            InteractError,
        >(InteractError::SplitAlone),
        commands_of(Input::KillPane, pane, false, buffer) == Err::<Seq<Seq<char>>, InteractError>(
            InteractError::KillAlone,
        ),
        commands_of(Input::ZoomPane, pane, false, buffer) == Err::<Seq<Seq<char>>, InteractError>(
            InteractError::ZoomAlone,
        ),
        commands_of(Input::SelectPane, pane, false, buffer) == Err::<Seq<Seq<char>>, InteractError>(
            InteractError::SelectAlone,
        ),
        commands_of(Input::SwapPane(other), pane, false, buffer) == Err::<
            Seq<Seq<char>>,
            InteractError,
        >(InteractError::SwapAlone),
        commands_of(Input::Paste(content), pane, false, buffer) == Err::<
            Seq<Seq<char>>,
            InteractError,
        >(InteractError::PasteAlone),
        1 <= resize.cells <= 4096 ==> commands_of(Input::Resize(resize), pane, false, buffer)
            == Err::<Seq<Seq<char>>, InteractError>(InteractError::ResizeAlone),
{
}

/// An action that no pane could take is refused with its reason, a pane is not swapped
/// with itself, and the size of the client is no matter of a pane.
pub proof fn what_a_pane_cannot_take_is_refused(
    input: Input,
    pane: PaneId,
    alone: bool,
    buffer: Seq<char>,
    size: crate::model::Size,
)
    ensures
        input_error(input) is Some ==> commands_of(input, pane, alone, buffer) == Err::<
            Seq<Seq<char>>,
            InteractError,
        >(InteractError::Invalid(input_error(input)->0)),
        commands_of(Input::SwapPane(pane), pane, true, buffer) == Err::<
            Seq<Seq<char>>,
            InteractError,
        >(InteractError::SwapSelf),
        commands_of(Input::ClientSize(size), pane, alone, buffer) == Err::<
            Seq<Seq<char>>,
            InteractError,
        >(InteractError::ClientSize),
{
}

/// Typed bytes come to one command, by which tmux types exactly these bytes into the
/// pane; a key to one by which tmux presses the key of its name there.
pub proof fn typing_comes_to_one_command(
    pane: PaneId,
    alone: bool,
    buffer: Seq<char>,
    bytes: Seq<u8>,
    key: input::Key,
    modifiers: input::Modifiers,
)
    ensures
        1 <= bytes.len() <= 1024 ==> ({
            let commands = commands_of(Input::Bytes(bytes), pane, alone, buffer)->Ok_0;
            let read = tmux::arguments(commands[0]);
            &&& commands_of(Input::Bytes(bytes), pane, alone, buffer) is Ok
            &&& commands.len() == 1
            &&& read.len() == 4 + bytes.len()
            &&& read[0] == "send-keys"@ && read[1] == "-t"@ && read[3] == "-H"@
            &&& read[2] == seq!['%'] + text::digits(pane.0 as nat)
            &&& tmux::hex_all_read(read.skip(4), bytes)
        }),
        key_name(key, modifiers) is Some ==> ({
            let commands = commands_of(Input::Key(key, modifiers), pane, alone, buffer)->Ok_0;
            &&& commands_of(Input::Key(key, modifiers), pane, alone, buffer) is Ok
            &&& commands.len() == 1
            &&& tmux::arguments(commands[0]) == seq![
                "send-keys"@,
                "-t"@,
                seq!['%'] + text::digits(pane.0 as nat),
                key_name(key, modifiers)->0,
            ]
        }),
{
    tmux::tmux_types_the_bytes(pane, bytes);
    if key_name(key, modifiers) is Some {
        input::a_key_name_is_plain(key, modifiers);
        let name = key_name(key, modifiers)->0;
        assert forall|i: int| 0 <= i < name.len() implies name[i] != ' ' by {
            assert(input::plain_char(name[i]));
        }
        tmux::tmux_presses_the_key(pane, name);
    }
}

/// What is asked of a pane comes to the one command that does it there.
pub proof fn asking_comes_to_one_command(
    pane: PaneId,
    other: PaneId,
    buffer: Seq<char>,
    cells: usize,
)
    requires
        1 <= cells <= 4096,
        other != pane,
    ensures
        ({
            let target = seq!['%'] + text::digits(pane.0 as nat);
            let asked = |input: Input| commands_of(input, pane, true, buffer);
            let comes_to = |input: Input, read: Seq<Seq<char>>|
                asked(input) is Ok && asked(input)->Ok_0.len() == 1 && tmux::arguments(
                    asked(input)->Ok_0[0],
                ) == read;
            &&& comes_to(
                Input::Split(input::Axis::Columns),
                seq!["split-window"@, "-h"@, "-t"@, target],
            )
            &&& comes_to(
                Input::Split(input::Axis::Rows),
                seq!["split-window"@, "-v"@, "-t"@, target],
            )
            &&& comes_to(Input::KillPane, seq!["kill-pane"@, "-t"@, target])
            &&& comes_to(Input::ZoomPane, seq!["resize-pane"@, "-Z"@, "-t"@, target])
            &&& comes_to(Input::SelectPane, seq!["select-pane"@, "-t"@, target])
            &&& comes_to(
                Input::SwapPane(other),
                seq!["swap-pane"@, "-s"@, target, "-t"@, seq!['%'] + text::digits(other.0 as nat)],
            )
            &&& comes_to(
                Input::Resize(input::Resize { axis: input::Axis::Columns, cells }),
                seq!["resize-pane"@, "-t"@, target, "-x"@, text::digits(cells as nat)],
            )
            &&& comes_to(
                Input::Resize(input::Resize { axis: input::Axis::Rows, cells }),
                seq!["resize-pane"@, "-t"@, target, "-y"@, text::digits(cells as nat)],
            )
        }),
{
    let target = seq!['%'] + text::digits(pane.0 as nat);
    tmux::tmux_splits_the_way_that_was_asked(pane);
    tmux::tmux_resizes_the_side_that_was_asked(pane, cells);
    tmux::tmux_is_told_which_panes("kill-pane"@, pane, other);
    tmux::tmux_is_told_which_panes("select-pane"@, pane, other);
    tmux::tmux_is_told_which_panes("resize-pane -Z"@, pane, other);
    reveal_strlit("kill-pane");
    reveal_strlit("select-pane");
    reveal_strlit("resize-pane -Z");
    reveal_strlit("resize-pane");
    reveal_strlit("-Z");
    tmux::lemma_split_one("kill-pane"@, ' ');
    tmux::lemma_split_one("select-pane"@, ' ');
    tmux::lemma_split_one("resize-pane"@, ' ');
    tmux::lemma_split_one("-Z"@, ' ');
    tmux::lemma_split_join("resize-pane"@, "-Z"@, ' ');
    assert("resize-pane -Z"@ =~= "resize-pane"@ + seq![' '] + "-Z"@);
    assert(seq!["kill-pane"@] + seq!["-t"@, target] =~= seq!["kill-pane"@, "-t"@, target]);
    assert(seq!["select-pane"@] + seq!["-t"@, target] =~= seq!["select-pane"@, "-t"@, target]);
    assert(seq!["resize-pane"@] + seq!["-Z"@] + seq!["-t"@, target] =~= seq![
        "resize-pane"@,
        "-Z"@,
        "-t"@,
        target,
    ]);
}

/// A paste of any length comes to commands that fill the transaction's private buffer
/// with exactly its bytes, whatever it held, and then paste that buffer into the pane.
pub proof fn a_paste_arrives_whole_and_once(
    pane: PaneId,
    content: Seq<char>,
    buffer: Seq<char>,
    held: Seq<nat>,
)
    requires
        !buffer.contains(' '),
        vstd::utf8::encode_utf8(content).len() > 0,
    ensures
        ({
            let asked = commands_of(Input::Paste(content), pane, true, buffer);
            let commands = asked->Ok_0;
            &&& asked is Ok
            &&& commands.len() > 1
            &&& tmux::buffer_after_all(buffer, held, commands.drop_last()) == Some(
                tmux::numbers(vstd::utf8::encode_utf8(content)),
            )
            &&& tmux::arguments(commands.last()) == seq![
                "paste-buffer"@,
                "-d"@,
                "-p"@,
                "-b"@,
                buffer,
                "-t"@,
                seq!['%'] + text::digits(pane.0 as nat),
            ]
        }),
{
    tmux::tmux_pastes_the_whole_text(pane, content, buffer, held);
}

/// Actions come to their commands one after the other, in order, and one that is
/// refused refuses them all.
pub proof fn actions_keep_their_order(
    a: Seq<Input>,
    input: Input,
    pane: PaneId,
    alone: bool,
    buffer: Seq<char>,
)
    ensures
        all_commands(Seq::empty(), pane, alone, buffer) == Ok::<Seq<Seq<char>>, InteractError>(
            Seq::empty(),
        ),
        ({
            let before = all_commands(a, pane, alone, buffer);
            let more = commands_of(input, pane, alone, buffer);
            let after = all_commands(a.push(input), pane, alone, buffer);
            &&& before is Ok && more is Ok ==> after is Ok && after->Ok_0 == before->Ok_0
                + more->Ok_0
            &&& before is Err ==> after == before
            &&& before is Ok && more is Err ==> after is Err && after->Err_0 == more->Err_0
        }),
{
    assert(a.push(input).drop_last() =~= a);
}

/// In a transaction each command is followed by a separator, in order, and the branch
/// that is taken where the guard fails has as many commands, all of them silent.
pub proof fn commands_are_separated(commands: Seq<Seq<char>>, command: Seq<char>, n: nat)
    ensures
        separated(Seq::empty()) == Seq::<char>::empty(),
        separated(commands.push(command)) == separated(commands) + command + seq![' ', ';', ' '],
        silent(0) == Seq::<char>::empty(),
        silent(n + 1) == silent(n) + "display-message -p '' ; "@,
{
    reveal_strlit(" ; ");
    assert(" ; "@ =~= seq![' ', ';', ' ']);
    assert(commands.push(command).drop_last() =~= commands);
}

/// A transaction is one line: tmux evaluates the guard for the pane, runs the commands
/// and says that they were applied if it holds, and otherwise runs as many silent
/// commands and says that they were blocked.
pub proof fn a_transaction_is_guarded(target: Target, resizing: bool, commands: Seq<Seq<char>>)
    ensures
        transaction_text(target, resizing, commands) == "if-shell -F -t %"@ + text::digits(
            target.pane.0 as nat,
        ) + " '"@ + input::all_of(input::guard_checks(target, resizing)) + "' { "@ + separated(
            commands,
        ) + "display-message -p STARCOM-APPLIED } { "@ + silent(commands.len())
            + "display-message -p STARCOM-BLOCKED }\n"@,
{
    reveal_strlit("if-shell -F -t ");
    reveal_strlit("if-shell -F -t %");
    assert("if-shell -F -t "@ + sigiled('%', target.pane.0) =~= "if-shell -F -t %"@ + text::digits(
        target.pane.0 as nat,
    ));
}

/// Actions resize if one of them does.
pub proof fn one_resize_resizes(a: Seq<Input>, input: Input)
    ensures
        !any_resize(Seq::empty()),
        any_resize(a.push(input)) <==> any_resize(a) || input is Resize,
{
    let b = a.push(input);
    if any_resize(a) {
        let i = choose|i: int| 0 <= i < a.len() && #[trigger] a[i] is Resize;
        assert(b[i] is Resize);
    }
    if input is Resize {
        assert(b[a.len() as int] is Resize);
    }
    if any_resize(b) {
        let i = choose|i: int| 0 <= i < b.len() && #[trigger] b[i] is Resize;
        if i < a.len() {
            assert(a[i] is Resize);
        }
    }
}

/// The last reply alone says whether actions were applied: the one marker says yes,
/// the other no, and anything else is no answer.
pub proof fn the_marker_says_what_happened(replies: Seq<Vec<String>>)
    ensures
        replies.len() == 0 ==> outcome_of(replies) == Err::<bool, OutcomeError>(
            OutcomeError::Missing,
        ),
        replies.len() > 0 && replies.last()@.len() == 1 && replies.last()@[0]@
            == "STARCOM-APPLIED"@ ==> outcome_of(replies) == Ok::<bool, OutcomeError>(true),
        replies.len() > 0 && replies.last()@.len() == 1 && replies.last()@[0]@
            == "STARCOM-BLOCKED"@ ==> outcome_of(replies) == Ok::<bool, OutcomeError>(false),
        replies.len() > 0 && (replies.last()@.len() != 1 || (replies.last()@[0]@
            != "STARCOM-APPLIED"@ && replies.last()@[0]@ != "STARCOM-BLOCKED"@)) ==> outcome_of(
            replies,
        ) == Err::<bool, OutcomeError>(OutcomeError::Invalid),
{
    reveal_strlit("STARCOM-APPLIED");
    reveal_strlit("STARCOM-BLOCKED");
    assert("STARCOM-APPLIED"@[8] == 'A');
    assert("STARCOM-BLOCKED"@[8] == 'B');
}

/// Actions are sent only by an attachment for which every check before input was passed,
/// from one to thirty-two of them at a time.
pub proof fn when_actions_are_sent(
    before: Inspector,
    target: Target,
    inputs: Seq<Input>,
    r: Result<Transaction, InteractError>,
    after: Inspector,
)
    requires
        interacts(before, target, inputs, r, after),
    ensures
        r is Ok ==> before.input_buffer_prefix is Some && passed(
            before.input_buffer_prefix->0.seen(),
        ) && 1 <= inputs.len() <= 32,
        inputs.len() == 0 || inputs.len() > 32 ==> r == Err::<Transaction, InteractError>(
            InteractError::BatchSize,
        ),
        1 <= inputs.len() <= 32 && before.input_buffer_prefix is None ==> r == Err::<
            Transaction,
            InteractError,
        >(InteractError::ReadOnly),
        after.answered == before.answered && after.stderr == before.stderr
            && after.input_buffer_prefix == before.input_buffer_prefix,
{
}

/// Each transaction has a number of its own, so that its private buffer was never used
/// before; it guards exactly the pane that was meant, and a reply comes for the guard,
/// for each command and for the marker.
pub proof fn a_transaction_has_its_own_number(
    before: Inspector,
    target: Target,
    inputs: Seq<Input>,
    r: Result<Transaction, InteractError>,
    after: Inspector,
)
    requires
        interacts(before, target, inputs, r, after),
        r is Ok,
    ensures
        after.input_sequence == before.input_sequence + 1,
        ({
            let buffer = buffer_name(before.input_buffer_prefix->0@, after.input_sequence);
            let commands = all_commands(inputs, target.pane, inputs.len() == 1, buffer);
            &&& commands is Ok
            &&& r->Ok_0.wire@ == transaction_text(target, any_resize(inputs), commands->Ok_0)
            &&& r->Ok_0.replies == commands->Ok_0.len() + 2
        }),
{
}

/// What the user is told of actions that were not sent.
pub proof fn what_is_told_of_actions_that_were_not_sent(error: input::Error)
    ensures
        interact_text(InteractError::BatchSize) == "invalid input batch"@,
        interact_text(InteractError::ReadOnly) == "read-only attachment"@,
        interact_text(InteractError::SequenceExhausted) == "input sequence exhausted"@,
        interact_text(InteractError::Invalid(error)) == input::error_text(error),
        interact_text(InteractError::ResizeAlone) == "resize must be a separate transaction"@,
        interact_text(InteractError::SplitAlone) == "split must be a separate transaction"@,
        interact_text(InteractError::KillAlone) == "kill-pane must be a separate transaction"@,
        interact_text(InteractError::ZoomAlone) == "zoom must be a separate transaction"@,
        interact_text(InteractError::SelectAlone) == "select-pane must be a separate transaction"@,
        interact_text(InteractError::SwapAlone) == "swap-pane must be a separate transaction"@,
        interact_text(InteractError::SwapSelf) == "cannot swap a pane with itself"@,
        interact_text(InteractError::ClientSize) == "client size is not a pane transaction"@,
        interact_text(InteractError::PasteAlone) == "paste must be a separate transaction"@,
{
}

/// Input is enabled only where no line overrides a command of a transaction, no answer
/// configures a hook that would run inside one, and tmux lets the client type.
pub proof fn input_is_enabled_only_where_it_is_safe(e: Evidence, i: int, j: int)
    requires
        passed(e),
    ensures
        e.aliases.len() == 1,
        0 <= i < e.aliases[0]@.len() ==> !interactive_command(alias_name(e.aliases[0]@[i]@)),
        0 <= i < e.hooks.len() && 0 <= j < e.hooks[i]@.len() ==> !blocking_hook(
            e.hooks[i]@[j]@,
        ),
        e.client.len() == 1 && e.client[0]@.len() == 1 && client_pid(e.client[0]@[0]@) is Ok,
{
    if 0 <= i < e.hooks.len() && 0 <= j < e.hooks[i]@.len() {
        assert(!any_blocking_hook(e.hooks[i]@));
    }
}

/// Every pane and every window of the session is asked about, and none of another one.
pub proof fn every_pane_and_window_is_asked_about(
    view: SessionView,
    queries: Seq<Seq<char>>,
    i: int,
)
    requires
        asks_for_hooks(view, queries),
        0 <= i < view.panes@.len(),
    ensures
        queries.contains(
            "show-hooks -p -t "@ + (seq!['%'] + text::digits(view.panes@[i].id.0 as nat)),
        ),
        queries.contains(
            "show-hooks -w -t "@ + (seq!['@'] + text::digits(view.panes@[i].window.0 as nat)),
        ),
        queries.contains("show-hooks -g"@) && queries.contains("show-hooks -gw"@),
        queries.contains(
            "show-hooks -t '"@ + (seq!['$'] + text::digits(view.session.0 as nat)) + "'"@,
        ),
{
    let (windows, panes) = choose|windows: Seq<u32>, panes: Seq<u32>|
        strictly_ascending(windows) && same_numbers(windows, windows_of(view.panes@))
            && strictly_ascending(panes) && same_numbers(panes, numbers_of(view.panes@))
            && queries == #[trigger] hook_query_texts(view.session, windows, panes);
    let id = view.panes@[i].id.0;
    let window = view.panes@[i].window.0;
    assert(numbers_of(view.panes@)[i] == id);
    assert(numbers_of(view.panes@).contains(id));
    assert(panes.contains(id));
    let j = choose|j: int| 0 <= j < panes.len() && panes[j] == id;
    assert(windows_of(view.panes@)[i] == window);
    assert(windows_of(view.panes@).contains(window));
    assert(windows.contains(window));
    let k = choose|k: int| 0 <= k < windows.len() && windows[k] == window;
    every_hook_is_asked_for(view.session, windows, panes, j);
    every_hook_is_asked_for(view.session, windows, panes, k);
    assert(queries.contains(queries[0]));
    assert(queries.contains(queries[1]));
    assert(queries.contains(queries[2]));
    assert(queries.contains(queries[3 + k]));
    assert(queries.contains(queries[3 + windows.len() + j]));
}

/// The answer about the client is one line.
pub proof fn the_client_answers_in_one_line(lines: Seq<String>)
    ensures
        lines.len() != 1 ==> client_reply(lines) == Err::<u32, EnableError>(EnableError::Metadata),
        lines.len() == 1 ==> client_reply(lines) == client_pid(lines[0]@),
{
}

/// A private buffer's name tells the program, the client's process and the time apart.
pub proof fn how_a_private_buffer_is_named(pid: u32, stamp: u128, sequence: u64)
    ensures
        buffer_name(buffer_prefix(pid, stamp), sequence) == "starcom-"@ + text::digits(pid as nat)
            + seq!['-'] + hex_digits(stamp as nat) + seq!['-'] + text::digits(sequence as nat),
{
    reveal_strlit("-");
    assert("-"@ =~= seq!['-']);
}

/// One line that overrides a command is enough to refuse, and so is one that configures a
/// hook.
pub proof fn one_line_is_enough_to_refuse(lines: Seq<String>, line: String)
    ensures
        !any_override(Seq::empty()),
        any_override(lines.push(line)) <==> any_override(lines) || interactive_command(
            alias_name(line@),
        ),
        !any_blocking_hook(Seq::empty()),
        any_blocking_hook(lines.push(line)) <==> any_blocking_hook(lines) || blocking_hook(line@),
{
    let more = lines.push(line);
    assert(more[lines.len() as int] == line);
    assert(forall|i: int| 0 <= i < lines.len() ==> more[i] == lines[i]);
    if any_override(lines) {
        let i = choose|i: int|
            0 <= i < lines.len() && interactive_command(alias_name(#[trigger] lines[i]@));
        assert(interactive_command(alias_name(more[i]@)));
    }
    if any_override(more) {
        let i = choose|i: int|
            0 <= i < more.len() && interactive_command(alias_name(#[trigger] more[i]@));
        if i < lines.len() {
            assert(interactive_command(alias_name(lines[i]@)));
        }
    }
    if any_blocking_hook(lines) {
        let i = choose|i: int| 0 <= i < lines.len() && blocking_hook(#[trigger] lines[i]@);
        assert(blocking_hook(more[i]@));
    }
    if any_blocking_hook(more) {
        let i = choose|i: int| 0 <= i < more.len() && blocking_hook(#[trigger] more[i]@);
        if i < lines.len() {
            assert(blocking_hook(lines[i]@));
        }
    }
}

} // verus!
