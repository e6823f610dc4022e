//! One engine session: a descriptor, the options discovered at the
//! handshake, the accumulated analysis, and the queue of commands on
//! their way to the process.
//!
//! The session is a state machine over plain values. Blocking process
//! I/O stays with the embedding host: the host validates the file-system
//! facts, spawns and tears the process down, feeds lines it read into
//! [`Engine::poll_engine`], and drains [`Engine::take_outbox`] into the
//! process's command queue after every call that issues commands.

use vstd::prelude::*;

use crate::protocol::{
    spec_parse_analysis, spec_position_fen_command, spec_setoption_command, position_fen_command,
    setoption_command, AnalysisLine, EngineOption, SpecAnalysisLine, SpecEngineOption,
};
use crate::text::{last_index_of, rfind_char, str_eq};

verus! {

/// Why a session could not be constructed against a path: the path does
/// not exist, is not a regular file, does not look executable, or the
/// operating system refused to spawn it.
#[derive(Clone, Copy, Debug, PartialEq, Eq, Structural)]
pub enum SpawnError {
    PathMissing,
    PathNotFile,
    NoExtension,
    NotExecutable,
    SpawnFailed,
}

/// The file-name part of a path: everything after the last separator.
pub open spec fn spec_file_name(path: Seq<char>) -> Seq<char> {
    match last_index_of(path, '/') {
        Some(k) => path.subrange(k + 1, path.len() as int),
        None => path,
    }
}

/// The extension of a path's file name: what follows the last dot, where
/// a leading dot (a hidden file) or no dot at all means there is none.
pub open spec fn spec_extension(path: Seq<char>) -> Option<Seq<char>> {
    let name = spec_file_name(path);
    match last_index_of(name, '.') {
        Some(k) => {
            if k > 0 {
                Some(name.subrange(k + 1, name.len() as int))
            } else {
                None
            }
        },
        None => None,
    }
}

/// The extension of `path`, per [`spec_extension`].
pub fn extension_of(path: &str) -> (r: Option<&str>)
    ensures
        match r {
            Some(e) => spec_extension(path@) == Some(e@),
            None => spec_extension(path@) is None,
        },
{
    let n = path.unicode_len();
    let name_start: usize = match rfind_char(path, '/') {
        Some(k) => k + 1,
        None => 0,
    };
    let name = path.substring_char(name_start, n);
    assert(name@ == spec_file_name(path@));
    let m = name.unicode_len();
    match rfind_char(name, '.') {
        Some(k) => {
            if k > 0 {
                Some(name.substring_char(k + 1, m))
            } else {
                None
            }
        },
        None => None,
    }
}

/// Whether a path may be spawned, from the path text and the two facts
/// only the file system can supply: a missing path, a non-file, a file
/// name without an extension and an extension that is neither `exe` nor
/// empty are each rejected with their own error.
pub open spec fn spec_validate_path(path: Seq<char>, exists: bool, is_file: bool) -> Result<
    (),
    SpawnError,
> {
    if !exists {
        Err(SpawnError::PathMissing)
    } else if !is_file {
        Err(SpawnError::PathNotFile)
    } else {
        match spec_extension(path) {
            None => Err(SpawnError::NoExtension),
            Some(e) => {
                if e == "exe"@ || e.len() == 0 {
                    Ok(())
                } else {
                    Err(SpawnError::NotExecutable)
                }
            },
        }
    }
}

/// Decides whether an engine may be spawned at `path`. The host passes
/// whether the path exists and whether it is a regular file; the rest is
/// decided from the path text alone, per [`spec_validate_path`].
pub fn validate_engine_path(path: &str, exists: bool, is_file: bool) -> (r: Result<
    (),
    SpawnError,
>)
    ensures
        r == spec_validate_path(path@, exists, is_file),
{
    if !exists {
        Err(SpawnError::PathMissing)
    } else if !is_file {
        Err(SpawnError::PathNotFile)
    } else {
        match extension_of(path) {
            None => Err(SpawnError::NoExtension),
            Some(e) => {
                if str_eq(e, "exe") || e.unicode_len() == 0 {
                    Ok(())
                } else {
                    Err(SpawnError::NotExecutable)
                }
            },
        }
    }
}

/// The mathematical state of one engine session.
#[verifier::ext_equal]
pub struct SpecEngine {
    pub path: Seq<char>,
    pub name: Seq<char>,
    pub engine_options: Seq<SpecEngineOption>,
    pub analysis: Seq<SpecAnalysisLine>,
    pub is_show: bool,
    pub connected: bool,
    pub outbox: Seq<Seq<char>>,
}

/// One engine session: the executable path and display name, the options
/// discovered at the handshake, the analysis events in arrival order, the
/// visibility flag, whether a live process is attached, and the commands
/// queued for the process.
pub struct Engine {
    pub path: String,
    pub name: String,
    pub engine_options: Vec<EngineOption>,
    pub analysis: Vec<AnalysisLine>,
    pub is_show: bool,
    pub connected: bool,
    pub outbox: Vec<String>,
}

impl View for Engine {
    type V = SpecEngine;

    open spec fn view(&self) -> SpecEngine {
        SpecEngine {
            path: self.path@,
            name: self.name@,
            engine_options: self.engine_options.deep_view(),
            analysis: self.analysis.deep_view(),
            is_show: self.is_show,
            connected: self.connected,
            outbox: self.outbox.deep_view(),
        }
    }
}

impl DeepView for Engine {
    type V = SpecEngine;

    open spec fn deep_view(&self) -> SpecEngine {
        self.view()
    }
}

/// A fresh session: no options, no analysis, shown, with no live process
/// and nothing queued.
pub open spec fn spec_new_engine(path: Seq<char>, name: Seq<char>) -> SpecEngine {
    SpecEngine {
        path: path,
        name: name,
        engine_options: seq![],
        analysis: seq![],
        is_show: true,
        connected: false,
        outbox: seq![],
    }
}

/// Queueing a command: it lands at the back of the outbox, and a process
/// is attached on demand when none is live.
pub open spec fn spec_send_command(e: SpecEngine, command: Seq<char>) -> SpecEngine {
    SpecEngine { connected: true, outbox: e.outbox.push(command), ..e }
}

/// The analysis events carried by a batch of received lines, in arrival
/// order.
pub open spec fn spec_events_of(lines: Seq<Seq<char>>) -> Seq<SpecAnalysisLine>
    decreases lines.len(),
{
    if lines.len() == 0 {
        seq![]
    } else {
        match spec_parse_analysis(lines[0]) {
            Some(ev) => seq![ev] + spec_events_of(lines.drop_first()),
            None => spec_events_of(lines.drop_first()),
        }
    }
}

/// Polling: every event parsed from the received lines is appended to the
/// analysis sequence, in arrival order; nothing else changes.
pub open spec fn spec_poll(e: SpecEngine, lines: Seq<Seq<char>>) -> SpecEngine {
    SpecEngine { analysis: e.analysis + spec_events_of(lines), ..e }
}

/// The name an option carries, whatever its kind.
pub open spec fn spec_option_name(o: SpecEngineOption) -> Seq<char> {
    match o {
        SpecEngineOption::Check { name, .. } => name,
        SpecEngineOption::Spin { name, .. } => name,
    }
}

/// The first index at or after `i` whose option carries `name`.
pub open spec fn spec_find_option(opts: Seq<SpecEngineOption>, name: Seq<char>, i: nat) -> Option<
    nat,
>
    decreases opts.len() - i,
{
    if i >= opts.len() {
        None
    } else if spec_option_name(opts[i as int]) == name {
        Some(i)
    } else {
        spec_find_option(opts, name, (i + 1) as nat)
    }
}

/// Setting a boolean option: when the first option carrying the name is a
/// check option, its value is set and exactly one set-option command is
/// queued; when the name is unknown or names a spin option, nothing
/// changes.
pub open spec fn spec_set_option(e: SpecEngine, name: Seq<char>, value: bool) -> SpecEngine {
    match spec_find_option(e.engine_options, name, 0) {
        Some(k) => match e.engine_options[k as int] {
            SpecEngineOption::Check { name: stored, value: _ } => SpecEngine {
                engine_options: e.engine_options.update(
                    k as int,
                    SpecEngineOption::Check { name: stored, value: value },
                ),
                outbox: e.outbox.push(spec_setoption_command(name, value)),
                connected: true,
                ..e
            },
            SpecEngineOption::Spin { .. } => e,
        },
        None => e,
    }
}

/// Stopping a search queues the stop command and nothing more: the final
/// best-move reply is still expected, so the analysis sequence stays.
pub open spec fn spec_stop_analysis(e: SpecEngine) -> SpecEngine {
    spec_send_command(e, "stop\n"@)
}

/// Starting a search: stop whatever runs, clear the analysis sequence,
/// set the position, go.
pub open spec fn spec_start_analysis(e: SpecEngine, fen: Seq<char>) -> SpecEngine {
    let stopped = spec_send_command(e, "stop\n"@);
    let cleared = SpecEngine { analysis: seq![], ..stopped };
    let positioned = spec_send_command(cleared, spec_position_fen_command(fen));
    spec_send_command(positioned, "go\n"@)
}

/// Disconnecting a live session queues the graceful quit and detaches;
/// a session with no live process is left untouched, so teardown happens
/// at most once.
pub open spec fn spec_disconnect(e: SpecEngine) -> SpecEngine {
    if e.connected {
        SpecEngine { connected: false, outbox: e.outbox.push("quit\n"@), ..e }
    } else {
        e
    }
}

impl Engine {
    /// A fresh session for the engine at `path` shown as `name`. The host
    /// validates the path and performs the handshake and option discovery
    /// around this, storing what [`crate::protocol::detect_engine_options`]
    /// extracted into `engine_options`.
    pub fn new(path: &str, name: &str) -> (e: Engine)
        ensures
            e@ == spec_new_engine(path@, name@),
    {
        let e = Engine {
            path: path.to_owned(),
            name: name.to_owned(),
            engine_options: Vec::new(),
            analysis: Vec::new(),
            is_show: true,
            connected: false,
            outbox: Vec::new(),
        };
        proof {
            assert(e@ =~= spec_new_engine(path@, name@));
        }
        e
    }

    /// Queues one command for the process, attaching a process on demand
    /// when none is live; the enqueue itself never blocks and never fails.
    pub fn send_command(&mut self, command: &str)
        ensures
            final(self)@ == spec_send_command(old(self)@, command@),
    {
        let ghost pre = self@;
        self.connected = true;
        self.outbox.push(command.to_owned());
        proof {
            assert(self@ =~= spec_send_command(pre, command@));
        }
    }

    /// Hands the queued commands to the host, oldest first, leaving the
    /// queue empty. The host writes them to the process in this order.
    pub fn take_outbox(&mut self) -> (commands: Vec<String>)
        ensures
            commands.deep_view() == old(self)@.outbox,
            final(self)@ == (SpecEngine { outbox: seq![], ..old(self)@ }),
    {
        let ghost pre = self@;
        let mut out: Vec<String> = Vec::new();
        core::mem::swap(&mut out, &mut self.outbox);
        proof {
            assert(self@ =~= (SpecEngine { outbox: seq![], ..pre }));
        }
        out
    }

    /// Translates a batch of received lines and appends every event they
    /// carry to the analysis sequence, preserving arrival order.
    pub fn poll_engine(&mut self, lines: &Vec<String>)
        ensures
            final(self)@ == spec_poll(old(self)@, lines.deep_view()),
    {
        let ghost pre = self@;
        let ghost dv = lines.deep_view();
        let n = lines.len();
        let mut i: usize = 0;
        proof {
            assert(dv.subrange(0, n as int) =~= dv);
        }
        while i < n
            invariant
                n == lines@.len(),
                i <= n,
                dv == lines.deep_view(),
                self@ == (SpecEngine { analysis: self@.analysis, ..pre }),
                pre.analysis + spec_events_of(dv) == self@.analysis + spec_events_of(
                    dv.subrange(i as int, n as int),
                ),
            decreases n - i,
        {
            let ghost rest = dv.subrange(i as int, n as int);
            proof {
                assert(rest[0] == dv[i as int]);
                assert(rest.drop_first() =~= dv.subrange(i as int + 1, n as int));
            }
            let ghost mid = self@.analysis;
            match AnalysisLine::new(lines[i].clone()) {
                Some(ev) => {
                    self.analysis.push(ev);
                    proof {
                        assert(self@.analysis =~= mid.push(ev.deep_view()));
                        assert(spec_events_of(rest) == seq![ev.deep_view()] + spec_events_of(
                            rest.drop_first(),
                        ));
                        assert(mid.push(ev.deep_view()) + spec_events_of(rest.drop_first())
                            =~= mid + spec_events_of(rest));
                        assert(self@ =~= (SpecEngine { analysis: self@.analysis, ..pre }));
                    }
                },
                None => {
                    proof {
                        assert(spec_events_of(rest) == spec_events_of(rest.drop_first()));
                    }
                },
            }
            i += 1;
        }
        proof {
            assert(spec_events_of(dv.subrange(n as int, n as int)) == Seq::<
                SpecAnalysisLine,
            >::empty());
            assert(self@.analysis =~= self@.analysis + spec_events_of(
                dv.subrange(n as int, n as int),
            ));
            assert(self@ =~= spec_poll(pre, dv));
        }
    }

    /// Sets the named boolean option and queues the matching set-option
    /// command; a no-op when the name is unknown or names a spin option.
    pub fn set_option(&mut self, name: &str, value: bool)
        ensures
            final(self)@ == spec_set_option(old(self)@, name@, value),
    {
        let ghost pre = self@;
        let n = self.engine_options.len();
        let mut i: usize = 0;
        while i < n
            invariant
                n == self.engine_options@.len(),
                i <= n,
                *self == *old(self),
                spec_find_option(pre.engine_options, name@, 0) == spec_find_option(
                    pre.engine_options,
                    name@,
                    i as nat,
                ),
                pre == self@,
            decreases n - i,
        {
            let mut is_check = false;
            let matched = match &self.engine_options[i] {
                EngineOption::CHECK { name: stored, .. } => {
                    is_check = true;
                    str_eq(stored.as_str(), name)
                },
                EngineOption::SPIN { name: stored, .. } => str_eq(stored.as_str(), name),
            };
            proof {
                assert(self.engine_options.deep_view()[i as int]
                    == self.engine_options@[i as int].deep_view());
            }
            if matched {
                assert(spec_find_option(pre.engine_options, name@, 0) == Some(i as nat));
                if is_check {
                    let cmd = setoption_command(name, value);
                    let slot = &mut self.engine_options[i];
                    match slot {
                        EngineOption::CHECK { name: _, value: stored_value } => {
                            *stored_value = value;
                        },
                        EngineOption::SPIN { .. } => {},
                    }
                    self.outbox.push(cmd);
                    self.connected = true;
                    proof {
                        assert(self.engine_options.deep_view()
                            =~= pre.engine_options.update(
                            i as int,
                            SpecEngineOption::Check {
                                name: spec_option_name(pre.engine_options[i as int]),
                                value: value,
                            },
                        ));
                        assert(self@ =~= spec_set_option(pre, name@, value));
                    }
                }
                return ;
            }
            i += 1;
        }
    }

    /// Stops any running search; the analysis sequence stays, because the
    /// final best-move reply is still expected.
    pub fn stop_analysis(&mut self)
        ensures
            final(self)@ == spec_stop_analysis(old(self)@),
    {
        self.send_command("stop\n");
    }

    /// Starts a search on the position given in FEN: stops whatever runs,
    /// clears the analysis sequence, sets the position, goes.
    pub fn start_analysis(&mut self, fen: &str)
        ensures
            final(self)@ == spec_start_analysis(old(self)@, fen@),
    {
        let ghost pre = self@;
        self.send_command("stop\n");
        self.analysis.clear();
        proof {
            assert(self@ =~= (SpecEngine { analysis: seq![], ..spec_send_command(pre, "stop\n"@) }));
        }
        let cmd = position_fen_command(fen);
        self.send_command(cmd.as_str());
        self.send_command("go\n");
    }

    /// Detaches from the live process after queueing the graceful quit;
    /// safe to call again, when it does nothing. The host performs the
    /// forced kill and wait, once, when the session detaches.
    pub fn disconnect(&mut self)
        ensures
            final(self)@ == spec_disconnect(old(self)@),
    {
        let ghost pre = self@;
        if self.connected {
            self.outbox.push(String::from_str("quit\n"));
            self.connected = false;
            proof {
                assert(self@ =~= spec_disconnect(pre));
            }
        }
    }
}

/// Where the first matching index lies, it lies in range and matches.
proof fn lemma_find_option_props(opts: Seq<SpecEngineOption>, name: Seq<char>, i: nat)
    requires
        i <= opts.len(),
    ensures
        match spec_find_option(opts, name, i) {
            Some(k) => i <= k < opts.len() && spec_option_name(opts[k as int]) == name,
            None => true,
        },
    decreases opts.len() - i,
{
    if i < opts.len() && spec_option_name(opts[i as int]) != name {
        lemma_find_option_props(opts, name, (i + 1) as nat);
    }
}

/// Updating the value of the check option at `k` leaves the first index
/// carrying its name unchanged.
proof fn lemma_find_option_update(
    opts: Seq<SpecEngineOption>,
    name: Seq<char>,
    i: nat,
    k: nat,
    value: bool,
)
    requires
        i <= k < opts.len(),
        spec_find_option(opts, name, i) == Some(k),
        opts[k as int] is Check,
    ensures
        spec_find_option(
            opts.update(
                k as int,
                SpecEngineOption::Check { name: spec_option_name(opts[k as int]), value },
            ),
            name,
            i,
        ) == Some(k),
    decreases k - i,
{
    let opts2 = opts.update(
        k as int,
        SpecEngineOption::Check { name: spec_option_name(opts[k as int]), value },
    );
    if i == k {
        lemma_find_option_props(opts, name, i);
        assert(spec_option_name(opts2[i as int]) == spec_option_name(opts[i as int]));
    } else {
        assert(spec_option_name(opts[i as int]) != name);
        lemma_find_option_update(opts, name, (i + 1) as nat, k, value);
    }
}

/// Toggling a check option issues exactly one set-option command and
/// updates the stored value; toggling back restores the option set and
/// issues exactly one more command.
pub proof fn lemma_check_option_round_trip(e: SpecEngine, name: Seq<char>, k: nat, v0: bool)
    requires
        k < e.engine_options.len(),
        spec_find_option(e.engine_options, name, 0) == Some(k),
        e.engine_options[k as int] == (SpecEngineOption::Check {
            name: spec_option_name(e.engine_options[k as int]),
            value: v0,
        }),
    ensures
        spec_set_option(e, name, !v0).engine_options == e.engine_options.update(
            k as int,
            (SpecEngineOption::Check {
                name: spec_option_name(e.engine_options[k as int]),
                value: !v0,
            }),
        ),
        spec_set_option(e, name, !v0).outbox == e.outbox.push(spec_setoption_command(name, !v0)),
        spec_set_option(e, name, !v0).analysis == e.analysis,
        spec_set_option(spec_set_option(e, name, !v0), name, v0).engine_options
            == e.engine_options,
        spec_set_option(spec_set_option(e, name, !v0), name, v0).outbox == e.outbox.push(
            spec_setoption_command(name, !v0),
        ).push(spec_setoption_command(name, v0)),
{
    let e1 = spec_set_option(e, name, !v0);
    lemma_find_option_update(e.engine_options, name, 0, k, !v0);
    assert(spec_find_option(e1.engine_options, name, 0) == Some(k));
    let e2 = spec_set_option(e1, name, v0);
    assert(e2.engine_options.len() == e.engine_options.len());
    assert forall|j: int| 0 <= j < e.engine_options.len() implies e2.engine_options[j]
        == e.engine_options[j] by {
        if j == k {
            assert(spec_option_name(e1.engine_options[j]) == spec_option_name(
                e.engine_options[j],
            ));
        }
    }
    assert(e2.engine_options =~= e.engine_options);
}

/// Events accumulate line by line: the events of two batches taken
/// together are the events of the first followed by those of the second.
proof fn lemma_events_of_append(l1: Seq<Seq<char>>, l2: Seq<Seq<char>>)
    ensures
        spec_events_of(l1 + l2) == spec_events_of(l1) + spec_events_of(l2),
    decreases l1.len(),
{
    if l1.len() == 0 {
        assert(l1 + l2 =~= l2);
        assert(spec_events_of(l1) + spec_events_of(l2) =~= spec_events_of(l2));
    } else {
        assert((l1 + l2).drop_first() =~= l1.drop_first() + l2);
        lemma_events_of_append(l1.drop_first(), l2);
        assert((l1 + l2)[0] == l1[0]);
        match spec_parse_analysis(l1[0]) {
            Some(ev) => {
                assert(seq![ev] + (spec_events_of(l1.drop_first()) + spec_events_of(l2))
                    =~= (seq![ev] + spec_events_of(l1.drop_first())) + spec_events_of(l2));
            },
            None => {},
        }
    }
}

/// How lines are batched never matters: polling twice is one poll of the
/// concatenated lines, so the analysis sequence is exactly the events of
/// the stream in arrival order, never reordered and never dropped.
pub proof fn lemma_poll_batches(e: SpecEngine, l1: Seq<Seq<char>>, l2: Seq<Seq<char>>)
    ensures
        spec_poll(spec_poll(e, l1), l2) == spec_poll(e, l1 + l2),
{
    lemma_events_of_append(l1, l2);
    assert(spec_poll(spec_poll(e, l1), l2).analysis =~= spec_poll(e, l1 + l2).analysis);
    assert(spec_poll(spec_poll(e, l1), l2) =~= spec_poll(e, l1 + l2));
}

/// Disconnecting twice performs teardown once: the second call finds no
/// live process and changes nothing.
pub proof fn lemma_disconnect_idempotent(e: SpecEngine)
    ensures
        !spec_disconnect(e).connected,
        spec_disconnect(spec_disconnect(e)) == spec_disconnect(e),
{
}

} // verus!
