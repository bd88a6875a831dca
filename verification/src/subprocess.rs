//! Decisions behind running a companion tool (onas, ffmpeg): where its
//! executable is found, what a failed search reports, how a running child is
//! waited for, and the names of one-shot output files.

use vstd::prelude::*;
use std::time::Duration;
use crate::text_ops::{decimal, decimal_string, join_strings, joined, lemma_decimal_nonempty};

verus! {

#[derive(Debug)]
pub enum SubprocessError {
    BinaryNotFound { tool: &'static str, tried: String, hint: &'static str },
    SpawnFailed { tool: &'static str, source: std::io::Error },
    WaitFailed { tool: &'static str, source: std::io::Error },
    Timeout { tool: &'static str, timeout: Duration },
    ProcessFailed { tool: &'static str, stderr: String },
}

/// Where to look for a companion executable, tried in the order given.
pub enum SearchLocation {
    EnvVar(&'static str),
    NextToExe,
    Path,
}

/// What was observed at one search location.
pub enum Probe {
    /// The variable's value when it is set, and whether that names a file.
    EnvVar(Option<(String, bool)>),
    /// The candidate next to the running executable as displayed, and
    /// whether it is a file; `None` when that directory is unknown.
    NextToExe(Option<(String, bool)>),
    /// For each directory on `PATH`, in order, whether the executable is a
    /// file there (empty when `PATH` is unset).
    Path(Vec<bool>),
}

pub enum ProbeView {
    EnvVar(Option<(Seq<char>, bool)>),
    NextToExe(Option<(Seq<char>, bool)>),
    Path(Seq<bool>),
}

impl View for Probe {
    type V = ProbeView;

    open spec fn view(&self) -> ProbeView {
        match self {
            Probe::EnvVar(None) => ProbeView::EnvVar(None),
            Probe::EnvVar(Some((s, b))) => ProbeView::EnvVar(Some((s@, *b))),
            Probe::NextToExe(None) => ProbeView::NextToExe(None),
            Probe::NextToExe(Some((s, b))) => ProbeView::NextToExe(Some((s@, *b))),
            Probe::Path(v) => ProbeView::Path(v@),
        }
    }
}

/// The executable was found at candidate `candidate` of probe `probe`
/// (candidates only differ for `PATH`, one per directory).
#[derive(Debug, Clone, Copy, PartialEq, Eq, Structural)]
pub struct Found {
    pub probe: usize,
    pub candidate: usize,
}

/// Whether candidate `j` is the first existing candidate of a probe.
pub open spec fn first_hit(probe: ProbeView, j: int) -> bool {
    match probe {
        ProbeView::EnvVar(Some((_, exists))) => exists && j == 0,
        ProbeView::NextToExe(Some((_, exists))) => exists && j == 0,
        ProbeView::Path(v) => 0 <= j < v.len() && v[j] && forall|k: int| 0 <= k < j ==> !v[k],
        _ => false,
    }
}

/// Whether a probe found the executable at all.
pub open spec fn has_hit(probe: ProbeView) -> bool {
    match probe {
        ProbeView::EnvVar(Some((_, exists))) => exists,
        ProbeView::NextToExe(Some((_, exists))) => exists,
        ProbeView::Path(v) => exists|j: int| 0 <= j < v.len() && v[j],
        _ => false,
    }
}

/// Some entry of `v` is set, so a least one is.
proof fn lemma_least_set(v: Seq<bool>, j: int)
    requires
        0 <= j < v.len(),
        v[j],
    ensures
        exists|m: int| 0 <= m <= j && v[m] && forall|k: int| 0 <= k < m ==> !v[k],
    decreases j,
{
    if exists|k: int| 0 <= k < j && v[k] {
        let k = choose|k: int| 0 <= k < j && v[k];
        lemma_least_set(v, k);
    } else {
        assert(forall|k: int| 0 <= k < j ==> !v[k]);
    }
}

/// An observed executable is found: an environment variable or a candidate
/// next to the running executable that names an existing file is a hit at
/// that candidate, a `PATH` search hits exactly when some directory holds
/// the file, at the first such directory, and a location that observed
/// nothing is no hit. A probe hits at most one candidate.
pub proof fn lemma_observed_file_is_hit(probe: ProbeView)
    ensures
        has_hit(probe) <==> exists|j: int| first_hit(probe, j),
        forall|j: int, k: int| first_hit(probe, j) && first_hit(probe, k) ==> j == k,
        match probe {
            ProbeView::EnvVar(Some((_, exists))) => (has_hit(probe) == exists) && (exists
                ==> first_hit(probe, 0)),
            ProbeView::NextToExe(Some((_, exists))) => (has_hit(probe) == exists) && (exists
                ==> first_hit(probe, 0)),
            ProbeView::Path(v) => {
                &&& has_hit(probe) <==> exists|j: int| 0 <= j < v.len() && v[j]
                &&& forall|j: int|
                    first_hit(probe, j) <==> (0 <= j < v.len() && v[j] && forall|k: int|
                        0 <= k < j ==> !v[k])
            },
            _ => !has_hit(probe),
        },
{
    match probe {
        ProbeView::EnvVar(Some((_, exists))) => {
            if exists {
                assert(first_hit(probe, 0));
            }
        },
        ProbeView::NextToExe(Some((_, exists))) => {
            if exists {
                assert(first_hit(probe, 0));
            }
        },
        ProbeView::Path(v) => {
            if has_hit(probe) {
                let j = choose|j: int| 0 <= j < v.len() && v[j];
                lemma_least_set(v, j);
                let m = choose|m: int| 0 <= m <= j && v[m] && forall|k: int| 0 <= k < m ==> !v[k];
                assert(first_hit(probe, m));
            }
            assert forall|j: int, k: int| first_hit(probe, j) && first_hit(probe, k) implies j
                == k by {
                if j < k {
                    assert(!v[j]);
                } else if k < j {
                    assert(!v[k]);
                }
            }
        },
        _ => {},
    }
}

/// What a probe contributes to the list of tried locations.
pub open spec fn tried_label(probe: ProbeView, exe_name: Seq<char>) -> Option<Seq<char>> {
    match probe {
        ProbeView::EnvVar(Some((value, _))) => Some(value),
        ProbeView::NextToExe(Some((candidate, _))) => Some(candidate),
        ProbeView::Path(_) => Some(exe_name + " on PATH"@),
        _ => None,
    }
}

/// The tried locations of all probes, in order.
pub open spec fn tried_labels(probes: Seq<ProbeView>, exe_name: Seq<char>) -> Seq<Seq<char>>
    decreases probes.len(),
{
    if probes.len() == 0 {
        Seq::empty()
    } else {
        let rest = tried_labels(probes.drop_last(), exe_name);
        match tried_label(probes.last(), exe_name) {
            Some(l) => rest.push(l),
            None => rest,
        }
    }
}

/// Every location that was looked at is listed, in search order: a set
/// variable by its value, the place next to the running executable by the
/// candidate's path, a `PATH` search as the executable's name "on PATH";
/// an unset variable or an unknown directory adds nothing.
pub proof fn lemma_tried_locations(probes: Seq<ProbeView>, probe: ProbeView, exe_name: Seq<char>)
    ensures
        probe matches ProbeView::EnvVar(Some((value, _))) ==> tried_labels(probes.push(probe), exe_name)
            == tried_labels(probes, exe_name).push(value),
        probe matches ProbeView::NextToExe(Some((candidate, _))) ==> tried_labels(
            probes.push(probe),
            exe_name,
        ) == tried_labels(probes, exe_name).push(candidate),
        probe is Path ==> tried_labels(probes.push(probe), exe_name) == tried_labels(
            probes,
            exe_name,
        ).push(exe_name + " on PATH"@),
        probe matches ProbeView::EnvVar(None) ==> tried_labels(probes.push(probe), exe_name)
            == tried_labels(probes, exe_name),
        probe matches ProbeView::NextToExe(None) ==> tried_labels(probes.push(probe), exe_name)
            == tried_labels(probes, exe_name),
        tried_labels(Seq::empty(), exe_name) == Seq::<Seq<char>>::empty(),
{
    assert(probes.push(probe).drop_last() =~= probes);
}

pub open spec fn probes_view(probes: Seq<Probe>) -> Seq<ProbeView> {
    probes.map_values(|p: Probe| p@)
}

fn tried_label_of(probe: &Probe, exe_name: &str) -> (label: Option<String>)
    ensures
        match (label, tried_label(probe@, exe_name@)) {
            (Some(l), Some(sl)) => l@ == sl,
            (None, None) => true,
            _ => false,
        },
{
    match probe {
        Probe::EnvVar(Some((value, _))) => Some(String::from_str(value.as_str())),
        Probe::NextToExe(Some((candidate, _))) => Some(String::from_str(candidate.as_str())),
        Probe::Path(_) => {
            let mut label = String::from_str(exe_name);
            label.append(" on PATH");
            Some(label)
        },
        _ => None,
    }
}

fn first_existing(probe: &Probe) -> (hit: Option<usize>)
    ensures
        match hit {
            Some(j) => first_hit(probe@, j as int),
            None => !has_hit(probe@),
        },
{
    match probe {
        Probe::EnvVar(Some((_, exists))) => if *exists {
            Some(0)
        } else {
            None
        },
        Probe::NextToExe(Some((_, exists))) => if *exists {
            Some(0)
        } else {
            None
        },
        Probe::Path(found) => {
            assert(probe@ == ProbeView::Path(found@));
            let mut j: usize = 0;
            while j < found.len()
                invariant
                    probe@ == ProbeView::Path(found@),
                    j <= found@.len(),
                    forall|k: int| 0 <= k < j ==> !found@[k],
                decreases found@.len() - j,
            {
                if found[j] {
                    return Some(j);
                }
                j = j + 1;
            }
            None
        },
        _ => None,
    }
}

/// Picks the first location, in search order, where the executable exists.
/// When there is none, the error names the tool, lists every location that
/// was tried (separated by `, `), and carries the hint.
pub fn locate_executable(
    tool: &'static str,
    exe_name: &str,
    hint: &'static str,
    probes: &Vec<Probe>,
) -> (out: Result<Found, SubprocessError>)
    ensures
        match out {
            Ok(found) => {
                &&& found.probe < probes@.len()
                &&& forall|k: int| 0 <= k < found.probe ==> !has_hit(#[trigger] probes@[k]@)
                &&& first_hit(probes@[found.probe as int]@, found.candidate as int)
            },
            Err(e) => {
                &&& forall|k: int| 0 <= k < probes@.len() ==> !has_hit(#[trigger] probes@[k]@)
                &&& e matches SubprocessError::BinaryNotFound { tool: t, tried, hint: h }
                &&& t == tool && h == hint
                &&& tried@ == joined(tried_labels(probes_view(probes@), exe_name@), ", "@)
            },
        },
{
    let ghost views = probes_view(probes@);
    let mut tried: Vec<String> = Vec::new();
    let mut i: usize = 0;
    while i < probes.len()
        invariant
            i <= probes@.len(),
            views == probes_view(probes@),
            forall|k: int| 0 <= k < i ==> !has_hit(#[trigger] probes@[k]@),
            tried@.map_values(|s: String| s@) == tried_labels(views.take(i as int), exe_name@),
        decreases probes@.len() - i,
    {
        let probe = &probes[i];
        if let Some(j) = first_existing(probe) {
            return Ok(Found { probe: i, candidate: j });
        }
        let ghost before = tried@.map_values(|s: String| s@);
        if let Some(label) = tried_label_of(probe, exe_name) {
            tried.push(label);
        }
        proof {
            assert(views.take(i + 1).drop_last() =~= views.take(i as int));
            assert(views.take(i + 1).last() == probe@);
            assert(tried@.map_values(|s: String| s@) =~= tried_labels(
                views.take(i + 1),
                exe_name@,
            ));
        }
        i = i + 1;
    }
    assert(views.take(probes@.len() as int) =~= views);
    Err(SubprocessError::BinaryNotFound { tool, tried: join_strings(&tried, ", "), hint })
}

/// What was observed when polling a running child.
pub enum WaitObservation {
    Exited { success: bool },
    Running { past_timeout: bool },
}

/// What to do next while waiting for a child.
#[derive(Debug, Clone, Copy, PartialEq, Eq, Structural)]
pub enum WaitAction {
    /// The child exited; collect its output and report.
    Finish { success: bool },
    /// The child overran its time budget; kill it and report a timeout.
    Kill,
    /// Sleep briefly, then poll again.
    Poll,
}

pub fn next_wait_action(observation: WaitObservation) -> (action: WaitAction)
    ensures
        match observation {
            WaitObservation::Exited { success } => action == WaitAction::Finish { success },
            WaitObservation::Running { past_timeout } => action == if past_timeout {
                WaitAction::Kill
            } else {
                WaitAction::Poll
            },
        },
{
    match observation {
        WaitObservation::Exited { success } => WaitAction::Finish { success },
        WaitObservation::Running { past_timeout } => if past_timeout {
            WaitAction::Kill
        } else {
            WaitAction::Poll
        },
    }
}

/// The report of a child that exited: success, or its standard error.
pub fn exit_result(tool: &'static str, success: bool, stderr: String) -> (out: Result<
    (),
    SubprocessError,
>)
    ensures
        success ==> out is Ok,
        !success ==> (out matches Err(SubprocessError::ProcessFailed { tool: t, stderr: s }) && t
            == tool && s@ == stderr@),
{
    if success {
        Ok(())
    } else {
        Err(SubprocessError::ProcessFailed { tool, stderr })
    }
}

/// The report of a child that overran its time budget and was killed.
pub fn timeout_result(tool: &'static str, timeout: Duration) -> (out: Result<(), SubprocessError>)
    ensures
        out matches Err(SubprocessError::Timeout { tool: t, timeout: d }) && t == tool && d
            == timeout,
{
    Err(SubprocessError::Timeout { tool, timeout })
}

/// One argument of a companion tool's command line: fixed text, or the path
/// of the input or output file (kept as a path by the caller, so that names
/// that are not valid Unicode pass through unchanged).
#[derive(Debug, Clone, Copy)]
pub enum CommandArg {
    Text(&'static str),
    InputPath,
    OutputPath,
}

pub enum ArgView {
    Text(Seq<char>),
    InputPath,
    OutputPath,
}

impl View for CommandArg {
    type V = ArgView;

    open spec fn view(&self) -> ArgView {
        match self {
            CommandArg::Text(t) => ArgView::Text(t@),
            CommandArg::InputPath => ArgView::InputPath,
            CommandArg::OutputPath => ArgView::OutputPath,
        }
    }
}

pub open spec fn args_view(args: Seq<CommandArg>) -> Seq<ArgView> {
    args.map_values(|a: CommandArg| a@)
}

/// ffmpeg's arguments for writing the first video frame of the input to
/// the output image, overwriting it, quietly and without reading stdin.
pub open spec fn ffmpeg_frame_args_spec() -> Seq<ArgView> {
    seq![
        ArgView::Text("-y"@),
        ArgView::Text("-nostdin"@),
        ArgView::Text("-hide_banner"@),
        ArgView::Text("-loglevel"@),
        ArgView::Text("error"@),
        ArgView::Text("-i"@),
        ArgView::InputPath,
        ArgView::Text("-frames:v"@),
        ArgView::Text("1"@),
        ArgView::OutputPath,
    ]
}

pub fn ffmpeg_frame_args() -> (args: Vec<CommandArg>)
    ensures
        args_view(args@) == ffmpeg_frame_args_spec(),
{
    let args = vec![
        CommandArg::Text("-y"),
        CommandArg::Text("-nostdin"),
        CommandArg::Text("-hide_banner"),
        CommandArg::Text("-loglevel"),
        CommandArg::Text("error"),
        CommandArg::Text("-i"),
        CommandArg::InputPath,
        CommandArg::Text("-frames:v"),
        CommandArg::Text("1"),
        CommandArg::OutputPath,
    ];
    assert(args_view(args@) =~= ffmpeg_frame_args_spec());
    args
}

/// ffmpeg overwrites its output without asking, never reads standard
/// input, prints errors only, reads the input given right after `-i`, and
/// writes exactly one video frame to the output, which comes last.
pub proof fn lemma_ffmpeg_command_line()
    ensures
        ({
            let a = ffmpeg_frame_args_spec();
            &&& a.len() == 10
            &&& a[0] == ArgView::Text("-y"@)
            &&& a[1] == ArgView::Text("-nostdin"@)
            &&& a[2] == ArgView::Text("-hide_banner"@)
            &&& a[3] == ArgView::Text("-loglevel"@) && a[4] == ArgView::Text("error"@)
            &&& a[5] == ArgView::Text("-i"@) && a[6] == ArgView::InputPath
            &&& a[7] == ArgView::Text("-frames:v"@) && a[8] == ArgView::Text("1"@)
            &&& a[9] == ArgView::OutputPath
        }),
{
}

/// What onas is asked to do.
#[derive(Debug, Clone, Copy, PartialEq, Eq, Structural)]
pub enum OnasCommand {
    /// Convert a webp/avif image to PNG.
    ConvertImage,
    /// Write a video frame to PNG.
    ExtractFrame,
}

/// onas's arguments: the subcommand, then the input and output paths.
pub open spec fn onas_args_spec(command: OnasCommand) -> Seq<ArgView> {
    let sub = match command {
        OnasCommand::ConvertImage => "image"@,
        OnasCommand::ExtractFrame => "frame"@,
    };
    seq![ArgView::Text(sub), ArgView::InputPath, ArgView::OutputPath]
}

pub fn onas_args(command: OnasCommand) -> (args: Vec<CommandArg>)
    ensures
        args_view(args@) == onas_args_spec(command),
{
    let sub = match command {
        OnasCommand::ConvertImage => "image",
        OnasCommand::ExtractFrame => "frame",
    };
    let args = vec![CommandArg::Text(sub), CommandArg::InputPath, CommandArg::OutputPath];
    assert(args_view(args@) =~= onas_args_spec(command));
    args
}

/// onas gets its subcommand (`image` to convert an image, `frame` to
/// extract a video frame), then the input, then the output.
pub proof fn lemma_onas_command_line(command: OnasCommand)
    ensures
        onas_args_spec(command).len() == 3,
        onas_args_spec(command)[0] == ArgView::Text(
            if command == OnasCommand::ConvertImage { "image"@ } else { "frame"@ },
        ),
        onas_args_spec(command)[1] == ArgView::InputPath,
        onas_args_spec(command)[2] == ArgView::OutputPath,
{
}

/// The file name of a one-shot output file: `rooq_{prefix}_{pid}_{n}.{ext}`.
pub open spec fn temp_file_name_spec(prefix: Seq<char>, pid: nat, n: nat, ext: Seq<char>) -> Seq<
    char,
> {
    "rooq_"@ + prefix + "_"@ + decimal(pid) + "_"@ + decimal(n) + "."@ + ext
}

/// A one-shot output file's name starts with `rooq_` and the prefix, then
/// `_`, and ends with a `.` and the requested extension, so the tool sees
/// the file type it is asked to write.
pub proof fn lemma_temp_name_shape(prefix: Seq<char>, pid: nat, n: nat, ext: Seq<char>)
    ensures
        ({
            let name = temp_file_name_spec(prefix, pid, n, ext);
            &&& name.len() > 7 + prefix.len() + ext.len()
            &&& name.subrange(0, 5) == seq!['r', 'o', 'o', 'q', '_']
            &&& name.subrange(5, (5 + prefix.len()) as int) == prefix
            &&& name[(5 + prefix.len()) as int] == '_'
            &&& name[name.len() - ext.len() - 1] == '.'
            &&& name.subrange(name.len() - ext.len(), name.len() as int) == ext
        }),
{
    reveal_strlit("rooq_");
    reveal_strlit("_");
    reveal_strlit(".");
    lemma_decimal_nonempty(pid);
    lemma_decimal_nonempty(n);
    let name = temp_file_name_spec(prefix, pid, n, ext);
    let head = "rooq_"@ + prefix + "_"@;
    assert(name =~= head + (decimal(pid) + "_"@ + decimal(n) + "."@) + ext);
    assert(name.subrange(0, 5) =~= seq!['r', 'o', 'o', 'q', '_']);
    assert(name.subrange(5, (5 + prefix.len()) as int) =~= prefix);
    assert(name.subrange(name.len() - ext.len(), name.len() as int) =~= ext);
}

/// Names the `n`-th one-shot output file of process `pid`; distinct
/// counters give distinct names.
pub fn temp_file_name(prefix: &str, pid: u32, n: u64, ext: &str) -> (name: String)
    ensures
        name@ == temp_file_name_spec(prefix@, pid as nat, n as nat, ext@),
{
    let mut name = String::from_str("rooq_");
    name.append(prefix);
    name.append("_");
    let pid_text = decimal_string(pid as u64);
    name.append(pid_text.as_str());
    name.append("_");
    let n_text = decimal_string(n);
    name.append(n_text.as_str());
    name.append(".");
    name.append(ext);
    name
}

/// One-shot output files never collide: names built for different counter
/// values (same prefix, process and extension) differ.
pub proof fn lemma_temp_file_names_distinct(
    prefix: Seq<char>,
    pid: nat,
    n1: nat,
    n2: nat,
    ext: Seq<char>,
)
    requires
        n1 != n2,
    ensures
        temp_file_name_spec(prefix, pid, n1, ext) != temp_file_name_spec(prefix, pid, n2, ext),
{
    let head = "rooq_"@ + prefix + "_"@ + decimal(pid) + "_"@;
    let tail = "."@ + ext;
    let a = temp_file_name_spec(prefix, pid, n1, ext);
    let b = temp_file_name_spec(prefix, pid, n2, ext);
    assert(a =~= head + decimal(n1) + tail);
    assert(b =~= head + decimal(n2) + tail);
    if a == b {
        let d1 = decimal(n1);
        let d2 = decimal(n2);
        assert(d1.len() == d2.len());
        assert(d1 =~= a.subrange(head.len() as int, (head.len() + d1.len()) as int));
        assert(d2 =~= b.subrange(head.len() as int, (head.len() + d2.len()) as int));
        crate::text_ops::lemma_decimal_injective(n1, n2);
    }
}

} // verus!
