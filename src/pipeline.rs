//! One timelapse run as a state machine. A driver asks for the next action,
//! runs the named tool with the given arguments, and reports how it went; the
//! decisions (what to run next, when to stop and why) are all made here.
use vstd::prelude::*;
use crate::decimal::{Seconds, ParseError, parse_outcome, first_line, parse_probe_output};
use crate::factor::{Ratio, factor_outcome, pts_factor, raw_num, raw_den, factor_is_length_over_duration};
use crate::render::{filter_text, seconds_text, setpts_filter, seconds_string};

verus! {

/// The two outside programs that a run uses.
#[derive(Clone, Copy, Debug, PartialEq, Eq)]
pub enum Tool {
    /// `ffmpeg`, which rewrites and trims video.
    Processor,
    /// `ffprobe`, which reports a video's duration.
    Prober,
}

pub open spec fn tool_name(t: Tool) -> Seq<char> {
    match t {
        Tool::Processor => "ffmpeg"@,
        Tool::Prober => "ffprobe"@,
    }
}

/// The program name of `t`.
pub fn program_name(t: Tool) -> (r: String)
    ensures
        r@ == tool_name(t),
{
    match t {
        Tool::Processor => String::from_str("ffmpeg"),
        Tool::Prober => String::from_str("ffprobe"),
    }
}

#[derive(Clone, Copy, Debug, PartialEq, Eq)]
pub enum RunError {
    /// The wanted length plus one second does not fit the number type.
    LengthOutOfRange,
    /// The tool could not be started.
    MissingTool(Tool),
    /// The probe's output is not a duration.
    ProbeFailed(ParseError),
    /// The probed duration or the wanted length is zero.
    InvalidDuration,
    /// The speed-up pass did not run or did not succeed.
    SpeedUpFailed,
    /// The trim pass did not run or did not succeed.
    TrimFailed,
}

#[derive(Clone, Copy, Debug, PartialEq, Eq)]
pub enum Stage {
    /// Checking that the processing tool starts.
    CheckProcessor,
    /// Checking that the probing tool starts.
    CheckProber,
    /// Reading the input's duration.
    Probe,
    /// Rewriting timestamps by the factor into the intermediate file.
    SpeedUp(Ratio),
    /// Cutting the intermediate file to length into the output.
    Trim,
    /// Done, with the run's result.
    Finished(Result<(), RunError>),
}

/// What became of the tool that the last action named.
#[derive(Clone, Debug, PartialEq, Eq)]
pub enum Event {
    /// It could not be started.
    NotLaunched,
    /// It ran to its end, with its exit status and what it wrote to stdout.
    Exited { success: bool, stdout: Vec<u8> },
}

/// What the driver is to do next.
#[derive(Debug, PartialEq, Eq)]
pub enum Action {
    /// Run `tool` with `args` and report the outcome.
    Run { tool: Tool, args: Vec<String> },
    /// Stop, with this result.
    Stop(Result<(), RunError>),
}

/// A run that makes `input` into a clip of `length` seconds at `output`,
/// through the file `intermediate`, which the driver names once both tools
/// are known to start, so that nothing is written before that.
#[derive(Clone, Debug)]
pub struct Timelapse {
    pub input: String,
    pub output: String,
    pub intermediate: String,
    pub length: Seconds,
    pub stage: Stage,
}

/// The length that the trim pass asks for: one second more than wanted.
pub open spec fn trim_length(length: Seconds) -> Seconds {
    Seconds { units: (length.units + length.denom()) as u64, scale: length.scale }
}

/// The stage that follows `stage` when the tool it ran reports `event`.
pub open spec fn next_stage(stage: Stage, event: Event, length: Seconds) -> Stage {
    match stage {
        Stage::CheckProcessor => match event {
            Event::NotLaunched => Stage::Finished(Err(RunError::MissingTool(Tool::Processor))),
            Event::Exited { .. } => Stage::CheckProber,
        },
        Stage::CheckProber => match event {
            Event::NotLaunched => Stage::Finished(Err(RunError::MissingTool(Tool::Prober))),
            Event::Exited { .. } => Stage::Probe,
        },
        Stage::Probe => match event {
            Event::NotLaunched => Stage::Finished(Err(RunError::MissingTool(Tool::Prober))),
            Event::Exited { success, stdout } => match parse_outcome(first_line(stdout@)) {
                Err(e) => Stage::Finished(Err(RunError::ProbeFailed(e))),
                Ok(duration) => match factor_outcome(duration, length) {
                    Err(_) => Stage::Finished(Err(RunError::InvalidDuration)),
                    Ok(f) => Stage::SpeedUp(f),
                },
            },
        },
        Stage::SpeedUp(_) => match event {
            Event::Exited { success: true, .. } => Stage::Trim,
            _ => Stage::Finished(Err(RunError::SpeedUpFailed)),
        },
        Stage::Trim => match event {
            Event::Exited { success: true, .. } => Stage::Finished(Ok(())),
            _ => Stage::Finished(Err(RunError::TrimFailed)),
        },
        Stage::Finished(r) => Stage::Finished(r),
    }
}

/// The tool that `stage` runs.
pub open spec fn stage_tool(stage: Stage) -> Tool {
    match stage {
        Stage::CheckProber | Stage::Probe => Tool::Prober,
        _ => Tool::Processor,
    }
}

/// The arguments with which the stage of `t` runs its tool.
pub open spec fn stage_args(t: Timelapse) -> Seq<Seq<char>> {
    match t.stage {
        Stage::CheckProcessor | Stage::CheckProber => seq!["-h"@],
        Stage::Probe => seq![
            "-i"@,
            t.input@,
            "-show_entries"@,
            "format=duration"@,
            "-v"@,
            "quiet"@,
            "-print_format"@,
            "csv=p=0"@,
        ],
        Stage::SpeedUp(f) => seq!["-i"@, t.input@, "-filter:v"@, filter_text(f), "-y"@, t.intermediate@],
        Stage::Trim => seq![
            "-i"@,
            t.intermediate@,
            "-ss"@,
            "0.0"@,
            "-t"@,
            seconds_text(trim_length(t.length)),
            "-y"@,
            t.output@,
        ],
        Stage::Finished(_) => Seq::empty(),
    }
}

pub open spec fn strings_view(v: Seq<String>) -> Seq<Seq<char>> {
    v.map_values(|s: String| s@)
}

/// The stage reached from `stage` after the tools report `events`, in order.
pub open spec fn stage_after(stage: Stage, events: Seq<Event>, length: Seconds) -> Stage
    decreases events.len(),
{
    if events.len() == 0 {
        stage
    } else {
        stage_after(next_stage(stage, events[0], length), events.drop_first(), length)
    }
}

/// A stage that writes video: the speed-up or the trim pass.
pub open spec fn is_processing(stage: Stage) -> bool {
    stage is SpeedUp || stage is Trim
}

/// A finished run stays finished, with the same result, whatever is reported.
pub proof fn finished_run_stays_finished(res: Result<(), RunError>, events: Seq<Event>, length: Seconds)
    ensures
        stage_after(Stage::Finished(res), events, length) == Stage::Finished(res),
    decreases events.len(),
{
    if events.len() > 0 {
        finished_run_stays_finished(res, events.drop_first(), length);
    }
}

/// Where the probing tool cannot be started, whether at its check or at the
/// probe itself, the run stops at once with `MissingTool(Prober)`, and no
/// processing pass is ever asked for after it, whatever follows.
pub proof fn missing_prober_blocks_processing(stage: Stage, events: Seq<Event>, length: Seconds)
    requires
        stage == Stage::CheckProber || stage == Stage::Probe,
        events.len() > 0,
        events[0] == Event::NotLaunched,
    ensures
        stage_after(stage, events, length) == Stage::Finished(
            Err(RunError::MissingTool(Tool::Prober)),
        ),
        forall|i: int|
            0 <= i <= events.len() ==> !is_processing(
                #[trigger] stage_after(stage, events.take(i), length),
            ),
{
    let stop = Err(RunError::MissingTool(Tool::Prober));
    finished_run_stays_finished(stop, events.drop_first(), length);
    assert forall|i: int| 0 <= i <= events.len() implies !is_processing(
        #[trigger] stage_after(stage, events.take(i), length),
    ) by {
        if i > 0 {
            let e = events.take(i);
            assert(e[0] == events[0]);
            finished_run_stays_finished(stop, e.drop_first(), length);
        }
    }
}

/// After a probe whose first line reads as a positive duration `d`, the run
/// moves to the speed-up pass with the factor `length / d` exactly, and that
/// pass's filter argument is the text of that factor.
pub proof fn probe_sets_exact_factor(t: Timelapse, success: bool, stdout: Vec<u8>, d: Seconds)
    requires
        t.wf(),
        t.stage == Stage::Probe,
        parse_outcome(first_line(stdout@)) == Ok::<Seconds, ParseError>(d),
        d.units > 0,
    ensures
        next_stage(t.stage, Event::Exited { success, stdout }, t.length) is SpeedUp,
        ({
            let f = next_stage(t.stage, Event::Exited { success, stdout }, t.length)->SpeedUp_0;
            &&& f.num * raw_den(d, t.length) == f.den * raw_num(d, t.length)
            &&& stage_args(Timelapse { stage: Stage::SpeedUp(f), ..t })[3] == filter_text(f)
        }),
{
    factor_is_length_over_duration(d, t.length);
}

impl Timelapse {
    pub open spec fn wf(&self) -> bool {
        &&& self.length.wf()
        &&& self.length.units > 0
        &&& self.length.units + self.length.denom() <= u64::MAX
    }

    /// A run at its first stage. The wanted length must be positive, and one
    /// second more than it must fit the number type.
    pub fn new(input: String, output: String, length: Seconds) -> (r: Result<
        Timelapse,
        RunError,
    >)
        requires
            length.wf(),
        ensures
            r == Err::<Timelapse, RunError>(RunError::InvalidDuration) <==> length.units == 0,
            r == Err::<Timelapse, RunError>(RunError::LengthOutOfRange) <==> length.units > 0
                && length.units + length.denom() > u64::MAX,
            r is Ok <==> length.units > 0 && length.units + length.denom() <= u64::MAX,
            r is Ok ==> r->Ok_0.wf() && r->Ok_0.stage == Stage::CheckProcessor && r->Ok_0.length
                == length && r->Ok_0.input@ == input@ && r->Ok_0.output@ == output@
                && r->Ok_0.intermediate@ == Seq::<char>::empty(),
    {
        if length.units == 0 {
            return Err(RunError::InvalidDuration);
        }
        match length.plus_one() {
            None => Err(RunError::LengthOutOfRange),
            Some(_) => Ok(
                Timelapse {
                    input,
                    output,
                    intermediate: String::new(),
                    length,
                    stage: Stage::CheckProcessor,
                },
            ),
        }
    }

    /// Names the intermediate file that the speed-up pass writes and the trim
    /// pass reads.
    pub fn set_intermediate(&mut self, path: String)
        ensures
            final(self).intermediate@ == path@,
            final(self).input == old(self).input,
            final(self).output == old(self).output,
            final(self).length == old(self).length,
            final(self).stage == old(self).stage,
    {
        self.intermediate = path;
    }

    /// Moves on from the current stage, given what became of its tool.
    pub fn advance(&mut self, event: Event)
        requires
            old(self).wf(),
        ensures
            final(self).stage == next_stage(old(self).stage, event, old(self).length),
            final(self).input == old(self).input,
            final(self).output == old(self).output,
            final(self).intermediate == old(self).intermediate,
            final(self).length == old(self).length,
    {
        let next = match self.stage {
            Stage::CheckProcessor => match event {
                Event::NotLaunched => Stage::Finished(Err(RunError::MissingTool(Tool::Processor))),
                Event::Exited { .. } => Stage::CheckProber,
            },
            Stage::CheckProber => match event {
                Event::NotLaunched => Stage::Finished(Err(RunError::MissingTool(Tool::Prober))),
                Event::Exited { .. } => Stage::Probe,
            },
            Stage::Probe => match event {
                Event::NotLaunched => Stage::Finished(Err(RunError::MissingTool(Tool::Prober))),
                Event::Exited { success: _, stdout } => match parse_probe_output(stdout.as_slice()) {
                    Err(e) => Stage::Finished(Err(RunError::ProbeFailed(e))),
                    Ok(duration) => match pts_factor(duration, self.length) {
                        Err(_) => Stage::Finished(Err(RunError::InvalidDuration)),
                        Ok(f) => Stage::SpeedUp(f),
                    },
                },
            },
            Stage::SpeedUp(_) => match event {
                Event::Exited { success: true, .. } => Stage::Trim,
                _ => Stage::Finished(Err(RunError::SpeedUpFailed)),
            },
            Stage::Trim => match event {
                Event::Exited { success: true, .. } => Stage::Finished(Ok(())),
                _ => Stage::Finished(Err(RunError::TrimFailed)),
            },
            Stage::Finished(r) => Stage::Finished(r),
        };
        self.stage = next;
    }

    /// What the driver is to do at the current stage.
    pub fn action(&self) -> (r: Action)
        requires
            self.wf(),
        ensures
            match self.stage {
                Stage::Finished(res) => r == Action::Stop(res),
                _ => match r {
                    Action::Run { tool, args } => tool == stage_tool(self.stage) && strings_view(
                        args@,
                    ) == stage_args(*self),
                    Action::Stop(_) => false,
                },
            },
    {
        let mut args: Vec<String> = Vec::new();
        match self.stage {
            Stage::CheckProcessor | Stage::CheckProber => {
                args.push(String::from_str("-h"));
            },
            Stage::Probe => {
                args.push(String::from_str("-i"));
                args.push(self.input.clone());
                args.push(String::from_str("-show_entries"));
                args.push(String::from_str("format=duration"));
                args.push(String::from_str("-v"));
                args.push(String::from_str("quiet"));
                args.push(String::from_str("-print_format"));
                args.push(String::from_str("csv=p=0"));
            },
            Stage::SpeedUp(f) => {
                args.push(String::from_str("-i"));
                args.push(self.input.clone());
                args.push(String::from_str("-filter:v"));
                args.push(setpts_filter(f));
                args.push(String::from_str("-y"));
                args.push(self.intermediate.clone());
            },
            Stage::Trim => {
                let trim = Seconds {
                    units: self.length.units + crate::decimal::pow10_u64(self.length.scale),
                    scale: self.length.scale,
                };
                args.push(String::from_str("-i"));
                args.push(self.intermediate.clone());
                args.push(String::from_str("-ss"));
                args.push(String::from_str("0.0"));
                args.push(String::from_str("-t"));
                args.push(seconds_string(trim));
                args.push(String::from_str("-y"));
                args.push(self.output.clone());
            },
            Stage::Finished(res) => {
                return Action::Stop(res);
            },
        }
        assert(strings_view(args@) =~= stage_args(*self));
        Action::Run { tool: stage_tool_exec(self.stage), args }
    }
}

fn stage_tool_exec(stage: Stage) -> (r: Tool)
    ensures
        r == stage_tool(stage),
{
    match stage {
        Stage::CheckProber | Stage::Probe => Tool::Prober,
        _ => Tool::Processor,
    }
}

} // verus!
