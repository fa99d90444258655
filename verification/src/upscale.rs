//! The upscale pipeline: decode the source into frames, upscale the frames,
//! encode them again with the sound of the source.
//!
//! The pipeline is a state machine. Its owner does what an `Action` asks
//! for (starts a process, counts files, tells the listeners) and reports
//! what happened as an `Event`; `UpscaleJob::step` decides what comes next.
//! Every path to the end removes the workspace first.

use vstd::prelude::*;
use vstd::string::*;
use crate::args::{
    clip_args, encoder_args, output_path, push_clip, push_encoder, push_seek, resolve_output_path,
    seek_args,
};
use crate::error::{ConversionError, ErrorKind};
use crate::lines::{
    frame_in_line, frame_number, has_transition_marker, is_percentage_line, percentage_line,
    transition_line,
};
use crate::number::{append_decimal, decimal_text};
use crate::progress::{
    decode_progress, decode_share, encode_progress, encode_share, estimate_total_frames,
    frame_count, frames_in, lemma_share_bounds, upscale_progress, upscale_share, Progress,
};
use crate::text::{append_chars, same_text, to_chars, trim, trimmed};
use crate::types::{ConversionConfig, ConversionTask, FrameRate};
use crate::utils::{parse_time, parsed_time};
use crate::video::{crop_filter, crop_filter_text, push_arg, push_pair};

verus! {

/// The three stages, in the order in which they run.
#[derive(Debug, Clone, Copy, PartialEq, Eq, Structural)]
pub enum Stage {
    Decode,
    Upscale,
    Encode,
}

/// Where a job stands.
#[derive(Debug, Clone, Copy, PartialEq, Eq, Structural)]
pub enum Phase {
    /// Nothing has been asked for yet.
    Idle,
    /// The workspace has been asked for.
    Preparing,
    /// The process of a stage has been asked for.
    Launching(Stage),
    /// The process of a stage runs.
    Running(Stage),
    /// The decoded frames are being counted.
    Counting,
    /// The job has ended, well or badly.
    Done,
}

/// What the owner of a job reports to it.
#[derive(Debug, Clone)]
pub enum Event {
    /// The job may start.
    Begin,
    /// The workspace is there.
    WorkspaceReady,
    /// The workspace could not be made.
    WorkspaceFailed { reason: String },
    /// The process asked for runs under this identifier.
    Spawned { pid: u32 },
    /// The process asked for could not be started.
    SpawnFailed { reason: String },
    /// The running process wrote a diagnostic line.
    Stderr { line: String },
    /// The running process ended with this exit code, if it has one.
    Terminated { code: Option<i32> },
    /// The running process fell silent without reporting its end.
    Closed,
    /// The decoded frames were counted; none where they could not be.
    FramesCounted { count: Option<u32> },
}

/// What a job asks of its owner.
#[derive(Debug, Clone)]
pub enum Action {
    /// Make the workspace anew, with its two directories.
    PrepareWorkspace { root: String, input_dir: String, output_dir: String },
    /// Start an external tool.
    Spawn { program: String, args: Vec<String> },
    /// Count the frame files in a directory.
    CountFrames { dir: String },
    /// Tell the listeners and the scheduler that a process runs.
    Started { id: String, pid: u32 },
    /// Tell the listeners how far the task is.
    Progress { id: String, value: Progress },
    /// Hand a diagnostic line to the listeners.
    Log { id: String, line: String },
    /// Remove the workspace and all that is in it.
    RemoveWorkspace { root: String },
    /// Tell the listeners that the task is done.
    Completed { id: String, output_path: String },
    /// End the task with this failure.
    Failed { error: ConversionError },
}

/// An action as plain values.
pub enum ActionView {
    PrepareWorkspace { root: Seq<char>, input_dir: Seq<char>, output_dir: Seq<char> },
    Spawn { program: Seq<char>, args: Seq<Seq<char>> },
    CountFrames { dir: Seq<char> },
    Started { id: Seq<char>, pid: u32 },
    Progress { id: Seq<char>, value: Progress },
    Log { id: Seq<char>, line: Seq<char> },
    RemoveWorkspace { root: Seq<char> },
    Completed { id: Seq<char>, output_path: Seq<char> },
    Failed { kind: ErrorKind, message: Seq<char> },
}

impl DeepView for Action {
    type V = ActionView;

    open spec fn deep_view(&self) -> ActionView {
        match *self {
            Action::PrepareWorkspace { root, input_dir, output_dir } => ActionView::PrepareWorkspace {
                root: root@,
                input_dir: input_dir@,
                output_dir: output_dir@,
            },
            Action::Spawn { program, args } => ActionView::Spawn {
                program: program@,
                args: args.deep_view(),
            },
            Action::CountFrames { dir } => ActionView::CountFrames { dir: dir@ },
            Action::Started { id, pid } => ActionView::Started { id: id@, pid },
            Action::Progress { id, value } => ActionView::Progress { id: id@, value },
            Action::Log { id, line } => ActionView::Log { id: id@, line: line@ },
            Action::RemoveWorkspace { root } => ActionView::RemoveWorkspace { root: root@ },
            Action::Completed { id, output_path } => ActionView::Completed {
                id: id@,
                output_path: output_path@,
            },
            Action::Failed { error } => ActionView::Failed {
                kind: error.kind_of(),
                message: error.text(),
            },
        }
    }
}

impl ActionView {
    /// Whether the action ends the task.
    pub open spec fn is_terminal(self) -> bool {
        self is Completed || self is Failed
    }
}

/// The upscaler's settings for a mode.
#[derive(Debug, Clone)]
pub struct UpscaleMode {
    pub scale: u32,
    pub model: String,
}

/// The scale and the model that a selector names; none for a selector
/// that names no mode.
pub open spec fn upscale_mode_of(selector: Option<String>) -> Option<(u32, Seq<char>)> {
    match selector {
        Some(s) => if s@ == "esrgan-2x"@ {
            Some((2u32, "realesr-animevideov3-x2"@))
        } else if s@ == "esrgan-4x"@ {
            Some((4u32, "realesr-animevideov3-x4"@))
        } else {
            None
        },
        None => None,
    }
}

/// Resolves the selector of the upscale mode.
pub fn resolve_upscale_mode(selector: &Option<String>) -> (mode: Result<UpscaleMode, ConversionError>)
    ensures
        match upscale_mode_of(*selector) {
            Some((scale, model)) => mode.is_ok() && mode.unwrap().scale == scale
                && mode.unwrap().model@ == model,
            None => mode.is_err() && mode.unwrap_err().kind_of() == ErrorKind::InvalidInput
                && mode.unwrap_err().text() == "Invalid upscale mode"@,
        },
{
    match selector {
        Some(s) => {
            if same_text(s.as_str(), "esrgan-2x") {
                return Ok(UpscaleMode { scale: 2, model: "realesr-animevideov3-x2".to_string() });
            } else if same_text(s.as_str(), "esrgan-4x") {
                return Ok(UpscaleMode { scale: 4, model: "realesr-animevideov3-x4".to_string() });
            }
        },
        None => {},
    }
    Err(ConversionError::InvalidInput("Invalid upscale mode".to_string()))
}

/// The time that a text states, or the fallback where it states none.
pub open spec fn time_or(text: Option<String>, fallback: u64) -> u64 {
    match text {
        Some(t) => match parsed_time(t@) {
            Some(v) => v,
            None => fallback,
        },
        None => fallback,
    }
}

/// The length in milliseconds of the stretch that is worked on: from the
/// start, or the beginning, to the end, or the full length.
pub open spec fn active_millis(config: &ConversionConfig, duration: Option<String>) -> u64 {
    let start = time_or(config.start_time, 0);
    let end = time_or(config.end_time, time_or(duration, 0));
    if end > start {
        (end - start) as u64
    } else {
        0
    }
}

/// Reads a time, falling back where there is none.
fn read_time_or(text: &Option<String>, fallback: u64) -> (time: u64)
    ensures
        time == time_or(*text, fallback),
{
    match text {
        Some(t) => match parse_time(t.as_str()) {
            Some(v) => v,
            None => fallback,
        },
        None => fallback,
    }
}

/// Computes the length of the stretch that is worked on.
pub fn active_duration(config: &ConversionConfig, duration: &Option<String>) -> (millis: u64)
    ensures
        millis == active_millis(config, *duration),
{
    let start = read_time_or(&config.start_time, 0);
    let full = read_time_or(duration, 0);
    let end = read_time_or(&config.end_time, full);
    if end > start {
        end - start
    } else {
        0
    }
}

/// The frame rate to work with: the reported one, or 30 frames per second
/// where none that makes sense is reported.
pub open spec fn rate_or_fallback(rate: Option<FrameRate>) -> FrameRate {
    match rate {
        Some(r) if r.wf() => r,
        _ => FrameRate { numerator: 30, denominator: 1 },
    }
}

/// The name of the workspace directory of a task.
pub open spec fn workspace_name(id: Seq<char>) -> Seq<char> {
    "frame_upscale_"@ + id
}

/// Names the workspace directory of a task, to be placed in the temporary
/// directory of the system.
pub fn workspace_dir_name(id: &str) -> (name: String)
    ensures
        name@ == workspace_name(id@),
{
    let mut name = "frame_upscale_".to_string();
    name.append(id);
    name
}

/// One task on its way through the pipeline.
#[derive(Debug, Clone)]
pub struct UpscaleJob {
    pub task: ConversionTask,
    pub mode: UpscaleMode,
    pub frame_rate: FrameRate,
    pub workspace: String,
    pub models_dir: String,
    pub output_path: String,
    pub phase: Phase,
    pub total_frames: u32,
    pub completed_frames: u32,
    pub last_line: String,
}

/// The directory of the decoded frames.
pub open spec fn input_dir_of(workspace: Seq<char>) -> Seq<char> {
    workspace + "/input"@
}

/// The directory of the upscaled frames.
pub open spec fn output_dir_of(workspace: Seq<char>) -> Seq<char> {
    workspace + "/output"@
}

/// The numbered frame files in a directory.
pub open spec fn frame_files_in(dir: Seq<char>) -> Seq<char> {
    dir + "/frame_%08d.png"@
}

/// A frame rate as the transcoder reads it.
pub open spec fn frame_rate_text(rate: FrameRate) -> Seq<char> {
    if rate.denominator == 1 {
        decimal_text(rate.numerator as nat)
    } else {
        decimal_text(rate.numerator as nat) + "/"@ + decimal_text(rate.denominator as nat)
    }
}

/// The crop of the decoding stage: a filter flag of its own.
pub open spec fn decode_crop_args(config: &ConversionConfig) -> Seq<Seq<char>> {
    match config.crop {
        Some(crop) if crop.enabled => seq!["-vf"@, crop_filter(crop)],
        _ => Seq::empty(),
    }
}

impl UpscaleJob {
    /// The arguments of the decoding stage: the stretch of the source that
    /// is worked on, cropped if asked for, as numbered frames.
    pub open spec fn decode_args(&self) -> Seq<Seq<char>> {
        seek_args(&self.task.config) + seq!["-i"@, self.task.file_path@] + clip_args(
            &self.task.config,
        ) + decode_crop_args(&self.task.config) + seq![
            frame_files_in(input_dir_of(self.workspace@)),
        ]
    }

    /// The arguments of the upscaling stage.
    pub open spec fn upscale_args(&self) -> Seq<Seq<char>> {
        seq![
            "-v"@,
            "-i"@,
            input_dir_of(self.workspace@),
            "-o"@,
            output_dir_of(self.workspace@),
            "-s"@,
            decimal_text(self.mode.scale as nat),
            "-f"@,
            "png"@,
            "-m"@,
            self.models_dir@,
            "-n"@,
            self.mode.model@,
            "-j"@,
            "4:4:4"@,
            "-g"@,
            "0"@,
            "-t"@,
            "0"@,
        ]
    }

    /// The arguments of the encoding stage: the upscaled frames as the
    /// first input, the source from the same start as the second, the
    /// picture of the first with the sound of the second.
    pub open spec fn encode_args(&self) -> Seq<Seq<char>> {
        seq![
            "-framerate"@,
            frame_rate_text(self.frame_rate),
            "-start_number"@,
            "1"@,
            "-i"@,
            frame_files_in(output_dir_of(self.workspace@)),
        ] + seek_args(&self.task.config) + seq![
            "-i"@,
            self.task.file_path@,
            "-map"@,
            "0:v:0"@,
            "-map"@,
            "1:a?"@,
        ] + encoder_args(&self.task.config) + seq![
            "-c:a"@,
            "copy"@,
            "-pix_fmt"@,
            "yuv420p"@,
            "-shortest"@,
            "-y"@,
            self.output_path@,
        ]
    }

    /// What ends a job badly: the workspace goes, then the failure is
    /// reported.
    pub open spec fn failure(&self, kind: ErrorKind, message: Seq<char>) -> Seq<ActionView> {
        seq![
            ActionView::RemoveWorkspace { root: self.workspace@ },
            ActionView::Failed { kind, message },
        ]
    }

    /// What a job asks for when the process of a stage is to start.
    pub open spec fn spawn_of(&self, stage: Stage) -> ActionView {
        match stage {
            Stage::Decode => ActionView::Spawn { program: "ffmpeg"@, args: self.decode_args() },
            Stage::Upscale => ActionView::Spawn {
                program: "realesrgan-ncnn-vulkan"@,
                args: self.upscale_args(),
            },
            Stage::Encode => ActionView::Spawn { program: "ffmpeg"@, args: self.encode_args() },
        }
    }
}

/// The tag in front of a line of a stage in the log.
pub open spec fn stage_tag(stage: Stage) -> Seq<char> {
    match stage {
        Stage::Decode => "[DECODE] "@,
        Stage::Upscale => "[UPSCALE] "@,
        Stage::Encode => "[ENCODE] "@,
    }
}

/// The number of finished frames after one more, held at what 32 bits
/// hold.
pub open spec fn one_more(completed: u32) -> u32 {
    if completed < u32::MAX {
        (completed + 1) as u32
    } else {
        completed
    }
}

/// The total number of frames after counting: the count where it is above
/// zero, else the estimate.
pub open spec fn reconciled_total(estimate: u32, count: Option<u32>) -> u32 {
    match count {
        Some(c) if c > 0 => c,
        _ => estimate,
    }
}

/// An exit code as the failure message shows it.
pub open spec fn exit_code_text(code: Option<i32>) -> Seq<char> {
    match code {
        Some(c) => "Some("@ + (if c < 0 {
            "-"@ + decimal_text((-c) as nat)
        } else {
            decimal_text(c as nat)
        }) + ")"@,
        None => "None"@,
    }
}

/// What a line of the transcoder leads to: the line in the log, and
/// progress where the line counts frames and the total is known.
pub open spec fn transcoder_line_actions(
    id: Seq<char>,
    stage: Stage,
    total: u32,
    line: Seq<char>,
) -> Seq<ActionView> {
    seq![ActionView::Log { id, line: stage_tag(stage) + trimmed(line) }] + (match frame_in_line(
        line,
    ) {
        Some(frame) if total > 0 => seq![
            ActionView::Progress {
                id,
                value: if stage == Stage::Decode {
                    decode_share(total, frame)
                } else {
                    encode_share(total, frame)
                },
            },
        ],
        _ => Seq::empty(),
    })
}

/// What a line of the upscaler leads to: the line in the log unless it is
/// blank or states only a percentage, and progress where the line reports
/// a finished frame. `completed` counts the frames finished before this
/// line.
pub open spec fn upscaler_line_actions(
    id: Seq<char>,
    total: u32,
    completed: u32,
    line: Seq<char>,
) -> Seq<ActionView> {
    (if !percentage_line(trimmed(line)) && trimmed(line).len() > 0 {
        seq![ActionView::Log { id, line: stage_tag(Stage::Upscale) + trimmed(line) }]
    } else {
        Seq::empty()
    }) + (if transition_line(line) {
        seq![ActionView::Progress { id, value: upscale_share(total, one_more(completed)) }]
    } else {
        Seq::empty()
    })
}

/// Whether a process ended well.
pub open spec fn succeeded(code: Option<i32>) -> bool {
    code == Some(0i32)
}

impl UpscaleJob {
    /// The phase after an event.
    pub open spec fn next_phase(&self, event: &Event) -> Phase {
        match (self.phase, *event) {
            (Phase::Idle, Event::Begin) => Phase::Preparing,
            (Phase::Preparing, Event::WorkspaceReady) => Phase::Launching(Stage::Decode),
            (Phase::Preparing, Event::WorkspaceFailed { .. }) => Phase::Done,
            (Phase::Launching(stage), Event::Spawned { .. }) => Phase::Running(stage),
            (Phase::Launching(_), Event::SpawnFailed { .. }) => Phase::Done,
            (Phase::Running(Stage::Decode), Event::Terminated { code }) => if succeeded(code) {
                Phase::Counting
            } else {
                Phase::Done
            },
            (Phase::Running(Stage::Upscale), Event::Terminated { code }) => if succeeded(code) {
                Phase::Launching(Stage::Encode)
            } else {
                Phase::Done
            },
            (Phase::Running(Stage::Encode), Event::Terminated { .. }) => Phase::Done,
            (Phase::Running(_), Event::Closed) => Phase::Done,
            (Phase::Counting, Event::FramesCounted { .. }) => Phase::Launching(Stage::Upscale),
            _ => self.phase,
        }
    }

    /// The total number of frames after an event.
    pub open spec fn next_total(&self, event: &Event) -> u32 {
        match (self.phase, *event) {
            (Phase::Counting, Event::FramesCounted { count }) => reconciled_total(
                self.total_frames,
                count,
            ),
            _ => self.total_frames,
        }
    }

    /// The number of upscaled frames after an event.
    pub open spec fn next_completed(&self, event: &Event) -> u32 {
        match (self.phase, *event) {
            (Phase::Running(Stage::Upscale), Event::Stderr { line }) => if transition_line(line@) {
                one_more(self.completed_frames)
            } else {
                self.completed_frames
            },
            _ => self.completed_frames,
        }
    }

    /// The last line of the upscaler after an event.
    pub open spec fn next_last_line(&self, event: &Event) -> Seq<char> {
        match (self.phase, *event) {
            (Phase::Running(Stage::Upscale), Event::Stderr { line }) => line@,
            _ => self.last_line@,
        }
    }

    /// A job is well formed when its plan fits its task: the mode is the one
    /// that the task selects, the output path the one that the task
    /// resolves to, and the frame rate one that can be counted with.
    pub open spec fn wf(&self) -> bool {
        &&& upscale_mode_of(self.task.config.ml_upscale) == Some(
            (self.mode.scale, self.mode.model@),
        )
        &&& self.output_path@ == output_path(
            self.task.file_path@,
            self.task.config.container@,
            self.task.output_name,
        )
        &&& self.frame_rate.wf()
    }

    /// Whether `after` is this job one event later: phase, counts and last
    /// line move as the event says, and the plan stays as it is.
    pub open spec fn leads_to(&self, event: &Event, after: &UpscaleJob) -> bool {
        &&& after.phase == self.next_phase(event)
        &&& after.total_frames == self.next_total(event)
        &&& after.completed_frames == self.next_completed(event)
        &&& after.last_line@ == self.next_last_line(event)
        &&& after.task == self.task
        &&& after.mode == self.mode
        &&& after.frame_rate == self.frame_rate
        &&& after.workspace == self.workspace
        &&& after.models_dir == self.models_dir
        &&& after.output_path == self.output_path
    }

    /// How a stage fails when its process ends badly or falls silent.
    pub open spec fn stage_failure(&self, stage: Stage, code: Option<i32>) -> Seq<ActionView> {
        match stage {
            Stage::Decode => self.failure(ErrorKind::Worker, "Frame extraction failed"@),
            Stage::Upscale => self.failure(
                ErrorKind::Worker,
                "Upscaling failed: "@ + self.last_line@,
            ),
            Stage::Encode => self.failure(
                ErrorKind::Worker,
                "Encoder failed with code "@ + exit_code_text(code),
            ),
        }
    }

    /// What a job asks for after an event, in order.
    pub open spec fn actions_for(&self, event: &Event) -> Seq<ActionView> {
        match (self.phase, *event) {
            (Phase::Idle, Event::Begin) => seq![
                ActionView::PrepareWorkspace {
                    root: self.workspace@,
                    input_dir: input_dir_of(self.workspace@),
                    output_dir: output_dir_of(self.workspace@),
                },
            ],
            (Phase::Preparing, Event::WorkspaceReady) => seq![self.spawn_of(Stage::Decode)],
            (Phase::Preparing, Event::WorkspaceFailed { reason }) => self.failure(
                ErrorKind::Io,
                reason@,
            ),
            (Phase::Launching(stage), Event::Spawned { pid }) => if stage == Stage::Decode {
                seq![
                    ActionView::Started { id: self.task.id@, pid },
                    ActionView::Progress {
                        id: self.task.id@,
                        value: Progress { numerator: 0, denominator: 1 },
                    },
                ]
            } else {
                seq![ActionView::Started { id: self.task.id@, pid }]
            },
            (Phase::Launching(_), Event::SpawnFailed { reason }) => self.failure(
                ErrorKind::Shell,
                reason@,
            ),
            (Phase::Running(Stage::Upscale), Event::Stderr { line }) => upscaler_line_actions(
                self.task.id@,
                self.total_frames,
                self.completed_frames,
                line@,
            ),
            (Phase::Running(stage), Event::Stderr { line }) => transcoder_line_actions(
                self.task.id@,
                stage,
                self.total_frames,
                line@,
            ),
            (Phase::Running(Stage::Decode), Event::Terminated { code }) => if succeeded(code) {
                seq![ActionView::CountFrames { dir: input_dir_of(self.workspace@) }]
            } else {
                self.stage_failure(Stage::Decode, code)
            },
            (Phase::Running(Stage::Upscale), Event::Terminated { code }) => if succeeded(code) {
                seq![self.spawn_of(Stage::Encode)]
            } else {
                self.stage_failure(Stage::Upscale, code)
            },
            (Phase::Running(Stage::Encode), Event::Terminated { code }) => if succeeded(code) {
                seq![
                    ActionView::RemoveWorkspace { root: self.workspace@ },
                    ActionView::Completed { id: self.task.id@, output_path: self.output_path@ },
                ]
            } else {
                self.stage_failure(Stage::Encode, code)
            },
            (Phase::Running(stage), Event::Closed) => self.stage_failure(stage, None),
            (Phase::Counting, Event::FramesCounted { .. }) => seq![self.spawn_of(Stage::Upscale)],
            _ => Seq::empty(),
        }
    }
}

/// Appends one action.
fn push_action(actions: &mut Vec<Action>, action: Action)
    ensures
        final(actions).deep_view() == old(actions).deep_view().push(action.deep_view()),
{
    actions.push(action);
    assert(actions.deep_view() =~= old(actions).deep_view().push(action.deep_view()));
}

/// Writes an exit code for a failure message.
fn exit_code_string(code: Option<i32>) -> (text: String)
    ensures
        text@ == exit_code_text(code),
{
    match code {
        Some(c) => {
            let mut text = "Some(".to_string();
            if c < 0 {
                text.append("-");
                append_decimal(&mut text, (-(c as i64)) as u64);
            } else {
                append_decimal(&mut text, c as u64);
            }
            text.append(")");
            assert(text@ =~= exit_code_text(code));
            text
        },
        None => "None".to_string(),
    }
}

/// A line behind its tag.
fn tagged_line(tag: &str, line: &[char]) -> (text: String)
    ensures
        text@ == tag@ + line@,
{
    let mut text = tag.to_string();
    append_chars(&mut text, line);
    text
}

/// Writes a frame rate for the transcoder.
fn frame_rate_string(rate: &FrameRate) -> (text: String)
    ensures
        text@ == frame_rate_text(*rate),
{
    let mut text = String::new();
    append_decimal(&mut text, rate.numerator);
    if rate.denominator != 1 {
        text.append("/");
        append_decimal(&mut text, rate.denominator);
    }
    assert(text@ =~= frame_rate_text(*rate));
    text
}

impl UpscaleJob {
    /// Plans the work on a task. `frame_rate` and `duration` are what a
    /// probe of the source reported, `workspace` is the directory that the
    /// job may fill and `models_dir` the directory of the upscaler's
    /// models.
    pub fn new(
        task: ConversionTask,
        frame_rate: Option<FrameRate>,
        duration: Option<String>,
        workspace: String,
        models_dir: String,
    ) -> (job: Result<UpscaleJob, ConversionError>)
        ensures
            match upscale_mode_of(task.config.ml_upscale) {
                None => job.is_err() && job.unwrap_err().kind_of() == ErrorKind::InvalidInput
                    && job.unwrap_err().text() == "Invalid upscale mode"@,
                Some((scale, model)) => {
                    &&& job.is_ok()
                    &&& job.unwrap().wf()
                    &&& job.unwrap().task == task
                    &&& job.unwrap().mode.scale == scale
                    &&& job.unwrap().mode.model@ == model
                    &&& job.unwrap().frame_rate == rate_or_fallback(frame_rate)
                    &&& job.unwrap().workspace == workspace
                    &&& job.unwrap().models_dir == models_dir
                    &&& job.unwrap().output_path@ == output_path(
                        task.file_path@,
                        task.config.container@,
                        task.output_name,
                    )
                    &&& job.unwrap().phase == Phase::Idle
                    &&& job.unwrap().total_frames == frame_count(
                        frames_in(
                            active_millis(&task.config, duration) as int,
                            rate_or_fallback(frame_rate),
                        ),
                    )
                    &&& job.unwrap().completed_frames == 0
                    &&& job.unwrap().last_line@ == Seq::<char>::empty()
                },
            },
    {
        let mode = match resolve_upscale_mode(&task.config.ml_upscale) {
            Ok(mode) => mode,
            Err(e) => {
                return Err(e);
            },
        };
        let output_path = resolve_output_path(
            task.file_path.as_str(),
            task.config.container.as_str(),
            &task.output_name,
        );
        let rate = match frame_rate {
            Some(r) => if r.denominator > 0 {
                r
            } else {
                FrameRate::fallback()
            },
            None => FrameRate::fallback(),
        };
        let total_frames = estimate_total_frames(active_duration(&task.config, &duration), rate);
        Ok(
            UpscaleJob {
                task,
                mode,
                frame_rate: rate,
                workspace,
                models_dir,
                output_path,
                phase: Phase::Idle,
                total_frames,
                completed_frames: 0,
                last_line: String::new(),
            },
        )
    }

    /// The directory of the decoded frames.
    fn input_dir(&self) -> (dir: String)
        ensures
            dir@ == input_dir_of(self.workspace@),
    {
        let mut dir = self.workspace.clone();
        dir.append("/input");
        dir
    }

    /// The directory of the upscaled frames.
    fn output_dir(&self) -> (dir: String)
        ensures
            dir@ == output_dir_of(self.workspace@),
    {
        let mut dir = self.workspace.clone();
        dir.append("/output");
        dir
    }

    /// Builds the arguments of the decoding stage.
    pub fn build_decode_args(&self) -> (args: Vec<String>)
        ensures
            args.deep_view() == self.decode_args(),
    {
        let mut args: Vec<String> = Vec::new();
        assert(args.deep_view() =~= Seq::<Seq<char>>::empty());
        push_seek(&mut args, &self.task.config);
        push_pair(&mut args, "-i", self.task.file_path.clone());
        push_clip(&mut args, &self.task.config);
        let ghost clipped = args.deep_view();
        match &self.task.config.crop {
            Some(crop) => {
                if crop.enabled {
                    push_pair(&mut args, "-vf", crop_filter_text(crop));
                }
            },
            None => {},
        }
        assert(args.deep_view() =~= clipped + decode_crop_args(&self.task.config));
        let mut frames = self.input_dir();
        frames.append("/frame_%08d.png");
        push_arg(&mut args, frames);
        assert(args.deep_view() =~= self.decode_args());
        args
    }

    /// Builds the arguments of the upscaling stage.
    pub fn build_upscale_args(&self) -> (args: Vec<String>)
        ensures
            args.deep_view() == self.upscale_args(),
    {
        let mut args: Vec<String> = Vec::new();
        assert(args.deep_view() =~= Seq::<Seq<char>>::empty());
        push_arg(&mut args, "-v".to_string());
        push_pair(&mut args, "-i", self.input_dir());
        push_pair(&mut args, "-o", self.output_dir());
        let mut scale = String::new();
        append_decimal(&mut scale, self.mode.scale as u64);
        assert(scale@ =~= decimal_text(self.mode.scale as nat));
        push_pair(&mut args, "-s", scale);
        push_pair(&mut args, "-f", "png".to_string());
        push_pair(&mut args, "-m", self.models_dir.clone());
        push_pair(&mut args, "-n", self.mode.model.clone());
        push_pair(&mut args, "-j", "4:4:4".to_string());
        push_pair(&mut args, "-g", "0".to_string());
        push_pair(&mut args, "-t", "0".to_string());
        assert(args.deep_view() =~= self.upscale_args());
        args
    }

    /// Builds the arguments of the encoding stage.
    pub fn build_encode_args(&self) -> (args: Vec<String>)
        ensures
            args.deep_view() == self.encode_args(),
    {
        let mut args: Vec<String> = Vec::new();
        assert(args.deep_view() =~= Seq::<Seq<char>>::empty());
        push_pair(&mut args, "-framerate", frame_rate_string(&self.frame_rate));
        push_pair(&mut args, "-start_number", "1".to_string());
        let mut frames = self.output_dir();
        frames.append("/frame_%08d.png");
        push_pair(&mut args, "-i", frames);
        let ghost head = args.deep_view();
        push_seek(&mut args, &self.task.config);
        push_pair(&mut args, "-i", self.task.file_path.clone());
        push_pair(&mut args, "-map", "0:v:0".to_string());
        push_pair(&mut args, "-map", "1:a?".to_string());
        let ghost mapped = args.deep_view();
        push_encoder(&mut args, &self.task.config);
        let ghost encoded = args.deep_view();
        push_pair(&mut args, "-c:a", "copy".to_string());
        push_pair(&mut args, "-pix_fmt", "yuv420p".to_string());
        push_arg(&mut args, "-shortest".to_string());
        push_pair(&mut args, "-y", self.output_path.clone());
        assert(args.deep_view() =~= self.encode_args());
        args
    }

    /// The request to start the process of a stage.
    fn spawn(&self, stage: Stage) -> (action: Action)
        ensures
            action.deep_view() == self.spawn_of(stage),
    {
        match stage {
            Stage::Decode => Action::Spawn {
                program: "ffmpeg".to_string(),
                args: self.build_decode_args(),
            },
            Stage::Upscale => Action::Spawn {
                program: "realesrgan-ncnn-vulkan".to_string(),
                args: self.build_upscale_args(),
            },
            Stage::Encode => Action::Spawn {
                program: "ffmpeg".to_string(),
                args: self.build_encode_args(),
            },
        }
    }

    /// Appends the removal of the workspace and the failure.
    fn fail(&self, actions: &mut Vec<Action>, error: ConversionError)
        ensures
            final(actions).deep_view() == old(actions).deep_view() + self.failure(
                error.kind_of(),
                error.text(),
            ),
    {
        push_action(actions, Action::RemoveWorkspace { root: self.workspace.clone() });
        push_action(actions, Action::Failed { error });
        assert(actions.deep_view() =~= old(actions).deep_view() + self.failure(
            error.kind_of(),
            error.text(),
        ));
    }

    /// Appends the failure of a stage.
    fn fail_stage(&self, actions: &mut Vec<Action>, stage: Stage, code: Option<i32>)
        ensures
            final(actions).deep_view() == old(actions).deep_view() + self.stage_failure(stage, code),
    {
        let message = match stage {
            Stage::Decode => "Frame extraction failed".to_string(),
            Stage::Upscale => {
                let mut message = "Upscaling failed: ".to_string();
                message.append(self.last_line.as_str());
                message
            },
            Stage::Encode => {
                let mut message = "Encoder failed with code ".to_string();
                let code_text = exit_code_string(code);
                message.append(code_text.as_str());
                message
            },
        };
        self.fail(actions, ConversionError::Worker(message));
    }

    /// Handles a line of the transcoder.
    fn transcoder_line(&self, actions: &mut Vec<Action>, stage: Stage, line: &str)
        requires
            stage != Stage::Upscale,
        ensures
            final(actions).deep_view() == old(actions).deep_view() + transcoder_line_actions(
                self.task.id@,
                stage,
                self.total_frames,
                line@,
            ),
    {
        let chars = to_chars(line);
        let shown = trim(chars.as_slice());
        let tag = match stage {
            Stage::Decode => "[DECODE] ",
            Stage::Upscale => "[UPSCALE] ",
            Stage::Encode => "[ENCODE] ",
        };
        push_action(
            actions,
            Action::Log { id: self.task.id.clone(), line: tagged_line(tag, shown) },
        );
        let ghost logged = actions.deep_view();
        match frame_number(line) {
            Some(frame) => {
                let progress = match stage {
                    Stage::Decode => decode_progress(self.total_frames, frame),
                    _ => encode_progress(self.total_frames, frame),
                };
                match progress {
                    Some(value) => {
                        push_action(actions, Action::Progress { id: self.task.id.clone(), value });
                    },
                    None => {},
                }
            },
            None => {},
        }
        assert(actions.deep_view() =~= old(actions).deep_view() + transcoder_line_actions(
            self.task.id@,
            stage,
            self.total_frames,
            line@,
        ));
    }

    /// Handles a line of the upscaler.
    fn upscaler_line(&mut self, actions: &mut Vec<Action>, line: String)
        ensures
            final(actions).deep_view() == old(actions).deep_view() + upscaler_line_actions(
                old(self).task.id@,
                old(self).total_frames,
                old(self).completed_frames,
                line@,
            ),
            final(self).completed_frames == (if transition_line(line@) {
                one_more(old(self).completed_frames)
            } else {
                old(self).completed_frames
            }),
            final(self).last_line == line,
            final(self).task == old(self).task,
            final(self).mode == old(self).mode,
            final(self).frame_rate == old(self).frame_rate,
            final(self).workspace == old(self).workspace,
            final(self).models_dir == old(self).models_dir,
            final(self).output_path == old(self).output_path,
            final(self).phase == old(self).phase,
            final(self).total_frames == old(self).total_frames,
    {
        let chars = to_chars(line.as_str());
        let shown = trim(chars.as_slice());
        if !is_percentage_line(shown) && shown.len() > 0 {
            push_action(
                actions,
                Action::Log { id: self.task.id.clone(), line: tagged_line("[UPSCALE] ", shown) },
            );
        }
        let ghost logged = actions.deep_view();
        if has_transition_marker(chars.as_slice()) {
            if self.completed_frames < u32::MAX {
                self.completed_frames = self.completed_frames + 1;
            }
            push_action(
                actions,
                Action::Progress {
                    id: self.task.id.clone(),
                    value: upscale_progress(self.total_frames, self.completed_frames),
                },
            );
        }
        self.last_line = line;
        assert(actions.deep_view() =~= old(actions).deep_view() + upscaler_line_actions(
            old(self).task.id@,
            old(self).total_frames,
            old(self).completed_frames,
            line@,
        ));
    }

    /// Takes in what happened and says what to do next.
    pub fn step(&mut self, event: Event) -> (actions: Vec<Action>)
        ensures
            old(self).leads_to(&event, final(self)),
            old(self).wf() ==> final(self).wf(),
            final(self).phase == old(self).next_phase(&event),
            final(self).total_frames == old(self).next_total(&event),
            final(self).completed_frames == old(self).next_completed(&event),
            final(self).last_line@ == old(self).next_last_line(&event),
            final(self).task == old(self).task,
            final(self).mode == old(self).mode,
            final(self).frame_rate == old(self).frame_rate,
            final(self).workspace == old(self).workspace,
            final(self).models_dir == old(self).models_dir,
            final(self).output_path == old(self).output_path,
            actions.deep_view() == old(self).actions_for(&event),
    {
        let mut actions: Vec<Action> = Vec::new();
        assert(actions.deep_view() =~= Seq::<ActionView>::empty());
        let phase = self.phase;
        match event {
            Event::Begin => {
                if phase == Phase::Idle {
                    push_action(
                        &mut actions,
                        Action::PrepareWorkspace {
                            root: self.workspace.clone(),
                            input_dir: self.input_dir(),
                            output_dir: self.output_dir(),
                        },
                    );
                    self.phase = Phase::Preparing;
                }
            },
            Event::WorkspaceReady => {
                if phase == Phase::Preparing {
                    push_action(&mut actions, self.spawn(Stage::Decode));
                    self.phase = Phase::Launching(Stage::Decode);
                }
            },
            Event::WorkspaceFailed { reason } => {
                if phase == Phase::Preparing {
                    self.fail(&mut actions, ConversionError::Io(reason));
                    self.phase = Phase::Done;
                }
            },
            Event::Spawned { pid } => {
                match phase {
                    Phase::Launching(stage) => {
                        push_action(&mut actions, Action::Started { id: self.task.id.clone(), pid });
                        if stage == Stage::Decode {
                            push_action(
                                &mut actions,
                                Action::Progress { id: self.task.id.clone(), value: Progress::zero() },
                            );
                        }
                        self.phase = Phase::Running(stage);
                    },
                    _ => {},
                }
            },
            Event::SpawnFailed { reason } => {
                match phase {
                    Phase::Launching(_) => {
                        self.fail(&mut actions, ConversionError::Shell(reason));
                        self.phase = Phase::Done;
                    },
                    _ => {},
                }
            },
            Event::Stderr { line } => {
                match phase {
                    Phase::Running(Stage::Upscale) => {
                        self.upscaler_line(&mut actions, line);
                    },
                    Phase::Running(stage) => {
                        self.transcoder_line(&mut actions, stage, line.as_str());
                    },
                    _ => {},
                }
            },
            Event::Terminated { code } => {
                let ok = match code {
                    Some(c) => c == 0,
                    None => false,
                };
                match phase {
                    Phase::Running(Stage::Decode) => {
                        if ok {
                            push_action(&mut actions, Action::CountFrames { dir: self.input_dir() });
                            self.phase = Phase::Counting;
                        } else {
                            self.fail_stage(&mut actions, Stage::Decode, code);
                            self.phase = Phase::Done;
                        }
                    },
                    Phase::Running(Stage::Upscale) => {
                        if ok {
                            push_action(&mut actions, self.spawn(Stage::Encode));
                            self.phase = Phase::Launching(Stage::Encode);
                        } else {
                            self.fail_stage(&mut actions, Stage::Upscale, code);
                            self.phase = Phase::Done;
                        }
                    },
                    Phase::Running(Stage::Encode) => {
                        if ok {
                            push_action(
                                &mut actions,
                                Action::RemoveWorkspace { root: self.workspace.clone() },
                            );
                            push_action(
                                &mut actions,
                                Action::Completed {
                                    id: self.task.id.clone(),
                                    output_path: self.output_path.clone(),
                                },
                            );
                        } else {
                            self.fail_stage(&mut actions, Stage::Encode, code);
                        }
                        self.phase = Phase::Done;
                    },
                    _ => {},
                }
            },
            Event::Closed => {
                match phase {
                    Phase::Running(stage) => {
                        self.fail_stage(&mut actions, stage, None);
                        self.phase = Phase::Done;
                    },
                    _ => {},
                }
            },
            Event::FramesCounted { count } => {
                if phase == Phase::Counting {
                    match count {
                        Some(c) => {
                            if c > 0 {
                                self.total_frames = c;
                            }
                        },
                        None => {},
                    }
                    push_action(&mut actions, self.spawn(Stage::Upscale));
                    self.phase = Phase::Launching(Stage::Upscale);
                }
            },
        }
        assert(actions.deep_view() =~= old(self).actions_for(&event));
        actions
    }
}

/// The share of the whole that a stage reports in.
pub open spec fn stage_range(stage: Stage, value: Progress) -> bool {
    match stage {
        Stage::Decode => value.within(0, 5),
        Stage::Upscale => value.within(5, 90),
        Stage::Encode => value.within(90, 99),
    }
}

/// How far a phase is along the way of a job.
pub open spec fn phase_rank(phase: Phase) -> nat {
    match phase {
        Phase::Idle => 0,
        Phase::Preparing => 1,
        Phase::Launching(Stage::Decode) => 2,
        Phase::Running(Stage::Decode) => 3,
        Phase::Counting => 4,
        Phase::Launching(Stage::Upscale) => 5,
        Phase::Running(Stage::Upscale) => 6,
        Phase::Launching(Stage::Encode) => 7,
        Phase::Running(Stage::Encode) => 8,
        Phase::Done => 9,
    }
}

/// The stage that a phase belongs to, if any.
pub open spec fn stage_of(phase: Phase) -> Option<Stage> {
    match phase {
        Phase::Launching(stage) => Some(stage),
        Phase::Running(stage) => Some(stage),
        _ => None,
    }
}

/// Whatever progress a step reports lies in the share of the stage that
/// the job is in, and so below 100 percent: the whole is reached by
/// completion alone.
pub proof fn lemma_progress_in_stage_range(job: &UpscaleJob, event: &Event, i: int)
    requires
        0 <= i < job.actions_for(event).len(),
        job.actions_for(event)[i] is Progress,
    ensures
        stage_of(job.phase).is_some(),
        stage_range(stage_of(job.phase).unwrap(), job.actions_for(event)[i]->Progress_value),
        !(job.actions_for(event)[i]->Progress_value).at_least(100),
{
    let value = job.actions_for(event)[i]->Progress_value;
    match (job.phase, *event) {
        (Phase::Launching(stage), Event::Spawned { pid }) => {},
        (Phase::Running(Stage::Upscale), Event::Stderr { line }) => {
            lemma_share_bounds(job.total_frames, one_more(job.completed_frames));
        },
        (Phase::Running(Stage::Decode), Event::Stderr { line }) => {
            let frame = frame_in_line(line@).unwrap();
            lemma_share_bounds(job.total_frames, frame);
        },
        (Phase::Running(Stage::Encode), Event::Stderr { line }) => {
            let frame = frame_in_line(line@).unwrap();
            lemma_share_bounds(job.total_frames, frame);
        },
        _ => {},
    }
}

/// A job never goes back: no event leads to an earlier phase.
pub proof fn lemma_phase_never_goes_back(job: &UpscaleJob, event: &Event)
    ensures
        phase_rank(job.next_phase(event)) >= phase_rank(job.phase),
        job.phase == Phase::Done ==> job.next_phase(event) == Phase::Done,
{
}

/// A job ends once, and never without removing its workspace. A step
/// reports the end of the task exactly when it takes the job to its last
/// phase; it then asks for two things, the removal of the workspace and,
/// after it, the one report. A job that has ended asks for nothing more.
pub proof fn lemma_ends_once_and_clean(job: &UpscaleJob, event: &Event)
    ensures
        job.phase == Phase::Done ==> job.actions_for(event).len() == 0,
        job.phase != Phase::Done && job.next_phase(event) == Phase::Done ==> {
            &&& job.actions_for(event).len() == 2
            &&& job.actions_for(event)[0] == (ActionView::RemoveWorkspace { root: job.workspace@ })
            &&& job.actions_for(event)[1].is_terminal()
        },
        forall|i: int|
            0 <= i < job.actions_for(event).len() && (#[trigger] job.actions_for(
                event,
            )[i]).is_terminal() ==> job.phase != Phase::Done && job.next_phase(event)
                == Phase::Done,
        forall|i: int|
            0 <= i < job.actions_for(event).len() && #[trigger] job.actions_for(event)[i]
                is Completed ==> job.phase == Phase::Running(Stage::Encode) && *event == (
            Event::Terminated { code: Some(0i32) }),
{
}

/// The stages run one after the other: a job asks for a process only
/// while none runs, or at the very step at which the running one reports a
/// good end; and having asked, it waits for that process to start.
pub proof fn lemma_spawns_follow_exits(job: &UpscaleJob, event: &Event, i: int)
    requires
        0 <= i < job.actions_for(event).len(),
        job.actions_for(event)[i] is Spawn,
    ensures
        job.phase is Running ==> *event is Terminated && succeeded(event->Terminated_code),
        job.next_phase(event) is Launching,
        job.actions_for(event)[i] == job.spawn_of(stage_of(job.next_phase(event)).unwrap()),
        job.actions_for(event).len() == 1,
{
}

/// The task that a report names: every report to the listeners names one.
pub open spec fn task_named(action: ActionView) -> Option<Seq<char>> {
    match action {
        ActionView::Started { id, .. } => Some(id),
        ActionView::Progress { id, .. } => Some(id),
        ActionView::Log { id, .. } => Some(id),
        ActionView::Completed { id, .. } => Some(id),
        _ => None,
    }
}

/// Every report to the listeners carries the identifier of the task, and
/// completion carries the path that was resolved when the job was planned.
pub proof fn lemma_reports_carry_the_task(job: &UpscaleJob, event: &Event, i: int)
    requires
        0 <= i < job.actions_for(event).len(),
    ensures
        task_named(job.actions_for(event)[i]).is_some() ==> task_named(job.actions_for(event)[i])
            == Some(job.task.id@),
        job.actions_for(event)[i] is Completed ==> job.actions_for(event)[i]->Completed_output_path
            == job.output_path@,
        job.actions_for(event)[i] is RemoveWorkspace ==> job.actions_for(
            event,
        )[i]->RemoveWorkspace_root == job.workspace@,
{
}

} // verus!
