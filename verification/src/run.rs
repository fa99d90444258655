//! What holds of every run of an upscale job: of any sequence of events
//! and the states that `UpscaleJob::step` takes the job through.

use vstd::prelude::*;
use crate::lines::frame_in_line;
use crate::progress::{
    decode_share, encode_share, lemma_bounds_give_order, lemma_progress_rises_with_frames,
    upscale_share, Progress,
};
use crate::upscale::{
    lemma_ends_once_and_clean, lemma_phase_never_goes_back, lemma_progress_in_stage_range,
    one_more, phase_rank, stage_of, ActionView, Event, Phase, Stage, UpscaleJob,
};

verus! {

/// A run: the states of one job in order, each the one before it after the
/// event between them.
pub open spec fn is_run(jobs: Seq<UpscaleJob>, events: Seq<Event>) -> bool {
    &&& jobs.len() == events.len() + 1
    &&& forall|i: int|
        0 <= i < events.len() ==> (#[trigger] jobs[i]).leads_to(&events[i], &jobs[i + 1])
}

/// What the job asks for at step `i` of a run.
pub open spec fn asked_at(jobs: Seq<UpscaleJob>, events: Seq<Event>, i: int) -> Seq<ActionView> {
    jobs[i].actions_for(&events[i])
}

/// The frame number that the transcoder reports at step `i`, if that step
/// is a line of the transcoder with a frame counter.
pub open spec fn frame_reported_at(jobs: Seq<UpscaleJob>, events: Seq<Event>, i: int) -> Option<
    u32,
> {
    match (jobs[i].phase, events[i]) {
        (Phase::Running(Stage::Decode), Event::Stderr { line }) => frame_in_line(line@),
        (Phase::Running(Stage::Encode), Event::Stderr { line }) => frame_in_line(line@),
        _ => None,
    }
}

/// Whether the transcoder's frame counter never falls within a stage.
pub open spec fn frames_never_fall(jobs: Seq<UpscaleJob>, events: Seq<Event>) -> bool {
    forall|i: int, j: int|
        0 <= i < j < events.len() && jobs[i].phase == jobs[j].phase && (#[trigger] frame_reported_at(
            jobs,
            events,
            i,
        )).is_some() && (#[trigger] frame_reported_at(jobs, events, j)).is_some()
            ==> frame_reported_at(jobs, events, i).unwrap() <= frame_reported_at(
            jobs,
            events,
            j,
        ).unwrap()
}

/// Along a run the job never goes back to an earlier phase, the count of
/// upscaled frames never falls, and the plan (the workspace among it)
/// stays the same.
pub proof fn lemma_run_moves_forward(jobs: Seq<UpscaleJob>, events: Seq<Event>, i: int, j: int)
    requires
        is_run(jobs, events),
        0 <= i <= j < jobs.len(),
    ensures
        phase_rank(jobs[i].phase) <= phase_rank(jobs[j].phase),
        jobs[i].completed_frames <= jobs[j].completed_frames,
        jobs[i].workspace == jobs[j].workspace,
        jobs[i].task == jobs[j].task,
        jobs[i].phase == jobs[j].phase ==> jobs[i].total_frames == jobs[j].total_frames,
    decreases j - i,
{
    if i < j {
        lemma_run_moves_forward(jobs, events, i, j - 1);
        assert(jobs[j - 1].leads_to(&events[j - 1], &jobs[j]));
        lemma_phase_never_goes_back(&jobs[j - 1], &events[j - 1]);
    }
}

/// A run ends at most once: if two steps report the end of the task, they
/// are the same step and the same report. The workspace is asked to be
/// removed just before.
pub proof fn lemma_run_ends_once(
    jobs: Seq<UpscaleJob>,
    events: Seq<Event>,
    i: int,
    a: int,
    j: int,
    b: int,
)
    requires
        is_run(jobs, events),
        0 <= i < events.len(),
        0 <= j < events.len(),
        0 <= a < asked_at(jobs, events, i).len(),
        0 <= b < asked_at(jobs, events, j).len(),
        asked_at(jobs, events, i)[a].is_terminal(),
        asked_at(jobs, events, j)[b].is_terminal(),
    ensures
        i == j,
        a == b,
        a == 1,
        asked_at(jobs, events, i)[0] == (ActionView::RemoveWorkspace { root: jobs[0].workspace@ }),
        jobs[i + 1].phase == Phase::Done,
{
    lemma_ends_once_and_clean(&jobs[i], &events[i]);
    lemma_ends_once_and_clean(&jobs[j], &events[j]);
    assert(jobs[i].leads_to(&events[i], &jobs[i + 1]));
    assert(jobs[j].leads_to(&events[j], &jobs[j + 1]));
    lemma_run_moves_forward(jobs, events, 0, i);
    if i < j {
        lemma_run_moves_forward(jobs, events, i + 1, j);
    } else if j < i {
        lemma_run_moves_forward(jobs, events, j + 1, i);
    }
}

/// Once a run has reported the end of the task, the job asks for nothing
/// more.
pub proof fn lemma_run_is_silent_after_the_end(
    jobs: Seq<UpscaleJob>,
    events: Seq<Event>,
    i: int,
    a: int,
    j: int,
)
    requires
        is_run(jobs, events),
        0 <= i < j < events.len(),
        0 <= a < asked_at(jobs, events, i).len(),
        asked_at(jobs, events, i)[a].is_terminal(),
    ensures
        asked_at(jobs, events, j).len() == 0,
{
    lemma_ends_once_and_clean(&jobs[i], &events[i]);
    lemma_ends_once_and_clean(&jobs[j], &events[j]);
    assert(jobs[i].leads_to(&events[i], &jobs[i + 1]));
    lemma_run_moves_forward(jobs, events, i + 1, j);
}

/// A step reports progress at most once.
pub proof fn lemma_one_progress_a_step(job: &UpscaleJob, event: &Event, a: int, b: int)
    requires
        0 <= a < job.actions_for(event).len(),
        0 <= b < job.actions_for(event).len(),
        job.actions_for(event)[a] is Progress,
        job.actions_for(event)[b] is Progress,
    ensures
        a == b,
{
}

/// What progress a step reports, told by the state it starts from.
proof fn lemma_progress_of_step(job: &UpscaleJob, event: &Event, a: int)
    requires
        0 <= a < job.actions_for(event).len(),
        job.actions_for(event)[a] is Progress,
    ensures
        ({
            let value = job.actions_for(event)[a]->Progress_value;
            match job.phase {
                Phase::Launching(stage) => stage == Stage::Decode && value == (Progress {
                    numerator: 0,
                    denominator: 1,
                }),
                Phase::Running(Stage::Decode) => job.total_frames > 0 && *event is Stderr
                    && frame_in_line(event->Stderr_line@).is_some() && value
                    == decode_share(
                    job.total_frames,
                    frame_in_line(event->Stderr_line@).unwrap(),
                ),
                Phase::Running(Stage::Encode) => job.total_frames > 0 && *event is Stderr
                    && frame_in_line(event->Stderr_line@).is_some() && value
                    == encode_share(
                    job.total_frames,
                    frame_in_line(event->Stderr_line@).unwrap(),
                ),
                Phase::Running(Stage::Upscale) => value == upscale_share(
                    job.total_frames,
                    one_more(job.completed_frames),
                ) && job.next_completed(event) == one_more(job.completed_frames),
                _ => false,
            }
        }),
{
}

/// Progress never falls along a run, as long as the transcoder's frame
/// counter does not fall within a stage: of two reports of progress, the
/// later is no less than the earlier.
pub proof fn lemma_run_progress_never_falls(
    jobs: Seq<UpscaleJob>,
    events: Seq<Event>,
    i: int,
    a: int,
    j: int,
    b: int,
)
    requires
        is_run(jobs, events),
        frames_never_fall(jobs, events),
        0 <= i <= j < events.len(),
        0 <= a < asked_at(jobs, events, i).len(),
        0 <= b < asked_at(jobs, events, j).len(),
        asked_at(jobs, events, i)[a] is Progress,
        asked_at(jobs, events, j)[b] is Progress,
    ensures
        (asked_at(jobs, events, i)[a]->Progress_value).le(
            asked_at(jobs, events, j)[b]->Progress_value,
        ),
{
    let early = asked_at(jobs, events, i)[a]->Progress_value;
    let late = asked_at(jobs, events, j)[b]->Progress_value;
    lemma_progress_in_stage_range(&jobs[i], &events[i], a);
    lemma_progress_in_stage_range(&jobs[j], &events[j], b);
    lemma_progress_of_step(&jobs[i], &events[i], a);
    lemma_progress_of_step(&jobs[j], &events[j], b);
    if i == j {
        lemma_one_progress_a_step(&jobs[i], &events[i], a, b);
    } else {
        lemma_run_moves_forward(jobs, events, i, j);
        assert(jobs[i].leads_to(&events[i], &jobs[i + 1]));
        lemma_run_moves_forward(jobs, events, i + 1, j);
        let first = stage_of(jobs[i].phase).unwrap();
        let second = stage_of(jobs[j].phase).unwrap();
        if first != second {
            if first == Stage::Decode {
                lemma_bounds_give_order(early, late, 5);
            } else {
                lemma_bounds_give_order(early, late, 90);
            }
        } else if jobs[i].phase != jobs[j].phase {
            lemma_bounds_give_order(early, late, 0);
        } else {
            let total = jobs[i].total_frames;
            match jobs[i].phase {
                Phase::Running(Stage::Upscale) => {
                    lemma_progress_rises_with_frames(
                        total,
                        one_more(jobs[i].completed_frames),
                        one_more(jobs[j].completed_frames),
                    );
                },
                Phase::Running(_) => {
                    let f = frame_reported_at(jobs, events, i).unwrap();
                    let g = frame_reported_at(jobs, events, j).unwrap();
                    assert(f <= g);
                    lemma_progress_rises_with_frames(total, f, g);
                },
                _ => {
                    lemma_bounds_give_order(early, late, 0);
                },
            }
        }
    }
}

} // verus!
