//! The three-call encoding pipeline as a state machine: thumbnails, then
//! palette, then encode, each stage gated on the previous call's success.

use vstd::prelude::*;

use crate::plan::{output_name_spec, ConversionPlan};

verus! {

/// A non-zero exit from an external call, carrying its captured diagnostics.
#[derive(Clone, PartialEq, Eq, Debug)]
pub struct ExternalToolError {
    pub stderr: String,
}

/// Which external call runs next; `Done` means the run is complete.
#[derive(Clone, Copy, PartialEq, Eq, Structural, Debug)]
pub enum Stage {
    Thumbnails,
    Palette,
    Encode,
    Done,
}

/// The stage after a successful call.
pub open spec fn next_stage(s: Stage) -> Stage {
    match s {
        Stage::Thumbnails => Stage::Palette,
        Stage::Palette => Stage::Encode,
        Stage::Encode => Stage::Done,
        Stage::Done => Stage::Done,
    }
}

/// Moves the pipeline past a finished call: success advances one stage; a
/// failure aborts with the captured diagnostics and nothing else ever runs.
pub fn advance(stage: Stage, success: bool, stderr: String) -> (r: Result<
    Stage,
    ExternalToolError,
>)
    ensures
        success ==> r == Ok::<Stage, ExternalToolError>(next_stage(stage)),
        !success ==> (r matches Err(e) && e.stderr == stderr),
{
    if success {
        Ok(
            match stage {
                Stage::Thumbnails => Stage::Palette,
                Stage::Palette => Stage::Encode,
                Stage::Encode => Stage::Done,
                Stage::Done => Stage::Done,
            },
        )
    } else {
        Err(ExternalToolError { stderr })
    }
}

/// The current stage after a run that saw the given call outcomes, starting
/// from `Thumbnails`: each success moves one stage on, and the first failure
/// ends the run for good (`None`).
pub open spec fn stage_after(outcomes: Seq<bool>) -> Option<Stage>
    decreases outcomes.len(),
{
    if outcomes.len() == 0 {
        Some(Stage::Thumbnails)
    } else {
        match stage_after(outcomes.drop_last()) {
            None => None,
            Some(st) => if outcomes.last() {
                Some(next_stage(st))
            } else {
                None
            },
        }
    }
}

/// A non-zero exit from the first call prevents every later call: after a
/// failed first outcome no run, however it continues, is ever at a stage
/// again — in particular never at `Palette` or `Encode`.
pub proof fn lemma_failed_first_call_halts(outcomes: Seq<bool>)
    requires
        outcomes.len() >= 1,
        !outcomes[0],
    ensures
        stage_after(outcomes) is None,
    decreases outcomes.len(),
{
    if outcomes.len() > 1 {
        lemma_failed_first_call_halts(outcomes.drop_last());
    }
}

/// The palette stage is reached only by a successful call out of the
/// thumbnail stage, and the encode stage only out of the palette stage.
pub proof fn lemma_stage_order(stage: Stage)
    ensures
        next_stage(stage) is Palette ==> stage is Thumbnails,
        next_stage(stage) is Encode ==> stage is Palette,
{
}

impl ConversionPlan {
    /// The thumbnail pass's full argument list, in order.
    pub open spec fn thumbnail_args_spec(self, input: Seq<char>) -> Seq<Seq<char>> {
        seq![
            "-hide_banner"@,
            "-nostats"@,
            "-v"@,
            "warning"@,
            "-ss"@,
            self.start.text_spec(),
            "-to"@,
            self.end.text_spec(),
            "-i"@,
            input,
            "-fps_mode"@,
            "vfr"@,
            "-lavfi"@,
            self.thumbnail_filter_spec(),
            "-q:v"@,
            "15"@,
            "-y"@,
            "./output_frames/%04d.jpg"@,
        ]
    }

    /// The palette pass's full argument list, in order.
    pub open spec fn palette_args_spec(self, input: Seq<char>) -> Seq<Seq<char>> {
        seq![
            "-hide_banner"@,
            "-nostats"@,
            "-v"@,
            "warning"@,
            "-ss"@,
            self.start.text_spec(),
            "-to"@,
            self.end.text_spec(),
            "-i"@,
            input,
            "-fps_mode"@,
            "vfr"@,
            "-lavfi"@,
            self.palette_filter_spec(),
            "-y"@,
            "palette.png"@,
        ]
    }

    /// The encode pass's full argument list, in order; the output file is
    /// named after the input.
    pub open spec fn encode_args_spec(self, input: Seq<char>) -> Seq<Seq<char>> {
        seq![
            "-hide_banner"@,
            "-nostats"@,
            "-v"@,
            "warning"@,
            "-ss"@,
            self.start.text_spec(),
            "-to"@,
            self.end.text_spec(),
            "-i"@,
            input,
            "-i"@,
            "palette.png"@,
            "-fps_mode"@,
            "vfr"@,
            "-lavfi"@,
            self.encode_filter_spec(),
            "-y"@,
            output_name_spec(input),
        ]
    }

    /// Builds the thumbnail pass's arguments.
    pub fn thumbnail_args(&self, input: &str) -> (r: Vec<String>)
        ensures
            r@.len() == self.thumbnail_args_spec(input@).len(),
            forall|i: int|
                0 <= i < r@.len() ==> #[trigger] r@[i]@ == self.thumbnail_args_spec(input@)[i],
    {
        let mut v: Vec<String> = Vec::new();
        v.push(String::from_str("-hide_banner"));
        v.push(String::from_str("-nostats"));
        v.push(String::from_str("-v"));
        v.push(String::from_str("warning"));
        v.push(String::from_str("-ss"));
        v.push(self.start.to_text());
        v.push(String::from_str("-to"));
        v.push(self.end.to_text());
        v.push(String::from_str("-i"));
        v.push(String::from_str(input));
        v.push(String::from_str("-fps_mode"));
        v.push(String::from_str("vfr"));
        v.push(String::from_str("-lavfi"));
        v.push(self.thumbnail_filter());
        v.push(String::from_str("-q:v"));
        v.push(String::from_str("15"));
        v.push(String::from_str("-y"));
        v.push(String::from_str("./output_frames/%04d.jpg"));
        v
    }

    /// Builds the palette pass's arguments.
    pub fn palette_args(&self, input: &str) -> (r: Vec<String>)
        ensures
            r@.len() == self.palette_args_spec(input@).len(),
            forall|i: int|
                0 <= i < r@.len() ==> #[trigger] r@[i]@ == self.palette_args_spec(input@)[i],
    {
        let mut v: Vec<String> = Vec::new();
        v.push(String::from_str("-hide_banner"));
        v.push(String::from_str("-nostats"));
        v.push(String::from_str("-v"));
        v.push(String::from_str("warning"));
        v.push(String::from_str("-ss"));
        v.push(self.start.to_text());
        v.push(String::from_str("-to"));
        v.push(self.end.to_text());
        v.push(String::from_str("-i"));
        v.push(String::from_str(input));
        v.push(String::from_str("-fps_mode"));
        v.push(String::from_str("vfr"));
        v.push(String::from_str("-lavfi"));
        v.push(self.palette_filter());
        v.push(String::from_str("-y"));
        v.push(String::from_str("palette.png"));
        v
    }

    /// Builds the encode pass's arguments.
    pub fn encode_args(&self, input: &str) -> (r: Vec<String>)
        ensures
            r@.len() == self.encode_args_spec(input@).len(),
            forall|i: int|
                0 <= i < r@.len() ==> #[trigger] r@[i]@ == self.encode_args_spec(input@)[i],
    {
        let mut v: Vec<String> = Vec::new();
        v.push(String::from_str("-hide_banner"));
        v.push(String::from_str("-nostats"));
        v.push(String::from_str("-v"));
        v.push(String::from_str("warning"));
        v.push(String::from_str("-ss"));
        v.push(self.start.to_text());
        v.push(String::from_str("-to"));
        v.push(self.end.to_text());
        v.push(String::from_str("-i"));
        v.push(String::from_str(input));
        v.push(String::from_str("-i"));
        v.push(String::from_str("palette.png"));
        v.push(String::from_str("-fps_mode"));
        v.push(String::from_str("vfr"));
        v.push(String::from_str("-lavfi"));
        v.push(self.encode_filter());
        v.push(String::from_str("-y"));
        v.push(crate::plan::output_gif_name(input));
        v
    }
}

} // verus!
