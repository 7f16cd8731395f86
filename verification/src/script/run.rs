//! Running a whole script.
//!
//! The engine draws; what is to become of each finished image is handed
//! back as a list of pictures, for the caller to save or show.
use crate::engine::{Engine, EngineView};
use crate::error::ConfigurationError;
use crate::scalar::Scalar;
use crate::screen::color::Color;
use crate::screen::ppm::{all_in_range, encoded};
use crate::script::{
    after_command, after_commands, after_varies, frames_of, has_vary, is_frame_outcome,
    output_of, reset, Command, Output, Plan, Script, ScriptError,
};
use vstd::prelude::*;

verus! {

/// What a picture is for.
pub enum Target {
    /// It is to be saved under this name.
    File(String),
    /// It is to be shown.
    Display,
    /// It is the frame with this number of an animation.
    Frame(u32),
}

/// A finished image and what it is for.
pub struct Picture {
    pub target: Target,
    /// The image as a binary portable pixmap.
    pub image: Vec<u8>,
}

/// What a picture is for, as a mathematical value.
pub enum TargetView {
    File(Seq<char>),
    Display,
    Frame(u32),
}

/// A picture as a mathematical value.
pub struct PictureView {
    pub target: TargetView,
    pub image: Seq<u8>,
}

impl View for Target {
    type V = TargetView;

    open spec fn view(&self) -> TargetView {
        match self {
            Target::File(name) => TargetView::File(name@),
            Target::Display => TargetView::Display,
            Target::Frame(f) => TargetView::Frame(*f),
        }
    }
}

impl View for Picture {
    type V = PictureView;

    open spec fn view(&self) -> PictureView {
        PictureView { target: self.target@, image: self.image@ }
    }
}

/// The pictures as mathematical values.
pub open spec fn pictures_view(pictures: Seq<Picture>) -> Seq<PictureView> {
    Seq::new(pictures.len(), |i: int| pictures[i]@)
}

/// Why a run came to an end before the script did.
pub enum Failure {
    /// The command with this index cannot be carried out.
    Command { index: int, cause: ConfigurationError },
    /// The screen cannot be written out.
    Encoding,
}

/// How far a run has come: the engine, the pictures made so far, and the
/// failure that ended the run, if one did.
pub struct Run<T: Color> {
    pub engine: EngineView<T>,
    pub pictures: Seq<PictureView>,
    pub failure: Option<Failure>,
}

/// How a script is to be run.
pub enum PlanView {
    /// Not at all: it varies a knob without saying how many frames to draw.
    Rejected,
    Still,
    Animation(u32),
}

/// How the script is to be run.
pub open spec fn plan_of(commands: Seq<Command>) -> PlanView {
    match frames_of(commands, commands.len()) {
        Some(frames) => PlanView::Animation(frames),
        None => if has_vary(commands, commands.len()) {
            PlanView::Rejected
        } else {
            PlanView::Still
        },
    }
}

/// What a picture made after `command` is for.
pub open spec fn target_of(command: Command) -> Option<TargetView> {
    match output_of(command, false) {
        None => None,
        Some(None) => Some(TargetView::Display),
        Some(Some(name)) => Some(TargetView::File(name)),
    }
}

/// The run of a still image after its first `n` commands, command `i`
/// drawing its lines in `colors[i]`. Each `Save` and `Display` command
/// makes a picture of the screen as it is then.
pub open spec fn still_run<T: Color>(
    v: EngineView<T>,
    commands: Seq<Command>,
    colors: Seq<T>,
    n: nat,
) -> Run<T>
    decreases n,
{
    if n == 0 {
        Run { engine: v, pictures: Seq::empty(), failure: None }
    } else {
        let before = still_run(v, commands, colors, (n - 1) as nat);
        if before.failure.is_some() {
            before
        } else {
            match after_command(before.engine, commands[n - 1], None, colors[n - 1]) {
                Err(cause) => Run {
                    failure: Some(Failure::Command { index: n - 1, cause }),
                    ..before
                },
                Ok(engine) => match target_of(commands[n - 1]) {
                    None => Run { engine, ..before },
                    Some(target) => if all_in_range(
                        engine.screen.cells,
                        engine.screen.cells.len() as int,
                    ) {
                        Run {
                            engine,
                            pictures: before.pictures.push(
                                PictureView { target, image: encoded(engine.screen) },
                            ),
                            failure: None,
                        }
                    } else {
                        Run { engine, failure: Some(Failure::Encoding), ..before }
                    },
                },
            }
        }
    }
}

/// The engine that a row of commands has come to, or `otherwise` where
/// one of them failed.
pub open spec fn reached<T: Color>(
    r: Result<EngineView<T>, (int, ConfigurationError)>,
    otherwise: EngineView<T>,
) -> EngineView<T> {
    match r {
        Ok(v) => v,
        Err(_) => otherwise,
    }
}

/// The run after one more frame: the whole script is run at `frame`,
/// command `i` drawing its lines in `colors[i]`; a picture of the screen is
/// made, and the engine is left ready for the next frame.
#[verifier::opaque]
pub open spec fn frame_step<T: Color>(
    before: Run<T>,
    commands: Seq<Command>,
    frame: u32,
    colors: Seq<T>,
) -> Run<T> {
    match after_commands(before.engine, commands, Some(frame), colors, commands.len()) {
        Err((index, cause)) => Run {
            engine: reached(
                after_commands(before.engine, commands, Some(frame), colors, index as nat),
                before.engine,
            ),
            failure: Some(Failure::Command { index, cause }),
            ..before
        },
        Ok(engine) => if all_in_range(engine.screen.cells, engine.screen.cells.len() as int) {
            Run {
                engine: reset(engine),
                pictures: before.pictures.push(
                    PictureView { target: TargetView::Frame(frame), image: encoded(engine.screen) },
                ),
                failure: None,
            }
        } else {
            Run { engine, failure: Some(Failure::Encoding), ..before }
        },
    }
}

/// The run of an animation after its first `n` frames, command `i` of
/// frame `f` drawing its lines in `colors[f][i]`.
pub open spec fn animation_run<T: Color>(
    v: EngineView<T>,
    commands: Seq<Command>,
    colors: Seq<Seq<T>>,
    n: nat,
) -> Run<T>
    decreases n,
{
    if n == 0 {
        Run { engine: v, pictures: Seq::empty(), failure: None }
    } else {
        let before = animation_run(v, commands, colors, (n - 1) as nat);
        if before.failure.is_some() {
            before
        } else {
            frame_step(before, commands, (n - 1) as u32, colors[n - 1])
        }
    }
}

/// What drawing one frame hands back is what one more frame of the run
/// comes to.
pub proof fn lemma_frame_step<T: Color>(
    before: Run<T>,
    commands: Seq<Command>,
    frame: u32,
    colors: Seq<T>,
    r: Result<Vec<u8>, ScriptError>,
    after: EngineView<T>,
)
    requires
        is_frame_outcome(before.engine, commands, frame, colors, r, after),
    ensures
        frame_step(before, commands, frame, colors).engine == after,
        r matches Ok(image) ==> frame_step(before, commands, frame, colors) == (Run {
            engine: after,
            pictures: before.pictures.push(
                PictureView { target: TargetView::Frame(frame), image: image@ },
            ),
            failure: None,
        }),
        r matches Err(e) ==> is_failure(frame_step(before, commands, frame, colors).failure, e),
{
    reveal(frame_step);
}

/// Whether the error `e` reports the failure `failure`.
pub open spec fn is_failure(failure: Option<Failure>, e: ScriptError) -> bool {
    match failure {
        None => false,
        Some(Failure::Command { index, cause }) => e matches ScriptError::Command {
            index: i,
            cause: c,
        } && i == index && c == cause,
        Some(Failure::Encoding) => e matches ScriptError::Encoding(_),
    }
}

/// Whether `r` and `after` are what `run` came to.
pub open spec fn is_run_outcome<T: Color>(
    run: Run<T>,
    r: Result<Vec<Picture>, ScriptError>,
    after: EngineView<T>,
) -> bool {
    &&& after == run.engine
    &&& match r {
        Ok(pictures) => run.failure.is_none() && pictures_view(pictures@) == run.pictures,
        Err(e) => is_failure(run.failure, e),
    }
}

/// Whether `r` and `after` are what running the script as a still image on
/// `before` gives, command `i` drawing its lines in `colors[i]`.
pub open spec fn is_still_outcome<T: Color>(
    before: EngineView<T>,
    commands: Seq<Command>,
    colors: Seq<T>,
    r: Result<Vec<Picture>, ScriptError>,
    after: EngineView<T>,
) -> bool {
    colors.len() == commands.len() && is_run_outcome(
        still_run(before, commands, colors, commands.len()),
        r,
        after,
    )
}

/// Whether `r` and `after` are what running the frames of an animation on
/// `before` gives, command `i` of frame `f` drawing its lines in
/// `colors[f][i]`.
pub open spec fn is_frames_outcome<T: Color>(
    before: EngineView<T>,
    commands: Seq<Command>,
    frames: u32,
    colors: Seq<Seq<T>>,
    r: Result<Vec<Picture>, ScriptError>,
    after: EngineView<T>,
) -> bool {
    colors.len() == frames && is_run_outcome(
        animation_run(before, commands, colors, frames as nat),
        r,
        after,
    )
}

/// Whether `r` and `after` are what running the script as an animation of
/// `frames` frames on `before` gives: the knobs are registered first, then
/// the frames are drawn one by one.
pub open spec fn is_animation_outcome<T: Color>(
    before: EngineView<T>,
    commands: Seq<Command>,
    frames: u32,
    r: Result<Vec<Picture>, ScriptError>,
    after: EngineView<T>,
) -> bool {
    if frames >= usize::MAX {
        r == Err::<Vec<Picture>, ScriptError>(ScriptError::TooManyFrames) && after == before
    } else {
        match after_varies(before.knobs, commands, frames, commands.len()) {
            Err((index, cause)) => {
                &&& r matches Err(ScriptError::Command { index: i, cause: c })
                &&& i == index
                &&& c == cause
                &&& Ok::<Seq<(Seq<char>, Seq<Scalar>)>, (int, ConfigurationError)>(after.knobs)
                    == after_varies(before.knobs, commands, frames, index as nat)
                &&& after == (EngineView { knobs: after.knobs, ..before })
            },
            Ok(knobs) => exists|colors: Seq<Seq<T>>| #[trigger]
                is_frames_outcome(
                    EngineView { knobs, ..before },
                    commands,
                    frames,
                    colors,
                    r,
                    after,
                ),
        }
    }
}

/// A run that has failed stays as it is.
pub proof fn lemma_still_failure_stays<T: Color>(
    v: EngineView<T>,
    commands: Seq<Command>,
    colors: Seq<T>,
    failed: nat,
    n: nat,
)
    requires
        failed <= n,
        still_run(v, commands, colors, failed).failure.is_some(),
    ensures
        still_run(v, commands, colors, n) == still_run(v, commands, colors, failed),
    decreases n,
{
    if n > failed {
        lemma_still_failure_stays(v, commands, colors, failed, (n - 1) as nat);
    }
}

/// What the first `n` commands come to depends on the first `n` colors
/// only.
pub proof fn lemma_still_prefix<T: Color>(
    v: EngineView<T>,
    commands: Seq<Command>,
    a: Seq<T>,
    b: Seq<T>,
    n: nat,
)
    requires
        n <= a.len(),
        n <= b.len(),
        forall|i: int| 0 <= i < n ==> a[i] == b[i],
    ensures
        still_run(v, commands, a, n) == still_run(v, commands, b, n),
    decreases n,
{
    if n > 0 {
        lemma_still_prefix(v, commands, a, b, (n - 1) as nat);
    }
}

/// An animation that has failed stays as it is.
pub proof fn lemma_animation_failure_stays<T: Color>(
    v: EngineView<T>,
    commands: Seq<Command>,
    colors: Seq<Seq<T>>,
    failed: nat,
    n: nat,
)
    requires
        failed <= n,
        animation_run(v, commands, colors, failed).failure.is_some(),
    ensures
        animation_run(v, commands, colors, n) == animation_run(v, commands, colors, failed),
    decreases n,
{
    if n > failed {
        lemma_animation_failure_stays(v, commands, colors, failed, (n - 1) as nat);
    }
}

/// What the first `n` frames come to depends on the colors of those frames
/// only.
pub proof fn lemma_animation_prefix<T: Color>(
    v: EngineView<T>,
    commands: Seq<Command>,
    a: Seq<Seq<T>>,
    b: Seq<Seq<T>>,
    n: nat,
)
    requires
        n <= a.len(),
        n <= b.len(),
        forall|i: int| 0 <= i < n ==> a[i] == b[i],
    ensures
        animation_run(v, commands, a, n) == animation_run(v, commands, b, n),
    decreases n,
{
    if n > 0 {
        lemma_animation_prefix(v, commands, a, b, (n - 1) as nat);
    }
}

impl Script {
    /// Runs the commands as a still image.
    fn exec_still<T: Color>(&self, eng: &mut Engine<T>) -> (r: Result<Vec<Picture>, ScriptError>)
        ensures
            exists|colors: Seq<T>| #[trigger]
                is_still_outcome(old(eng)@, self.commands@, colors, r, final(eng)@),
    {
        let count: usize = self.commands.len();
        let mut pictures: Vec<Picture> = Vec::new();
        let ghost mut colors: Seq<T> = Seq::empty();
        let mut i: usize = 0;
        assert(pictures_view(pictures@) =~= Seq::<PictureView>::empty());
        while i < count
            invariant
                i <= count,
                count == self.commands@.len(),
                colors.len() == i,
                still_run(old(eng)@, self.commands@, colors, i as nat) == (Run {
                    engine: eng@,
                    pictures: pictures_view(pictures@),
                    failure: None,
                }),
            decreases count - i,
        {
            let color: T = T::random_color();
            let ghost before = colors;
            let ghost shown = pictures_view(pictures@);
            proof {
                colors = colors.push(color);
                lemma_still_prefix(old(eng)@, self.commands@, before, colors, i as nat);
            }
            let ghost all = colors + Seq::new((count - i - 1) as nat, |j: int| color);
            proof {
                lemma_still_prefix(old(eng)@, self.commands@, colors, all, (i + 1) as nat);
            }
            let mut failure: Option<ScriptError> = None;
            match eng.execute_with(&self.commands[i], None, color) {
                Err(cause) => {
                    failure = Some(ScriptError::Command { index: i, cause });
                },
                Ok(()) => {
                    match self.commands[i].output(false) {
                        Output::Nothing => {},
                        Output::Save(file) => {
                            match eng.ppm_byte_vec() {
                                Ok(image) => {
                                    pictures.push(Picture { target: Target::File(file), image });
                                    assert(pictures_view(pictures@) =~= shown.push(
                                        pictures@.last()@,
                                    ));
                                },
                                Err(e) => {
                                    failure = Some(ScriptError::Encoding(e));
                                },
                            }
                        },
                        Output::Display => {
                            match eng.ppm_byte_vec() {
                                Ok(image) => {
                                    pictures.push(Picture { target: Target::Display, image });
                                    assert(pictures_view(pictures@) =~= shown.push(
                                        pictures@.last()@,
                                    ));
                                },
                                Err(e) => {
                                    failure = Some(ScriptError::Encoding(e));
                                },
                            }
                        },
                    }
                },
            }
            match failure {
                Some(e) => {
                    proof {
                        lemma_still_failure_stays(
                            old(eng)@,
                            self.commands@,
                            all,
                            (i + 1) as nat,
                            count as nat,
                        );
                        assert(is_still_outcome(
                            old(eng)@,
                            self.commands@,
                            all,
                            Err::<Vec<Picture>, ScriptError>(e),
                            eng@,
                        ));
                    }
                    return Err(e);
                },
                None => {},
            }
            i = i + 1;
        }
        assert(is_still_outcome(
            old(eng)@,
            self.commands@,
            colors,
            Ok::<Vec<Picture>, ScriptError>(pictures),
            eng@,
        ));
        Ok(pictures)
    }

    /// Draws the frames of an animation, the knobs being registered.
    fn exec_frames<T: Color>(&self, eng: &mut Engine<T>, frames: u32) -> (r: Result<
        Vec<Picture>,
        ScriptError,
    >)
        ensures
            exists|colors: Seq<Seq<T>>| #[trigger]
                is_frames_outcome(old(eng)@, self.commands@, frames, colors, r, final(eng)@),
    {
        let mut pictures: Vec<Picture> = Vec::new();
        let ghost mut colors: Seq<Seq<T>> = Seq::empty();
        let mut f: u32 = 0;
        assert(pictures_view(pictures@) =~= Seq::<PictureView>::empty());
        while f < frames
            invariant
                f <= frames,
                colors.len() == f,
                animation_run(old(eng)@, self.commands@, colors, f as nat) == (Run {
                    engine: eng@,
                    pictures: pictures_view(pictures@),
                    failure: None,
                }),
            decreases frames - f,
        {
            let ghost start = eng@;
            let ghost shown = pictures_view(pictures@);
            let ghost before = colors;
            let r = eng.render_frame(&self.commands, f);
            let ghost chosen = choose|c: Seq<T>| #[trigger]
                is_frame_outcome(start, self.commands@, f, c, r, eng@);
            let ghost all = before.push(chosen) + Seq::new(
                (frames - f - 1) as nat,
                |j: int| chosen,
            );
            proof {
                colors = before.push(chosen);
                lemma_animation_prefix(old(eng)@, self.commands@, before, colors, f as nat);
                lemma_animation_prefix(old(eng)@, self.commands@, colors, all, (f + 1) as nat);
                lemma_frame_step(
                    Run { engine: start, pictures: shown, failure: None },
                    self.commands@,
                    f,
                    chosen,
                    r,
                    eng@,
                );
            }
            match r {
                Ok(image) => {
                    pictures.push(Picture { target: Target::Frame(f), image });
                    assert(pictures_view(pictures@) =~= shown.push(pictures@.last()@));
                },
                Err(e) => {
                    proof {
                        lemma_animation_failure_stays(
                            old(eng)@,
                            self.commands@,
                            all,
                            (f + 1) as nat,
                            frames as nat,
                        );
                        assert(is_frames_outcome(
                            old(eng)@,
                            self.commands@,
                            frames,
                            all,
                            Err::<Vec<Picture>, ScriptError>(e),
                            eng@,
                        ));
                    }
                    return Err(e);
                },
            }
            f = f + 1;
        }
        assert(is_frames_outcome(
            old(eng)@,
            self.commands@,
            frames,
            colors,
            Ok::<Vec<Picture>, ScriptError>(pictures),
            eng@,
        ));
        Ok(pictures)
    }

    /// Runs the script on `eng` and hands back the pictures it makes.
    ///
    /// A script without a `Frames` command draws a still image; each of
    /// its `Save` and `Display` commands makes a picture of the screen as
    /// it is then. A script with a `Frames` command draws an animation:
    /// its `Vary` commands are registered, and every frame runs the whole
    /// script and makes one picture. The run ends at the first command that
    /// cannot be carried out.
    pub fn exec<T: Color>(self, eng: &mut Engine<T>) -> (r: Result<Vec<Picture>, ScriptError>)
        ensures
            match plan_of(self.commands@) {
                PlanView::Rejected => r == Err::<Vec<Picture>, ScriptError>(
                    ScriptError::VaryWithoutFrames,
                ) && final(eng)@ == old(eng)@,
                PlanView::Still => exists|colors: Seq<T>| #[trigger]
                    is_still_outcome(old(eng)@, self.commands@, colors, r, final(eng)@),
                PlanView::Animation(frames) => is_animation_outcome(
                    old(eng)@,
                    self.commands@,
                    frames,
                    r,
                    final(eng)@,
                ),
            },
    {
        match self.plan() {
            Err(e) => Err(ScriptError::VaryWithoutFrames),
            Ok(Plan::Still) => self.exec_still(eng),
            Ok(Plan::Animation { frames, basename }) => {
                if frames as u64 >= usize::MAX as u64 {
                    return Err(ScriptError::TooManyFrames);
                }
                match eng.register_varies(&self.commands, frames) {
                    Err(e) => Err(e),
                    Ok(()) => {
                        let ghost registered = eng@;
                        let r = self.exec_frames(eng, frames);
                        proof {
                            let colors = choose|colors: Seq<Seq<T>>| #[trigger]
                                is_frames_outcome(
                                    registered,
                                    self.commands@,
                                    frames,
                                    colors,
                                    r,
                                    eng@,
                                );
                            assert(is_frames_outcome(
                                registered,
                                self.commands@,
                                frames,
                                colors,
                                r,
                                eng@,
                            ));
                        }
                        r
                    },
                }
            },
        }
    }
}

} // verus!
