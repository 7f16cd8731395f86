//! Scripts: lists of commands that drive an engine.
//!
//! A script either draws one still image or, where it holds a `Frames`
//! command, an animation. In an animation every frame runs the whole
//! script from a fresh engine state, and the arguments of the moves,
//! rotations and scalings that name a knob are multiplied by the value of
//! that knob at the frame.
use crate::draw::{
    box_triangles, sphere_mesh, sphere_points_spec, torus_mesh, torus_points_spec, RESOLUTION,
};
use crate::engine::{rotation, Engine, EngineView};
use crate::error::{ConfigurationError, EncodingError};
use crate::knob::{track_of, vary_error, with_vary};
use crate::scalar::{Scalar, ONE_RAW};
use crate::screen::color::Color;
use crate::screen::ppm::{all_in_range, encoded};
use crate::screen::raster::ScreenView;
use crate::space::geometry::{homogeneous, SpaceView, Vertex};
use crate::space::modtrix::{dilation, identity, translation};
use crate::space::render::draw_space_spec;
use crate::space::stack::{composed, popped, pushed};
use vstd::prelude::*;

pub mod run;

pub use run::{Picture, Target};

verus! {

/// What scales the arguments of a transform from frame to frame.
pub enum Knob {
    /// Nothing does: the arguments stand as they are.
    Constant,
    /// The knob of this name does.
    Name(String),
}

/// One command of a script.
pub enum Command {
    Push,
    Pop,
    Move { x: Scalar, y: Scalar, z: Scalar, knob: Knob },
    Rotate { axis: Scalar, theta: Scalar, knob: Knob },
    Scale { x: Scalar, y: Scalar, z: Scalar, knob: Knob },
    Box { x: Scalar, y: Scalar, z: Scalar, h: Scalar, w: Scalar, d: Scalar, constants: [Scalar; 9] },
    Sphere { x: Scalar, y: Scalar, z: Scalar, r: Scalar, constants: [Scalar; 9] },
    Torus { x: Scalar, y: Scalar, z: Scalar, r0: Scalar, r1: Scalar, constants: [Scalar; 9] },
    Line { x0: Scalar, y0: Scalar, z0: Scalar, x1: Scalar, y1: Scalar, z1: Scalar },
    Save { file: String },
    Display,
    Basename { basename: String },
    Frames { frames: u32 },
    Vary { name: String, start_frame: u32, end_frame: u32, start_val: Scalar, end_val: Scalar },
    End,
}

/// What the image on the screen is to be used for once a command has run.
pub enum Output {
    /// Nothing.
    Nothing,
    /// It is to be saved under this name.
    Save(String),
    /// It is to be shown.
    Display,
}

/// How a script is to be run.
pub enum Plan {
    /// As one still image.
    Still,
    /// As an animation of `frames` frames, saved under `basename` where the
    /// script gives one.
    Animation { frames: u32, basename: Option<String> },
}

/// Why a script cannot be run.
#[derive(Debug, Clone, Copy, PartialEq, Eq, Structural)]
pub enum ScriptError {
    /// The script varies a knob but does not say how many frames to draw.
    VaryWithoutFrames,
    /// The script asks for more frames than a knob's track can hold.
    TooManyFrames,
    /// The command with this index cannot be carried out.
    Command { index: usize, cause: ConfigurationError },
    /// The finished screen cannot be written out.
    Encoding(EncodingError),
}

/// A list of commands.
pub struct Script {
    pub commands: Vec<Command>,
}

/// The number of frames that the last `Frames` command among the first `n`
/// commands asks for.
pub open spec fn frames_of(commands: Seq<Command>, n: nat) -> Option<u32>
    decreases n,
{
    if n == 0 {
        None
    } else {
        match commands[n - 1] {
            Command::Frames { frames } => Some(frames),
            _ => frames_of(commands, (n - 1) as nat),
        }
    }
}

/// The name that the last `Basename` command among the first `n` commands
/// gives.
pub open spec fn basename_of(commands: Seq<Command>, n: nat) -> Option<Seq<char>>
    decreases n,
{
    if n == 0 {
        None
    } else {
        match commands[n - 1] {
            Command::Basename { basename } => Some(basename@),
            _ => basename_of(commands, (n - 1) as nat),
        }
    }
}

/// Whether one of the first `n` commands varies a knob.
pub open spec fn has_vary(commands: Seq<Command>, n: nat) -> bool
    decreases n,
{
    if n == 0 {
        false
    } else {
        (commands[n - 1] is Vary) || has_vary(commands, (n - 1) as nat)
    }
}

/// What the image is to be used for after `command` has run. Only a still
/// image is saved or shown on command; the frames of an animation are
/// saved one by one, whatever the script says.
pub open spec fn output_of(command: Command, animated: bool) -> Option<Option<Seq<char>>> {
    if animated {
        None
    } else {
        match command {
            Command::Save { file } => Some(Some(file@)),
            Command::Display => Some(None),
            _ => None,
        }
    }
}

/// The value that `knob` has at `frame`. It is one for a still image, which
/// has no frame, and for a transform that names no knob.
pub open spec fn knob_value<T: Color>(v: EngineView<T>, knob: Knob, frame: Option<u32>) -> Result<
    Scalar,
    ConfigurationError,
> {
    match (knob, frame) {
        (Knob::Name(name), Some(f)) => match track_of(v.knobs, name@) {
            None => Err(ConfigurationError::UnknownKnob),
            Some(track) => if f < track.len() {
                Ok(track[f as int])
            } else {
                Err(ConfigurationError::FrameOutOfRange)
            },
        },
        _ => Ok(Scalar { raw: ONE_RAW }),
    }
}

/// The engine after the geometry in its space has been moved into the
/// current frame, drawn with every line in `color`, and dropped.
pub open spec fn drawn_and_cleared<T: Color>(v: EngineView<T>, color: T) -> EngineView<T> {
    let placed = v.space.apply(v.stack.last());
    EngineView {
        screen: draw_space_spec(
            v.screen,
            placed,
            Seq::new(placed.lines.len(), |i: int| color),
        ),
        space: SpaceView { lines: Seq::empty(), triangles: Seq::empty(), ..placed },
        ..v
    }
}

/// The engine with the reflection constants of its space replaced.
pub open spec fn with_constants<T: Color>(v: EngineView<T>, constants: [Scalar; 9]) -> EngineView<
    T,
> {
    EngineView {
        space: SpaceView {
            ambient_reflection: (constants[0], constants[1], constants[2]),
            diffuse_reflection: (constants[3], constants[4], constants[5]),
            specular_reflection: (constants[6], constants[7], constants[8]),
            ..v.space
        },
        ..v
    }
}

/// The engine with triangles added to its space.
pub open spec fn with_triangles<T: Color>(
    v: EngineView<T>,
    triangles: Seq<(Vertex, Vertex, Vertex)>,
) -> EngineView<T> {
    EngineView { space: SpaceView { triangles: v.space.triangles + triangles, ..v.space }, ..v }
}

/// The engine after `command` has run at `frame`, lines drawn in `color`;
/// or the reason why the command cannot run, in which case it changes
/// nothing.
pub open spec fn after_command<T: Color>(
    v: EngineView<T>,
    command: Command,
    frame: Option<u32>,
    color: T,
) -> Result<EngineView<T>, ConfigurationError> {
    match command {
        Command::Push => Ok(EngineView { stack: pushed(v.stack), ..v }),
        Command::Pop => match popped(v.stack) {
            Some(rest) => Ok(EngineView { stack: rest, ..v }),
            None => Err(ConfigurationError::StackUnderflow),
        },
        Command::Move { x, y, z, knob } => match knob_value(v, knob, frame) {
            Ok(k) => Ok(
                EngineView {
                    stack: composed(v.stack, translation(x.times(k), y.times(k), z.times(k))),
                    ..v
                },
            ),
            Err(e) => Err(e),
        },
        Command::Rotate { axis, theta, knob } => match knob_value(v, knob, frame) {
            Ok(k) => match rotation(axis, theta.times(k)) {
                Some(m) => Ok(EngineView { stack: composed(v.stack, m), ..v }),
                None => Err(ConfigurationError::UnknownAxis),
            },
            Err(e) => Err(e),
        },
        Command::Scale { x, y, z, knob } => match knob_value(v, knob, frame) {
            Ok(k) => Ok(
                EngineView {
                    stack: composed(v.stack, dilation(x.times(k), y.times(k), z.times(k))),
                    ..v
                },
            ),
            Err(e) => Err(e),
        },
        Command::Box { x, y, z, h, w, d, constants } => Ok(
            drawn_and_cleared(
                with_triangles(with_constants(v, constants), box_triangles(x, y, z, w, h, d)),
                color,
            ),
        ),
        Command::Sphere { x, y, z, r, constants } => Ok(
            drawn_and_cleared(
                with_triangles(
                    with_constants(v, constants),
                    sphere_mesh(
                        sphere_points_spec(x, y, z, r),
                        (RESOLUTION * (RESOLUTION - 1)) as nat,
                    ),
                ),
                color,
            ),
        ),
        Command::Torus { x, y, z, r0, r1, constants } => Ok(
            drawn_and_cleared(
                with_triangles(
                    with_constants(v, constants),
                    torus_mesh(
                        torus_points_spec(x, y, z, r0, r1),
                        (RESOLUTION * RESOLUTION) as nat,
                    ),
                ),
                color,
            ),
        ),
        Command::Line { x0, y0, z0, x1, y1, z1 } => Ok(
            drawn_and_cleared(
                EngineView {
                    space: SpaceView {
                        lines: v.space.lines.push(
                            (homogeneous((x0, y0, z0)), homogeneous((x1, y1, z1))),
                        ),
                        ..v.space
                    },
                    ..v
                },
                color,
            ),
        ),
        _ => Ok(v),
    }
}

/// The engine after the first `n` commands have run at `frame`, command
/// `i` drawing its lines in `colors[i]`; or the index of the first command
/// that cannot run, with the reason.
pub open spec fn after_commands<T: Color>(
    v: EngineView<T>,
    commands: Seq<Command>,
    frame: Option<u32>,
    colors: Seq<T>,
    n: nat,
) -> Result<EngineView<T>, (int, ConfigurationError)>
    decreases n,
{
    if n == 0 {
        Ok(v)
    } else {
        match after_commands(v, commands, frame, colors, (n - 1) as nat) {
            Err(e) => Err(e),
            Ok(before) => match after_command(before, commands[n - 1], frame, colors[n - 1]) {
                Ok(after) => Ok(after),
                Err(cause) => Err((n - 1, cause)),
            },
        }
    }
}

/// The knobs after the `Vary` commands among the first `n` commands have
/// been registered for an animation of `frames` frames; or the index of
/// the first that cannot be registered, with the reason.
pub open spec fn after_varies(
    knobs: Seq<(Seq<char>, Seq<Scalar>)>,
    commands: Seq<Command>,
    frames: u32,
    n: nat,
) -> Result<Seq<(Seq<char>, Seq<Scalar>)>, (int, ConfigurationError)>
    decreases n,
{
    if n == 0 {
        Ok(knobs)
    } else {
        match after_varies(knobs, commands, frames, (n - 1) as nat) {
            Err(e) => Err(e),
            Ok(before) => match commands[n - 1] {
                Command::Vary { name, start_frame, end_frame, start_val, end_val } => {
                    match vary_error(
                        before,
                        name@,
                        start_frame as int,
                        end_frame as int,
                        frames as int,
                    ) {
                        Some(cause) => Err((n - 1, cause)),
                        None => Ok(
                            with_vary(
                                before,
                                name@,
                                start_frame as int,
                                end_frame as int,
                                start_val,
                                end_val,
                                frames as int,
                            ),
                        ),
                    }
                },
                _ => Ok(before),
            },
        }
    }
}

/// Once a `Vary` command has failed, the commands after it are not
/// registered.
pub proof fn lemma_vary_failure_stays(
    knobs: Seq<(Seq<char>, Seq<Scalar>)>,
    commands: Seq<Command>,
    frames: u32,
    failed: nat,
    n: nat,
)
    requires
        failed <= n,
        after_varies(knobs, commands, frames, failed).is_err(),
    ensures
        after_varies(knobs, commands, frames, n) == after_varies(knobs, commands, frames, failed),
    decreases n,
{
    if n > failed {
        lemma_vary_failure_stays(knobs, commands, frames, failed, (n - 1) as nat);
    }
}

/// Whether `r` and `after` are what running `command` on `before` gives.
pub open spec fn is_outcome<T: Color>(
    before: EngineView<T>,
    command: Command,
    frame: Option<u32>,
    color: T,
    r: Result<(), ConfigurationError>,
    after: EngineView<T>,
) -> bool {
    match after_command(before, command, frame, color) {
        Ok(v) => r.is_ok() && after == v,
        Err(e) => r == Err::<(), ConfigurationError>(e) && after == before,
    }
}

/// Whether `r` and `after` are what drawing one frame on `before` gives,
/// command `i` drawing its lines in `colors[i]`.
pub open spec fn is_frame_outcome<T: Color>(
    before: EngineView<T>,
    commands: Seq<Command>,
    frame: u32,
    colors: Seq<T>,
    r: Result<Vec<u8>, ScriptError>,
    after: EngineView<T>,
) -> bool {
    &&& colors.len() == commands.len()
    &&& match after_commands(before, commands, Some(frame), colors, commands.len()) {
        Err((index, cause)) => {
            &&& r matches Err(ScriptError::Command { index: i, cause: c })
            &&& i == index
            &&& c == cause
            &&& 0 <= index < commands.len()
            &&& Ok::<EngineView<T>, (int, ConfigurationError)>(after) == after_commands(
                before,
                commands,
                Some(frame),
                colors,
                index as nat,
            )
        },
        Ok(v) => if all_in_range(v.screen.cells, v.screen.cells.len() as int) {
            r matches Ok(bytes) && bytes@ == encoded(v.screen) && after == reset(v)
        } else {
            r matches Err(ScriptError::Encoding(_)) && after == v
        },
    }
}

/// The engine made ready for the next frame.
pub open spec fn reset<T: Color>(v: EngineView<T>) -> EngineView<T> {
    EngineView {
        stack: seq![identity()],
        space: SpaceView { lines: Seq::empty(), triangles: Seq::empty(), ..v.space },
        screen: ScreenView::<T>::blank(v.screen.width, v.screen.height),
        ..v
    }
}

/// What the first `n` commands come to depends on the first `n` colors
/// only.
pub proof fn lemma_after_commands_prefix<T: Color>(
    v: EngineView<T>,
    commands: Seq<Command>,
    frame: Option<u32>,
    a: Seq<T>,
    b: Seq<T>,
    n: nat,
)
    requires
        n <= a.len(),
        n <= b.len(),
        forall|i: int| 0 <= i < n ==> a[i] == b[i],
    ensures
        after_commands(v, commands, frame, a, n) == after_commands(v, commands, frame, b, n),
    decreases n,
{
    if n > 0 {
        lemma_after_commands_prefix(v, commands, frame, a, b, (n - 1) as nat);
    }
}

impl Command {
    /// What the image on the screen is to be used for once this command
    /// has run, in an animation or in a still image.
    pub fn output(&self, animated: bool) -> (r: Output)
        ensures
            match output_of(*self, animated) {
                None => r is Nothing,
                Some(None) => r is Display,
                Some(Some(name)) => r matches Output::Save(file) && file@ == name,
            },
    {
        if animated {
            Output::Nothing
        } else {
            match self {
                Command::Save { file } => Output::Save(file.clone()),
                Command::Display => Output::Display,
                _ => Output::Nothing,
            }
        }
    }
}

impl Script {
    /// How the script is to be run: as an animation if it holds a `Frames`
    /// command, the last of them giving the number of frames and the last
    /// `Basename` command the name; as a still image otherwise. A script
    /// that varies a knob must hold a `Frames` command.
    pub fn plan(&self) -> (r: Result<Plan, ScriptError>)
        ensures
            match frames_of(self.commands@, self.commands@.len()) {
                Some(count) => r matches Ok(Plan::Animation { frames, basename }) && frames
                    == count && match basename_of(self.commands@, self.commands@.len()) {
                    Some(name) => basename matches Some(given) && given@ == name,
                    None => basename.is_none(),
                },
                None => if has_vary(self.commands@, self.commands@.len()) {
                    r == Err::<Plan, ScriptError>(ScriptError::VaryWithoutFrames)
                } else {
                    r matches Ok(Plan::Still)
                },
            },
    {
        let mut frames: Option<u32> = None;
        let mut basename: Option<String> = None;
        let mut varies: bool = false;
        let count: usize = self.commands.len();
        let mut i: usize = 0;
        while i < count
            invariant
                i <= count,
                count == self.commands@.len(),
                frames == frames_of(self.commands@, i as nat),
                varies == has_vary(self.commands@, i as nat),
                match basename_of(self.commands@, i as nat) {
                    Some(name) => basename matches Some(given) && given@ == name,
                    None => basename.is_none(),
                },
            decreases count - i,
        {
            match &self.commands[i] {
                Command::Frames { frames: f } => {
                    frames = Some(*f);
                },
                Command::Basename { basename: b } => {
                    basename = Some(b.clone());
                },
                Command::Vary { .. } => {
                    varies = true;
                },
                _ => {},
            }
            i = i + 1;
        }
        match frames {
            Some(f) => Ok(Plan::Animation { frames: f, basename }),
            None => if varies {
                Err(ScriptError::VaryWithoutFrames)
            } else {
                Ok(Plan::Still)
            },
        }
    }
}

impl<T: Color> Engine<T> {
    /// The value that `knob` has at `frame`.
    pub fn knob_value(&self, knob: &Knob, frame: Option<u32>) -> (r: Result<
        Scalar,
        ConfigurationError,
    >)
        ensures
            r == knob_value(self@, *knob, frame),
    {
        match (knob, frame) {
            (Knob::Name(name), Some(f)) => self.get_knob_val(name.clone(), f),
            _ => Ok(Scalar::one()),
        }
    }

    /// Moves the geometry in the space into the current frame, draws it
    /// with every line in `color`, and drops it.
    pub fn draw_and_clear(&mut self, color: T)
        ensures
            final(self)@ == drawn_and_cleared(old(self)@, color),
    {
        self.apply_sys();
        self.draw_space_with(color);
        self.clear_lines();
        self.clear_tris();
    }

    /// Runs one command at `frame`, or as part of a still image where
    /// `frame` is `None`, drawing lines in `color`. A command that cannot
    /// run changes nothing.
    pub fn execute_with(&mut self, command: &Command, frame: Option<u32>, color: T) -> (r: Result<
        (),
        ConfigurationError,
    >)
        ensures
            match after_command(old(self)@, *command, frame, color) {
                Ok(after) => r.is_ok() && final(self)@ == after,
                Err(e) => r == Err::<(), ConfigurationError>(e) && final(self)@ == old(self)@,
            },
    {
        match command {
            Command::Push => {
                self.push_sys();
                Ok(())
            },
            Command::Pop => self.pop_sys(),
            Command::Move { x, y, z, knob } => {
                match self.knob_value(knob, frame) {
                    Ok(k) => {
                        self.move_sys(x.mul(k), y.mul(k), z.mul(k));
                        Ok(())
                    },
                    Err(e) => Err(e),
                }
            },
            Command::Rotate { axis, theta, knob } => {
                match self.knob_value(knob, frame) {
                    Ok(k) => self.rotate_sys(*axis, theta.mul(k)),
                    Err(e) => Err(e),
                }
            },
            Command::Scale { x, y, z, knob } => {
                match self.knob_value(knob, frame) {
                    Ok(k) => {
                        self.scale_sys(x.mul(k), y.mul(k), z.mul(k));
                        Ok(())
                    },
                    Err(e) => Err(e),
                }
            },
            Command::Box { x, y, z, h, w, d, constants } => {
                self.set_constants(*constants);
                self.add_box((*x, *y, *z), *h, *w, *d);
                self.draw_and_clear(color);
                Ok(())
            },
            Command::Sphere { x, y, z, r, constants } => {
                self.set_constants(*constants);
                self.add_sphere((*x, *y, *z), *r);
                self.draw_and_clear(color);
                Ok(())
            },
            Command::Torus { x, y, z, r0, r1, constants } => {
                self.set_constants(*constants);
                self.add_torus((*x, *y, *z), *r0, *r1);
                self.draw_and_clear(color);
                Ok(())
            },
            Command::Line { x0, y0, z0, x1, y1, z1 } => {
                self.add_line((*x0, *y0, *z0), (*x1, *y1, *z1));
                self.draw_and_clear(color);
                Ok(())
            },
            _ => Ok(()),
        }
    }

    /// Runs one command at `frame`, or as part of a still image where
    /// `frame` is `None`, drawing lines in a color chosen at random.
    pub fn execute(&mut self, command: &Command, frame: Option<u32>) -> (r: Result<
        (),
        ConfigurationError,
    >)
        ensures
            exists|color: T| #[trigger]
                is_outcome(old(self)@, *command, frame, color, r, final(self)@),
    {
        let color: T = T::random_color();
        let r = self.execute_with(command, frame, color);
        assert(is_outcome(old(self)@, *command, frame, color, r, self@));
        r
    }

    /// Registers every `Vary` command of the script for an animation of
    /// `frames` frames, in the order of the script. Stops at the first that
    /// cannot be registered.
    pub fn register_varies(&mut self, commands: &Vec<Command>, frames: u32) -> (r: Result<
        (),
        ScriptError,
    >)
        requires
            frames < usize::MAX,
        ensures
            match after_varies(old(self)@.knobs, commands@, frames, commands@.len()) {
                Ok(knobs) => r.is_ok() && final(self)@ == (EngineView { knobs, ..old(self)@ }),
                Err((index, cause)) => {
                    &&& r matches Err(ScriptError::Command { index: i, cause: c })
                    &&& i == index
                    &&& c == cause
                    &&& 0 <= index < commands@.len()
                    &&& Ok::<Seq<(Seq<char>, Seq<Scalar>)>, (int, ConfigurationError)>(
                        final(self)@.knobs,
                    ) == after_varies(old(self)@.knobs, commands@, frames, index as nat)
                    &&& final(self)@ == (EngineView { knobs: final(self)@.knobs, ..old(self)@ })
                },
            },
    {
        let count: usize = commands.len();
        let mut i: usize = 0;
        while i < count
            invariant
                i <= count,
                count == commands@.len(),
                frames < usize::MAX,
                self@ == (EngineView { knobs: self@.knobs, ..old(self)@ }),
                after_varies(old(self)@.knobs, commands@, frames, i as nat) == Ok::<
                    Seq<(Seq<char>, Seq<Scalar>)>,
                    (int, ConfigurationError),
                >(self@.knobs),
            decreases count - i,
        {
            match &commands[i] {
                Command::Vary { name, start_frame, end_frame, start_val, end_val } => {
                    match self.add_vary(
                        name.clone(),
                        *start_frame,
                        *end_frame,
                        *start_val,
                        *end_val,
                        frames,
                    ) {
                        Ok(()) => {},
                        Err(cause) => {
                            proof {
                                lemma_vary_failure_stays(
                                    old(self)@.knobs,
                                    commands@,
                                    frames,
                                    (i + 1) as nat,
                                    count as nat,
                                );
                            }
                            return Err(ScriptError::Command { index: i, cause });
                        },
                    }
                },
                _ => {},
            }
            i = i + 1;
        }
        Ok(())
    }

    /// Draws one frame of an animation: runs every command of the script
    /// at `frame`, writes the screen out, and makes the engine ready for
    /// the next frame.
    ///
    /// Stops at the first command that cannot run; the engine is then left
    /// as the commands before it made it. Where the screen cannot be
    /// written out, the engine is left as the commands made it.
    pub fn render_frame(&mut self, commands: &Vec<Command>, frame: u32) -> (r: Result<
        Vec<u8>,
        ScriptError,
    >)
        ensures
            exists|colors: Seq<T>| #[trigger]
                is_frame_outcome(old(self)@, commands@, frame, colors, r, final(self)@),
    {
        let count: usize = commands.len();
        let ghost mut colors: Seq<T> = Seq::empty();
        let mut i: usize = 0;
        while i < count
            invariant
                i <= count,
                count == commands@.len(),
                colors.len() == i,
                after_commands(old(self)@, commands@, Some(frame), colors, i as nat) == Ok::<
                    EngineView<T>,
                    (int, ConfigurationError),
                >(self@),
            decreases count - i,
        {
            let color: T = T::random_color();
            let ghost before = colors;
            proof {
                colors = colors.push(color);
                lemma_after_commands_prefix(
                    old(self)@,
                    commands@,
                    Some(frame),
                    before,
                    colors,
                    i as nat,
                );
            }
            match self.execute_with(&commands[i], Some(frame), color) {
                Ok(()) => {},
                Err(cause) => {
                    proof {
                        let rest = Seq::new((count - i - 1) as nat, |j: int| color);
                        let all = colors + rest;
                        lemma_after_commands_prefix(
                            old(self)@,
                            commands@,
                            Some(frame),
                            colors,
                            all,
                            (i + 1) as nat,
                        );
                        lemma_after_commands_prefix(
                            old(self)@,
                            commands@,
                            Some(frame),
                            colors,
                            all,
                            i as nat,
                        );
                        lemma_failure_stays(
                            old(self)@,
                            commands@,
                            Some(frame),
                            all,
                            (i + 1) as nat,
                            count as nat,
                        );
                        assert(all.len() == commands@.len());
                        assert(is_frame_outcome(
                            old(self)@,
                            commands@,
                            frame,
                            all,
                            Err::<Vec<u8>, ScriptError>(ScriptError::Command { index: i, cause }),
                            self@,
                        ));
                    }
                    return Err(ScriptError::Command { index: i, cause });
                },
            }
            i = i + 1;
        }
        let ghost drawn = self@;
        let r = match self.ppm_byte_vec() {
            Ok(bytes) => {
                self.reset_for_next_frame();
                Ok(bytes)
            },
            Err(e) => Err(ScriptError::Encoding(e)),
        };
        assert(is_frame_outcome(old(self)@, commands@, frame, colors, r, self@));
        r
    }
}

/// Once a command has failed, the commands after it do not run.
pub proof fn lemma_failure_stays<T: Color>(
    v: EngineView<T>,
    commands: Seq<Command>,
    frame: Option<u32>,
    colors: Seq<T>,
    failed: nat,
    n: nat,
)
    requires
        failed <= n,
        after_commands(v, commands, frame, colors, failed).is_err(),
    ensures
        after_commands(v, commands, frame, colors, n) == after_commands(
            v,
            commands,
            frame,
            colors,
            failed,
        ),
    decreases n,
{
    if n > failed {
        lemma_failure_stays(v, commands, frame, colors, failed, (n - 1) as nat);
    }
}

} // verus!
