//! Turns pointer events into commands.
//!
//! Five small state machines watch every event side by side: a click on the
//! new-game button, a press that opens a cell, a press that rotates a mark,
//! a chord with both buttons, and the capture of the pointer while the
//! primary button is held. Each says at once which commands an event gives
//! rise to; commands whose names begin with `Effect` only tell the view what
//! is pressed.

use crate::model::{Model, ModelCommand};
use crate::view::GameTarget;
use vstd::prelude::*;

verus! {

/// A button of the pointer.
#[derive(Copy, Clone, PartialEq, Eq, PartialOrd, Ord, Debug, Structural)]
pub enum KeyKind {
    LButton,
    RButton,
}

/// One event of the pointer.
#[derive(Copy, Clone, PartialEq, Eq, Debug, Structural)]
pub enum ActionInput {
    KeyDown(KeyKind),
    KeyUp(KeyKind),
    CursorCoordinate(GameTarget),
}

/// What the controller is given.
#[derive(Debug)]
pub enum ControllerInput {
    Initialize,
    ActionInput(ActionInput),
    ModelCommand(ModelCommand),
}

/// What the state machines remember between events.
#[derive(Copy, Clone, PartialEq, Eq, Debug)]
pub struct ActionState {
    /// The primary button is held.
    pub l_down: bool,
    /// The secondary button is held.
    pub r_down: bool,
    /// What lay under the pointer at the last event that said so.
    pub cursor: GameTarget,
    /// A click on the new-game button is under way.
    pub button: bool,
    /// The cell that an opening press is on.
    pub push: Option<(usize, usize)>,
    /// The cell that a chord is on.
    pub blast: Option<(usize, usize)>,
    /// The pointer is captured.
    pub captured: bool,
}

/// The cell under the pointer, where there is one.
pub open spec fn cell_of(target: GameTarget) -> Option<(usize, usize)> {
    match target {
        GameTarget::FieldBlock { y, x } => Some((y, x)),
        _ => None,
    }
}

impl ActionState {
    /// Nothing held, nothing under way.
    pub open spec fn idle() -> ActionState {
        ActionState {
            l_down: false,
            r_down: false,
            cursor: GameTarget::Other,
            button: false,
            push: None,
            blast: None,
            captured: false,
        }
    }

    /// Buttons and pointer after `input`.
    pub open spec fn observe(self, input: ActionInput) -> ActionState {
        match input {
            ActionInput::KeyDown(KeyKind::LButton) => ActionState { l_down: true, ..self },
            ActionInput::KeyDown(KeyKind::RButton) => ActionState { r_down: true, ..self },
            ActionInput::KeyUp(KeyKind::LButton) => ActionState { l_down: false, ..self },
            ActionInput::KeyUp(KeyKind::RButton) => ActionState { r_down: false, ..self },
            ActionInput::CursorCoordinate(target) => ActionState { cursor: target, ..self },
        }
    }

    /// The click on the new-game button: a press of the primary button on
    /// the button begins it, the pointer leaving the button ends it without
    /// a command, and the release gives the command for a new game.
    pub open spec fn button_step(self, input: ActionInput) -> (bool, Seq<ModelCommand>) {
        if self.button {
            match input {
                ActionInput::CursorCoordinate(target) => if target == GameTarget::GameButton {
                    (true, seq![])
                } else {
                    (false, seq![ModelCommand::EffectNewGameButtonUp])
                },
                ActionInput::KeyUp(KeyKind::LButton) => (
                    false,
                    seq![ModelCommand::EffectNewGameButtonUp, ModelCommand::NewGame],
                ),
                _ => (true, seq![]),
            }
        } else if input == ActionInput::KeyDown(KeyKind::LButton) && self.cursor
            == GameTarget::GameButton {
            (true, seq![ModelCommand::EffectNewGameButtonDown])
        } else {
            (false, seq![])
        }
    }

    /// The press that opens a cell: a press of the primary button on a cell
    /// while the secondary is up begins it and pushes the cell in; the push
    /// follows the pointer from cell to cell; the pointer leaving the field
    /// or a press of the secondary button ends it without a command; the
    /// release opens the cell under the pointer.
    pub open spec fn push_step(self, input: ActionInput) -> (Option<(usize, usize)>, Seq<ModelCommand>) {
        match self.push {
            Some((y, x)) => match input {
                ActionInput::CursorCoordinate(target) => match cell_of(target) {
                    Some((ny, nx)) => if (ny, nx) == (y, x) {
                        (self.push, seq![])
                    } else {
                        (
                            Some((ny, nx)),
                            seq![
                                ModelCommand::EffectPopBlock { x, y },
                                ModelCommand::EffectPushBlock { x: nx, y: ny },
                            ],
                        )
                    },
                    None => (None, seq![ModelCommand::EffectPopBlock { x, y }]),
                },
                ActionInput::KeyDown(KeyKind::RButton) => (
                    None,
                    seq![ModelCommand::EffectPopBlock { x, y }],
                ),
                ActionInput::KeyUp(KeyKind::LButton) => (
                    None,
                    seq![ModelCommand::EffectPopBlock { x, y }, ModelCommand::OpenBlock(y, x)],
                ),
                _ => (self.push, seq![]),
            },
            None => match cell_of(self.cursor) {
                Some((y, x)) => if input == ActionInput::KeyDown(KeyKind::LButton) && !self.r_down {
                    (Some((y, x)), seq![ModelCommand::EffectPushBlock { x, y }])
                } else {
                    (None, seq![])
                },
                None => (None, seq![]),
            },
        }
    }

    /// The press that rotates a mark: a press of the secondary button on a
    /// cell while the primary is up.
    pub open spec fn mark_step(self, input: ActionInput) -> Seq<ModelCommand> {
        match cell_of(self.cursor) {
            Some((y, x)) => if input == ActionInput::KeyDown(KeyKind::RButton) && !self.l_down {
                seq![ModelCommand::RotateBlockState(y, x)]
            } else {
                seq![]
            },
            None => seq![],
        }
    }

    /// The chord: it begins on a cell with the press that brings both
    /// buttons down and pushes in what the chord covers; the push follows
    /// the pointer from cell to cell; the pointer leaving the field ends it
    /// without a command; the release of either button gives the chord on
    /// the cell under the pointer.
    pub open spec fn blast_step(self, input: ActionInput) -> (Option<(usize, usize)>, Seq<ModelCommand>) {
        match self.blast {
            Some((y, x)) => match input {
                ActionInput::CursorCoordinate(target) => match cell_of(target) {
                    Some((ny, nx)) => if (ny, nx) == (y, x) {
                        (self.blast, seq![])
                    } else {
                        (
                            Some((ny, nx)),
                            seq![
                                ModelCommand::EffectBlastUpBlock { x, y },
                                ModelCommand::EffectBlastDownBlock { x: nx, y: ny },
                            ],
                        )
                    },
                    None => (None, seq![ModelCommand::EffectBlastUpBlock { x, y }]),
                },
                ActionInput::KeyUp(_) => (
                    None,
                    seq![ModelCommand::EffectBlastUpBlock { x, y }, ModelCommand::BlastBlock(y, x)],
                ),
                _ => (self.blast, seq![]),
            },
            None => match cell_of(self.cursor) {
                Some((y, x)) => if input is KeyDown && !(self.l_down && self.r_down) && self.observe(
                    input,
                ).l_down && self.observe(input).r_down {
                    (Some((y, x)), seq![ModelCommand::EffectBlastDownBlock { x, y }])
                } else {
                    (None, seq![])
                },
                None => (None, seq![]),
            },
        }
    }

    /// The capture of the pointer: from the press of the primary button to
    /// its release.
    pub open spec fn capture_step(self, input: ActionInput) -> (bool, Seq<ModelCommand>) {
        if !self.captured && input == ActionInput::KeyDown(KeyKind::LButton) {
            (true, seq![ModelCommand::EffectCapture])
        } else if self.captured && input == ActionInput::KeyUp(KeyKind::LButton) {
            (false, seq![ModelCommand::EffectUnCapture])
        } else {
            (self.captured, seq![])
        }
    }

    /// The state after `input`.
    pub open spec fn next(self, input: ActionInput) -> ActionState {
        ActionState {
            button: self.button_step(input).0,
            push: self.push_step(input).0,
            blast: self.blast_step(input).0,
            captured: self.capture_step(input).0,
            ..self.observe(input)
        }
    }

    /// The commands that `input` gives rise to: those of the button, the
    /// opening press, the mark, the chord and the capture, in this order.
    pub open spec fn emitted(self, input: ActionInput) -> Seq<ModelCommand> {
        self.button_step(input).1 + self.push_step(input).1 + self.mark_step(input)
            + self.blast_step(input).1 + self.capture_step(input).1
    }
}

impl ActionState {
    fn run_observe(&self, input: ActionInput) -> (seen: ActionState)
        ensures
            seen == self.observe(input),
    {
        let mut seen = *self;
        match input {
            ActionInput::KeyDown(KeyKind::LButton) => {
                seen.l_down = true;
            },
            ActionInput::KeyDown(KeyKind::RButton) => {
                seen.r_down = true;
            },
            ActionInput::KeyUp(KeyKind::LButton) => {
                seen.l_down = false;
            },
            ActionInput::KeyUp(KeyKind::RButton) => {
                seen.r_down = false;
            },
            ActionInput::CursorCoordinate(target) => {
                seen.cursor = target;
            },
        }
        seen
    }

    /// The cell under the pointer, where there is one.
    fn on_cell(&self) -> (cell: Option<(usize, usize)>)
        ensures
            cell == cell_of(self.cursor),
    {
        match self.cursor {
            GameTarget::FieldBlock { y, x } => Some((y, x)),
            _ => None,
        }
    }

    fn run_button(&self, input: ActionInput, commands: &mut Vec<ModelCommand>) -> (button: bool)
        ensures
            button == self.button_step(input).0,
            final(commands)@ == old(commands)@ + self.button_step(input).1,
    {
        let ghost before = commands@;
        let mut button = self.button;
        if self.button {
            match input {
                ActionInput::CursorCoordinate(target) => {
                    match target {
                        GameTarget::GameButton => {},
                        _ => {
                            button = false;
                            commands.push(ModelCommand::EffectNewGameButtonUp);
                        },
                    }
                },
                ActionInput::KeyUp(KeyKind::LButton) => {
                    button = false;
                    commands.push(ModelCommand::EffectNewGameButtonUp);
                    commands.push(ModelCommand::NewGame);
                },
                _ => {},
            }
        } else if let ActionInput::KeyDown(KeyKind::LButton) = input {
            if let GameTarget::GameButton = self.cursor {
                button = true;
                commands.push(ModelCommand::EffectNewGameButtonDown);
            }
        }
        assert(commands@ =~= before + self.button_step(input).1);
        button
    }

    fn run_push(&self, input: ActionInput, commands: &mut Vec<ModelCommand>) -> (push: Option<
        (usize, usize),
    >)
        ensures
            push == self.push_step(input).0,
            final(commands)@ == old(commands)@ + self.push_step(input).1,
    {
        let ghost before = commands@;
        let mut push = self.push;
        match self.push {
            Some((y, x)) => match input {
                ActionInput::CursorCoordinate(target) => match target {
                    GameTarget::FieldBlock { y: ny, x: nx } => {
                        if ny != y || nx != x {
                            push = Some((ny, nx));
                            commands.push(ModelCommand::EffectPopBlock { x, y });
                            commands.push(ModelCommand::EffectPushBlock { x: nx, y: ny });
                        }
                    },
                    _ => {
                        push = None;
                        commands.push(ModelCommand::EffectPopBlock { x, y });
                    },
                },
                ActionInput::KeyDown(KeyKind::RButton) => {
                    push = None;
                    commands.push(ModelCommand::EffectPopBlock { x, y });
                },
                ActionInput::KeyUp(KeyKind::LButton) => {
                    push = None;
                    commands.push(ModelCommand::EffectPopBlock { x, y });
                    commands.push(ModelCommand::OpenBlock(y, x));
                },
                _ => {},
            },
            None => {
                if let Some((y, x)) = self.on_cell() {
                    if let ActionInput::KeyDown(KeyKind::LButton) = input {
                        if !self.r_down {
                            push = Some((y, x));
                            commands.push(ModelCommand::EffectPushBlock { x, y });
                        }
                    }
                }
            },
        }
        assert(commands@ =~= before + self.push_step(input).1);
        push
    }

    fn run_mark(&self, input: ActionInput, commands: &mut Vec<ModelCommand>)
        ensures
            final(commands)@ == old(commands)@ + self.mark_step(input),
    {
        let ghost before = commands@;
        if let Some((y, x)) = self.on_cell() {
            if let ActionInput::KeyDown(KeyKind::RButton) = input {
                if !self.l_down {
                    commands.push(ModelCommand::RotateBlockState(y, x));
                }
            }
        }
        assert(commands@ =~= before + self.mark_step(input));
    }

    fn run_blast(&self, input: ActionInput, commands: &mut Vec<ModelCommand>) -> (blast: Option<
        (usize, usize),
    >)
        ensures
            blast == self.blast_step(input).0,
            final(commands)@ == old(commands)@ + self.blast_step(input).1,
    {
        let ghost before = commands@;
        let mut blast = self.blast;
        match self.blast {
            Some((y, x)) => match input {
                ActionInput::CursorCoordinate(target) => match target {
                    GameTarget::FieldBlock { y: ny, x: nx } => {
                        if ny != y || nx != x {
                            blast = Some((ny, nx));
                            commands.push(ModelCommand::EffectBlastUpBlock { x, y });
                            commands.push(ModelCommand::EffectBlastDownBlock { x: nx, y: ny });
                        }
                    },
                    _ => {
                        blast = None;
                        commands.push(ModelCommand::EffectBlastUpBlock { x, y });
                    },
                },
                ActionInput::KeyUp(_) => {
                    blast = None;
                    commands.push(ModelCommand::EffectBlastUpBlock { x, y });
                    commands.push(ModelCommand::BlastBlock(y, x));
                },
                _ => {},
            },
            None => {
                if let Some((y, x)) = self.on_cell() {
                    let seen = self.run_observe(input);
                    if let ActionInput::KeyDown(_) = input {
                        if !(self.l_down && self.r_down) && seen.l_down && seen.r_down {
                            blast = Some((y, x));
                            commands.push(ModelCommand::EffectBlastDownBlock { x, y });
                        }
                    }
                }
            },
        }
        assert(commands@ =~= before + self.blast_step(input).1);
        blast
    }

    fn run_capture(&self, input: ActionInput, commands: &mut Vec<ModelCommand>) -> (captured: bool)
        ensures
            captured == self.capture_step(input).0,
            final(commands)@ == old(commands)@ + self.capture_step(input).1,
    {
        let ghost before = commands@;
        let mut captured = self.captured;
        match input {
            ActionInput::KeyDown(KeyKind::LButton) => {
                if !self.captured {
                    captured = true;
                    commands.push(ModelCommand::EffectCapture);
                }
            },
            ActionInput::KeyUp(KeyKind::LButton) => {
                if self.captured {
                    captured = false;
                    commands.push(ModelCommand::EffectUnCapture);
                }
            },
            _ => {},
        }
        assert(commands@ =~= before + self.capture_step(input).1);
        captured
    }
}

/// Receives the events of the pointer and gives the commands for the
/// session.
pub struct Controller {
    state: ActionState,
}

impl View for Controller {
    type V = ActionState;

    closed spec fn view(&self) -> ActionState {
        self.state
    }
}

impl Controller {
    /// A controller that has seen nothing yet.
    pub fn new(_model: &Model) -> (controller: Self)
        ensures
            controller@ == ActionState::idle(),
    {
        Controller {
            state: ActionState {
                l_down: false,
                r_down: false,
                cursor: GameTarget::Other,
                button: false,
                push: None,
                blast: None,
                captured: false,
            },
        }
    }

    /// What the state machines remember.
    pub fn state(&self) -> (state: ActionState)
        ensures
            state == self@,
    {
        self.state
    }

    /// Takes one event of the pointer and gives the commands that it gives
    /// rise to.
    pub fn process_input(&mut self, input: ActionInput) -> (commands: Vec<ModelCommand>)
        ensures
            final(self)@ == old(self)@.next(input),
            commands@ == old(self)@.emitted(input),
    {
        let s = self.state;
        let mut commands: Vec<ModelCommand> = Vec::new();
        let seen = s.run_observe(input);
        let button = s.run_button(input, &mut commands);
        let push = s.run_push(input, &mut commands);
        s.run_mark(input, &mut commands);
        let blast = s.run_blast(input, &mut commands);
        let captured = s.run_capture(input, &mut commands);
        assert(commands@ =~= s.emitted(input));
        self.state = ActionState {
            l_down: seen.l_down,
            r_down: seen.r_down,
            cursor: seen.cursor,
            button,
            push,
            blast,
            captured,
        };
        commands
    }

    /// Takes what the controller is given and gives the commands for the
    /// session: its own for the start, those that an event of the pointer
    /// gives rise to, or the command that was handed in.
    pub fn process_command(&mut self, command: ControllerInput) -> (commands: Vec<ModelCommand>)
        ensures
            match command {
                ControllerInput::Initialize => final(self)@ == old(self)@ && commands@
                    == seq![ModelCommand::Initialize],
                ControllerInput::ActionInput(input) => final(self)@ == old(self)@.next(input)
                    && commands@ == old(self)@.emitted(input),
                ControllerInput::ModelCommand(model_command) => final(self)@ == old(self)@
                    && commands@ == seq![model_command],
            },
    {
        match command {
            ControllerInput::Initialize => {
                let mut commands: Vec<ModelCommand> = Vec::new();
                commands.push(ModelCommand::Initialize);
                assert(commands@ =~= seq![ModelCommand::Initialize]);
                commands
            },
            ControllerInput::ActionInput(input) => self.process_input(input),
            ControllerInput::ModelCommand(model_command) => {
                let mut commands: Vec<ModelCommand> = Vec::new();
                commands.push(model_command);
                assert(commands@ =~= seq![model_command]);
                commands
            },
        }
    }
}

} // verus!
