use charlesmine::controller::{ActionInput, ActionState, Controller, ControllerInput, KeyKind};
use charlesmine::model::{Model, ModelCommand};
use charlesmine::view::GameTarget;

fn controller() -> Controller {
    Controller::new(&Model::new())
}

fn cell(y: usize, x: usize) -> ActionInput {
    ActionInput::CursorCoordinate(GameTarget::FieldBlock { y, x })
}

fn down(k: KeyKind) -> ActionInput {
    ActionInput::KeyDown(k)
}

fn up(k: KeyKind) -> ActionInput {
    ActionInput::KeyUp(k)
}

/// Feeds the events and gives the commands as text, event by event.
fn feed(c: &mut Controller, inputs: &[ActionInput]) -> Vec<Vec<String>> {
    inputs
        .iter()
        .map(|i| c.process_input(*i).iter().map(|m| format!("{:?}", m)).collect())
        .collect()
}

fn words(list: &[&[&str]]) -> Vec<Vec<String>> {
    list.iter().map(|l| l.iter().map(|w| format!("{}", w)).collect()).collect()
}

#[test]
fn new_controller_is_idle() {
    let c = controller();
    assert_eq!(
        c.state(),
        ActionState {
            l_down: false,
            r_down: false,
            cursor: GameTarget::Other,
            button: false,
            push: None,
            blast: None,
            captured: false,
        }
    );
}

#[test]
fn click_on_the_button_starts_a_new_game() {
    let mut c = controller();
    let out = feed(
        &mut c,
        &[
            ActionInput::CursorCoordinate(GameTarget::GameButton),
            down(KeyKind::LButton),
            ActionInput::CursorCoordinate(GameTarget::GameButton),
            up(KeyKind::LButton),
        ],
    );
    assert_eq!(
        out,
        words(&[
            &[],
            &["EffectNewGameButtonDown", "EffectCapture"],
            &[],
            &["EffectNewGameButtonUp", "NewGame", "EffectUnCapture"],
        ])
    );
    assert!(!c.state().button);
    assert!(!c.state().captured);
}

#[test]
fn leaving_the_button_gives_up_the_click() {
    let mut c = controller();
    let out = feed(
        &mut c,
        &[
            ActionInput::CursorCoordinate(GameTarget::GameButton),
            down(KeyKind::LButton),
            ActionInput::CursorCoordinate(GameTarget::Other),
            ActionInput::CursorCoordinate(GameTarget::GameButton),
            up(KeyKind::LButton),
        ],
    );
    assert_eq!(
        out,
        words(&[
            &[],
            &["EffectNewGameButtonDown", "EffectCapture"],
            &["EffectNewGameButtonUp"],
            &[],
            &["EffectUnCapture"],
        ])
    );
}

#[test]
fn press_and_release_on_a_cell_opens_it() {
    let mut c = controller();
    let out = feed(&mut c, &[cell(2, 3), down(KeyKind::LButton), cell(2, 3), up(KeyKind::LButton)]);
    assert_eq!(
        out,
        words(&[
            &[],
            &["EffectPushBlock { x: 3, y: 2 }", "EffectCapture"],
            &[],
            &["EffectPopBlock { x: 3, y: 2 }", "OpenBlock(2, 3)", "EffectUnCapture"],
        ])
    );
    assert_eq!(c.state().push, None);
}

#[test]
fn push_follows_the_pointer_and_opens_the_cell_of_the_release() {
    let mut c = controller();
    let out = feed(
        &mut c,
        &[cell(2, 3), down(KeyKind::LButton), cell(2, 4), cell(3, 4), up(KeyKind::LButton)],
    );
    assert_eq!(
        out,
        words(&[
            &[],
            &["EffectPushBlock { x: 3, y: 2 }", "EffectCapture"],
            &["EffectPopBlock { x: 3, y: 2 }", "EffectPushBlock { x: 4, y: 2 }"],
            &["EffectPopBlock { x: 4, y: 2 }", "EffectPushBlock { x: 4, y: 3 }"],
            &["EffectPopBlock { x: 4, y: 3 }", "OpenBlock(3, 4)", "EffectUnCapture"],
        ])
    );
}

#[test]
fn leaving_the_field_gives_up_the_press() {
    let mut c = controller();
    let out = feed(
        &mut c,
        &[
            cell(2, 3),
            down(KeyKind::LButton),
            ActionInput::CursorCoordinate(GameTarget::Other),
            cell(2, 3),
            up(KeyKind::LButton),
        ],
    );
    assert_eq!(
        out,
        words(&[
            &[],
            &["EffectPushBlock { x: 3, y: 2 }", "EffectCapture"],
            &["EffectPopBlock { x: 3, y: 2 }"],
            &[],
            &["EffectUnCapture"],
        ])
    );
}

#[test]
fn press_off_the_field_opens_nothing() {
    let mut c = controller();
    let out = feed(&mut c, &[down(KeyKind::LButton), cell(1, 1), up(KeyKind::LButton)]);
    assert_eq!(out, words(&[&["EffectCapture"], &[], &["EffectUnCapture"]]));
}

#[test]
fn secondary_press_rotates_the_mark() {
    let mut c = controller();
    let out = feed(&mut c, &[cell(4, 5), down(KeyKind::RButton), up(KeyKind::RButton)]);
    assert_eq!(out, words(&[&[], &["RotateBlockState(4, 5)"], &[]]));
    let out = feed(
        &mut c,
        &[ActionInput::CursorCoordinate(GameTarget::GameButton), down(KeyKind::RButton)],
    );
    assert_eq!(out, words(&[&[], &[]]));
}

#[test]
fn both_buttons_make_a_chord() {
    let mut c = controller();
    let out = feed(
        &mut c,
        &[
            cell(2, 3),
            down(KeyKind::LButton),
            down(KeyKind::RButton),
            cell(2, 4),
            up(KeyKind::RButton),
            up(KeyKind::LButton),
        ],
    );
    assert_eq!(
        out,
        words(&[
            &[],
            &["EffectPushBlock { x: 3, y: 2 }", "EffectCapture"],
            &["EffectPopBlock { x: 3, y: 2 }", "EffectBlastDownBlock { x: 3, y: 2 }"],
            &["EffectBlastUpBlock { x: 3, y: 2 }", "EffectBlastDownBlock { x: 4, y: 2 }"],
            &["EffectBlastUpBlock { x: 4, y: 2 }", "BlastBlock(2, 4)"],
            &["EffectUnCapture"],
        ])
    );
    assert_eq!(c.state(), ActionState {
        l_down: false,
        r_down: false,
        cursor: GameTarget::FieldBlock { y: 2, x: 4 },
        button: false,
        push: None,
        blast: None,
        captured: false,
    });
}

#[test]
fn chord_begun_with_the_secondary_button_rotates_the_mark_first() {
    let mut c = controller();
    let out = feed(
        &mut c,
        &[cell(2, 3), down(KeyKind::RButton), down(KeyKind::LButton), up(KeyKind::LButton)],
    );
    assert_eq!(
        out,
        words(&[
            &[],
            &["RotateBlockState(2, 3)"],
            &["EffectBlastDownBlock { x: 3, y: 2 }", "EffectCapture"],
            &["EffectBlastUpBlock { x: 3, y: 2 }", "BlastBlock(2, 3)", "EffectUnCapture"],
        ])
    );
}

#[test]
fn leaving_the_field_gives_up_the_chord() {
    let mut c = controller();
    let out = feed(
        &mut c,
        &[
            cell(2, 3),
            down(KeyKind::LButton),
            down(KeyKind::RButton),
            ActionInput::CursorCoordinate(GameTarget::Other),
            up(KeyKind::RButton),
        ],
    );
    assert_eq!(
        out[3],
        vec![format!("EffectBlastUpBlock {{ x: 3, y: 2 }}")]
    );
    assert!(out[4].is_empty());
}

#[test]
fn controller_hands_commands_through() {
    let mut c = controller();
    let out = c.process_command(ControllerInput::Initialize);
    assert_eq!(format!("{:?}", out), "[Initialize]");
    let out = c.process_command(ControllerInput::ModelCommand(ModelCommand::RestartGame));
    assert_eq!(format!("{:?}", out), "[RestartGame]");
    let out = c.process_command(ControllerInput::ActionInput(down(KeyKind::LButton)));
    assert_eq!(format!("{:?}", out), "[EffectCapture]");
    assert!(c.state().l_down);
}
