use chris_code::events::{AppEvent, InputEvent, KeyCode, KeyEvent, KeyModifiers, CONTROL};
use chris_code::input::{next_input_step, InputStep, TerminalRead};
use chris_code::{require_model, App, Args, ArgsError};

#[test]
fn model_is_required() {
    assert_eq!(require_model(Some("gpt".to_string())), Ok("gpt".to_string()));
    assert_eq!(require_model(None), Err(ArgsError::NoModel));
    assert_eq!(ArgsError::NoModel.message(), "No model set: use the --model arg");
}

#[test]
fn args_and_app_hold_their_fields() {
    let args = Args { prompt: "p".to_string(), model: None };
    assert_eq!(args.prompt, "p");
    assert!(args.model.is_none());
    let app = App { exit: false };
    assert!(!app.exit);
}

#[test]
fn keys_are_forwarded() {
    let key = KeyEvent { code: KeyCode::Char('c'), modifiers: KeyModifiers { bits: CONTROL } };
    match next_input_step(TerminalRead::Key(key)) {
        InputStep::Forward(AppEvent::Input(InputEvent::Key(k))) => assert_eq!(k, key),
        other => panic!("unexpected {:?}", other),
    }
}

#[test]
fn resizes_are_forwarded() {
    assert!(matches!(
        next_input_step(TerminalRead::Resize(120, 40)),
        InputStep::Forward(AppEvent::Input(InputEvent::Resize(120, 40)))
    ));
}

#[test]
fn other_events_are_ignored_and_failures_stop() {
    assert!(matches!(next_input_step(TerminalRead::Other), InputStep::Ignore));
    assert!(matches!(next_input_step(TerminalRead::Failed), InputStep::Stop));
}
