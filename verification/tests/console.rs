use vector_screen::ui::console::ConsoleState;

#[test]
fn test_append_and_backspace() {
    let mut cs = ConsoleState::new();
    cs.append_char("G");
    cs.append_char("2");
    cs.append_char("8");
    assert_eq!(cs.command_input, "G28");

    cs.backspace();
    assert_eq!(cs.command_input, "G2");
    cs.backspace();
    assert_eq!(cs.command_input, "G");
    cs.backspace();
    assert_eq!(cs.command_input, "");
    cs.backspace();
    assert_eq!(cs.command_input, "");
}

#[test]
fn test_finalize_command() {
    let mut cs = ConsoleState::new();
    assert_eq!(cs.finalize_command(), None);

    cs.append_char("G28");
    let cmd = cs.finalize_command();
    assert_eq!(cmd.as_deref(), Some("G28"));
    assert!(cs.command_input.is_empty());
    assert_eq!(cs.command_history.len(), 1);
}

#[test]
fn test_dedup_consecutive() {
    let mut cs = ConsoleState::new();
    cs.append_char("G28");
    cs.finalize_command();

    cs.append_char("G28");
    cs.finalize_command();

    assert_eq!(cs.command_history.len(), 1);
}

#[test]
fn test_recall_up_down() {
    let mut cs = ConsoleState::new();
    cs.append_char("G28");
    cs.finalize_command();
    cs.append_char("G1 X10");
    cs.finalize_command();
    cs.append_char("M104 S200");
    cs.finalize_command();

    cs.recall_up();
    assert_eq!(cs.command_input, "M104 S200");

    cs.recall_up();
    assert_eq!(cs.command_input, "G1 X10");

    cs.recall_up();
    assert_eq!(cs.command_input, "G28");

    cs.recall_up();
    assert_eq!(cs.command_input, "G28");

    cs.recall_down();
    assert_eq!(cs.command_input, "G1 X10");

    cs.recall_down();
    assert_eq!(cs.command_input, "M104 S200");

    cs.recall_down();
    assert_eq!(cs.command_input, "");
}

#[test]
fn test_recall_then_type_cancels() {
    let mut cs = ConsoleState::new();
    cs.append_char("G28");
    cs.finalize_command();
    cs.append_char("G1 X10");
    cs.finalize_command();

    cs.recall_up();
    assert_eq!(cs.command_input, "G1 X10");

    cs.append_char(" F600");
    assert_eq!(cs.command_input, "G1 X10 F600");
    assert!(cs.history_index().is_none());
}

#[test]
fn test_clear_input() {
    let mut cs = ConsoleState::new();
    cs.append_char("G28");
    cs.clear_input();
    assert!(cs.command_input.is_empty());
}

#[test]
fn test_push_response() {
    let mut cs = ConsoleState::new();
    cs.push_response("ok");
    assert_eq!(cs.response_text, "ok");

    cs.push_response("T:200.0 /200.0");
    assert_eq!(cs.response_text, "ok\nT:200.0 /200.0");
}

#[test]
fn console_finalize_trims_whitespace() {
    let mut cs = ConsoleState::new();
    cs.append_char("  G28 \t");
    assert_eq!(cs.finalize_command().as_deref(), Some("G28"));
    cs.append_char("   ");
    assert_eq!(cs.finalize_command(), None);
    assert_eq!(cs.command_input, "   ");
}

#[test]
fn console_history_capped_at_fifty() {
    let mut cs = ConsoleState::new();
    for i in 0..60 {
        cs.append_char(&format!("G1 X{}", i));
        cs.finalize_command();
    }
    assert_eq!(cs.command_history.len(), 50);
    assert_eq!(cs.command_history[0], "G1 X10");
    assert_eq!(cs.command_history[49], "G1 X59");
}

#[test]
fn console_recall_round_trip_restores_typed_input() {
    let mut cs = ConsoleState::new();
    cs.append_char("G28");
    cs.finalize_command();
    cs.append_char("M10");
    cs.recall_up();
    assert_eq!(cs.command_input, "G28");
    cs.recall_down();
    assert_eq!(cs.command_input, "M10");
    assert!(cs.history_index().is_none());
}

#[test]
fn console_recall_on_empty_history_does_nothing() {
    let mut cs = ConsoleState::new();
    cs.append_char("abc");
    cs.recall_up();
    cs.recall_down();
    assert_eq!(cs.command_input, "abc");
}

#[test]
fn console_response_keeps_last_fifty_lines() {
    let mut cs = ConsoleState::new();
    for i in 0..55 {
        cs.push_response(&format!("line {}", i));
    }
    let lines: Vec<&str> = cs.response_text.lines().collect();
    assert_eq!(lines.len(), 50);
    assert_eq!(lines[0], "line 5");
    assert_eq!(lines[49], "line 54");
}

#[test]
fn console_default_is_empty() {
    let cs = ConsoleState::default();
    assert!(cs.command_input.is_empty());
    assert!(cs.response_text.is_empty());
    assert!(cs.command_history.is_empty());
    assert!(cs.history_index().is_none());
}
