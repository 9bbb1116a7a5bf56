use hackshell::readline::{Context, Event, Key, Step};

fn type_line(ctx: &mut Context, line: &str) {
    for c in line.chars() {
        ctx.handle_key(Key::Char(c));
    }
}

fn enter(ctx: &mut Context) -> String {
    match ctx.handle_key(Key::Enter) {
        Step::Done(Event::Line(s)) => s,
        other => panic!("expected a line, got {:?}", other),
    }
}

#[test]
fn typing_echoes_at_end_of_line() {
    let mut ctx = Context::new();
    assert!(matches!(ctx.handle_key(Key::Char('a')), Step::Echo('a')));
    assert!(matches!(ctx.handle_key(Key::Char('b')), Step::Echo('b')));
    let (line, pos) = ctx.current_line();
    assert_eq!(line, "ab");
    assert_eq!(pos, 2);
}

#[test]
fn inserting_mid_line_redraws() {
    let mut ctx = Context::new();
    type_line(&mut ctx, "ac");
    assert!(matches!(ctx.handle_key(Key::Left), Step::Redraw));
    assert!(matches!(ctx.handle_key(Key::Char('b')), Step::Redraw));
    let (line, pos) = ctx.current_line();
    assert_eq!(line, "abc");
    assert_eq!(pos, 2);
}

#[test]
fn enter_returns_the_line_and_clears_it() {
    let mut ctx = Context::new();
    type_line(&mut ctx, "hello");
    assert_eq!(enter(&mut ctx), "hello");
    let (line, pos) = ctx.current_line();
    assert_eq!(line, "");
    assert_eq!(pos, 0);
}

#[test]
fn backspace_removes_before_cursor() {
    let mut ctx = Context::new();
    type_line(&mut ctx, "abc");
    assert!(matches!(ctx.handle_key(Key::Backspace), Step::Redraw));
    assert_eq!(ctx.current_line().0, "ab");
    // At the start of the line, backspace does nothing.
    ctx.handle_key(Key::Left);
    ctx.handle_key(Key::Left);
    assert!(matches!(ctx.handle_key(Key::Backspace), Step::Quiet));
    assert_eq!(ctx.current_line().0, "ab");
}

#[test]
fn delete_removes_at_cursor() {
    let mut ctx = Context::new();
    type_line(&mut ctx, "abc");
    // At the end of the line, delete does nothing.
    assert!(matches!(ctx.handle_key(Key::Delete), Step::Quiet));
    ctx.handle_key(Key::Left);
    ctx.handle_key(Key::Left);
    assert!(matches!(ctx.handle_key(Key::Delete), Step::Redraw));
    assert_eq!(ctx.current_line().0, "ac");
}

#[test]
fn cursor_stops_at_both_ends() {
    let mut ctx = Context::new();
    type_line(&mut ctx, "x");
    assert!(matches!(ctx.handle_key(Key::Right), Step::Quiet));
    assert!(matches!(ctx.handle_key(Key::Left), Step::Redraw));
    assert!(matches!(ctx.handle_key(Key::Left), Step::Quiet));
}

#[test]
fn history_browsing_up_and_down() {
    let mut ctx = Context::new();
    type_line(&mut ctx, "first");
    enter(&mut ctx);
    type_line(&mut ctx, "second");
    enter(&mut ctx);

    assert!(matches!(ctx.handle_key(Key::Up), Step::Redraw));
    assert_eq!(ctx.current_line().0, "second");
    assert!(matches!(ctx.handle_key(Key::Up), Step::Redraw));
    assert_eq!(ctx.current_line().0, "first");
    // Above the oldest entry nothing happens.
    assert!(matches!(ctx.handle_key(Key::Up), Step::Quiet));
    assert!(matches!(ctx.handle_key(Key::Down), Step::Redraw));
    assert_eq!(ctx.current_line().0, "second");
    // Below the newest entry the input clears.
    assert!(matches!(ctx.handle_key(Key::Down), Step::Redraw));
    assert_eq!(ctx.current_line().0, "");
    assert!(matches!(ctx.handle_key(Key::Down), Step::Quiet));
}

#[test]
fn empty_lines_are_not_recorded() {
    let mut ctx = Context::new();
    assert_eq!(enter(&mut ctx), "");
    // With no history, browsing does nothing.
    assert!(matches!(ctx.handle_key(Key::Up), Step::Quiet));
}

#[test]
fn loaded_history_is_browsable() {
    let mut ctx = Context::new();
    ctx.history_load(vec!["one".to_string(), "two".to_string()]);
    assert!(matches!(ctx.handle_key(Key::Up), Step::Redraw));
    assert_eq!(ctx.current_line().0, "two");
    assert!(matches!(ctx.handle_key(Key::Up), Step::Redraw));
    assert_eq!(ctx.current_line().0, "one");
}

#[test]
fn control_keys_end_the_read() {
    let mut ctx = Context::new();
    assert!(matches!(ctx.handle_key(Key::CtrlC), Step::Done(Event::Ctrlc)));
    assert!(matches!(ctx.handle_key(Key::CtrlD), Step::Done(Event::Eof)));
    assert!(matches!(ctx.handle_key(Key::Tab), Step::Done(Event::Tab)));
    assert!(matches!(ctx.handle_key(Key::Other), Step::Quiet));
}
