use zanop::apps::clock::format_time;
use zanop::apps::notes::{strip_prefix, NotesSession};
use zanop::apps::snake::{Rng, SnakeGame, StepOutcome};
use zanop::apps::{app_named, list, App};
use zanop::drivers::rtc::RtcTime;
use zanop::fs::Vfs;

fn strings(v: &[&str]) -> Vec<String> {
    v.iter().map(|s| s.to_string()).collect()
}

#[test]
fn apps_are_listed_and_found() {
    assert_eq!(list(), ["Calculator", "Notes", "Clock", "Snake"]);
    assert_eq!(app_named("clock"), Some(App::Clock));
    assert_eq!(app_named("Snake"), Some(App::Snake));
    assert_eq!(app_named("calculator"), Some(App::Calculator));
    assert_eq!(app_named("notes"), Some(App::Notes));
    assert_eq!(app_named("CLOCK"), None);
    assert_eq!(app_named(""), None);
}

#[test]
fn clock_line_is_zero_padded() {
    let t = RtcTime { seconds: 5, minutes: 7, hours: 9, day: 1, month: 2, year: 2024 };
    assert_eq!(format_time(&t), "\r2024-02-01  09:07:05   ");
}

#[test]
fn notes_are_written_listed_and_read() {
    let mut vfs = Vfs::new();
    let mut s = NotesSession::new();
    let r = s.handle(&mut vfs, "list");
    assert_eq!(r.lines, strings(&["(no notes yet)"]));
    let r = s.handle(&mut vfs, "new todo");
    assert_eq!(r.lines, strings(&["Type your note. Finish with a line containing only '.'"]));
    assert!(s.is_writing());
    assert!(s.handle(&mut vfs, "buy milk").lines.is_empty());
    assert!(s.handle(&mut vfs, "call mum").lines.is_empty());
    let r = s.handle(&mut vfs, " . ");
    assert_eq!(r.lines, strings(&["Saved 'todo'."]));
    assert!(!s.is_writing());
    assert_eq!(s.handle(&mut vfs, "read todo").lines, strings(&["buy milk", "call mum"]));
    assert_eq!(s.handle(&mut vfs, "list").lines, strings(&["- todo"]));
    assert_eq!(s.handle(&mut vfs, "read nope").lines, strings(&["No note called 'nope'."]));
    assert_eq!(
        s.handle(&mut vfs, "new todo").lines,
        strings(&["Couldn't create 'todo' (does it already exist?)"])
    );
    assert_eq!(
        s.handle(&mut vfs, "bogus").lines,
        strings(&["Unknown command. Try: new <name>, list, read <name>, exit"])
    );
    let r = s.handle(&mut vfs, "exit");
    assert_eq!(r.lines, strings(&["Closing Notes."]));
    assert!(r.closed);
}

#[test]
fn prefix_stripping() {
    assert_eq!(strip_prefix("new x", "new "), Some("x".to_string()));
    assert_eq!(strip_prefix("new", "new "), None);
    assert_eq!(strip_prefix("read x", "new "), None);
}

#[test]
fn rng_is_xorshift() {
    let mut r = Rng(0x9F3B_17A5);
    assert_eq!(r.next(), 0x4436_e102);
    assert_eq!(r.next(), 0x9acb_4c29);
}

#[test]
fn snake_starts_centered_with_food() {
    let g = SnakeGame::new();
    let lines = g.render();
    assert_eq!(lines.len(), 19);
    assert_eq!(lines[0], "Score: 0");
    let row9: Vec<char> = lines[1 + 9].chars().collect();
    assert_eq!(row9.len(), 40);
    assert_eq!(row9[20], '@');
    let row3: Vec<char> = lines[1 + 3].chars().collect();
    assert_eq!(row3[34], '*');
}

#[test]
fn snake_moves_and_turns() {
    let mut g = SnakeGame::new();
    assert_eq!(g.step(None), StepOutcome::Continue);
    let row9: Vec<char> = g.render()[10].chars().collect();
    assert_eq!(row9[21], '@');
    assert_eq!(row9[20], ' ');
    assert_eq!(g.step(Some(0x11)), StepOutcome::Continue);
    let row8: Vec<char> = g.render()[9].chars().collect();
    assert_eq!(row8[21], '@');
    assert_eq!(g.step(Some(0x91)), StepOutcome::Continue);
    assert_eq!(g.step(Some(0x2D)), StepOutcome::Quit);
}

#[test]
fn snake_dies_on_the_wall() {
    let mut g = SnakeGame::new();
    assert_eq!(g.step(Some(0x11)), StepOutcome::Continue);
    let mut outcome = StepOutcome::Continue;
    let mut steps = 0;
    while outcome == StepOutcome::Continue {
        outcome = g.step(None);
        steps += 1;
    }
    assert_eq!(outcome, StepOutcome::GameOver);
    assert_eq!(steps, 9);
    assert_eq!(g.score(), 0);
}

#[test]
fn snake_eats_and_grows() {
    let mut g = SnakeGame::new();
    // food at (34, 3); head at (20, 9): go up 6 rows, then right 14 columns
    assert_eq!(g.step(Some(0x11)), StepOutcome::Continue);
    for _ in 0..5 {
        assert_eq!(g.step(None), StepOutcome::Continue);
    }
    assert_eq!(g.step(Some(0x20)), StepOutcome::Continue);
    for _ in 0..13 {
        assert_eq!(g.step(None), StepOutcome::Continue);
    }
    assert_eq!(g.score(), 1);
    let lines = g.render();
    assert_eq!(lines[0], "Score: 1");
    let row3: Vec<char> = lines[4].chars().collect();
    assert_eq!(row3[34], '@');
    assert_eq!(row3[33], 'o');
}
