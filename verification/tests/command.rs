use call_browser::app::App;
use call_browser::app::Line;
use call_browser::app::TITLE;
use call_browser::command::command_for;
use call_browser::command::Command;
use call_browser::command::Event;
use call_browser::command::Key;
use call_browser::graph::CallGraph;
use call_browser::node::Node;
use petgraph::graph::NodeIndex;

fn node(name: &str, local: u64, max: Option<u64>) -> Node {
    Node { name: name.to_string(), local, max }
}

fn sample() -> CallGraph {
    let mut graph = CallGraph::new();
    graph.add_node(node("A", 16, Some(40)));
    graph.add_node(node("B", 8, Some(8)));
    graph.add_node(node("C", 3, Some(3)));
    graph.add_edge(NodeIndex::new(0), NodeIndex::new(2), ());
    graph.add_edge(NodeIndex::new(0), NodeIndex::new(1), ());
    graph
}

fn press(c: char) -> Event {
    Event::Input(Key::Char(c))
}

#[test]
fn keys_stand_for_commands() {
    assert_eq!(command_for(press('q')), Command::Quit);
    assert_eq!(command_for(press('j')), Command::CursorNext);
    assert_eq!(command_for(press('k')), Command::CursorPrev);
    assert_eq!(command_for(press('l')), Command::Select);
    assert_eq!(command_for(press('h')), Command::Back);
}

#[test]
fn other_keys_stand_for_nothing() {
    assert_eq!(command_for(Event::Input(Key::Other)), Command::Nothing);
    for c in ['Q', 'J', 'K', 'L', 'H', ' ', '\n', 'a', 'z', '0', '\u{e9}'] {
        assert_eq!(command_for(press(c)), Command::Nothing);
    }
}

#[test]
fn only_quitting_stops_the_browser() {
    let mut app = App::new(0, sample());
    assert!(app.apply(Command::CursorNext));
    assert!(app.apply(Command::CursorPrev));
    assert!(app.apply(Command::Select));
    assert!(app.apply(Command::Back));
    assert!(app.apply(Command::Nothing));
    assert!(!app.apply(Command::Quit));
    assert!(app.handle(press('x')));
    assert!(app.handle(Event::Input(Key::Other)));
    assert!(!app.handle(press('q')));
}

#[test]
fn commands_are_carried_out() {
    let mut app = App::new(0, sample());
    app.apply(Command::CursorNext);
    assert_eq!(app.cursor(), 1);
    app.apply(Command::CursorNext);
    assert_eq!(app.cursor(), 2);
    app.apply(Command::CursorPrev);
    assert_eq!(app.cursor(), 1);
    app.apply(Command::Select);
    assert_eq!(app.current(), 1);
    assert_eq!(app.history(), &vec![0]);
    app.apply(Command::Nothing);
    assert_eq!(app.current(), 1);
    app.apply(Command::Back);
    assert_eq!(app.current(), 0);
    assert!(app.history().is_empty());
}

#[test]
fn quitting_and_unknown_keys_change_nothing() {
    let mut app = App::new(0, sample());
    app.handle(press('j'));
    let items = app.items().clone();
    app.handle(press('x'));
    app.handle(press('q'));
    app.handle(Event::Input(Key::Other));
    assert_eq!(app.current(), 0);
    assert_eq!(app.cursor(), 1);
    assert_eq!(app.items(), &items);
    assert!(app.history().is_empty());
}

#[test]
fn keys_drive_the_browser() {
    let mut app = App::new(0, sample());
    for c in ['j', 'j', 'j', 'k', 'l'] {
        assert!(app.handle(press(c)));
    }
    assert_eq!(app.current(), 2);
    assert_eq!(app.history(), &vec![0]);
    assert!(app.handle(press('h')));
    assert_eq!(app.current(), 0);
    assert!(!app.handle(press('q')));
}

#[test]
fn the_display_marks_the_row_under_the_cursor() {
    let mut app = App::new(0, sample());
    app.cursor_next();
    let lines = app.display();
    assert_eq!(
        lines,
        vec![
            Line { text: "0 max 40         local = 16    A".to_string(), active: false },
            Line { text: " 1     max 8          local = 8     B".to_string(), active: true },
            Line { text: " 2     max 3          local = 3     C".to_string(), active: false },
        ]
    );
    app.cursor_next();
    app.cursor_next();
    let lines = app.display();
    assert_eq!(lines.iter().map(|line| line.active).collect::<Vec<bool>>(), vec![true, false, false]);
}

#[test]
fn the_display_shows_the_rows_in_order() {
    let app = App::new(0, sample());
    let lines = app.display();
    assert_eq!(lines.len(), app.items().len());
    for (line, item) in lines.iter().zip(app.items().iter()) {
        assert_eq!(line.text, item.label);
    }
}

#[test]
fn the_panel_has_its_title() {
    assert_eq!(TITLE, "List");
}
