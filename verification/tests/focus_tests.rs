use piso::controller::Event;
use piso::displaymanager::{DisplayManager, Position, Widget};
use piso::panel::Panel;

fn panel(
    manager: &mut DisplayManager,
    position: Position,
    size: (usize, usize),
    children: Vec<Widget>,
) -> Widget {
    Panel::new(manager, position, size, children).expect("Failed to create test widget")
}

#[test]
// Test that focus moves up and down normal positioned windows as expected
fn test_basic_focus() {
    let mut manager = DisplayManager::new();

    let child1 = panel(&mut manager, Position::Normal, (0, 0), vec![]);
    let child2 = panel(&mut manager, Position::Normal, (0, 0), vec![]);
    let id1 = child1.windowid();
    let id2 = child2.windowid();
    let mut root = panel(
        &mut manager,
        Position::Fixed(0, 0),
        (0, 0),
        vec![child1, child2],
    );

    assert!(manager.focus_window(id1));
    assert_eq!(
        manager.find_focused_widget(&root).unwrap().windowid(),
        id1
    );
    manager.on_event(&mut root, &Event::Up).unwrap();
    assert_eq!(
        manager.find_focused_widget(&root).unwrap().windowid(),
        id1
    );
    manager.on_event(&mut root, &Event::Down).unwrap();
    assert_eq!(
        manager.find_focused_widget(&root).unwrap().windowid(),
        id2
    );
    manager.on_event(&mut root, &Event::Up).unwrap();
    assert_eq!(
        manager.find_focused_widget(&root).unwrap().windowid(),
        id1
    );
}

#[test]
// Test that fixed position windows are ignored when shifting focus
fn test_normal_focus_with_fixed_position() {
    let mut manager = DisplayManager::new();

    let child1 = panel(&mut manager, Position::Normal, (0, 0), vec![]);
    let child2 = panel(&mut manager, Position::Fixed(20, 20), (0, 0), vec![]);
    let child3 = panel(&mut manager, Position::Normal, (0, 0), vec![]);
    let id1 = child1.windowid();
    let id3 = child3.windowid();
    let mut root = panel(
        &mut manager,
        Position::Fixed(0, 0),
        (0, 0),
        vec![child1, child2, child3],
    );

    assert!(manager.focus_window(id1));
    manager.on_event(&mut root, &Event::Down).unwrap();
    assert_eq!(
        manager.find_focused_widget(&root).unwrap().windowid(),
        id3
    );
    manager.on_event(&mut root, &Event::Up).unwrap();
    assert_eq!(
        manager.find_focused_widget(&root).unwrap().windowid(),
        id1
    );
}

#[test]
// Test that focus moves within the nearest fixed position parent
fn test_normal_within_fixed_focus() {
    let mut manager = DisplayManager::new();

    let child1 = panel(&mut manager, Position::Normal, (0, 0), vec![]);

    let child2_1 = panel(&mut manager, Position::Normal, (0, 0), vec![]);
    let child2_2 = panel(&mut manager, Position::Normal, (0, 0), vec![]);
    let id2_1 = child2_1.windowid();
    let id2_2 = child2_2.windowid();
    let child2 = panel(
        &mut manager,
        Position::Fixed(20, 20),
        (0, 0),
        vec![child2_1, child2_2],
    );

    let child3 = panel(&mut manager, Position::Normal, (0, 0), vec![]);
    let mut root = panel(
        &mut manager,
        Position::Fixed(0, 0),
        (0, 0),
        vec![child1, child2, child3],
    );

    assert!(manager.focus_window(id2_1));
    manager.on_event(&mut root, &Event::Down).unwrap();
    assert_eq!(
        manager.find_focused_widget(&root).unwrap().windowid(),
        id2_2
    );
    manager.on_event(&mut root, &Event::Down).unwrap();
    assert_eq!(
        manager.find_focused_widget(&root).unwrap().windowid(),
        id2_2
    );
}

#[test]
// With focus on the first of two flowing siblings, an upward step stays
// put, a downward step reaches the second, and a further downward step
// stays put.
fn focus_boundary_steps() {
    let mut manager = DisplayManager::new();
    let child1 = panel(&mut manager, Position::Normal, (0, 0), vec![]);
    let child2 = panel(&mut manager, Position::Normal, (0, 0), vec![]);
    let id1 = child1.windowid();
    let id2 = child2.windowid();
    let mut root = panel(
        &mut manager,
        Position::Fixed(0, 0),
        (0, 0),
        vec![child1, child2],
    );
    assert!(manager.focus_window(id1));
    manager.on_event(&mut root, &Event::Up).unwrap();
    assert_eq!(manager.find_focused_widget(&root).unwrap().windowid(), id1);
    manager.on_event(&mut root, &Event::Down).unwrap();
    assert_eq!(manager.find_focused_widget(&root).unwrap().windowid(), id2);
    manager.on_event(&mut root, &Event::Down).unwrap();
    assert_eq!(manager.find_focused_widget(&root).unwrap().windowid(), id2);
}

#[test]
// After any focus shift, exactly one window carries the focus flag.
fn focus_is_exclusive() {
    let mut manager = DisplayManager::new();
    let child1 = panel(&mut manager, Position::Normal, (0, 0), vec![]);
    let child2 = panel(&mut manager, Position::Normal, (0, 0), vec![]);
    let id2 = child2.windowid();
    let root = panel(
        &mut manager,
        Position::Fixed(0, 0),
        (0, 0),
        vec![child1, child2],
    );
    manager.shift_focus(&root.children[0]);
    assert!(manager.focus_window(id2));
    let mut focused = 0;
    for w in &manager.windows {
        if w.focus {
            focused += 1;
        }
    }
    assert_eq!(focused, 1);
}
