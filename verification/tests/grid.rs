use hexgrid::basic::{NamedBg, NamedItem};
use hexgrid::errors::GridError;
use hexgrid::grid::{Grid, PositionAccessor, PositionStatus};
use hexgrid::pos::Position;

fn sample_map() -> Grid<NamedItem, NamedBg> {
    Grid::new((10, 10), Position::new(-5, -5)).unwrap()
}

fn named(name: &str) -> NamedItem {
    NamedItem {
        pos: Position::default(),
        name: String::from(name),
    }
}

fn count_occupied(map: &Grid<NamedItem, NamedBg>) -> usize {
    let mut iter = map.iter_contents();
    let mut count: usize = 0;
    while let Some((_pos, slot)) = iter.next() {
        if slot.is_some() {
            count += 1;
        }
    }
    count
}

#[test]
fn test_pos_to_index() {
    let m = sample_map();
    assert_eq!(m.pos_to_index(Position::new(-5, -5)).unwrap(), 0);
    assert_eq!(m.pos_to_index(Position::new(-5, -4)).unwrap(), 10);
    assert_eq!(m.pos_to_index(Position::new(-4, -4)).unwrap(), 11);
    assert_eq!(m.pos_to_index(Position::new(4, 4)).unwrap(), 99);
    assert_eq!(m.pos_to_index(Position::new(4, 5)).unwrap_err(), GridError::OutOfRange);
    assert_eq!(m.pos_to_index(Position::new(5, 0)).unwrap_err(), GridError::OutOfRange);
    assert_eq!(m.pos_to_index(Position::new(-10, 0)).unwrap_err(), GridError::OutOfRange);
}

#[test]
fn test_index_to_pos() {
    let m = sample_map();
    assert_eq!(m.index_to_pos(0).unwrap(), Position::new(-5, -5));
    assert_eq!(m.index_to_pos(11).unwrap(), Position::new(-4, -4));
    assert_eq!(m.index_to_pos(99).unwrap(), Position::new(4, 4));
    assert_eq!(m.index_to_pos(100).unwrap_err(), GridError::OutOfRange);
    assert_eq!(m.index_to_pos(150).unwrap_err(), GridError::OutOfRange);
}

#[test]
fn routine_test() {
    let mut map: Grid<NamedItem, NamedBg> = sample_map();
    let dummy_1 = named("test_dummy_1");
    let dummy_2 = named("test_dummy_2");
    let dummy_3 = named("test_dummy_3");
    let dummy_4 = named("test_dummy_4");
    map.create_content(Position::new(0, 0), dummy_1).unwrap();
    map.create_content(Position::new(2, 0), dummy_2).unwrap();
    assert_eq!(
        map.get_contents(Position::new(2, 0)).unwrap().as_ref().unwrap().get_position(),
        Position::new(2, 0)
    );

    let err = map.create_content(Position::new(2, 0), dummy_3);
    assert_eq!(err.unwrap_err(), GridError::AlreadyOccupied);

    map.get_bg_mut(Position::new(4, 0)).unwrap().kind = String::from("Obstacle");

    let err = map.create_content(Position::new(4, 0), dummy_4);
    assert_eq!(err.unwrap_err(), GridError::ForbiddenLocation);

    // create 2 dummies and swap their position
    map.swap_contents(Position::new(2, 0), Position::new(0, 0)).unwrap();
    assert_eq!(
        map.swap_contents(Position::new(3, 0), Position::new(0, 0)).unwrap_err(),
        GridError::MissingTarget
    );
    // count 2 dummies
    assert_eq!(count_occupied(&map), 2);
    // delete 2 dummies
    let mut occupied: Vec<Position> = Vec::new();
    let mut iter = map.iter();
    while let Some((pos, (slot, _bg))) = iter.next() {
        if slot.is_some() {
            occupied.push(pos);
        }
    }
    drop(iter);
    for pos in occupied {
        map.extract_content(pos).unwrap();
    }
    // count 0 dummies
    assert_eq!(count_occupied(&map), 0);
}

#[test]
fn new_rejects_flat_dimensions() {
    assert_eq!(
        Grid::<NamedItem, NamedBg>::new((0, 10), Position::new(0, 0)).err().unwrap(),
        GridError::NegativeMapLength
    );
    assert_eq!(
        Grid::<NamedItem, NamedBg>::new((10, -1), Position::new(0, 0)).err().unwrap(),
        GridError::NegativeMapLength
    );
}

#[test]
fn every_operation_rejects_out_of_range() {
    let mut map = sample_map();
    let outside = Position::new(5, 0);
    let inside = Position::new(0, 0);
    assert_eq!(map.position_status(outside).unwrap_err(), GridError::OutOfRange);
    assert_eq!(map.get(outside).unwrap_err(), GridError::OutOfRange);
    assert_eq!(map.get_contents(outside).unwrap_err(), GridError::OutOfRange);
    assert_eq!(map.get_bg(outside).unwrap_err(), GridError::OutOfRange);
    assert_eq!(map.get_mut(outside).unwrap_err(), GridError::OutOfRange);
    assert_eq!(map.get_contents_mut(outside).unwrap_err(), GridError::OutOfRange);
    assert_eq!(map.get_bg_mut(outside).unwrap_err(), GridError::OutOfRange);
    assert_eq!(map.create_content(outside, named("a")).unwrap_err(), GridError::OutOfRange);
    assert_eq!(map.replace_content(outside, named("b")).unwrap_err(), GridError::OutOfRange);
    assert_eq!(map.extract_content(outside).unwrap_err(), GridError::OutOfRange);
    assert_eq!(map.swap_contents(outside, inside).unwrap_err(), GridError::OutOfRange);
    assert_eq!(map.swap_contents(inside, outside).unwrap_err(), GridError::OutOfRange);
    assert_eq!(map.move_contents(outside, inside).unwrap_err(), GridError::OutOfRange);
    assert_eq!(map.move_contents(inside, outside).unwrap_err(), GridError::OutOfRange);
}

#[test]
fn create_assigns_position_and_keeps_original() {
    let mut map = sample_map();
    let p = Position::new(1, 2);
    map.create_content(p, named("first")).unwrap();
    let stored = map.get_contents(p).unwrap().as_ref().unwrap();
    assert_eq!(stored.get_position(), p);
    assert_eq!(stored.name, String::from("first"));
    assert_eq!(map.create_content(p, named("second")).unwrap_err(), GridError::AlreadyOccupied);
    let kept = map.get_contents(p).unwrap().as_ref().unwrap();
    assert_eq!(kept.name, String::from("first"));
    assert_eq!(kept.get_position(), p);
}

#[test]
fn forbidden_background_blocks_creation() {
    let mut map = sample_map();
    let p = Position::new(-2, 3);
    map.get_bg_mut(p).unwrap().kind = String::from("Obstacle");
    assert_eq!(map.create_content(p, named("blocked")).unwrap_err(), GridError::ForbiddenLocation);
    assert!(map.get_contents(p).unwrap().is_none());
}

#[test]
fn extract_empties_the_slot() {
    let mut map = sample_map();
    let p = Position::new(4, -5);
    assert_eq!(map.extract_content(p).unwrap_err(), GridError::MissingTarget);
    map.create_content(p, named("loner")).unwrap();
    let taken = map.extract_content(p).unwrap();
    assert_eq!(taken.name, String::from("loner"));
    assert_eq!(taken.get_position(), p);
    assert!(map.get_contents(p).unwrap().is_none());
}

#[test]
fn replace_returns_previous_occupant() {
    let mut map = sample_map();
    let p = Position::new(0, 1);
    assert_eq!(map.replace_content(p, named("early")).unwrap_err(), GridError::MissingTarget);
    map.create_content(p, named("old_one")).unwrap();
    let previous = map.replace_content(p, named("new_one")).unwrap();
    assert_eq!(previous.name, String::from("old_one"));
    let stored = map.get_contents(p).unwrap().as_ref().unwrap();
    assert_eq!(stored.name, String::from("new_one"));
    assert_eq!(stored.get_position(), p);
}

#[test]
fn swap_updates_both_cached_positions() {
    let mut map = sample_map();
    let a = Position::new(-5, -5);
    let b = Position::new(4, 4);
    map.create_content(a, named("ant")).unwrap();
    map.create_content(b, named("bee")).unwrap();
    map.swap_contents(a, b).unwrap();
    let at_a = map.get_contents(a).unwrap().as_ref().unwrap();
    let at_b = map.get_contents(b).unwrap().as_ref().unwrap();
    assert_eq!(at_a.name, String::from("bee"));
    assert_eq!(at_a.get_position(), a);
    assert_eq!(at_b.name, String::from("ant"));
    assert_eq!(at_b.get_position(), b);
}

#[test]
fn swap_with_empty_side_mutates_neither() {
    let mut map = sample_map();
    let a = Position::new(2, 2);
    let b = Position::new(3, 3);
    map.create_content(a, named("kept")).unwrap();
    assert_eq!(map.swap_contents(a, b).unwrap_err(), GridError::MissingTarget);
    assert_eq!(map.swap_contents(b, a).unwrap_err(), GridError::MissingTarget);
    let at_a = map.get_contents(a).unwrap().as_ref().unwrap();
    assert_eq!(at_a.name, String::from("kept"));
    assert_eq!(at_a.get_position(), a);
    assert!(map.get_contents(b).unwrap().is_none());
}

#[test]
fn move_contents_errors_and_success() {
    let mut map = sample_map();
    let from = Position::new(0, 0);
    let to = Position::new(1, 0);
    let blocked = Position::new(2, 0);
    assert_eq!(map.move_contents(from, to).unwrap_err(), GridError::MissingTarget);
    map.create_content(from, named("mover")).unwrap();
    map.create_content(to, named("sitter")).unwrap();
    assert_eq!(map.move_contents(from, to).unwrap_err(), GridError::AlreadyOccupied);
    map.get_bg_mut(blocked).unwrap().kind = String::from("Obstacle");
    assert_eq!(map.move_contents(from, blocked).unwrap_err(), GridError::ForbiddenLocation);
    let free = Position::new(3, 0);
    map.move_contents(from, free).unwrap();
    assert!(map.get_contents(from).unwrap().is_none());
    let moved = map.get_contents(free).unwrap().as_ref().unwrap();
    assert_eq!(moved.name, String::from("mover"));
    assert_eq!(moved.get_position(), free);
}

#[test]
fn status_reports_empty_busy_forbidden() {
    let mut map = sample_map();
    let p = Position::new(-1, -1);
    assert_eq!(map.position_status(p).unwrap(), PositionStatus::Empty);
    map.create_content(p, named("resident")).unwrap();
    assert_eq!(map.position_status(p).unwrap(), PositionStatus::Busy);
    // occupancy takes precedence even over a later forbidding background
    map.get_bg_mut(p).unwrap().kind = String::from("Obstacle");
    assert_eq!(map.position_status(p).unwrap(), PositionStatus::Busy);
    map.extract_content(p).unwrap();
    assert_eq!(map.position_status(p).unwrap(), PositionStatus::Forbidden);
}

#[test]
fn from_iter_builds_and_stops_on_duplicates() {
    let entries = vec![
        (Position::new(0, 0), (named("a"), NamedBg { kind: String::from("grass") })),
        (Position::new(1, 1), (named("b"), NamedBg { kind: String::from("sand") })),
    ];
    let map = Grid::<NamedItem, NamedBg>::from_iter(entries, (10, 10), Position::new(-5, -5)).unwrap();
    assert_eq!(map.get_bg(Position::new(0, 0)).unwrap().kind, String::from("grass"));
    assert_eq!(
        map.get_contents(Position::new(1, 1)).unwrap().as_ref().unwrap().get_position(),
        Position::new(1, 1)
    );
    assert_eq!(count_occupied(&map), 2);

    let clashing = vec![
        (Position::new(0, 0), (named("a"), NamedBg { kind: String::from("grass") })),
        (Position::new(0, 0), (named("b"), NamedBg { kind: String::from("sand") })),
    ];
    assert_eq!(
        Grid::<NamedItem, NamedBg>::from_iter(clashing, (10, 10), Position::new(-5, -5)).err().unwrap(),
        GridError::AlreadyOccupied
    );
    assert_eq!(
        Grid::<NamedItem, NamedBg>::from_iter(Vec::new(), (0, 3), Position::new(0, 0)).err().unwrap(),
        GridError::NegativeMapLength
    );
}

#[test]
fn get_mut_edits_both_layers() {
    let mut map = sample_map();
    let p = Position::new(2, -3);
    map.create_content(p, named("editable")).unwrap();
    {
        let (slot, bg) = map.get_mut(p).unwrap();
        if let Some(item) = slot.as_mut() {
            item.name = String::from("edited");
        }
        bg.kind = String::from("mud");
    }
    assert_eq!(map.get_contents(p).unwrap().as_ref().unwrap().name, String::from("edited"));
    assert_eq!(map.get_bg(p).unwrap().kind, String::from("mud"));
    {
        let slot = map.get_contents_mut(p).unwrap();
        *slot = None;
    }
    assert!(map.get_contents(p).unwrap().is_none());
}

#[test]
fn transform_roundtrips() {
    let m = sample_map();
    for x in -5..5 {
        for y in -5..5 {
            let p = Position::new(x, y);
            let i = m.pos_to_index(p).unwrap();
            assert_eq!(m.index_to_pos(i).unwrap(), p);
        }
    }
    for i in 0..100usize {
        let p = m.index_to_pos(i).unwrap();
        assert_eq!(m.pos_to_index(p).unwrap(), i);
    }
}
