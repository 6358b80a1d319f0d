use hexgrid::basic::{NamedBg, NamedItem};
use hexgrid::grid::{Grid, PositionAccessor};
use hexgrid::pos::Position;

fn small_map() -> Grid<NamedItem, NamedBg> {
    Grid::new((3, 2), Position::new(-1, 0)).unwrap()
}

#[test]
fn content_iteration_is_row_major_and_complete() {
    let map = small_map();
    let mut iter = map.iter_contents();
    let mut seen: Vec<Position> = Vec::new();
    while let Some((pos, slot)) = iter.next() {
        assert!(slot.is_none());
        seen.push(pos);
    }
    assert_eq!(
        seen,
        vec![
            Position::new(-1, 0),
            Position::new(0, 0),
            Position::new(1, 0),
            Position::new(-1, 1),
            Position::new(0, 1),
            Position::new(1, 1),
        ]
    );
    // the walk is exhausted and stays exhausted
    assert!(iter.next().is_none());
    assert!(iter.next().is_none());
}

#[test]
fn bg_iteration_yields_every_cell() {
    let map = small_map();
    let mut iter = map.iter_bg();
    let mut count: usize = 0;
    while let Some((_pos, bg)) = iter.next() {
        assert_eq!(bg.kind, String::new());
        count += 1;
    }
    assert_eq!(count, 6);
}

#[test]
fn occupied_filter_yields_each_occupied_cell_once() {
    let mut map = small_map();
    let inhabited = vec![Position::new(0, 0), Position::new(1, 1)];
    for (k, p) in inhabited.iter().enumerate() {
        let item = NamedItem {
            pos: Position::default(),
            name: format!("item_{}", k),
        };
        map.create_content(*p, item).unwrap();
    }
    let mut iter = map.iter();
    let mut found: Vec<Position> = Vec::new();
    let mut total: usize = 0;
    while let Some((pos, (slot, _bg))) = iter.next() {
        total += 1;
        if let Some(item) = slot.as_ref() {
            assert_eq!(item.get_position(), pos);
            found.push(pos);
        }
    }
    assert_eq!(total, 6);
    assert_eq!(found, inhabited);
}

#[test]
fn each_iteration_call_is_fresh() {
    let map = small_map();
    let mut first = map.iter_contents();
    first.next();
    first.next();
    let mut second = map.iter_contents();
    let (pos, _) = second.next().unwrap();
    assert_eq!(pos, Position::new(-1, 0));
}
