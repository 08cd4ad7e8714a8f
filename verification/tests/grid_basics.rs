use game_of_life::grid::Grid;
use game_of_life::node::{Node, ALIVE_SYMBOL, DEFAULT_SYMBOL};

fn matrix(rows: &[&[bool]]) -> Vec<Vec<Node>> {
    let mut out = Vec::new();
    for (r, row) in rows.iter().enumerate() {
        let mut cells = Vec::new();
        for (c, alive) in row.iter().enumerate() {
            cells.push(Node::new(*alive, (r, c)));
        }
        out.push(cells);
    }
    out
}

#[test]
fn node_new_is_not_pending() {
    let node = Node::new(true, (3, 4));
    assert!(node.is_alive);
    assert_eq!(node.future_status, None);
    assert_eq!(node.position, (3, 4));
    let dead = Node::new(false, (0, 0));
    assert!(!dead.is_alive);
    assert_eq!(dead.future_status, None);
}

#[test]
fn node_char_has_one_glyph() {
    assert_eq!(Node::new(true, (0, 0)).char(), "@");
    assert_eq!(Node::new(false, (0, 0)).char(), " ");
    assert_eq!(ALIVE_SYMBOL, '@');
    assert_eq!(DEFAULT_SYMBOL, ' ');
}

#[test]
fn new_grid_is_dead_and_knows_its_places() {
    let mut grid = Grid::new(3, 2);
    assert_eq!(grid.width(), 3);
    assert_eq!(grid.height(), 2);
    let map = grid.step_iterations(0).clone();
    assert_eq!(map.len(), 2);
    for r in 0..2 {
        assert_eq!(map[r].len(), 3);
        for c in 0..3 {
            assert_eq!(map[r][c], Node::new(false, (r, c)));
        }
    }
}

#[test]
fn new_grid_may_be_empty() {
    let mut none = Grid::new(0, 0);
    assert_eq!(none.width(), 0);
    assert_eq!(none.height(), 0);
    assert!(none.step_iterations(3).is_empty());

    let mut flat = Grid::new(5, 0);
    assert_eq!(flat.width(), 5);
    assert_eq!(flat.height(), 0);
    flat.update();
    assert!(flat.step_iterations(0).is_empty());

    let mut thin = Grid::new(0, 4);
    assert_eq!(thin.width(), 0);
    assert_eq!(thin.height(), 4);
    thin.update();
    let map = thin.step_iterations(0);
    assert_eq!(map.len(), 4);
    assert!(map.iter().all(|row| row.is_empty()));
    assert!(thin.node_ref((0, 0)).is_none());
}

#[test]
fn modify_visits_cells_row_by_row() {
    let mut grid = Grid::new(4, 3);
    grid.modify(|(i, node): (usize, &mut Node)| {
        node.position = (i, i);
        node.is_alive = i == 6;
    });
    let map = grid.step_iterations(0);
    for r in 0..3 {
        for c in 0..4 {
            assert_eq!(map[r][c].position, (r * 4 + c, r * 4 + c));
            assert_eq!(map[r][c].is_alive, r == 1 && c == 2);
        }
    }
    assert_eq!(grid.width(), 4);
    assert_eq!(grid.height(), 3);
}

#[test]
fn modify_may_set_pending() {
    let mut grid = Grid::new(2, 2);
    grid.modify(|(i, node): (usize, &mut Node)| {
        node.future_status = Some(i % 2 == 0);
    });
    assert_eq!(grid.node_ref((0, 0)).unwrap().future_status, Some(true));
    assert_eq!(grid.node_ref((0, 1)).unwrap().future_status, Some(false));
    assert_eq!(grid.node_ref((1, 0)).unwrap().future_status, Some(true));
    assert_eq!(grid.node_ref((1, 1)).unwrap().future_status, Some(false));
}

#[test]
fn modify_on_empty_grid_calls_nothing() {
    let mut grid = Grid::new(0, 3);
    grid.modify(|(_, _): (usize, &mut Node)| unreachable!());
    assert_eq!(grid.height(), 3);
}

#[test]
fn load_map_takes_a_rectangle() {
    let mut grid = Grid::new(5, 5);
    let map = matrix(&[&[false, false], &[false, true]]);
    assert!(grid.load_map(&map));
    assert_eq!(grid.width(), 2);
    assert_eq!(grid.height(), 2);
    assert!(grid.node_ref((1, 1)).unwrap().is_alive);
    assert!(!grid.node_ref((0, 0)).unwrap().is_alive);
    assert!(!grid.node_ref((0, 1)).unwrap().is_alive);
    assert!(!grid.node_ref((1, 0)).unwrap().is_alive);
    assert!(grid.node_ref((2, 0)).is_none());
    assert_eq!(grid.step_iterations(0), &map);
}

#[test]
fn load_map_refuses_a_jagged_matrix() {
    let mut grid = Grid::new(4, 2);
    assert!(grid.set_node((1, 3), Node::new(true, (1, 3))));
    let kept = grid.step_iterations(0).clone();
    let jagged = matrix(&[&[true, true, true], &[true, true, true], &[true, true]]);
    assert!(!grid.load_map(&jagged));
    assert_eq!(grid.width(), 4);
    assert_eq!(grid.height(), 2);
    assert_eq!(grid.step_iterations(0), &kept);
}

#[test]
fn load_map_refuses_a_long_later_row() {
    let mut grid = Grid::new(1, 1);
    let jagged = matrix(&[&[true], &[true, false]]);
    assert!(!grid.load_map(&jagged));
    assert_eq!(grid.width(), 1);
    assert_eq!(grid.height(), 1);
    assert!(!grid.is_alive((0, 0)));
}

#[test]
fn load_map_takes_no_rows() {
    let mut grid = Grid::new(3, 3);
    let empty: Vec<Vec<Node>> = Vec::new();
    assert!(grid.load_map(&empty));
    assert_eq!(grid.width(), 0);
    assert_eq!(grid.height(), 0);
    assert!(grid.step_iterations(1).is_empty());
    assert!(grid.node_ref((0, 0)).is_none());
}

#[test]
fn load_map_takes_rows_without_cells() {
    let mut grid = Grid::new(3, 3);
    let rows: Vec<Vec<Node>> = vec![Vec::new(), Vec::new()];
    assert!(grid.load_map(&rows));
    assert_eq!(grid.width(), 0);
    assert_eq!(grid.height(), 2);
}

#[test]
fn load_map_copies_its_argument() {
    let mut grid = Grid::new(1, 1);
    let mut map = matrix(&[&[true, false, true]]);
    map[0][1].future_status = Some(true);
    map[0][2].position = (9, 9);
    assert!(grid.load_map(&map));
    map[0][0].is_alive = false;
    assert_eq!(grid.width(), 3);
    assert_eq!(grid.height(), 1);
    assert!(grid.is_alive((0, 0)));
    assert_eq!(grid.node_ref((0, 1)).unwrap().future_status, Some(true));
    assert_eq!(grid.node_ref((0, 2)).unwrap().position, (9, 9));
}

#[test]
fn node_ref_beyond_the_last_row_is_absent() {
    let mut grid = Grid::new(3, 2);
    let before = grid.step_iterations(0).clone();
    assert!(grid.node_ref((2, 0)).is_none());
    assert!(grid.node_ref((0, 3)).is_none());
    assert!(grid.node_ref((2, 3)).is_none());
    assert!(grid.node_ref((usize::MAX, usize::MAX)).is_none());
    assert_eq!(grid.step_iterations(0), &before);
}

#[test]
fn set_node_beyond_the_last_row_fails() {
    let mut grid = Grid::new(3, 2);
    let before = grid.step_iterations(0).clone();
    assert!(!grid.set_node((2, 0), Node::new(true, (2, 0))));
    assert!(!grid.set_node((0, 3), Node::new(true, (0, 3))));
    assert_eq!(grid.step_iterations(0), &before);
    assert_eq!(grid.width(), 3);
    assert_eq!(grid.height(), 2);
}

#[test]
fn node_ref_changes_one_cell() {
    let mut grid = Grid::new(3, 2);
    let mut expected = grid.step_iterations(0).clone();
    {
        let cell = grid.node_ref((1, 2)).unwrap();
        assert_eq!(*cell, Node::new(false, (1, 2)));
        cell.is_alive = true;
        cell.future_status = Some(false);
    }
    expected[1][2].is_alive = true;
    expected[1][2].future_status = Some(false);
    assert_eq!(grid.step_iterations(0), &expected);
}

#[test]
fn set_node_replaces_one_cell() {
    let mut grid = Grid::new(3, 2);
    let mut expected = grid.step_iterations(0).clone();
    let node = Node { future_status: Some(true), is_alive: true, position: (7, 8) };
    assert!(grid.set_node((0, 1), node));
    expected[0][1] = node;
    assert_eq!(grid.step_iterations(0), &expected);
    assert!(grid.is_alive((0, 1)));
    assert!(!grid.is_alive((0, 0)));
}

#[test]
fn is_alive_beyond_the_grid_is_false() {
    let mut grid = Grid::new(2, 2);
    grid.modify(|(_, node): (usize, &mut Node)| node.is_alive = true);
    assert!(grid.is_alive((1, 1)));
    assert!(!grid.is_alive((2, 0)));
    assert!(!grid.is_alive((0, 2)));
}

#[test]
fn render_draws_every_cell_row_by_row() {
    let mut grid = Grid::new(3, 2);
    assert!(grid.load_map(&matrix(&[&[true, true, false], &[false, false, true]])));
    assert_eq!(grid.render(), "\n@@ \n  @");
}

#[test]
fn render_draws_the_first_column() {
    let mut grid = Grid::new(1, 1);
    assert!(grid.set_node((0, 0), Node::new(true, (0, 0))));
    assert_eq!(grid.render(), "\n@");
    grid.update();
    assert_eq!(grid.render(), "\n ");
}

#[test]
fn render_of_one_column_has_one_glyph_per_line() {
    let mut grid = Grid::new(1, 3);
    assert!(grid.set_node((1, 0), Node::new(true, (1, 0))));
    assert_eq!(grid.render(), "\n \n@\n ");
}

#[test]
fn render_without_cells_is_empty() {
    assert_eq!(Grid::new(0, 0).render(), "");
    assert_eq!(Grid::new(0, 3).render(), "");
    assert_eq!(Grid::new(3, 0).render(), "");
}
