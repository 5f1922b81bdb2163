use ray_casting::maze::{load_maze, MazeError, MazeGrid};

#[test]
fn load_maze_accepts_equal_rows() {
    let lines = vec![String::from("+-+"), String::from("| |"), String::from("+-+")];
    let g = load_maze(&lines).unwrap();
    assert_eq!(g.row_count(), 3);
    assert_eq!(g.col_count(), 3);
    assert_eq!(g.at(0, 0), '+');
    assert_eq!(g.at(0, 1), '-');
    assert_eq!(g.at(1, 0), '|');
    assert_eq!(g.at(1, 1), ' ');
    assert_eq!(g.at(2, 2), '+');
}

#[test]
fn load_maze_rejects_unequal_rows() {
    let lines = vec![String::from("abc"), String::from("de")];
    match load_maze(&lines) {
        Err(e) => assert_eq!(e, MazeError::FormatError),
        Ok(_) => panic!("a ragged maze must be rejected"),
    }
}

#[test]
fn load_maze_rejects_longer_later_row() {
    let lines = vec![String::from("ab"), String::from("cd"), String::from("efg")];
    match load_maze(&lines) {
        Err(e) => assert_eq!(e, MazeError::FormatError),
        Ok(_) => panic!("a ragged maze must be rejected"),
    }
}

#[test]
fn load_maze_accepts_empty_input() {
    let lines: Vec<String> = Vec::new();
    let g = load_maze(&lines).unwrap();
    assert_eq!(g.row_count(), 0);
    assert_eq!(g.col_count(), 0);
}

#[test]
fn load_maze_keeps_spaces_verbatim() {
    let lines = vec![String::from("  "), String::from("x ")];
    let g = load_maze(&lines).unwrap();
    assert_eq!(g.at(0, 0), ' ');
    assert_eq!(g.at(1, 0), 'x');
    assert_eq!(g.at(1, 1), ' ');
}

#[test]
fn maze_grid_exposes_cells() {
    let g = MazeGrid { cells: vec![vec!['a', 'b'], vec!['c', 'd']] };
    assert_eq!(g.row_count(), 2);
    assert_eq!(g.col_count(), 2);
    assert_eq!(g.at(1, 0), 'c');
}
