use dense_grid::Grid;

#[test]
fn new_has_the_given_size_and_default_cells() {
    let g: Grid<u32> = Grid::new(4, 3);
    assert_eq!(g.size(), (4, 3));
    assert_eq!(g.flatten().len(), 12);
    assert!(g.iter().all(|c| *c == 0));
}

#[test]
fn new_of_strings_holds_empty_strings() {
    let g: Grid<String> = Grid::new(2, 2);
    assert_eq!(g.into_vec(), vec![String::new(), String::new(), String::new(), String::new()]);
}

#[test]
fn new_with_a_zero_side_is_empty() {
    let g: Grid<u8> = Grid::new(0, 5);
    assert!(g.is_empty());
    assert_eq!(g.size(), (0, 5));
    let h: Grid<u8> = Grid::new(5, 0);
    assert!(h.is_empty());
    assert_eq!(h.size(), (5, 0));
}

#[test]
fn init_fills_every_cell_with_the_value() {
    let g: Grid<String> = Grid::init(3, 2, String::from("ab"));
    assert_eq!(g.flatten().len(), 6);
    assert!(g.iter().all(|c| c == "ab"));
    assert_eq!(g.size(), (3, 2));
}

#[test]
fn from_vec_keeps_the_buffer_and_derives_the_height() {
    let seq: Vec<i32> = vec![1, 2, 3, 4, 5, 6, 7, 8];
    let g: Grid<i32> = Grid::from_vec(seq.clone(), 4);
    assert_eq!(g.height(), 2);
    assert_eq!(g.width(), 4);
    assert_eq!(g.flatten(), &seq);
    assert_eq!(g.into_vec(), seq);
}

#[test]
fn from_vec_of_nothing_has_no_rows() {
    let g: Grid<i32> = Grid::from_vec(Vec::new(), 3);
    assert_eq!(g.size(), (3, 0));
    assert!(g.is_empty());
}

#[test]
fn shape_getters_agree() {
    let g: Grid<u8> = Grid::from_vec(vec![0; 15], 5);
    assert_eq!(g.size(), (5, 3));
    assert_eq!(g.width(), 5);
    assert_eq!(g.cols(), 5);
    assert_eq!(g.height(), 3);
    assert_eq!(g.rows(), 3);
    assert!(!g.is_empty());
}

#[test]
fn clear_leaves_a_zero_sized_grid() {
    let mut g: Grid<u8> = Grid::init(3, 3, 7);
    g.clear();
    assert!(g.is_empty());
    assert_eq!(g.size(), (0, 0));
    assert_eq!(g.flatten().len(), 0);
    assert_eq!(g.get(0, 0), None);
}

#[test]
fn clear_of_an_empty_grid_stays_empty() {
    let mut g: Grid<u8> = Grid::new(0, 0);
    g.clear();
    assert!(g.is_empty());
    assert_eq!(g.size(), (0, 0));
}
