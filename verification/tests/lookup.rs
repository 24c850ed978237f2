use dense_grid::Grid;

fn six() -> Grid<u32> {
    Grid::from_vec(vec![10, 11, 12, 20, 21, 22], 3)
}

#[test]
fn get_finds_the_cell_at_the_row_major_offset() {
    let g: Grid<u32> = six();
    assert_eq!(g.get(0, 0), Some(&10));
    assert_eq!(g.get(2, 0), Some(&12));
    assert_eq!(g.get(0, 1), Some(&20));
    assert_eq!(g.get(1, 1), Some(&21));
    assert_eq!(g.get(2, 1), Some(&22));
}

#[test]
fn get_agrees_with_get_unchecked_inside_the_grid() {
    let g: Grid<u32> = six();
    for y in 0..2usize {
        for x in 0..3usize {
            let checked: &u32 = g.get(x, y).unwrap();
            let unchecked: &u32 = g.get_unchecked(x, y);
            assert!(std::ptr::eq(checked, unchecked));
            assert_eq!(*unchecked, g.flatten()[x + y * 3]);
        }
    }
}

#[test]
fn get_goes_by_the_linear_offset_alone() {
    let g: Grid<u32> = six();
    // Column 3 of row 0 has offset 3: that is column 0 of row 1.
    assert_eq!(g.get(3, 0), Some(&20));
    assert!(std::ptr::eq(g.get(3, 0).unwrap(), g.get(0, 1).unwrap()));
    assert_eq!(g.get(5, 0), Some(&22));
    // Offset 6 is the first one past the buffer.
    assert_eq!(g.get(0, 2), None);
    assert_eq!(g.get(6, 0), None);
    assert_eq!(g.get(3, 1), None);
}

#[test]
fn get_is_absent_for_offsets_no_machine_integer_holds() {
    let g: Grid<u32> = six();
    assert_eq!(g.get(usize::MAX, 0), None);
    assert_eq!(g.get(0, usize::MAX), None);
    assert_eq!(g.get(usize::MAX, usize::MAX), None);
    assert_eq!(g.get(1, usize::MAX / 3 + 1), None);
}

#[test]
fn get_on_a_grid_without_columns_finds_nothing() {
    let g: Grid<u32> = Grid::new(0, 4);
    assert_eq!(g.get(0, 0), None);
    assert_eq!(g.get(0, 3), None);
}

#[test]
fn get_mut_writes_one_cell() {
    let mut g: Grid<u32> = six();
    *g.get_mut(1, 1).unwrap() = 99;
    assert_eq!(g.flatten(), &vec![10, 11, 12, 20, 99, 22]);
    assert_eq!(g.size(), (3, 2));
    assert!(g.get_mut(0, 2).is_none());
    assert!(g.get_mut(usize::MAX, 1).is_none());
    *g.get_mut(4, 0).unwrap() = 1;
    assert_eq!(g.flatten(), &vec![10, 11, 12, 20, 1, 22]);
}

#[test]
fn get_unchecked_mut_writes_one_cell() {
    let mut g: Grid<u32> = six();
    *g.get_unchecked_mut(2, 0) = 5;
    *g.get_unchecked_mut(0, 1) += 1;
    assert_eq!(g.into_vec(), vec![10, 11, 5, 21, 21, 22]);
}
