use monitors::layout::{grid, split, Direction, Rect};

fn covers_once(area: Rect, cells: &[Rect]) {
    for row in area.y..area.y + area.height {
        for column in area.x..area.x + area.width {
            let holders = cells
                .iter()
                .filter(|c| {
                    c.x <= column && column < c.x + c.width && c.y <= row && row < c.y + c.height
                })
                .count();
            assert_eq!(holders, 1, "cell {column},{row}");
        }
    }
    let sum: u32 = cells.iter().map(|c| c.width as u32 * c.height as u32).sum();
    assert_eq!(sum, area.width as u32 * area.height as u32);
}

#[test]
fn rect_new_keeps_a_rect_that_fits() {
    let r = Rect::new(1, 2, 3, 4);
    assert_eq!(r, Rect { x: 1, y: 2, width: 3, height: 4 });
}

#[test]
fn rect_new_clamps_to_the_coordinate_range() {
    let r = Rect::new(65530, 65535, 10, 7);
    assert_eq!(r, Rect { x: 65530, y: 65535, width: 5, height: 0 });
}

#[test]
fn split_into_no_parts_is_empty() {
    assert!(split(Rect::new(0, 0, 10, 10), 0, Direction::Vertical).is_empty());
}

#[test]
fn split_divisible_height_gives_equal_bands() {
    let parts = split(Rect::new(2, 3, 10, 12), 4, Direction::Vertical);
    assert_eq!(
        parts,
        vec![
            Rect { x: 2, y: 3, width: 10, height: 3 },
            Rect { x: 2, y: 6, width: 10, height: 3 },
            Rect { x: 2, y: 9, width: 10, height: 3 },
            Rect { x: 2, y: 12, width: 10, height: 3 },
        ]
    );
}

#[test]
fn split_divisible_width_gives_equal_columns() {
    let parts = split(Rect::new(0, 5, 9, 2), 3, Direction::Horizontal);
    assert_eq!(
        parts,
        vec![
            Rect { x: 0, y: 5, width: 3, height: 2 },
            Rect { x: 3, y: 5, width: 3, height: 2 },
            Rect { x: 6, y: 5, width: 3, height: 2 },
        ]
    );
}

#[test]
fn split_uneven_parts_differ_by_at_most_one_cell() {
    for width in 0u16..40 {
        for n in 1u16..9 {
            let area = Rect::new(7, 1, width, 2);
            let parts = split(area, n, Direction::Horizontal);
            assert_eq!(parts.len(), n as usize);
            let mut next = area.x;
            for p in &parts {
                assert_eq!(p.x, next);
                assert_eq!((p.y, p.height), (area.y, area.height));
                assert!(p.width == width / n || p.width == (width + n - 1) / n);
                next = p.x + p.width;
            }
            assert_eq!(next, area.x + area.width);
        }
    }
}

#[test]
fn split_more_parts_than_cells_leaves_empty_parts() {
    let area = Rect::new(0, 0, 5, 3);
    let parts = split(area, 12, Direction::Vertical);
    assert_eq!(parts.len(), 12);
    assert_eq!(parts.iter().map(|p| p.height as u32).sum::<u32>(), 3);
    assert!(parts.iter().all(|p| p.height <= 1));
    covers_once(area, &parts);
}

#[test]
fn grid_has_rows_times_columns_cells() {
    assert_eq!(grid(Rect::new(0, 0, 80, 24), 6, 2).len(), 12);
    assert_eq!(grid(Rect::new(0, 0, 80, 24), 12, 3).len(), 36);
    assert_eq!(grid(Rect::new(0, 0, 80, 24), 3, 1).len(), 3);
    assert_eq!(grid(Rect::new(0, 0, 80, 24), 0, 3).len(), 0);
    assert_eq!(grid(Rect::new(0, 0, 80, 24), 3, 0).len(), 0);
}

#[test]
fn grid_divisible_area_is_row_major_and_equal() {
    let cells = grid(Rect::new(0, 1, 90, 24), 12, 3);
    assert_eq!(cells.len(), 36);
    for r in 0..12u16 {
        for c in 0..3u16 {
            assert_eq!(
                cells[(r * 3 + c) as usize],
                Rect { x: c * 30, y: 1 + r * 2, width: 30, height: 2 }
            );
        }
    }
}

#[test]
fn grid_cells_cover_the_area_exactly_without_overlap() {
    for (w, h) in [(80u16, 24u16), (81, 25), (7, 5), (1, 1), (100, 37), (3, 40)] {
        for (rows, columns) in [(6u16, 1u16), (6, 2), (12, 3), (3, 1), (1, 1), (5, 7)] {
            let area = Rect::new(4, 9, w, h);
            let cells = grid(area, rows, columns);
            assert_eq!(cells.len(), rows as usize * columns as usize);
            covers_once(area, &cells);
        }
    }
}

#[test]
fn grid_of_an_empty_area_has_empty_cells() {
    let cells = grid(Rect::new(3, 4, 0, 0), 6, 2);
    assert_eq!(cells.len(), 12);
    assert!(cells.iter().all(|c| c.width == 0 && c.height == 0));
}

#[test]
fn grid_at_the_far_corner_of_the_coordinate_range() {
    let area = Rect::new(65500, 65500, 35, 35);
    let cells = grid(area, 6, 2);
    assert_eq!(cells.len(), 12);
    let sum: u32 = cells.iter().map(|c| c.width as u32 * c.height as u32).sum();
    assert_eq!(sum, 35 * 35);
}
