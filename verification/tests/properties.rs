use summed_area_table::mat::DMat;
use summed_area_table::SummedAreaTableSource;
use summed_area_table::VecSource;

#[test]
fn zero_source_any_rectangle() {
    let src: DMat = DMat::zeros(7, 9);
    let table = src.calculate_full_summed_area_table();
    assert_eq!(0, table.get_sum((0, 0), (8, 6)));
    assert_eq!(0, table.get_sum((2, 3), (5, 4)));
    assert_eq!(0, table.get_sum((8, 6), (8, 6)));
}

#[test]
fn constant_fill_matches_count() {
    let src: DMat = DMat::from_element(11, 13, 7);
    let table = src.calculate_full_summed_area_table();
    let from = (2, 3);
    let to = (9, 10);
    let count = table.get_data_count(from, to) as u64;
    assert_eq!(7 * count, table.get_sum(from, to));
    assert_eq!(7 * table.get_overall_data_count() as u64, table.get_overall_sum());
}

#[test]
fn quadrants_add_up_to_overall_sum() {
    let src: DMat = DMat::from_row_slice(
        5,
        5,
        &[
            5, 2, 3, 4, 1,
            1, 5, 4, 2, 3,
            2, 2, 1, 3, 4,
            3, 5, 6, 4, 5,
            4, 1, 3, 2, 6,
        ],
    );
    let table = src.calculate_full_summed_area_table();
    let q1 = table.get_sum((0, 0), (2, 1));
    let q2 = table.get_sum((3, 0), (4, 1));
    let q3 = table.get_sum((0, 2), (2, 4));
    let q4 = table.get_sum((3, 2), (4, 4));
    assert_eq!(table.get_overall_sum(), q1 + q2 + q3 + q4);
}

#[test]
fn single_cell_returns_source_value() {
    let values: Vec<u64> = vec![9, 4, 7, 1, 8, 3];
    let src = VecSource::new(&values, 3, 2);
    let table = src.calculate_full_summed_area_table();
    assert_eq!(9, table.get_sum((0, 0), (0, 0)));
    assert_eq!(7, table.get_sum((2, 0), (2, 0)));
    assert_eq!(1, table.get_sum((0, 1), (0, 1)));
    assert_eq!(3, table.get_sum((2, 1), (2, 1)));
}

#[test]
fn prefix_sums_grow_monotonically() {
    let values: Vec<u64> = vec![2, 0, 5, 1, 3, 0, 4, 2, 6];
    let src = VecSource::new(&values, 3, 3);
    let table = src.calculate_full_summed_area_table();
    for y in 0..3 {
        for x in 0..3 {
            let sum = table.get_sum((0, 0), (x, y));
            if x + 1 < 3 {
                assert!(sum <= table.get_sum((0, 0), (x + 1, y)));
            }
            if y + 1 < 3 {
                assert!(sum <= table.get_sum((0, 0), (x, y + 1)));
            }
        }
    }
}

#[test]
fn sub_rectangle_table_uses_local_coordinates() {
    let src: DMat = DMat::from_row_slice(
        5,
        5,
        &[
            5, 2, 3, 4, 1,
            1, 5, 4, 2, 3,
            2, 2, 1, 3, 4,
            3, 5, 6, 4, 5,
            4, 1, 3, 2, 6,
        ],
    );
    let table = src.calculate_summed_area_table((1, 1), (3, 3));
    assert_eq!(9, table.get_overall_data_count());
    assert_eq!(32, table.get_overall_sum());
    assert_eq!(5, table.get_sum((0, 0), (0, 0)));
    assert_eq!(12, table.get_sum((0, 0), (1, 1)));
}
