use summed_area_table::mat::DMat;
use summed_area_table::util;
use summed_area_table::QueryError;
use summed_area_table::SummedAreaTableSource;
use summed_area_table::VecSource;

#[test]
fn zeros() {
    let src: DMat = DMat::zeros(100, 100);
    let table = src.calculate_full_summed_area_table();
    assert_eq!(0, table.get_sum((0, 0), (99, 99)));
}

#[test]
fn ones() {
    let src: DMat = DMat::from_element(100, 100, 1);
    let table = src.calculate_full_summed_area_table();
    assert_eq!(10000, table.get_sum((0, 0), (99, 99)));
}

#[test]
fn ones_without_first_col_row() {
    let src: DMat = DMat::from_element(100, 100, 1);
    let table = src.calculate_full_summed_area_table();
    assert_eq!(10000 - 199, table.get_sum((1, 1), (99, 99)));
}

#[test]
fn twos() {
    let src: DMat = DMat::from_element(100, 100, 2);
    let table = src.calculate_full_summed_area_table();
    assert_eq!(20000, table.get_sum((0, 0), (99, 99)));
}

#[test]
fn data_count() {
    let src: DMat = DMat::from_element(123, 321, 2);
    let table = src.calculate_full_summed_area_table();
    assert_eq!(123 * 321, table.get_data_count((0, 0), (122, 320)));
}

#[test]
fn overall_data_count() {
    let src: DMat = DMat::from_element(123, 321, 2);
    let table = src.calculate_full_summed_area_table();
    assert_eq!(123 * 321, table.get_overall_data_count());
}

#[test]
fn overall_sum() {
    let src: DMat = DMat::from_element(100, 100, 2);
    let table = src.calculate_full_summed_area_table();
    assert_eq!(20000, table.get_overall_sum());
}

#[test]
fn ones_quartered() {
    let src: DMat = DMat::from_element(100, 100, 1);
    let table = src.calculate_full_summed_area_table();
    assert_eq!(2500, table.get_sum((0, 0), (49, 49)));
    assert_eq!(2500, table.get_sum((50, 50), (99, 99)));
    assert_eq!(2500, table.get_sum((50, 0), (99, 49)));
    assert_eq!(2500, table.get_sum((0, 50), (49, 99)));
}

#[test]
fn ones_quartered_vec() {
    let mat = DMat::from_element(100, 100, 1);
    let buffer = mat.as_vec();
    let src = VecSource::new(&buffer, 100, 100);
    let table = src.calculate_full_summed_area_table();
    assert_eq!(2500, table.get_sum((0, 0), (49, 49)));
    assert_eq!(2500, table.get_sum((50, 50), (99, 99)));
    assert_eq!(2500, table.get_sum((50, 0), (99, 49)));
    assert_eq!(2500, table.get_sum((0, 50), (49, 99)));
}

#[test]
fn twos_quartered() {
    let src: DMat = DMat::from_element(100, 100, 2);
    let table = src.calculate_full_summed_area_table();
    assert_eq!(5000, table.get_sum((0, 0), (49, 49)));
    assert_eq!(5000, table.get_sum((50, 50), (99, 99)));
    assert_eq!(5000, table.get_sum((50, 0), (99, 49)));
    assert_eq!(5000, table.get_sum((0, 50), (49, 99)));
}

#[test]
fn first_row() {
    let src: DMat = DMat::from_element(10, 20, 1);
    let table = src.calculate_full_summed_area_table();
    assert_eq!(20, table.get_sum((0, 0), (19, 0)));
}

#[test]
fn first_col() {
    let src: DMat = DMat::from_element(50, 100, 1);
    let table = src.calculate_full_summed_area_table();
    assert_eq!(50, table.get_sum((0, 0), (0, 49)));
}

#[test]
fn from_to_equal() {
    let src: DMat = DMat::from_element(100, 100, 1);
    let table = src.calculate_full_summed_area_table();
    assert_eq!(1, table.get_sum((0, 0), (0, 0)));
    assert_eq!(1, table.get_sum((50, 50), (50, 50)));
    assert_eq!(1, table.get_sum((99, 99), (99, 99)));
}

#[test]
fn custom() {
    let src: DMat = DMat::from_row_slice(
        5,
        5,
        &[
            5, 2, 3, 4, 1,
            1, 5, 4, 2, 3,
            2, 2, 1, 3, 4,
            3, 5, 6, 4, 5,
            4, 1, 3, 2, 6,
        ],
    );
    let expected_table: DMat = DMat::from_row_slice(
        5,
        5,
        &[
            5, 7, 10, 14, 15,
            6, 13, 20, 26, 30,
            8, 17, 25, 34, 42,
            11, 25, 39, 52, 65,
            15, 30, 47, 62, 81,
        ],
    );

    let table = src.calculate_full_summed_area_table();

    for row in 0..5 {
        for col in 0..5 {
            assert_eq!(expected_table.get(row, col), table.table.get(row, col));
        }
    }
    for x in 0..5 {
        for y in 0..5 {
            assert_eq!(expected_table.get(y, x), table.get_sum((0, 0), (x, y)));
        }
    }
}

#[test]
fn map_2d_to_1d() {
    assert_eq!(0, util::map_2d_to_1d(0, 0, 7));
    assert_eq!(23, util::map_2d_to_1d(2, 3, 7));
    assert_eq!(6, util::map_2d_to_1d(6, 0, 7));
}

#[test]
fn vec_to_dmat() {
    let src = util::vec_to_dmat(&vec![0, 1, 2, 3, 4, 5]);
    assert_eq!(1, src.ncols());
    assert_eq!(6, src.nrows());
    let table = src.calculate_full_summed_area_table();
    assert_eq!(6, table.get_overall_data_count());
    assert_eq!(15, table.get_overall_sum());
}

#[test]
fn src_and_sat_same_size() {
    let src: DMat = DMat::zeros(100, 100);
    let table = src.calculate_full_summed_area_table();
    assert_eq!(src.nrows(), table.table.nrows());
    assert_eq!(src.ncols(), table.table.ncols());
}

#[test]
#[should_panic]
fn bound_check_x() {
    let src: DMat = DMat::zeros(50, 100);
    let table = src.calculate_full_summed_area_table();
    table.get_sum((0, 0), (50, 99));
}

#[test]
#[should_panic]
fn bound_check_y() {
    let src: DMat = DMat::zeros(50, 100);
    let table = src.calculate_full_summed_area_table();
    table.get_sum((0, 0), (49, 100));
}

#[test]
#[should_panic]
fn point_order_check1() {
    let src: DMat = DMat::zeros(50, 100);
    let table = src.calculate_full_summed_area_table();
    table.get_sum((49, 99), (48, 98));
}

#[test]
#[should_panic]
fn point_order_check2() {
    let src: DMat = DMat::zeros(50, 100);
    let table = src.calculate_full_summed_area_table();
    table.get_sum((49, 99), (48, 99));
}

#[test]
#[should_panic]
fn point_order_check3() {
    let src: DMat = DMat::zeros(50, 100);
    let table = src.calculate_full_summed_area_table();
    table.get_sum((49, 99), (49, 98));
}

#[test]
fn reversed_rect_fails_validation() {
    let src: DMat = DMat::zeros(50, 100);
    let table = src.calculate_full_summed_area_table();
    assert_eq!(
        Err(QueryError::InvalidOrder),
        table.try_get_sum((49, 99), (48, 98))
    );
    assert_eq!(
        Err(QueryError::InvalidOrder),
        table.try_get_sum((49, 99), (48, 99))
    );
    assert_eq!(
        Err(QueryError::InvalidOrder),
        table.try_get_sum((49, 99), (49, 98))
    );
}

#[test]
fn off_by_one_rect_fails_validation() {
    let src: DMat = DMat::zeros(50, 100);
    let table = src.calculate_full_summed_area_table();
    assert_eq!(
        Err(QueryError::OutOfBounds),
        table.try_get_sum((0, 0), (100, 49))
    );
    assert_eq!(
        Err(QueryError::OutOfBounds),
        table.try_get_sum((0, 0), (99, 50))
    );
    assert_eq!(Ok(0), table.try_get_sum((0, 0), (99, 49)));
}

#[test]
fn corrupted_table_reports_underflow() {
    let src: DMat = DMat::from_element(2, 2, 1);
    let mut table = src.calculate_full_summed_area_table();
    table.table.set(1, 1, 0);
    assert_eq!(
        Err(QueryError::Underflow),
        table.try_get_sum((1, 1), (1, 1))
    );
}
