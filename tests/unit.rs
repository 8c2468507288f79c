use grib2csv::{expand_run_length, move_lattice_for_missing_values, Boundary};

#[test]
fn expand_run_length0() {
    let nbit = 4;
    let maxv = 10;
    let lngu = 2u16.pow(nbit) - 1 - maxv;
    let values = vec![3u16];
    let expected = (3u16, 1u32);
    assert_eq!(expected, expand_run_length(&values, maxv, lngu));
}

#[test]
fn expand_run_length1() {
    let nbit = 4;
    let maxv = 10;
    let lngu = 2u16.pow(nbit) - 1 - maxv;
    let values = vec![9u16, 12];
    let expected = (9u16, 2u32);
    assert_eq!(expected, expand_run_length(&values, maxv, lngu));
}

#[test]
fn expand_run_length2() {
    let nbit = 4;
    let maxv = 10;
    let lngu = 2u16.pow(nbit) - 1 - maxv;
    let values = vec![4u16, 15];
    let expected = (4u16, 5u32);
    assert_eq!(expected, expand_run_length(&values, maxv, lngu));
}

#[test]
fn expand_run_length3() {
    let nbit = 4;
    let maxv = 10;
    let lngu = 2u16.pow(nbit) - 1 - maxv;
    let values = vec![0u16, 13, 12];
    let expected = (0u16, 8u32);
    assert_eq!(expected, expand_run_length(&values, maxv, lngu));
}

#[test]
fn should_be_contained_by_boundary() {
    let boundary = Boundary {
        northernmost: Some(36000000),
        southernmost: Some(35000000),
        westernmost: Some(135000000),
        easternmost: Some(136000000),
    };
    let coordinates = vec![
        (135000000, 36000000),
        (136000000, 36000000),
        (135000000, 35000000),
        (136000000, 35000000),
        (135500000, 35500000),
    ];
    for dataset in coordinates {
        assert!(boundary.contains(dataset.0, dataset.1), "{:?}", dataset);
    }
}

#[test]
fn should_be_not_contained_by_boundary() {
    let boundary = Boundary {
        northernmost: Some(36000000),
        southernmost: Some(35000000),
        westernmost: Some(135000000),
        easternmost: Some(136000000),
    };
    let coordinates = vec![
        (134900000, 36000000),
        (135000000, 36100000),
        (136100000, 36000000),
        (135000000, 34900000),
    ];
    for dataset in coordinates {
        assert!(!boundary.contains(dataset.0, dataset.1), "{:?}", dataset);
    }
}

#[test]
fn move_lattice_for_missing_value1() {
    let expected = (145000000u32, 40000000u32);
    let lattice = move_lattice_for_missing_values(
        135000000u32,
        40000000u32,
        10,
        1000000,
        1000000,
        130000000,
        150000000,
    );
    assert_eq!(lattice, expected);
}

#[test]
fn move_lattice_for_missing_value2() {
    let expected = (150000000u32, 40000000u32);
    let lattice = move_lattice_for_missing_values(
        140000000u32,
        40000000u32,
        10u32,
        1000000u32,
        1000000u32,
        130000000u32,
        150000000u32,
    );
    assert_eq!(lattice, expected);
}

#[test]
fn move_lattice_for_missing_value3() {
    let expected = (130000000u32, 39000000u32);
    let lattice = move_lattice_for_missing_values(
        140000000u32,
        40000000u32,
        11u32,
        1000000u32,
        1000000u32,
        130000000u32,
        150000000u32,
    );
    assert_eq!(lattice, expected);
}

#[test]
fn move_lattice_for_missing_value4() {
    let expected = (132000000u32, 37000000u32);
    let lattice = move_lattice_for_missing_values(
        145000000u32,
        40000000u32,
        50u32,
        1000000u32,
        1000000u32,
        130000000u32,
        150000000u32,
    );
    assert_eq!(lattice, expected);
}
