use bdeck_ace::basin::{get_basin, Basin};

#[test]
fn southern_latitudes_are_southern_hemisphere() {
    assert_eq!(get_basin(-1, 0), Basin::SHEM);
    assert_eq!(get_basin(-1, 1400), Basin::SHEM);
    assert_eq!(get_basin(-1, 3200), Basin::SHEM);
    assert_eq!(get_basin(-900, 3599), Basin::SHEM);
}

#[test]
fn the_equator_is_not_southern() {
    assert_eq!(get_basin(0, 900), Basin::NIO);
    assert_eq!(get_basin(0, 1400), Basin::WPAC);
}

#[test]
fn west_of_100_east() {
    assert_eq!(get_basin(399, 999), Basin::NIO);
    assert_eq!(get_basin(399, 0), Basin::NIO);
    assert_eq!(get_basin(400, 699), Basin::ATL);
    assert_eq!(get_basin(400, 700), Basin::WPAC);
    assert_eq!(get_basin(900, 999), Basin::WPAC);
}

#[test]
fn from_100_east_to_the_date_line() {
    assert_eq!(get_basin(0, 1000), Basin::WPAC);
    assert_eq!(get_basin(150, 1400), Basin::WPAC);
    assert_eq!(get_basin(500, 1800), Basin::WPAC);
}

#[test]
fn beyond_the_date_line() {
    assert_eq!(get_basin(100, 1801), Basin::EPAC);
    assert_eq!(get_basin(100, 2399), Basin::EPAC);
    assert_eq!(get_basin(100, 2400), Basin::EPAC);
    assert_eq!(get_basin(100, 2700), Basin::EPAC);
    assert_eq!(get_basin(100, 3000), Basin::EPAC);
    assert_eq!(get_basin(100, 3001), Basin::ATL);
    assert_eq!(get_basin(100, 3599), Basin::ATL);
}

fn basin_in_degrees(latitude: f32, longitude: f32) -> Basin {
    if latitude < 0. {
        return Basin::SHEM;
    }
    if longitude < 100. {
        if latitude < 40. {
            Basin::NIO
        } else if longitude < 70.0 {
            Basin::ATL
        } else {
            Basin::WPAC
        }
    } else if longitude <= 180. {
        Basin::WPAC
    } else if longitude < 240. {
        Basin::EPAC
    } else if longitude > 300. {
        Basin::ATL
    } else {
        Basin::EPAC
    }
}

#[test]
fn tenths_agree_with_degrees_everywhere() {
    for latitude in -900..=900 {
        for longitude in 0..3600 {
            let expected = basin_in_degrees(latitude as f32 / 10., longitude as f32 / 10.);
            assert_eq!(get_basin(latitude, longitude), expected, "at {} {}", latitude, longitude);
        }
    }
}

#[test]
fn western_longitudes_agree_with_degrees() {
    for tenths in 0..=9999 {
        let degrees = 360. - tenths as f32 / 10.;
        for latitude in [-5, 0, 150, 399, 400, 600] {
            let expected = basin_in_degrees(latitude as f32 / 10., degrees);
            assert_eq!(get_basin(latitude, 3600 - tenths), expected, "at {} {}", latitude, tenths);
        }
    }
}

#[test]
fn every_basin_is_reached() {
    let mut seen = Vec::new();
    for latitude in [-10, 10, 500] {
        for longitude in [500, 900, 1500, 2000, 3200] {
            let basin = get_basin(latitude, longitude);
            if !seen.contains(&basin) {
                seen.push(basin);
            }
        }
    }
    assert_eq!(seen.len(), 5);
}
