use std::collections::HashMap;

use bdeck_ace::aggregate::accumulate;
use bdeck_ace::energy::PerBasinACE;
use bdeck_ace::error::BdeckError;
use bdeck_ace::record::{FixRecord, StormType};

fn fix(year: i32, hour: i32, wind_knots: i32, latitude: i32, longitude: i32, stage: &[u8; 2]) -> FixRecord {
    FixRecord {
        year,
        month: 9,
        hour,
        wind_knots,
        latitude,
        longitude,
        storm_type: StormType::Code(stage[0], stage[1]),
    }
}

#[test]
fn a_storm_without_fixes_changes_nothing() {
    let (stats, yearly) = accumulate(b"WP01".to_vec(), &Vec::new(), HashMap::new()).unwrap();
    assert_eq!(stats.atcf_code, b"WP01".to_vec());
    assert_eq!(stats.max_wind, 0);
    assert_eq!(stats.ace.to_array(), [0, 0, 0, 0, 0]);
    assert!(yearly.is_empty());
}

#[test]
fn energy_goes_to_the_storm_and_to_the_year() {
    let fixes = vec![
        fix(2023, 0, 65, 150, 1400, b"TS"),
        fix(2023, 6, 70, 150, 1400, b"TY"),
        fix(2023, 12, 40, 150, 1810, b"TS"),
    ];
    let (stats, yearly) = accumulate(b"WP01".to_vec(), &fixes, HashMap::new()).unwrap();
    assert_eq!(stats.max_wind, 70);
    assert_eq!(stats.ace.wpac, 4225 + 4900);
    assert_eq!(stats.ace.epac, 1600);
    assert_eq!(stats.ace.sum(), 4225 + 4900 + 1600);
    assert_eq!(stats.ace.basin_count(), 2);
    assert_eq!(yearly.len(), 1);
    assert_eq!(yearly[&2023].to_array(), stats.ace.to_array());
}

#[test]
fn strongest_wind_counts_every_fix() {
    let fixes = vec![
        fix(2023, 0, 65, 150, 1400, b"TS"),
        fix(2023, 3, 120, 150, 1400, b"TY"),
        fix(2023, 6, 90, 150, 1400, b"EX"),
    ];
    let (stats, _) = accumulate(Vec::new(), &fixes, HashMap::new()).unwrap();
    assert_eq!(stats.max_wind, 120);
    assert_eq!(stats.ace.sum(), 4225);
    let calm = vec![fix(2023, 0, -5, 150, 1400, b"TS")];
    let (stats, _) = accumulate(Vec::new(), &calm, HashMap::new()).unwrap();
    assert_eq!(stats.max_wind, 0);
}

#[test]
fn every_fix_opens_the_account_of_its_year() {
    let fixes = vec![fix(2021, 3, 20, 150, 1400, b"EX"), fix(2022, 0, 65, 150, 1400, b"TS")];
    let (_, yearly) = accumulate(Vec::new(), &fixes, HashMap::new()).unwrap();
    assert_eq!(yearly.len(), 2);
    assert_eq!(yearly[&2021].sum(), 0);
    assert_eq!(yearly[&2022].sum(), 4225);
}

#[test]
fn a_storm_may_span_years_and_basins() {
    let fixes = vec![
        fix(2022, 18, 50, 150, 1700, b"TS"),
        fix(2023, 0, 60, 150, 1900, b"TS"),
        fix(2023, 6, 70, -10, 1900, b"TS"),
        fix(2023, 12, 80, 450, 600, b"TS"),
        fix(2023, 18, 90, 100, 900, b"TS"),
    ];
    let (stats, yearly) = accumulate(Vec::new(), &fixes, HashMap::new()).unwrap();
    assert_eq!(stats.ace.to_array(), [2500, 8100, 4900, 3600, 6400]);
    assert_eq!(yearly[&2022].to_array(), [2500, 0, 0, 0, 0]);
    assert_eq!(yearly[&2023].to_array(), [0, 8100, 4900, 3600, 6400]);
    assert_eq!(stats.ace.sum(), yearly[&2022].sum() + yearly[&2023].sum());
}

#[test]
fn an_account_grows_from_storm_to_storm() {
    let mut before = HashMap::new();
    before.insert(2023, PerBasinACE { wpac: 100, nio: 0, shem: 0, epac: 7, atl: 0 });
    before.insert(1999, PerBasinACE { wpac: 0, nio: 0, shem: 0, epac: 0, atl: 5 });
    let fixes = vec![fix(2023, 0, 65, 150, 1400, b"TS"), fix(2024, 0, 35, 150, 3200, b"TS")];
    let (stats, yearly) = accumulate(Vec::new(), &fixes, before).unwrap();
    assert_eq!(stats.ace.to_array(), [4225, 0, 0, 0, 1225]);
    assert_eq!(yearly.len(), 3);
    assert_eq!(yearly[&2023].to_array(), [4325, 0, 0, 7, 0]);
    assert_eq!(yearly[&2024].to_array(), [0, 0, 0, 0, 1225]);
    assert_eq!(yearly[&1999].to_array(), [0, 0, 0, 0, 5]);
}

#[test]
fn a_storm_beyond_i32_is_refused() {
    let strong = fix(2023, 0, 46340, 150, 1400, b"TS");
    let (stats, _) = accumulate(Vec::new(), &vec![strong], HashMap::new()).unwrap();
    assert_eq!(stats.ace.wpac, 2147395600);
    let weak = fix(2023, 6, 296, 150, 1900, b"TS");
    let (stats, _) = accumulate(Vec::new(), &vec![strong, weak], HashMap::new()).unwrap();
    assert_eq!(stats.ace.sum(), 2147395600 + 87616);
    let more = fix(2023, 6, 297, 150, 1900, b"TS");
    assert_eq!(
        accumulate(Vec::new(), &vec![strong, more], HashMap::new()).unwrap_err(),
        BdeckError::EnergyOverflow
    );
    let too_strong = fix(2023, 0, 46341, 150, 1400, b"TS");
    assert_eq!(
        accumulate(Vec::new(), &vec![too_strong], HashMap::new()).unwrap_err(),
        BdeckError::EnergyOverflow
    );
    let other_year = fix(2024, 6, 297, 150, 1900, b"TS");
    assert_eq!(
        accumulate(Vec::new(), &vec![strong, other_year], HashMap::new()).unwrap_err(),
        BdeckError::EnergyOverflow
    );
}

#[test]
fn a_year_beyond_i32_is_refused() {
    let mut before = HashMap::new();
    before.insert(2023, PerBasinACE { wpac: 0, nio: 0, shem: 0, epac: 0, atl: i32::MAX - 4225 });
    let fixes = vec![fix(2023, 0, 65, 150, 1400, b"TS")];
    let (_, yearly) = accumulate(Vec::new(), &fixes, before.clone()).unwrap();
    assert_eq!(yearly[&2023].sum(), i32::MAX);
    before.insert(2023, PerBasinACE { wpac: 0, nio: 0, shem: 0, epac: 0, atl: i32::MAX - 4224 });
    assert_eq!(accumulate(Vec::new(), &fixes, before.clone()).unwrap_err(), BdeckError::EnergyOverflow);
    let elsewhere = vec![fix(2024, 0, 65, 150, 1400, b"TS")];
    assert!(accumulate(Vec::new(), &elsewhere, before).is_ok());
}
