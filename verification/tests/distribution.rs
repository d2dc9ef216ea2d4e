use otel_broccoli::augmentation::early_fill::{clamp_draw, early_fill_ceiling_of};
use otel_broccoli::augmentation::even::{fill_evenly, move_rows, shuffle_rounds_of, shuffle_rows};
use otel_broccoli::augmentation::generate::{model_from_name, DistributionModel};
use otel_broccoli::augmentation::random::pair_from_draws;
use otel_broccoli::augmentation::sparse_fill::{
    emit_zone_datapoints, largest_count_of, layout_fits_of, sparse_fill_fits_of,
};
use otel_broccoli::augmentation::zone::{
    generate_sparse_fill_zone_shares, move_share, shuffle_shares, split_evenly,
};
use otel_broccoli::augmentation::zone_layout::{
    count_gaps_of, fill_gap, nth_gap, place_shares, zone_boundaries,
};
use otel_broccoli::augmentation::{
    generate_datapoints, generate_datapoints_early_fill, generate_datapoints_even,
    generate_datapoints_from, generate_datapoints_sparse_fill, generate_datapoints_with,
    generate_sparse_fill_zone_and_boundaries, generate_sparse_fill_zone_datapoints,
    pick_2_random_datapoint, DataPoint, DataZone, GenerateError, Timestamp,
};
use otel_broccoli::config::Config;

fn start() -> Timestamp {
    Timestamp::new(1_640_995_200, 0)
}

fn sum_of(points: &Vec<DataPoint>) -> i64 {
    points.iter().map(|p| p.rows_to_add as i64).sum()
}

fn counts_of(points: &Vec<DataPoint>) -> Vec<i16> {
    points.iter().map(|p| p.rows_to_add).collect()
}

fn run_config(model: &str, entries: u32, duration: &str) -> Config {
    let mut cfg = Config::new();
    cfg.set_distribution_by(Some(model.to_string()));
    cfg.set_number_of_entries(Some(entries));
    cfg.set_generation_duration(Some(duration.to_string()));
    cfg
}

#[test]
fn flat_fill_puts_the_rest_on_the_last_second() {
    let points = fill_evenly(start(), 600, 10_000);
    assert_eq!(points.len(), 600);
    for (i, point) in points.iter().enumerate() {
        assert_eq!(point.timestamp, Timestamp::new(1_640_995_200 + i as i64, 0));
        assert_eq!(point.rows_to_add, if i == 599 { 416 } else { 16 });
    }
    assert_eq!(counts_of(&fill_evenly(start(), 4, 10)), vec![2, 2, 2, 4]);
    assert_eq!(counts_of(&fill_evenly(start(), 4, 3)), vec![0, 0, 0, 3]);
    assert_eq!(counts_of(&fill_evenly(start(), 1, 9)), vec![9]);
    assert_eq!(counts_of(&fill_evenly(start(), 3, 0)), vec![0, 0, 0]);
    assert_eq!(counts_of(&fill_evenly(start(), 2, 65_534)), vec![32_767, 32_767]);
}

#[test]
fn shuffle_rounds_are_a_fifth_of_the_rows_rounded() {
    assert_eq!(shuffle_rounds_of(10_000), 2_000);
    assert_eq!(shuffle_rounds_of(0), 0);
    assert_eq!(shuffle_rounds_of(2), 0);
    assert_eq!(shuffle_rounds_of(3), 1);
    assert_eq!(shuffle_rounds_of(7), 1);
    assert_eq!(shuffle_rounds_of(8), 2);
    assert_eq!(shuffle_rounds_of(u32::MAX), 858_993_459);
}

#[test]
fn move_rows_moves_only_what_may_move() {
    let mut points = fill_evenly(start(), 3, 30);
    move_rows(&mut points, 0, 2, 4);
    assert_eq!(counts_of(&points), vec![6, 10, 14]);
    // all the rows of a second never leave it
    move_rows(&mut points, 0, 1, 6);
    assert_eq!(counts_of(&points), vec![6, 10, 14]);
    move_rows(&mut points, 0, 1, 5);
    assert_eq!(counts_of(&points), vec![1, 15, 14]);
    // nothing leaves a second that holds one row, and nothing moves backwards
    move_rows(&mut points, 0, 1, 1);
    move_rows(&mut points, 1, 0, 0);
    move_rows(&mut points, 1, 0, -3);
    assert_eq!(counts_of(&points), vec![1, 15, 14]);
    for (i, point) in points.iter().enumerate() {
        assert_eq!(point.timestamp, Timestamp::new(1_640_995_200 + i as i64, 0));
    }
}

#[test]
fn move_rows_stays_within_16_bits() {
    let mut points = vec![DataPoint::new(start(), 100), DataPoint::new(start(), 32_700)];
    move_rows(&mut points, 0, 1, 68);
    assert_eq!(counts_of(&points), vec![100, 32_700]);
    move_rows(&mut points, 0, 1, 67);
    assert_eq!(counts_of(&points), vec![33, 32_767]);
}

#[test]
fn shuffle_rows_keeps_sum_instants_and_sign() {
    for rounds in [0u32, 1, 10, 5_000] {
        let mut points = fill_evenly(start(), 7, 100);
        shuffle_rows(&mut points, rounds);
        assert_eq!(points.len(), 7);
        assert_eq!(sum_of(&points), 100);
        for (i, point) in points.iter().enumerate() {
            assert!(point.rows_to_add >= 0);
            assert_eq!(point.timestamp, Timestamp::new(1_640_995_200 + i as i64, 0));
        }
    }
    let mut single = fill_evenly(start(), 1, 100);
    shuffle_rows(&mut single, 50);
    assert_eq!(counts_of(&single), vec![100]);
    let mut none: Vec<DataPoint> = Vec::new();
    shuffle_rows(&mut none, 50);
    assert!(none.is_empty());
}

#[test]
fn even_distribution_has_a_point_for_each_second() {
    for (duration, total) in [(600i64, 10_000u32), (1, 5), (5, 3), (2, 0), (3, 98_301), (86_400, 100_000)] {
        let points = generate_datapoints_even(start(), duration, total);
        assert_eq!(points.len() as i64, duration);
        assert_eq!(sum_of(&points), total as i64);
        for (i, point) in points.iter().enumerate() {
            assert!(point.rows_to_add >= 0);
            assert_eq!(point.timestamp().secs, 1_640_995_200 + i as i64);
            assert_eq!(point.timestamp().nanos, 0);
        }
    }
}

#[test]
fn even_distribution_from_a_leap_second_steps_out_of_it() {
    let leap = Timestamp::new(1_483_228_799, 1_250_000_000);
    let points = generate_datapoints_even(leap, 3, 9);
    assert_eq!(points[0].timestamp, leap);
    assert_eq!(points[1].timestamp, Timestamp::new(1_483_228_800, 250_000_000));
    assert_eq!(points[2].timestamp, Timestamp::new(1_483_228_801, 250_000_000));
}

#[test]
fn early_fill_ceiling_is_a_hundredth_rounded_up() {
    assert_eq!(early_fill_ceiling_of(10_000), 100);
    assert_eq!(early_fill_ceiling_of(10_001), 101);
    assert_eq!(early_fill_ceiling_of(150), 2);
    assert_eq!(early_fill_ceiling_of(100), 1);
    assert_eq!(early_fill_ceiling_of(1), 1);
    assert_eq!(early_fill_ceiling_of(0), 1);
    assert_eq!(early_fill_ceiling_of(u32::MAX), 42_949_673);
}

#[test]
fn clamp_draw_cuts_down_to_what_is_left() {
    assert_eq!(clamp_draw(0, 100, 7), 7);
    assert_eq!(clamp_draw(93, 100, 7), 7);
    assert_eq!(clamp_draw(94, 100, 7), 6);
    assert_eq!(clamp_draw(100, 100, 7), 0);
    assert_eq!(clamp_draw(0, 0, 1), 0);
    assert_eq!(clamp_draw(u32::MAX - 1, u32::MAX, u32::MAX), 1);
}

#[test]
fn early_fill_spends_all_rows_and_stops() {
    for (duration, total) in [(600i64, 10_000u32), (10_000, 10_000), (5, 3), (1, 1), (100, 100)] {
        let points = generate_datapoints_early_fill(start(), duration, total);
        let ceiling = early_fill_ceiling_of(total) as i16;
        assert!(points.len() as i64 <= duration);
        assert!(!points.is_empty());
        let mut sum: i64 = 0;
        for (i, point) in points.iter().enumerate() {
            // no point follows the one that spent the last row
            assert!(sum < total as i64);
            assert!(1 <= point.rows_to_add && point.rows_to_add <= ceiling);
            assert_eq!(point.timestamp, Timestamp::new(1_640_995_200 + i as i64, 0));
            sum += point.rows_to_add as i64;
        }
        if duration >= total as i64 {
            assert_eq!(sum, total as i64);
        } else {
            assert!(sum == total as i64 || points.len() as i64 == duration);
        }
    }
}

#[test]
fn early_fill_runs_short_in_a_short_window() {
    let points = generate_datapoints_early_fill(start(), 10, 10_000);
    assert_eq!(points.len(), 10);
    assert!(sum_of(&points) <= 1_000);
    assert!(sum_of(&points) >= 10);
}

#[test]
fn early_fill_of_no_rows_is_one_empty_point() {
    let points = generate_datapoints_early_fill(start(), 600, 0);
    assert_eq!(points, vec![DataPoint::new(start(), 0)]);
}

#[test]
fn pair_from_draws_steps_over_the_first() {
    assert_eq!(pair_from_draws(5, 2, 0), (2, 0));
    assert_eq!(pair_from_draws(5, 2, 1), (2, 1));
    assert_eq!(pair_from_draws(5, 2, 2), (2, 3));
    assert_eq!(pair_from_draws(5, 2, 3), (2, 4));
    assert_eq!(pair_from_draws(2, 0, 0), (0, 1));
    assert_eq!(pair_from_draws(2, 1, 0), (1, 0));
}

#[test]
fn picked_pair_is_distinct_and_in_range() {
    for bound in [2i64, 3, 7, 1_000] {
        for _ in 0..200 {
            let (first, second) = pick_2_random_datapoint(bound);
            assert_ne!(first, second);
            assert!(0 <= first && first < bound);
            assert!(0 <= second && second < bound);
        }
    }
}

#[test]
fn picked_pair_reaches_every_pair() {
    let mut seen = [[false; 3]; 3];
    for _ in 0..2_000 {
        let (first, second) = pick_2_random_datapoint(3);
        seen[first as usize][second as usize] = true;
    }
    for first in 0..3 {
        for second in 0..3 {
            assert_eq!(seen[first][second], first != second);
        }
    }
}

#[test]
fn split_evenly_gives_the_rest_to_the_last() {
    assert_eq!(split_evenly(10_000, 6), vec![1_666, 1_666, 1_666, 1_666, 1_666, 1_670]);
    assert_eq!(split_evenly(10, 3), vec![3, 3, 4]);
    assert_eq!(split_evenly(2, 3), vec![0, 0, 2]);
    assert_eq!(split_evenly(0, 4), vec![0, 0, 0, 0]);
    assert_eq!(split_evenly(7, 1), vec![7]);
    assert_eq!(split_evenly(u32::MAX, 2), vec![2_147_483_647, 2_147_483_648]);
}

#[test]
fn move_share_moves_only_what_may_move() {
    let mut shares = vec![10u32, 20, 30];
    move_share(&mut shares, 2, 0, 29);
    assert_eq!(shares, vec![39, 20, 1]);
    move_share(&mut shares, 2, 0, 1);
    move_share(&mut shares, 1, 2, 20);
    move_share(&mut shares, 1, 2, 0);
    assert_eq!(shares, vec![39, 20, 1]);
    let mut large = vec![u32::MAX - 1, 5];
    move_share(&mut large, 1, 0, 2);
    assert_eq!(large, vec![u32::MAX - 1, 5]);
    move_share(&mut large, 1, 0, 1);
    assert_eq!(large, vec![u32::MAX, 4]);
}

#[test]
fn shuffle_shares_keeps_the_sum() {
    for rounds in [0u32, 1, 30, 3_000] {
        let mut shares = split_evenly(10_000, 5);
        shuffle_shares(&mut shares, rounds);
        assert_eq!(shares.len(), 5);
        assert_eq!(shares.iter().map(|s| *s as u64).sum::<u64>(), 10_000);
    }
    let mut single = vec![9u32];
    shuffle_shares(&mut single, 10);
    assert_eq!(single, vec![9]);
}

#[test]
fn zone_shares_are_three_to_six_and_sum_to_the_rows() {
    let mut seen = [false; 7];
    for _ in 0..400 {
        let shares = generate_sparse_fill_zone_shares(10_000);
        assert!(3 <= shares.len() && shares.len() <= 6);
        assert_eq!(shares.iter().map(|s| *s as u64).sum::<u64>(), 10_000);
        seen[shares.len()] = true;
    }
    assert_eq!(seen, [false, false, false, true, true, true, true]);
    let shares = generate_sparse_fill_zone_shares(u32::MAX);
    assert_eq!(shares.iter().map(|s| *s as u64).sum::<u64>(), u32::MAX as u64);
}

#[test]
fn zone_boundaries_tile_the_window() {
    let zones = zone_boundaries(9, start(), 90);
    assert_eq!(zones.len(), 9);
    for (i, zone) in zones.iter().enumerate() {
        let opens = 1_640_995_200 + 10 * i as i64;
        let closes = if i == 8 { 1_640_995_200 + 90 } else { opens + 9 };
        assert_eq!(*zone, DataZone { start_time: Timestamp::new(opens, 0), end_time: Timestamp::new(closes, 0), num_rows_to_add: 0 });
    }
    for (count, duration) in [(9usize, 100i64), (18, 600), (12, 13), (24, 480), (5, 5), (7, 3), (1, 10)] {
        let zones = zone_boundaries(count, start(), duration);
        assert_eq!(zones.len(), count);
        assert_eq!(zones[0].start_time, start());
        assert_eq!(zones[count - 1].end_time, Timestamp::new(1_640_995_200 + duration, 0));
        for i in 0..count - 1 {
            assert_eq!(zones[i].end_time.secs + 1, zones[i + 1].start_time.secs);
        }
    }
}

#[test]
fn zone_boundaries_share_the_rest_of_the_window_with_the_last() {
    let zones = zone_boundaries(4, start(), 10);
    let spans: Vec<(i64, i64)> = zones
        .iter()
        .map(|z| (z.start_time.secs - 1_640_995_200, z.end_time.secs - 1_640_995_200))
        .collect();
    assert_eq!(spans, vec![(0, 1), (2, 3), (4, 5), (6, 10)]);
}

#[test]
fn gaps_are_counted_and_found_by_rank() {
    let mut zones = zone_boundaries(5, start(), 50);
    assert_eq!(count_gaps_of(&zones), 5);
    fill_gap(&mut zones, 1, 7);
    fill_gap(&mut zones, 3, 0);
    fill_gap(&mut zones, 4, 9);
    assert_eq!(zones.iter().map(|z| z.num_rows_to_add).collect::<Vec<u32>>(), vec![0, 7, 0, 0, 9]);
    assert_eq!(zones[1].start_time, Timestamp::new(1_640_995_210, 0));
    assert_eq!(zones[1].end_time, Timestamp::new(1_640_995_219, 0));
    assert_eq!(count_gaps_of(&zones), 3);
    assert_eq!(nth_gap(&zones, 0), 0);
    assert_eq!(nth_gap(&zones, 1), 2);
    assert_eq!(nth_gap(&zones, 2), 3);
}

#[test]
fn shares_land_on_zones_of_their_own() {
    for _ in 0..100 {
        let shares = vec![5u32, 0, 7, 7, 1];
        let mut zones = zone_boundaries(5, start(), 50);
        let bare = zones.clone();
        place_shares(&mut zones, &shares);
        let mut landed: Vec<u32> = zones.iter().map(|z| z.num_rows_to_add).filter(|n| *n > 0).collect();
        landed.sort();
        assert_eq!(landed, vec![1, 5, 7, 7]);
        for (zone, gap) in zones.iter().zip(bare.iter()) {
            assert_eq!(zone.start_time, gap.start_time);
            assert_eq!(zone.end_time, gap.end_time);
        }
    }
}

#[test]
fn zones_and_boundaries_hold_every_share_once() {
    for _ in 0..50 {
        let shares = vec![100u32, 190, 100, 60];
        let zones = generate_sparse_fill_zone_and_boundaries(&shares, 3, start(), 600);
        assert_eq!(zones.len(), 12);
        let mut landed: Vec<u32> = zones.iter().map(|z| z.num_rows_to_add).filter(|n| *n > 0).collect();
        landed.sort();
        assert_eq!(landed, vec![60, 100, 100, 190]);
        for (i, zone) in zones.iter().enumerate() {
            assert_eq!(zone.start_time.secs, 1_640_995_200 + 50 * i as i64);
            assert_eq!(zone.end_time.secs, if i == 11 { 1_640_995_800 } else { 1_640_995_249 + 50 * i as i64 });
        }
    }
    // as many shares as spans: every span is taken
    let zones = generate_sparse_fill_zone_and_boundaries(&vec![1, 2, 3], 1, start(), 30);
    let mut landed: Vec<u32> = zones.iter().map(|z| z.num_rows_to_add).collect();
    landed.sort();
    assert_eq!(landed, vec![1, 2, 3]);
}

#[test]
fn new_zone_is_a_gap() {
    let zone = DataZone::new(start(), Timestamp::new(1_640_995_209, 0));
    assert_eq!(zone.start_time, start());
    assert_eq!(zone.end_time, Timestamp::new(1_640_995_209, 0));
    assert_eq!(zone.num_rows_to_add, 0);
}

#[test]
fn zone_fill_covers_the_seconds_before_its_end() {
    let zone = DataZone { start_time: start(), end_time: Timestamp::new(1_640_995_210, 0), num_rows_to_add: 25 };
    for _ in 0..20 {
        let points = generate_sparse_fill_zone_datapoints(&zone);
        assert_eq!(points.len(), 10);
        assert_eq!(sum_of(&points), 25);
        for (i, point) in points.iter().enumerate() {
            assert!(point.rows_to_add >= 0);
            assert_eq!(point.timestamp, Timestamp::new(1_640_995_200 + i as i64, 0));
        }
    }
}

#[test]
fn short_zone_puts_its_rows_on_one_second() {
    for reach in [-1i64, 0, 1] {
        let zone = DataZone {
            start_time: start(),
            end_time: Timestamp::new(1_640_995_200 + reach, 0),
            num_rows_to_add: 25,
        };
        assert_eq!(generate_sparse_fill_zone_datapoints(&zone), vec![DataPoint::new(start(), 25)]);
    }
}

#[test]
fn zones_emit_in_order_and_gaps_emit_nothing() {
    let mut zones = zone_boundaries(4, start(), 8);
    fill_gap(&mut zones, 1, 5);
    fill_gap(&mut zones, 3, 9);
    let points = emit_zone_datapoints(&zones);
    // spans (0,1) (2,3) (4,5) (6,8): the second takes one second, the last two
    assert_eq!(points.len(), 3);
    assert_eq!(points[0], DataPoint::new(Timestamp::new(1_640_995_202, 0), 5));
    assert_eq!(points[1].timestamp, Timestamp::new(1_640_995_206, 0));
    assert_eq!(points[2].timestamp, Timestamp::new(1_640_995_207, 0));
    assert_eq!(points[1].rows_to_add + points[2].rows_to_add, 9);
    assert!(emit_zone_datapoints(&zone_boundaries(4, start(), 8)).is_empty());
}

#[test]
fn largest_count_is_reached_by_some_share() {
    assert_eq!(largest_count_of(10_000, 32), 342);
    assert_eq!(largest_count_of(10, 4), 4);
    assert_eq!(largest_count_of(3, 4), 3);
    assert_eq!(largest_count_of(7, 1), 7);
    assert_eq!(largest_count_of(11, 4), 5);
    assert_eq!(largest_count_of(0, 5), 0);
    for (total, slots) in [(10i64, 4i64), (3, 4), (11, 4), (100, 7), (64, 8), (65, 8)] {
        let worst = (0..=total).map(|share| share / slots + share % slots).max().unwrap();
        assert_eq!(largest_count_of(total as u32, slots), worst);
    }
}

#[test]
fn sparse_fill_fits_when_every_zone_may_take_all() {
    assert!(sparse_fill_fits_of(600, 10_000));
    assert!(sparse_fill_fits_of(1, 32_767));
    assert!(!sparse_fill_fits_of(1, 32_768));
    assert!(!sparse_fill_fits_of(53, 32_768));
    assert!(sparse_fill_fits_of(600, 100_000));
    assert!(sparse_fill_fits_of(86_400, 0));
    assert!(layout_fits_of(600, 18, 10_000));
    assert!(!layout_fits_of(35, 18, 40_000));
}

#[test]
fn sparse_fill_spends_all_rows() {
    for (duration, total) in [(600i64, 10_000u32), (18, 100), (5, 7), (1, 3), (600, 0), (3_600, 100_000)] {
        for _ in 0..20 {
            let points = generate_datapoints_sparse_fill(start(), duration, total);
            assert_eq!(sum_of(&points), total as i64);
            for point in &points {
                assert!(point.rows_to_add >= 0);
                assert!(1_640_995_200 <= point.timestamp.secs);
                assert!(point.timestamp.secs <= 1_640_995_200 + duration);
            }
        }
    }
}

#[test]
fn sparse_fill_leaves_gaps_in_a_long_window() {
    let points = generate_datapoints_sparse_fill(start(), 600, 10_000);
    assert!(points.len() < 600);
    for pair in points.windows(2) {
        assert!(pair[0].timestamp.secs < pair[1].timestamp.secs);
    }
}

#[test]
fn model_names_are_read_in_lower_case() {
    assert_eq!(model_from_name("even"), Some(DistributionModel::Even));
    assert_eq!(model_from_name("early_fill"), Some(DistributionModel::EarlyFill));
    assert_eq!(model_from_name("sparse_fill"), Some(DistributionModel::SparseFill));
    assert_eq!(model_from_name("Even"), None);
    assert_eq!(model_from_name(""), None);
    assert_eq!(model_from_name("even "), None);
}

#[test]
fn dispatch_refuses_an_unknown_model_first() {
    assert_eq!(
        generate_datapoints_with("gaussian", start(), 0, u32::MAX),
        Err(GenerateError::UnsupportedModel { model: "gaussian".to_string() })
    );
    assert_eq!(
        generate_datapoints_with("EVEN", start(), 600, 10),
        Err(GenerateError::UnsupportedModel { model: "EVEN".to_string() })
    );
}

#[test]
fn dispatch_refuses_a_window_without_seconds() {
    for model in ["even", "early_fill", "sparse_fill"] {
        assert_eq!(generate_datapoints_with(model, start(), 0, 10), Err(GenerateError::ZeroDuration));
        assert_eq!(generate_datapoints_with(model, start(), -5, 10), Err(GenerateError::ZeroDuration));
    }
}

#[test]
fn dispatch_refuses_a_window_beyond_the_last_second() {
    let late = Timestamp::new(i64::MAX - 9, 0);
    assert_eq!(generate_datapoints_with("even", late, 11, 10), Err(GenerateError::WindowOutOfRange));
    assert_eq!(generate_datapoints_with("early_fill", late, 11, 10), Err(GenerateError::WindowOutOfRange));
    assert_eq!(generate_datapoints_with("sparse_fill", late, 10, 10), Err(GenerateError::WindowOutOfRange));
    assert_eq!(generate_datapoints_with("even", late, 10, 10).unwrap().len(), 10);
    assert_eq!(sum_of(&generate_datapoints_with("sparse_fill", late, 9, 10).unwrap()), 10);
}

#[test]
fn dispatch_refuses_rows_that_no_count_can_hold() {
    assert_eq!(generate_datapoints_with("even", start(), 1, 32_768), Err(GenerateError::CountOutOfRange));
    assert_eq!(generate_datapoints_with("even", start(), 3, 98_302), Err(GenerateError::CountOutOfRange));
    assert_eq!(generate_datapoints_with("early_fill", start(), 5, 3_276_701), Err(GenerateError::CountOutOfRange));
    assert_eq!(generate_datapoints_with("sparse_fill", start(), 5, 32_768), Err(GenerateError::CountOutOfRange));
    assert_eq!(sum_of(&generate_datapoints_with("even", start(), 1, 32_767).unwrap()), 32_767);
    assert_eq!(sum_of(&generate_datapoints_with("even", start(), 3, 98_301).unwrap()), 98_301);
    assert!(generate_datapoints_with("early_fill", start(), 5, 3_276_700).is_ok());
}

#[test]
fn dispatch_routes_by_name() {
    let even = generate_datapoints_with("even", start(), 600, 10_000).unwrap();
    assert_eq!(even.len(), 600);
    assert_eq!(sum_of(&even), 10_000);
    let early = generate_datapoints_with("early_fill", start(), 600, 10_000).unwrap();
    assert!(early.len() <= 600);
    assert!(early.iter().all(|p| 1 <= p.rows_to_add && p.rows_to_add <= 100));
    let sparse = generate_datapoints_with("sparse_fill", start(), 600, 10_000).unwrap();
    assert!(sparse.len() < 600);
    assert_eq!(sum_of(&sparse), 10_000);
}

#[test]
fn run_folds_the_model_name_to_lower_case() {
    let cfg = run_config("EVEN", 1_000, "1m");
    let points = generate_datapoints_from(&cfg, start()).unwrap();
    assert_eq!(points.len(), 60);
    assert_eq!(sum_of(&points), 1_000);
    assert_eq!(points[0].timestamp, start());
    let cfg = run_config("Sparse_Fill", 1_000, "1m");
    assert_eq!(sum_of(&generate_datapoints_from(&cfg, start()).unwrap()), 1_000);
    let cfg = run_config("Gaussian", 1_000, "1m");
    assert_eq!(
        generate_datapoints_from(&cfg, start()),
        Err(GenerateError::UnsupportedModel { model: "gaussian".to_string() })
    );
}

#[test]
fn run_reports_the_duration_before_the_model() {
    let cfg = run_config("gaussian", 1_000, "m1");
    assert_eq!(generate_datapoints_from(&cfg, start()), Err(GenerateError::DurationParse));
    let cfg = run_config("gaussian", 1_000, "1x");
    assert_eq!(
        generate_datapoints_from(&cfg, start()),
        Err(GenerateError::UnsupportedModel { model: "gaussian".to_string() })
    );
    let cfg = run_config("even", 1_000, "1x");
    assert_eq!(generate_datapoints_from(&cfg, start()), Err(GenerateError::ZeroDuration));
    let cfg = run_config("even", 1_000, "1m");
    assert_eq!(
        generate_datapoints_from(&cfg, Timestamp::new(i64::MAX - 59, 0)),
        Err(GenerateError::WindowOutOfRange)
    );
}

#[test]
fn run_starts_now_where_no_start_is_fixed() {
    let cfg = run_config("even", 100, "10s");
    let before = chrono::Utc::now().timestamp();
    let points = generate_datapoints(&cfg).unwrap();
    let after = chrono::Utc::now().timestamp();
    assert_eq!(points.len(), 10);
    assert!(before <= points[0].timestamp.secs && points[0].timestamp.secs <= after);
    for (i, point) in points.iter().enumerate() {
        assert_eq!(point.timestamp.secs, points[0].timestamp.secs + i as i64);
        assert_eq!(point.timestamp.nanos, points[0].timestamp.nanos);
    }
}

#[test]
fn run_reports_a_start_that_cannot_be_read() {
    let mut cfg = run_config("even", 100, "10s");
    cfg.set_use_now_as_timestamp(Some(false));
    cfg.set_timestamp_format(Some("%Y-%m-%dT%H:%M:%S%.f%:z".to_string()));
    cfg.set_start_timestamp(Some("invalid-timestamp-value".to_string()));
    assert_eq!(
        generate_datapoints(&cfg),
        Err(GenerateError::TimestampParse {
            value: "invalid-timestamp-value".to_string(),
            format: "%Y-%m-%dT%H:%M:%S%.f%:z".to_string(),
            reason: "input contains invalid characters".to_string(),
        })
    );
}

#[test]
fn a_round_moves_rows_wherever_it_may() {
    for _ in 0..50 {
        let mut points = fill_evenly(start(), 3, 6);
        assert_eq!(counts_of(&points), vec![2, 2, 2]);
        shuffle_rows(&mut points, 1);
        let mut counts = counts_of(&points);
        counts.sort();
        assert_eq!(counts, vec![1, 2, 3]);

        let mut shares = vec![2u32, 2];
        shuffle_shares(&mut shares, 1);
        shares.sort();
        assert_eq!(shares, vec![1, 3]);
    }
}

#[test]
fn a_round_moves_nothing_out_of_slots_with_less_than_two_rows() {
    for _ in 0..50 {
        let mut points = fill_evenly(start(), 4, 4);
        shuffle_rows(&mut points, 25);
        assert_eq!(counts_of(&points), vec![1, 1, 1, 1]);
        let mut shares = vec![1u32, 0, 1];
        shuffle_shares(&mut shares, 25);
        assert_eq!(shares, vec![1, 0, 1]);
    }
}

#[test]
fn even_distribution_of_six_rows_over_three_seconds_is_shuffled_once() {
    for _ in 0..50 {
        let points = generate_datapoints_even(start(), 3, 6);
        let mut counts = counts_of(&points);
        counts.sort();
        assert_eq!(counts, vec![1, 2, 3]);
    }
    // fewer than three rows give no round at all
    assert_eq!(counts_of(&generate_datapoints_even(start(), 2, 2)), vec![1, 1]);
}

#[test]
fn two_spans_for_each_share_stay_gaps() {
    for _ in 0..50 {
        let shares = generate_sparse_fill_zone_shares(10_000);
        let zones = generate_sparse_fill_zone_and_boundaries(&shares, 3, start(), 600);
        assert_eq!(zones.len(), 3 * shares.len());
        assert!(count_gaps_of(&zones) >= 2 * shares.len());
        let points = emit_zone_datapoints(&zones);
        let taken = zones
            .iter()
            .filter(|z| {
                points
                    .iter()
                    .any(|p| z.start_time.secs <= p.timestamp.secs && p.timestamp.secs <= z.end_time.secs)
            })
            .count();
        assert!(taken <= shares.len());
        for point in &points {
            assert!(0 <= point.rows_to_add && point.rows_to_add as u32 <= 10_000);
        }
    }
}
