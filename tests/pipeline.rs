use gtfs_extract::pipeline::{BoundingBox, PipelineError, StopFilter, StopTimeStep, FLUSH_EVERY};

fn sample_box() -> BoundingBox {
    BoundingBox::new(-10, 10, 100, 200).unwrap()
}

#[test]
fn box_bounds_are_inclusive() {
    let b = sample_box();
    assert!(b.contains(Some(-10), Some(100)));
    assert!(b.contains(Some(10), Some(200)));
    assert!(b.contains(Some(0), Some(150)));
    assert!(!b.contains(Some(11), Some(150)));
    assert!(!b.contains(Some(0), Some(99)));
}

#[test]
fn stop_missing_a_coordinate_is_excluded() {
    let b = sample_box();
    assert!(!b.contains(None, Some(150)));
    assert!(!b.contains(Some(0), None));
    assert!(!b.contains(None, None));
}

#[test]
fn invalid_box_is_refused() {
    assert_eq!(BoundingBox::new(5, 4, 0, 1), Err(PipelineError::InvalidBoundingBox));
    assert_eq!(BoundingBox::new(0, 1, 5, 4), Err(PipelineError::InvalidBoundingBox));
    let b = BoundingBox { min_latitude: 3, max_latitude: 2, min_longitude: 0, max_longitude: 0 };
    assert!(matches!(StopFilter::new(b), Err(PipelineError::InvalidBoundingBox)));
}

fn run(stops: &[(&str, Option<i64>, Option<i64>)], stop_times: &[Option<&str>]) -> (Vec<bool>, Vec<StopTimeStep>) {
    let mut filter = StopFilter::new(sample_box()).unwrap();
    let kept: Vec<bool> = stops.iter().map(|(id, lat, lon)| filter.offer_stop(id, *lat, *lon)).collect();
    let mut join = filter.into_join();
    let steps = stop_times.iter().map(|id| join.offer_stop_time(*id)).collect();
    (kept, steps)
}

#[test]
fn join_keeps_stop_times_of_matched_stops() {
    let stops = [("a", Some(0), Some(150)), ("b", Some(50), Some(150)), ("c", None, Some(150)), ("d", Some(10), Some(100))];
    let times = [Some("a"), Some("b"), None, Some("c"), Some("d"), Some("zz"), Some("a")];
    let (kept, steps) = run(&stops, &times);
    assert_eq!(kept, vec![true, false, false, true]);
    let emitted: Vec<bool> = steps.iter().map(|s| s.emit).collect();
    assert_eq!(emitted, vec![true, false, false, false, true, false, true]);
}

#[test]
fn duplicate_stop_ids_are_harmless() {
    let mut filter = StopFilter::new(sample_box()).unwrap();
    assert!(filter.offer_stop("a", Some(0), Some(150)));
    assert!(filter.offer_stop("a", Some(1), Some(151)));
    let mut join = filter.into_join();
    assert!(join.is_matched("a"));
    assert!(!join.is_matched("b"));
    assert!(join.offer_stop_time(Some("a")).emit);
}

#[test]
fn flush_comes_every_hundred_records() {
    let mut join = StopFilter::new(sample_box()).unwrap().into_join();
    let mut flushes = Vec::new();
    for i in 0..250u64 {
        if join.offer_stop_time(None).flush {
            flushes.push(i + 1);
        }
    }
    assert_eq!(FLUSH_EVERY, 100);
    assert_eq!(flushes, vec![100, 200]);
    assert_eq!(join.processed_count(), 250);
}

#[test]
fn two_runs_decide_alike() {
    let stops = [("a", Some(0), Some(150)), ("b", Some(-10), Some(200)), ("c", Some(-11), Some(150))];
    let times = [Some("c"), Some("b"), Some("a"), None];
    assert_eq!(run(&stops, &times), run(&stops, &times));
}
