use github_audit::ProgressTracker;

/// One percent as double precision gives it.
fn expected(total: usize) -> usize {
    (total as f64 * 0.01).ceil() as usize
}

#[test]
fn one_percent_is_rounded_up() {
    assert_eq!(ProgressTracker::new(0).one_percent, 0);
    assert_eq!(ProgressTracker::new(1).one_percent, 1);
    assert_eq!(ProgressTracker::new(100).one_percent, 1);
    assert_eq!(ProgressTracker::new(101).one_percent, 2);
    assert_eq!(ProgressTracker::new(250).one_percent, 3);
    assert_eq!(ProgressTracker::new(5700).one_percent, 57);
}

#[test]
fn one_percent_agrees_with_double_precision() {
    for total in 0..20_000 {
        assert_eq!(ProgressTracker::new(total).one_percent, expected(total));
    }
    let mut total: usize = 1;
    for i in 0..63 {
        for near in [total - 1, total, total + 1, total + 9 + i] {
            assert_eq!(ProgressTracker::new(near).one_percent, expected(near));
        }
        total *= 2;
    }
    assert_eq!(
        ProgressTracker::new(usize::MAX).one_percent,
        expected(usize::MAX)
    );
    assert_eq!(
        ProgressTracker::new(9_007_199_254_741_001).one_percent,
        90_071_992_547_410
    );
}

#[test]
fn reports_one_repository_in_a_percent() {
    let mut tracker = ProgressTracker::new(250);
    let mut reported: Vec<usize> = vec![];
    for done in 1..=250 {
        if let Some(line) = tracker.tick() {
            let texts: Vec<&str> = line.segments.iter().map(|s| s.text.as_str()).collect();
            let count = done.to_string();
            assert_eq!(texts, vec!["Processed ", count.as_str(), " repositories"]);
            reported.push(done);
        }
    }
    assert_eq!(reported, (1..=83).map(|n| n * 3).collect::<Vec<usize>>());
    assert_eq!(tracker.progress, 250);
}

#[test]
fn reports_every_one_of_a_few_repositories() {
    let mut tracker = ProgressTracker::new(7);
    for _ in 0..7 {
        assert!(tracker.tick().is_some());
    }
}
