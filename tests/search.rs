use maunakea::search::AngleSearch;

fn run(score: impl Fn(u32) -> Option<u64>) -> (Option<u32>, usize) {
    let mut s = AngleSearch::new();
    let mut n = 0;
    while let Some(a) = s.candidate() {
        s.record(score(a));
        n += 1;
    }
    (s.result(), n)
}

fn circular_distance(a: u32, b: u32) -> u64 {
    let d = if a > b { a - b } else { b - a };
    d.min(360000 - d) as u64
}

#[test]
fn search_finds_exact_minimum() {
    let (best, n) = run(|a| Some(circular_distance(a, 123456)));
    assert_eq!(best, Some(123456));
    assert_eq!(n, 360 + 21 * 3);
}

#[test]
fn search_wraps_around_zero() {
    let (best, _) = run(|a| Some(circular_distance(a, 359990)));
    assert_eq!(best, Some(359990));
    let (best, _) = run(|a| Some(circular_distance(a, 3)));
    assert_eq!(best, Some(3));
}

#[test]
fn search_fails_when_every_angle_dies() {
    let (best, n) = run(|_| None);
    assert_eq!(best, None);
    assert_eq!(n, 360);
}

#[test]
fn search_avoids_death() {
    // Angles below 180 degrees die; the goal lies at 90 degrees.
    let (best, _) = run(|a| if a < 180000 { None } else { Some(circular_distance(a, 90000)) });
    assert_eq!(best, Some(180000));
}

#[test]
fn search_keeps_first_of_equal_scores() {
    let (best, _) = run(|_| Some(7));
    assert_eq!(best, Some(0));
}

#[test]
fn each_pass_never_worsens_the_best() {
    let score = |a: u32| Some(circular_distance(a, 200777) * 3 + (a % 7) as u64);
    let mut s = AngleSearch::new();
    let mut best: Option<u64> = None;
    let mut pass_bests = vec![];
    let mut count = 0;
    while let Some(a) = s.candidate() {
        let v = score(a);
        if let Some(x) = v {
            if best.map_or(true, |b| x < b) {
                best = Some(x);
            }
        }
        s.record(v);
        count += 1;
        if count == 360 || (count > 360 && (count - 360) % 21 == 0) {
            pass_bests.push(best.unwrap());
        }
    }
    assert_eq!(pass_bests.len(), 4);
    for w in pass_bests.windows(2) {
        assert!(w[1] <= w[0]);
    }
    let found = s.result().unwrap();
    assert_eq!(score(found), Some(*pass_bests.last().unwrap()));
}

#[test]
fn search_makes_progress_toward_a_checkpoint() {
    // The character stands at (0, 0); a blocking floor below kills nothing but the
    // checkpoint lies up and to the right, at (100, -100). Moving into the floor
    // (downward angles) is treated as death.
    let start = (0.0f64, 0.0f64);
    let goal = (100.0f64, -100.0f64);
    let score = |a: u32| {
        let rad = (a as f64 / 1000.0).to_radians();
        let (dx, dy) = (rad.sin() * 10.0, rad.cos() * 10.0);
        if dy > 0.5 {
            return None;
        }
        let p = (start.0 + dx, start.1 + dy);
        let d = ((goal.0 - p.0).powi(2) + (goal.1 - p.1).powi(2)).sqrt();
        Some((d * 1000.0) as u64)
    };
    let (best, _) = run(score);
    let a = best.unwrap();
    assert!(score(a).is_some());
    let before = ((goal.0 - start.0).powi(2) + (goal.1 - start.1).powi(2)).sqrt();
    assert!((score(a).unwrap() as f64) / 1000.0 < before);
    assert!((134000..=136000).contains(&a));
}
