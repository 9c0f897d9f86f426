use rusted_ruins::rng::{dice, gen_range, get_rng, next_u32, reseed, sum_rolls};
use rusted_ruins::script::ScriptPos;

#[test]
fn script_pos_moves() {
    let mut p = ScriptPos { section: "start".to_string(), i: 4 };
    p.advance();
    assert_eq!(p.i, 5);
    p.set_section("shop".to_string());
    assert_eq!(p.i, 0);
    assert_eq!(p.section, "shop");
}

#[test]
fn dice_stays_in_range() {
    let mut rng = get_rng();
    for _ in 0..1000 {
        let r = dice(&mut rng, 3, 6);
        assert!((3..=18).contains(&r));
    }
    assert_eq!(dice(&mut rng, 0, 6), 0);
    assert_eq!(dice(&mut rng, -2, 6), 0);
    assert_eq!(dice(&mut rng, 4, 1), 4);
}

#[test]
fn gen_range_stays_in_range() {
    let mut rng = get_rng();
    let mut seen = [false; 5];
    for _ in 0..1000 {
        let r = gen_range(&mut rng, -2, 3);
        assert!((-2..3).contains(&r));
        seen[(r + 2) as usize] = true;
    }
    assert!(seen.iter().all(|s| *s));
}

#[test]
fn fixed_reseed_is_reproducible() {
    let mut a = get_rng();
    let mut b = get_rng();
    let _ = next_u32(&mut b);
    assert!(reseed(&mut a, true));
    assert!(reseed(&mut b, true));
    let xs: Vec<u32> = (0..8).map(|_| next_u32(&mut a)).collect();
    let ys: Vec<u32> = (0..8).map(|_| next_u32(&mut b)).collect();
    assert_eq!(xs, ys);
    let mut c = get_rng();
    let zs: Vec<u32> = (0..8).map(|_| next_u32(&mut c)).collect();
    assert_ne!(xs, zs);
}

#[test]
fn average() {
    let mut rng = get_rng();
    let n = 100000;
    let mut sum: i64 = 0;
    for _ in 0..n {
        sum += gen_range(&mut rng, 0, 1000) as i64;
    }
    let average = sum as f64 / n as f64;
    println!("average is {}", average);
    assert!(average > 450.0 && average < 550.0);
}

#[test]
fn sum_rolls_adds_every_roll() {
    assert_eq!(sum_rolls(&vec![3, 1, 6, 2], 6), 12);
    assert_eq!(sum_rolls(&vec![], 6), 0);
    assert_eq!(sum_rolls(&vec![1], 1), 1);
}

#[test]
fn dice_without_rolls_draws_nothing() {
    let mut a = get_rng();
    let mut b = get_rng();
    assert_eq!(dice(&mut a, 0, 6), 0);
    assert_eq!(dice(&mut a, -3, 6), 0);
    assert_eq!(next_u32(&mut a), next_u32(&mut b));
}

#[test]
fn fresh_generators_share_a_stream() {
    let mut a = get_rng();
    let mut b = get_rng();
    let xs: Vec<u32> = (0..8).map(|_| next_u32(&mut a)).collect();
    let ys: Vec<u32> = (0..8).map(|_| next_u32(&mut b)).collect();
    assert_eq!(xs, ys);
    assert!(xs.windows(2).any(|w| w[0] != w[1]));
}
