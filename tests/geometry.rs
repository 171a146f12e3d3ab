use splat::pos::{div_round, isqrt, Pos, ScreenPos, Signed, UNIT};
use splat::ray::{InifiniteRay, Ray};

#[test]
fn march_starts_at_start_and_ends_at_end() {
    let ray = Ray { start: Pos::new(0, 0), end: Pos::new(3500, 0) };
    let path = ray.march();
    assert_eq!(path.len(), 5);
    assert_eq!(path[0], Pos::new(0, 0));
    assert_eq!(path[1], Pos::new(1000, 0));
    assert_eq!(path[3], Pos::new(3000, 0));
    assert_eq!(path[4], Pos::new(3500, 0));
}

#[test]
fn march_length_within_one_step() {
    let ray = Ray { start: Pos::new(-2000, 1000), end: Pos::new(4000, 9000) };
    let path = ray.march();
    let length = ray.length();
    assert_eq!(length, 10000);
    let steps = path.len() as i64 - 1;
    assert!(steps * UNIT >= length);
    assert!((steps - 1) * UNIT < length);
    assert_eq!(path[0], ray.start);
    assert_eq!(*path.last().unwrap(), ray.end);
    assert_eq!(path[1], Pos::new(-1400, 1800));
}

#[test]
fn march_short_segment() {
    let ray = Ray { start: Pos::new(10, 10), end: Pos::new(11, 10) };
    let path = ray.march();
    assert_eq!(path, vec![Pos::new(10, 10), Pos::new(11, 10)]);
}

#[test]
fn march_coincident_ends_gives_one_point() {
    let p = Pos::new(1234, -5678);
    let path = Ray { start: p, end: p }.march();
    assert_eq!(path, vec![p]);
}

#[test]
fn march_diagonal_points_lie_between_ends() {
    let ray = Ray { start: Pos::new(5000, 5000), end: Pos::new(-3000, -1000) };
    let path = ray.march();
    for p in &path {
        assert!(p.x <= 5000 && p.x >= -3000);
        assert!(p.y <= 5000 && p.y >= -1000);
    }
    assert_eq!(path.len(), 11);
}

#[test]
fn cell_round_trip_is_stable() {
    for p in [Pos::new(1499, 2999), Pos::new(-1500, -3000), Pos::new(500, 1000), Pos::new(0, 0)] {
        let once = p.to_cell().to_world();
        let twice = once.to_cell().to_world();
        assert_eq!(once, twice);
    }
}

#[test]
fn cell_conversion_rounds_half_away_from_zero() {
    assert_eq!(Pos::new(1499, 2999).to_cell(), ScreenPos::new(1, 1));
    assert_eq!(Pos::new(1500, 3000).to_cell(), ScreenPos::new(2, 2));
    assert_eq!(Pos::new(-1500, -3000).to_cell(), ScreenPos::new(-2, -2));
    assert_eq!(Pos::new(-1499, -2999).to_cell(), ScreenPos::new(-1, -1));
    assert_eq!(ScreenPos::new(3, -4).to_world(), Pos::new(3000, -8000));
}

#[test]
fn rounding_division() {
    assert_eq!(div_round(7, 2), 4);
    assert_eq!(div_round(5, 2), 3);
    assert_eq!(div_round(-5, 2), -3);
    assert_eq!(div_round(1499, 1000), 1);
    assert_eq!(div_round(-1501, 1000), -2);
}

#[test]
fn integer_square_root() {
    assert_eq!(isqrt(0), 0);
    assert_eq!(isqrt(15), 3);
    assert_eq!(isqrt(16), 4);
    assert_eq!(isqrt(u64::MAX), 4294967295);
}

#[test]
fn magnitude_and_normalize() {
    let p = Pos::new(3000, -4000);
    assert_eq!(p.magnitude(), 5000);
    assert_eq!(p.normalize(), Pos::new(600, -800));
    assert_eq!(Pos::new(0, 0).normalize(), Pos::new(0, 0));
}

#[test]
fn scale_and_basis() {
    assert_eq!(Pos::new(2000, -3000).scale(1500), Pos::new(3000, -4500));
    let v = Pos::new(5000, 2000);
    assert_eq!(v.transform_basis(Pos::new(0, 1000)), Pos::new(2000, -5000));
    assert_eq!(v.transform_basis(Pos::new(1000, 0)), Pos::new(5000, 2000));
}

#[test]
fn sign_of_integers() {
    assert_eq!((-7i64).sign(), -1);
    assert_eq!(0i64.sign(), 0);
    assert_eq!(42i64.sign(), 1);
}

#[test]
fn infinite_ray_steps_along_direction() {
    let mut ray = InifiniteRay::new(Pos::new(0, 0), Pos::new(0, 5000));
    assert_eq!(ray.advance(), Pos::new(0, 1000));
    assert_eq!(ray.advance(), Pos::new(0, 2000));
}
