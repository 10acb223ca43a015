use pocket_character::pcg::{rotate_right_u32, Pcg32};

#[test]
fn seeded_stream_has_known_outputs() {
    let mut p = Pcg32::new(7);
    assert_eq!(p.next_u32(), 3083089183);
    assert_eq!(p.next_u32(), 2545226425);
    assert_eq!(p.next_u32(), 4025870166);
    assert_eq!(p.next_u32(), 4077276820);
}

#[test]
fn seed_zero_stream() {
    let mut p = Pcg32::new(0);
    assert_eq!(p.next_u32(), 1055580183);
    assert_eq!(p.next_u32(), 3222338950);
    assert_eq!(p.next_u32(), 2908720768);
}

#[test]
fn unit_draws_are_top_24_bits() {
    let mut p = Pcg32::new(42);
    let expected = [5007834u32, 1495583, 11833498, 378594, 69799, 9303427];
    for e in expected {
        let k = p.next_u24();
        assert_eq!(k, e);
        assert!(k < 1 << 24);
    }
}

#[test]
fn same_seed_replays_identically() {
    let mut a = Pcg32::new(7);
    let mut b = Pcg32::new(7);
    for _ in 0..600 {
        assert_eq!(a.next_u32(), b.next_u32());
    }
}

#[test]
fn different_seeds_differ() {
    let mut a = Pcg32::new(7);
    let mut b = Pcg32::new(8);
    let sa: Vec<u32> = (0..8).map(|_| a.next_u32()).collect();
    let sb: Vec<u32> = (0..8).map(|_| b.next_u32()).collect();
    assert_ne!(sa, sb);
}

#[test]
fn rotation_by_shifts() {
    assert_eq!(rotate_right_u32(1, 1), 0x8000_0000);
    assert_eq!(rotate_right_u32(0xdead_beef, 0), 0xdead_beef);
    assert_eq!(rotate_right_u32(0xdead_beef, 32), 0xdead_beef);
    assert_eq!(rotate_right_u32(0xdead_beef, 16), 0xbeef_dead);
    for r in 0..40u32 {
        assert_eq!(rotate_right_u32(0x1234_5678, r), 0x1234_5678u32.rotate_right(r));
    }
}
