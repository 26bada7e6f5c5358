use dungeon_generator::rng::RandStream;

#[test]
fn same_seed_gives_same_draws() {
    let mut a = RandStream::from_seed(5);
    let mut b = RandStream::from_seed(5);
    for _ in 0..32 {
        assert_eq!(a.gen_u8_incl(0, 200), b.gen_u8_incl(0, 200));
    }
}

#[test]
fn different_seeds_give_different_draws() {
    let mut a = RandStream::from_seed(5);
    let mut b = RandStream::from_seed(6);
    let da: Vec<u8> = (0..16).map(|_| a.gen_u8_incl(0, 255)).collect();
    let db: Vec<u8> = (0..16).map(|_| b.gen_u8_incl(0, 255)).collect();
    assert_ne!(da, db);
}

#[test]
fn clone_starts_from_the_same_state() {
    let mut a = RandStream::from_seed(9);
    let mut c = a.clone_stream();
    for _ in 0..8 {
        assert_eq!(a.gen_u8_excl(0, 255), c.gen_u8_excl(0, 255));
    }
}

#[test]
fn clone_does_not_advance_the_original() {
    let mut a = RandStream::from_seed(9);
    let mut probe = a.clone_stream();
    let expected = probe.gen_u8_incl(0, 255);
    // drawing from another clone must not perturb `a`
    let mut throwaway = a.clone_stream();
    let _ = throwaway.gen_u8_incl(0, 255);
    let _ = throwaway.gen_u8_incl(0, 255);
    assert_eq!(a.gen_u8_incl(0, 255), expected);
}

#[test]
fn draws_respect_their_ranges() {
    let mut a = RandStream::from_seed(1);
    for _ in 0..64 {
        let v = a.gen_u8_incl(10, 12);
        assert!((10..=12).contains(&v));
        let v = a.gen_u8_excl(3, 5);
        assert!(v == 3 || v == 4);
        let v = a.gen_i8_excl(-6, -2);
        assert!((-6..-2).contains(&v));
        let v = a.gen_usize_incl(1, 4);
        assert!((1..=4).contains(&v));
        assert_eq!(a.gen_usize_excl(0, 1), 0);
    }
}

#[test]
fn shuffle_is_a_permutation() {
    let mut a = RandStream::from_seed(2);
    let mut v: Vec<usize> = (0..20).collect();
    a.shuffle_usizes(&mut v);
    assert_eq!(v.len(), 20);
    let mut sorted = v.clone();
    sorted.sort();
    let expected: Vec<usize> = (0..20).collect();
    assert_eq!(sorted, expected);
    // a 20-element shuffle from this seed does move something
    assert_ne!(v, expected);
}

#[test]
fn weighted_choice_picks_valid_indices() {
    let mut a = RandStream::from_seed(3);
    let weights: Vec<u32> = vec![100, 5, 2, 1];
    let mut seen_first = false;
    for _ in 0..200 {
        let i = a.weighted_choice(&weights);
        assert!(i < 4);
        if i == 0 {
            seen_first = true;
        }
    }
    // the heaviest weight dominates
    assert!(seen_first);
}
