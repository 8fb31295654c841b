use longest_collatz::{
    chains_fit, get_collatz, get_collatz_sequence, get_collatz_within, step,
};

#[test]
fn step_halves_even_values() {
    assert_eq!(step(6), 3);
    assert_eq!(step(16), 8);
    assert_eq!(step(2), 1);
    assert_eq!(step(0), 0);
}

#[test]
fn step_triples_odd_values_and_adds_one() {
    assert_eq!(step(3), 10);
    assert_eq!(step(5), 16);
    assert_eq!(step(1), 4);
    assert_eq!(step(27), 82);
}

#[test]
fn step_wraps_at_the_word_size() {
    assert_eq!(step(usize::MAX), usize::MAX - 1);
    let third: usize = usize::MAX / 3;
    assert_eq!(third % 2, 1);
    assert_eq!(step(third), 0);
}

#[test]
fn length_of_one_is_one() {
    assert_eq!(get_collatz(1), 1);
}

#[test]
fn length_of_two_is_two() {
    assert_eq!(get_collatz(2), 2);
}

#[test]
fn length_of_six_is_nine() {
    assert_eq!(get_collatz(6), 9);
}

#[test]
fn length_of_some_known_chains() {
    assert_eq!(get_collatz(3), 8);
    assert_eq!(get_collatz(7), 17);
    assert_eq!(get_collatz(9), 20);
    assert_eq!(get_collatz(27), 112);
    assert_eq!(get_collatz(97), 119);
    assert_eq!(get_collatz(871), 179);
    assert_eq!(get_collatz(837799), 525);
}

#[test]
fn sequence_of_one_is_just_one() {
    assert_eq!(get_collatz_sequence(1), vec![1]);
}

#[test]
fn sequence_of_six() {
    assert_eq!(get_collatz_sequence(6), vec![6, 3, 10, 5, 16, 8, 4, 2, 1]);
}

#[test]
fn sequence_matches_length_and_ends() {
    let starts: Vec<usize> = vec![1, 2, 3, 6, 7, 27, 97, 871, 6171, 837799];
    for v in starts {
        let xs: Vec<usize> = get_collatz_sequence(v);
        assert_eq!(xs.len(), get_collatz(v) as usize);
        assert_eq!(xs[0], v);
        assert_eq!(xs[xs.len() - 1], 1);
    }
}

#[test]
fn sequence_follows_the_step_and_meets_one_only_at_the_end() {
    let xs: Vec<usize> = get_collatz_sequence(27);
    assert_eq!(xs.len(), 112);
    for k in 0..xs.len() - 1 {
        assert_ne!(xs[k], 1);
        assert_eq!(xs[k + 1], step(xs[k]));
    }
}

#[test]
fn bounded_count_gives_the_length_when_the_bound_allows_it() {
    assert_eq!(get_collatz_within(1, 1), Some(1));
    assert_eq!(get_collatz_within(6, 9), Some(9));
    assert_eq!(get_collatz_within(6, 100), Some(9));
    assert_eq!(get_collatz_within(27, 112), Some(112));
    assert_eq!(get_collatz_within(837799, u32::MAX), Some(525));
}

#[test]
fn bounded_count_gives_up_past_the_bound() {
    assert_eq!(get_collatz_within(1, 0), None);
    assert_eq!(get_collatz_within(6, 8), None);
    assert_eq!(get_collatz_within(27, 111), None);
}

#[test]
fn bounded_count_gives_up_on_a_chain_that_never_meets_one() {
    assert_eq!(get_collatz_within(0, 1000), None);
    assert_eq!(get_collatz_within(usize::MAX / 3, 1000), None);
}

#[test]
fn bounded_count_agrees_with_the_plain_count() {
    for v in 1..2000usize {
        assert_eq!(get_collatz_within(v, u32::MAX), Some(get_collatz(v)));
    }
}

#[test]
fn chains_below_small_bounds_fit() {
    assert!(chains_fit(0));
    assert!(chains_fit(1));
    assert!(chains_fit(2));
    assert!(chains_fit(3));
    assert!(chains_fit(10_000));
}
