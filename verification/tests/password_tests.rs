use wg_credentials::password::{
    create_wg_password, password_from_draws, CredentialError, MAX_INDEX, PASSWORD_LEN,
};

fn pool_of(text: &str) -> Vec<char> {
    text.chars().collect()
}

#[test]
fn password_constants() {
    assert_eq!(PASSWORD_LEN, 10);
    assert_eq!(MAX_INDEX, 10);
}

#[test]
fn eleven_character_pool_gives_a_password() {
    for _round in 0..200 {
        let password = create_wg_password(pool_of("abcdefghijk")).expect("the pool holds every index");
        assert_eq!(password.chars().count(), 10);
        assert!(password.chars().all(|c| "abcdefghijk".contains(c)), "{}", password);
    }
}

#[test]
fn five_character_pool_fails_or_stays_inside_the_pool() {
    for _round in 0..200 {
        match create_wg_password(pool_of("abcde")) {
            Ok(password) => {
                assert_eq!(password.chars().count(), 10);
                assert!(password.chars().all(|c| "abcde".contains(c)), "{}", password);
            }
            Err(error) => assert_eq!(error, CredentialError::PoolTooSmall),
        }
    }
}

#[test]
fn five_character_pool_is_too_small_for_a_high_index() {
    let draws: Vec<usize> = vec![0, 1, 2, 3, 4, 5, 0, 1, 2, 3];
    assert_eq!(password_from_draws(&pool_of("abcde"), &draws), Err(CredentialError::PoolTooSmall));
}

#[test]
fn five_character_pool_serves_low_indices() {
    let draws: Vec<usize> = vec![0, 1, 2, 3, 4, 4, 3, 2, 1, 0];
    assert_eq!(password_from_draws(&pool_of("abcde"), &draws), Ok(String::from("abcdeedcba")));
}

#[test]
fn empty_pool_never_gives_a_password() {
    for _round in 0..20 {
        assert_eq!(create_wg_password(Vec::new()), Err(CredentialError::PoolTooSmall));
    }
}

#[test]
fn ten_character_pool_fails_exactly_on_the_highest_index() {
    let pool = pool_of("0123456789");
    let inside: Vec<usize> = vec![9, 8, 7, 6, 5, 4, 3, 2, 1, 0];
    assert_eq!(password_from_draws(&pool, &inside), Ok(String::from("9876543210")));
    let outside: Vec<usize> = vec![9, 8, 7, 6, 5, 4, 3, 2, 1, 10];
    assert_eq!(password_from_draws(&pool, &outside), Err(CredentialError::PoolTooSmall));
}

#[test]
fn password_from_draws_selects_by_index() {
    let draws: Vec<usize> = vec![10, 0, 5, 5, 1, 9, 2, 8, 3, 7];
    assert_eq!(
        password_from_draws(&pool_of("abcdefghijk"), &draws),
        Ok(String::from("kaffbjcidh"))
    );
}

#[test]
fn password_from_draws_is_fixed_by_pool_and_draws() {
    let pool = pool_of("Zy!x#w9v8u7");
    let draws: Vec<usize> = vec![3, 3, 0, 10, 4, 2, 6, 1, 9, 5];
    let first = password_from_draws(&pool, &draws);
    let second = password_from_draws(&pool.clone(), &draws.clone());
    assert_eq!(first, second);
    assert_eq!(first, Ok(String::from("xxZ7#!9yuw")));
}

#[test]
fn password_from_no_draws_is_empty() {
    let draws: Vec<usize> = Vec::new();
    assert_eq!(password_from_draws(&pool_of("abc"), &draws), Ok(String::new()));
    assert_eq!(password_from_draws(&Vec::new(), &draws), Ok(String::new()));
}

#[test]
fn duplicates_in_the_pool_are_kept() {
    let draws: Vec<usize> = vec![0, 1, 2, 3, 4, 5, 6, 7, 8, 9];
    assert_eq!(
        password_from_draws(&pool_of("aabbaabbaab"), &draws),
        Ok(String::from("aabbaabbaa"))
    );
}

#[test]
fn long_pool_is_sampled_from_its_first_eleven_entries() {
    let pool = pool_of("abcdefghijkLMNOPQRSTUVWXYZ");
    for _round in 0..200 {
        let password = create_wg_password(pool.clone()).expect("the pool holds every index");
        assert_eq!(password.chars().count(), 10);
        assert!(password.chars().all(|c| "abcdefghijk".contains(c)), "{}", password);
    }
}

#[test]
fn passwords_are_not_all_the_first_entry() {
    let mut other_entry = false;
    for _round in 0..50 {
        let password = create_wg_password(pool_of("abcdefghijk")).expect("the pool holds every index");
        if password != "aaaaaaaaaa" {
            other_entry = true;
        }
    }
    assert!(other_entry);
}

#[test]
fn passwords_reach_both_ends_of_the_index_range() {
    let mut seen_first = false;
    let mut seen_last = false;
    for _round in 0..2000 {
        let password = create_wg_password(pool_of("abcdefghijk")).expect("the pool holds every index");
        seen_first = seen_first || password.contains('a');
        seen_last = seen_last || password.contains('k');
    }
    assert!(seen_first && seen_last);
}
