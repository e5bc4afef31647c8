use curuam::{random_in_range, random_with_seed, str_from_bytes, Prime};

#[test]
fn primality_of_small_numbers() {
    assert!(!Prime::is_prime(0));
    assert!(!Prime::is_prime(1));
    assert!(Prime::is_prime(2));
    assert!(Prime::is_prime(3));
    assert!(!Prime::is_prime(4));
    assert!(Prime::is_prime(17));
    assert!(!Prime::is_prime(91));
    assert!(Prime::is_prime(97));
}

#[test]
fn primes_in_a_range() {
    assert_eq!(Prime::range(0, 20), vec![2, 3, 5, 7, 11, 13, 17, 19]);
    assert_eq!(Prime::range(10, 10), Vec::<u128>::new());
    assert_eq!(Prime::range(20, 10), Vec::<u128>::new());
    assert_eq!(Prime::range(89, 90), vec![89]);
}

#[test]
fn string_from_bytes_keeps_ascii() {
    let bytes = b"Hello, world";
    assert_eq!(str_from_bytes(bytes).as_bytes(), bytes);
    assert_eq!(str_from_bytes(&[]), "");
}

#[test]
fn string_from_bytes_reads_latin1() {
    // A byte above 0x7F becomes the character with that code point.
    assert_eq!(str_from_bytes(&[0xE9]), "\u{e9}");
}

#[test]
fn random_is_a_function_of_the_seed() {
    assert_eq!(random_with_seed(0), random_with_seed(0));
    assert_eq!(random_with_seed(0), 0xEF8C810E73F0C53277D489D6FB38CDFA);
    assert_eq!(random_with_seed(12345), 0x365B982D5A5F7CF1FEE3E03522E7C4F9);
}

#[test]
fn random_in_range_stays_in_range() {
    for _ in 0..8 {
        match random_in_range(10, 20) {
            Ok(v) => assert!((10..20).contains(&v)),
            Err(_) => panic!("the clock failed"),
        }
    }
}
