use wsp::safety_number::compute_safety_number;

#[test]
fn test_safety_number_symmetric() {
    let key_a = vec![1u8; 32];
    let key_b = vec![2u8; 32];

    let sn1 = compute_safety_number(&key_a, &key_b);
    let sn2 = compute_safety_number(&key_b, &key_a);

    assert_eq!(sn1.numeric(), sn2.numeric());
    assert_eq!(sn1.emoji(), sn2.emoji());
}

#[test]
fn test_safety_number_different_keys() {
    let key_a = vec![1u8; 32];
    let key_b = vec![2u8; 32];
    let key_c = vec![3u8; 32];

    let sn_ab = compute_safety_number(&key_a, &key_b);
    let sn_ac = compute_safety_number(&key_a, &key_c);

    assert_ne!(sn_ab.numeric(), sn_ac.numeric());
}

#[test]
fn test_numeric_format() {
    let key_a = vec![42u8; 32];
    let key_b = vec![99u8; 32];
    let sn = compute_safety_number(&key_a, &key_b);

    let numeric = sn.numeric();
    let groups: Vec<&str> = numeric.split_whitespace().collect();
    assert_eq!(groups.len(), 5);
    for g in &groups {
        assert_eq!(g.len(), 5);
        assert!(g.chars().all(|c| c.is_ascii_digit()));
    }
}

#[test]
fn test_emoji_format() {
    let key_a = vec![42u8; 32];
    let key_b = vec![99u8; 32];
    let sn = compute_safety_number(&key_a, &key_b);
    let emoji = sn.emoji();
    assert!(!emoji.is_empty());
}

#[test]
fn test_short_numeric_prefixes_numeric() {
    let sn = compute_safety_number(&[1u8; 32], &[2u8; 32]);
    let numeric = sn.numeric();
    let short = sn.short_numeric();
    let first_three: Vec<&str> = numeric.split_whitespace().take(3).collect();
    assert_eq!(short, first_three.join(" "));
    assert_eq!(short.len(), 17);
}
