use kprs_web_api::token::{
    generate_session_token, generate_token, token_letter, SESSION_TOKEN_LENGTH,
    VOTER_TOKEN_LENGTH,
};

#[test]
fn drawn_numbers_map_to_letters() {
    assert_eq!(token_letter(65), 'A');
    assert_eq!(token_letter(66), 'B');
    assert_eq!(token_letter(90), 'Z');
    assert_eq!(token_letter(91), 'a');
    assert_eq!(token_letter(92), 'b');
    assert_eq!(token_letter(116), 'z');
}

#[test]
fn numbers_outside_the_draw_map_to_a() {
    assert_eq!(token_letter(0), 'A');
    assert_eq!(token_letter(64), 'A');
    assert_eq!(token_letter(117), 'A');
    assert_eq!(token_letter(0xD800), 'A');
    assert_eq!(token_letter(u32::MAX), 'A');
}

#[test]
fn every_drawn_number_has_its_own_letter() {
    let mut seen: Vec<char> = Vec::new();
    for drawn in 65..117 {
        let letter = token_letter(drawn);
        assert!(letter.is_ascii_alphabetic());
        assert!(!seen.contains(&letter));
        seen.push(letter);
    }
    assert_eq!(seen.len(), 52);
}

#[test]
fn voter_token_is_six_letters() {
    assert_eq!(VOTER_TOKEN_LENGTH, 6);
    for _ in 0..200 {
        let token = generate_token();
        assert_eq!(token.chars().count(), 6);
        assert!(token.chars().all(|c| c.is_ascii_alphabetic()));
    }
}

#[test]
fn voter_tokens_vary() {
    let mut letters: Vec<char> = Vec::new();
    let first = generate_token();
    let mut differs = false;
    for _ in 0..200 {
        let token = generate_token();
        if token != first {
            differs = true;
        }
        for c in token.chars() {
            if !letters.contains(&c) {
                letters.push(c);
            }
        }
    }
    assert!(differs);
    assert!(letters.len() > 20);
    assert!(letters.iter().any(|c| c.is_ascii_lowercase()));
    assert!(letters.iter().any(|c| c.is_ascii_uppercase()));
}

#[test]
fn session_token_is_fifty_letters_and_digits() {
    assert_eq!(SESSION_TOKEN_LENGTH, 50);
    let mut seen: Vec<char> = Vec::new();
    for _ in 0..50 {
        let token = generate_session_token();
        assert_eq!(token.chars().count(), 50);
        assert!(token.chars().all(|c| c.is_ascii_alphanumeric()));
        for c in token.chars() {
            if !seen.contains(&c) {
                seen.push(c);
            }
        }
    }
    assert!(seen.len() > 30);
    assert_ne!(generate_session_token(), generate_session_token());
}
