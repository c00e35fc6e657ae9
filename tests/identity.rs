use livedraft_arena::identity::{
    create_player_id_cookie, is_valid_player_id, player_id_from_cookies, player_id_from_digest,
    player_id_from_seed,
    player_id_to_owner, select_player_id,
};

#[test]
fn test_player_id_to_owner_deterministic() {
    let player_id = "1234567890abcdef";
    let owner1 = player_id_to_owner(player_id);
    let owner2 = player_id_to_owner(player_id);
    assert_eq!(owner1, owner2);
}

#[test]
fn test_different_player_ids_different_owners() {
    let owner1 = player_id_to_owner("1234567890abcdef");
    let owner2 = player_id_to_owner("fedcba0987654321");
    assert_ne!(owner1, owner2);
}

#[test]
fn test_valid_player_id() {
    assert!(is_valid_player_id("1234567890abcdef"));
    assert!(!is_valid_player_id("invalid"));
    assert!(!is_valid_player_id("123")); // too short
}

#[test]
fn valid_player_id_accepts_upper_case_and_rejects_other_lengths() {
    assert!(is_valid_player_id("ABCDEF0123456789"));
    assert!(!is_valid_player_id(""));
    assert!(!is_valid_player_id("1234567890abcdef0"));
    assert!(!is_valid_player_id("1234567890abcdeg"));
}

#[test]
fn cookie_keeps_the_id_for_thirty_days() {
    assert_eq!(
        create_player_id_cookie("1234567890abcdef"),
        "livedraft_player_id=1234567890abcdef; Path=/; HttpOnly; SameSite=Lax; Max-Age=2592000"
    );
}

#[test]
fn owner_is_the_digest_of_the_prefixed_id() {
    let owner = player_id_to_owner("1234567890abcdef");
    assert_eq!(
        owner.to_hex_string(),
        "c1b9210f279e5e874ba265f619b14c27a898bb2b6dbb736be1d888c5fca1e17f"
    );
}

#[test]
fn empty_id_owner_is_the_digest_of_the_prefix() {
    let owner = player_id_to_owner("");
    assert_eq!(
        owner.to_hex_string(),
        "964e53afdb42ed4458d3c859f496c06b43e83fea23295999bb0cdac37e9baa20"
    );
}

#[test]
fn seeded_player_ids_are_valid_and_deterministic() {
    let a = player_id_from_seed(1_700_000_000_000_000_000, 42);
    let b = player_id_from_seed(1_700_000_000_000_000_000, 42);
    let c = player_id_from_seed(1_700_000_000_000_000_001, 42);
    assert_eq!(a, "23e6bea4d386591a");
    assert_eq!(a, b);
    assert_ne!(a, c);
    assert!(is_valid_player_id(&a));
}

#[test]
fn header_id_comes_first_when_well_formed() {
    let cookies = "livedraft_player_id=fedcba0987654321";
    assert_eq!(
        select_player_id(Some("1234567890abcdef"), Some(cookies)),
        Some("1234567890abcdef".to_string())
    );
    assert_eq!(
        select_player_id(Some("not-an-id"), Some(cookies)),
        Some("fedcba0987654321".to_string())
    );
    assert_eq!(select_player_id(Some(""), None), None);
    assert_eq!(select_player_id(None, None), None);
}

#[test]
fn cookie_id_is_found_among_other_cookies() {
    assert_eq!(
        player_id_from_cookies("theme=dark; livedraft_player_id=abcdef0123456789; lang=en"),
        Some("abcdef0123456789".to_string())
    );
    assert_eq!(
        player_id_from_cookies("  livedraft_player_id=ABCDEF0123456789 \t;x=1"),
        Some("ABCDEF0123456789".to_string())
    );
    assert_eq!(
        player_id_from_cookies("livedraft_player_id=short; livedraft_player_id=0000111122223333"),
        Some("0000111122223333".to_string())
    );
    assert_eq!(player_id_from_cookies("livedraft_player_id="), None);
    assert_eq!(player_id_from_cookies("livedraft_player_id=abcdef0123456789x"), None);
    assert_eq!(player_id_from_cookies("other_player_id=abcdef0123456789"), None);
    assert_eq!(player_id_from_cookies(""), None);
    assert_eq!(player_id_from_cookies(";;"), None);
}

#[test]
fn digest_gives_its_first_eight_bytes_in_hex() {
    let mut digest = [0u8; 32];
    digest[0] = 0xab;
    digest[7] = 0x0f;
    digest[8] = 0xff;
    assert_eq!(player_id_from_digest(&digest), "ab0000000000000f");
}
