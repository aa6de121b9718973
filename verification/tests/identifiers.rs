use dsn_traveller::{bytes_eq, hash_id, hash_salted, is_valid_user_id, server_part, HashKey};

#[test]
fn user_id_shapes() {
    assert!(is_valid_user_id(&b"@a:hs1".to_vec()));
    assert!(is_valid_user_id(&b"@alice:matrix.example.org".to_vec()));
    assert!(is_valid_user_id(&b"@a:host.example:8448".to_vec()));
    assert!(!is_valid_user_id(&b"".to_vec()));
    assert!(!is_valid_user_id(&b"@".to_vec()));
    assert!(!is_valid_user_id(&b"alice:hs1".to_vec()));
    assert!(!is_valid_user_id(&b"@:hs1".to_vec()));
    assert!(!is_valid_user_id(&b"@alice:".to_vec()));
    assert!(!is_valid_user_id(&b"@alice".to_vec()));
}

#[test]
fn server_part_is_everything_after_the_first_separator() {
    assert_eq!(server_part(&b"@a:hs1".to_vec()), b"hs1".to_vec());
    assert_eq!(
        server_part(&b"@a:host.example:8448".to_vec()),
        b"host.example:8448".to_vec()
    );
}

#[test]
fn bytes_eq_compares_contents() {
    assert!(bytes_eq(&b"abc".to_vec(), &b"abc".to_vec()));
    assert!(!bytes_eq(&b"abc".to_vec(), &b"abd".to_vec()));
    assert!(!bytes_eq(&b"abc".to_vec(), &b"ab".to_vec()));
    assert!(bytes_eq(&Vec::new(), &Vec::new()));
}

#[test]
fn dedup_hash_is_deterministic_per_key() {
    let key = HashKey { k0: 3, k1: 4 };
    assert_eq!(hash_id(key, &b"@a:hs1".to_vec()), hash_id(key, &b"@a:hs1".to_vec()));
    assert_ne!(hash_id(key, &b"@a:hs1".to_vec()), hash_id(key, &b"@b:hs1".to_vec()));
    let other = HashKey { k0: 5, k1: 6 };
    assert_ne!(hash_id(key, &b"@a:hs1".to_vec()), hash_id(other, &b"@a:hs1".to_vec()));
}

#[test]
fn salted_hash_depends_on_key_value_and_salt() {
    let key = HashKey { k0: 3, k1: 4 };
    assert_eq!(hash_salted(key, 10, 20), hash_salted(key, 10, 20));
    assert_ne!(hash_salted(key, 10, 20), hash_salted(key, 10, 21));
    assert_ne!(hash_salted(key, 10, 20), hash_salted(key, 11, 20));
    assert_ne!(hash_salted(key, 10, 20), hash_salted(HashKey { k0: 9, k1: 4 }, 10, 20));
}
