use shortlink::codec::compose_short_key;
use shortlink::codec::id_to_key;
use shortlink::codec::key_to_id;
use shortlink::codec::split_short_key;
use shortlink::codec::KeyError;

#[test]
fn encode_zero_is_empty() {
    assert_eq!(id_to_key(0), "");
}

#[test]
fn encode_known_values() {
    assert_eq!(id_to_key(1), "b");
    assert_eq!(id_to_key(25), "z");
    assert_eq!(id_to_key(26), "A");
    assert_eq!(id_to_key(51), "Z");
    assert_eq!(id_to_key(52), "0");
    assert_eq!(id_to_key(61), "9");
    assert_eq!(id_to_key(62), "ba");
    assert_eq!(id_to_key(63), "bb");
}

#[test]
fn decode_known_values() {
    assert_eq!(key_to_id(""), Ok(0));
    assert_eq!(key_to_id("b"), Ok(1));
    assert_eq!(key_to_id("9"), Ok(61));
    assert_eq!(key_to_id("ba"), Ok(62));
}

#[test]
fn decode_undoes_encode() {
    for id in [1i64, 2, 61, 62, 63, 3843, 3844, 123_456_789, i64::MAX - 1, i64::MAX] {
        assert_eq!(key_to_id(&id_to_key(id)), Ok(id));
    }
}

#[test]
fn decode_rejects_foreign_characters() {
    assert_eq!(key_to_id("ab!"), Err(KeyError::InvalidKey));
    assert_eq!(key_to_id("-"), Err(KeyError::InvalidKey));
    assert_eq!(key_to_id("한글"), Err(KeyError::InvalidKey));
}

#[test]
fn decode_rejects_values_too_large_for_an_id() {
    assert_eq!(key_to_id("99999999999"), Err(KeyError::InvalidKey));
}

#[test]
fn compose_wraps_guard_around_encoded_id() {
    assert_eq!(compose_short_key(1, "abcd"), "abbcd");
    assert_eq!(compose_short_key(0, "wxyz"), "wxyz");
    assert_eq!(compose_short_key(62, "PQrs"), "PQbars");
}

#[test]
fn split_undoes_compose() {
    for id in [0i64, 1, 61, 62, 123_456_789] {
        for guard in ["abcd", "AZ09", "zzzz"] {
            let key = compose_short_key(id, guard);
            assert_eq!(split_short_key(&key), Ok((id, guard.to_string())));
        }
    }
}

#[test]
fn split_rejects_short_keys() {
    assert_eq!(split_short_key(""), Err(KeyError::InvalidKey));
    assert_eq!(split_short_key("abc"), Err(KeyError::InvalidKey));
}

#[test]
fn split_rejects_foreign_middle_characters() {
    assert_eq!(split_short_key("ab!cd"), Err(KeyError::InvalidKey));
}
