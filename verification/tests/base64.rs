use forum_core::base64_serde::{deserialize, into_array, serialize};

#[test]
fn test_correct_input() {
    let result = deserialize::<2>("abA");
    assert!(result.is_ok());
}

#[test]
fn test_missized_input() {
    let result = deserialize::<2>("ab");
    assert!(result.is_err());

    let result = deserialize::<2>("abcd");
    assert!(result.is_err());

    let result = deserialize::<2>("abB");
    assert!(result.is_err());
}

#[test]
fn text_decodes_to_its_bytes() {
    assert_eq!(deserialize::<2>("abA").ok(), Some([0x69, 0xb0]));
    let expected: [u8; 16] = [0, 1, 2, 3, 4, 5, 6, 7, 8, 9, 10, 11, 12, 13, 14, 15];
    assert_eq!(deserialize::<16>("AAECAwQFBgcICQoLDA0ODw").ok(), Some(expected));
    assert_eq!(deserialize::<0>("").ok(), Some([]));
}

#[test]
fn bytes_encode_to_url_safe_text_without_padding() {
    let bytes: [u8; 16] = [0, 1, 2, 3, 4, 5, 6, 7, 8, 9, 10, 11, 12, 13, 14, 15];
    assert_eq!(serialize(&bytes), "AAECAwQFBgcICQoLDA0ODw");
    assert_eq!(serialize(&[0xfb, 0xff]), "-_8");
    assert_eq!(serialize(&[]), "");
}

#[test]
fn text_round_trips() {
    for seed in 0u8..50 {
        let mut bytes = [0u8; 16];
        for (i, b) in bytes.iter_mut().enumerate() {
            *b = seed.wrapping_mul(31).wrapping_add((i as u8).wrapping_mul(17));
        }
        let text = serialize(&bytes);
        assert_eq!(text.len(), 22);
        assert_eq!(deserialize::<16>(&text).ok(), Some(bytes));
    }
}

#[test]
fn padded_and_foreign_text_is_refused() {
    assert!(deserialize::<2>("abA=").is_err());
    assert!(deserialize::<2>("a+A").is_err());
    assert!(deserialize::<2>("a/A").is_err());
    assert!(deserialize::<2>("a A").is_err());
    assert!(deserialize::<16>("AAECAwQFBgcICQoLDA0OD").is_err());
    assert!(deserialize::<16>("AAECAwQFBgcICQoLDA0ODw8").is_err());
    assert!(deserialize::<1>("").is_err());
}

#[test]
fn decoded_bytes_of_another_size_are_refused() {
    assert_eq!(into_array::<2>(Some(vec![1, 2])).ok(), Some([1, 2]));
    assert!(into_array::<2>(Some(vec![1])).is_err());
    assert!(into_array::<2>(Some(vec![1, 2, 3])).is_err());
    assert!(into_array::<2>(None).is_err());
    assert_eq!(into_array::<0>(Some(Vec::new())).ok(), Some([]));
}
