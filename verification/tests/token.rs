use rust_web_dev::handle_errors::Error;
use rust_web_dev::token::{
    accept, read_claims, seal, unseal, write_claims, TokenCodec, TOKEN_TTL,
};
use rust_web_dev::types::account::{AccountId, Session};

const HOUR: i64 = 3600;
const MINUTE: i64 = 60;

fn codec() -> TokenCodec {
    TokenCodec::new(b"secret".to_vec())
}

fn with_last_byte_changed(token: &str) -> String {
    let mut bytes = token.as_bytes().to_vec();
    let last = bytes.len() - 1;
    bytes[last] = if bytes[last] == b'0' { b'1' } else { b'0' };
    String::from_utf8(bytes).unwrap()
}

#[test]
fn token_lives_for_one_hour() {
    assert_eq!(TOKEN_TTL, HOUR);
}

#[test]
fn issued_token_is_claims_and_tag() {
    assert_eq!(
        codec().issue(AccountId(42), 1700000000),
        "42.1700000000.1700003600.9cc0e3ed1be6b2301c4c9a74452ea4f807865851b4f6d5da8ca91ca823284fc2"
    );
}

#[test]
fn issued_token_under_an_empty_key() {
    assert_eq!(
        TokenCodec::new(Vec::new()).issue(AccountId(0), 0),
        "0.0.3600.e4115426727411830c22402f93ba6fd353b5fad93780f70b5f4af8e0d1aa826c"
    );
}

#[test]
fn issued_token_with_negative_numbers() {
    let codec = TokenCodec::new(b"RANDOM WORDS WINTER MACINTOSH PC".to_vec());
    assert_eq!(
        codec.issue(AccountId(-7), -3600),
        "-7.-3600.0.7b3c1d25d1a0872bee1418491a270584ab2f94bdab184e81d22bbc95f17e4e46"
    );
}

#[test]
fn issued_token_with_the_largest_numbers() {
    let codec = TokenCodec::new(vec![b'k'; 100]);
    assert_eq!(
        codec.issue(AccountId(i32::MAX), i64::MAX - TOKEN_TTL),
        "2147483647.9223372036854772207.9223372036854775807.fa44261459ad99169c09f5d389c3a96092dd34f8e0080181584cff7ca8f921f9"
    );
}

#[test]
fn issued_token_with_the_smallest_numbers() {
    let codec = TokenCodec::new(vec![b'k'; 100]);
    let token = codec.issue(AccountId(i32::MIN), i64::MIN);
    assert_eq!(
        token,
        "-2147483648.-9223372036854775808.-9223372036854772208.5237523c8caae538f7ec39c86d8726d9c00af047cc71b32b09d33f322694d63a"
    );
    assert_eq!(codec.validate(&token, i64::MIN), Ok(AccountId(i32::MIN)));
}

#[test]
fn token_is_url_safe() {
    let token = codec().issue(AccountId(-1), -5);
    assert!(token
        .bytes()
        .all(|b| b.is_ascii_digit() || (b'a'..=b'f').contains(&b) || b == b'.' || b == b'-'));
}

#[test]
fn token_validates_after_thirty_minutes_and_fails_after_sixty_one() {
    let now = 1700000000;
    let token = codec().issue(AccountId(5), now);
    assert_eq!(codec().validate(&token, now + 30 * MINUTE), Ok(AccountId(5)));
    assert_eq!(
        codec().validate(&token, now + 61 * MINUTE),
        Err(Error::Unauthorized)
    );
}

#[test]
fn token_window_includes_its_start_and_excludes_its_end() {
    let now = 1000;
    let token = codec().issue(AccountId(5), now);
    assert_eq!(codec().validate(&token, now - 1), Err(Error::Unauthorized));
    assert_eq!(codec().validate(&token, now), Ok(AccountId(5)));
    assert_eq!(codec().validate(&token, now + HOUR - 1), Ok(AccountId(5)));
    assert_eq!(codec().validate(&token, now + HOUR), Err(Error::Unauthorized));
}

#[test]
fn token_with_a_changed_tag_byte_fails() {
    let now = 1700000000;
    let token = codec().issue(AccountId(5), now);
    let forged = with_last_byte_changed(&token);
    assert_ne!(token, forged);
    assert_eq!(codec().validate(&forged, now), Err(Error::Unauthorized));
}

#[test]
fn token_with_every_single_tag_digit_changed_fails() {
    let now = 1700000000;
    let token = codec().issue(AccountId(5), now);
    let start = token.len() - 64;
    for i in start..token.len() {
        let mut bytes = token.as_bytes().to_vec();
        bytes[i] = if bytes[i] == b'a' { b'b' } else { b'a' };
        let forged = String::from_utf8(bytes).unwrap();
        assert_eq!(codec().validate(&forged, now), Err(Error::Unauthorized));
    }
}

#[test]
fn token_with_changed_claims_fails() {
    let now = 1700000000;
    let token = codec().issue(AccountId(5), now);
    assert!(token.starts_with("5.1700000000.1700003600."));
    let other_account = token.replacen("5.", "6.", 1);
    let longer_life = token.replacen("1700003600", "1800003600", 1);
    assert_eq!(codec().validate(&other_account, now), Err(Error::Unauthorized));
    assert_eq!(codec().validate(&longer_life, now), Err(Error::Unauthorized));
}

#[test]
fn token_of_another_key_fails() {
    let now = 1700000000;
    let token = TokenCodec::new(b"another".to_vec()).issue(AccountId(5), now);
    assert_eq!(codec().validate(&token, now), Err(Error::Unauthorized));
}

#[test]
fn malformed_tokens_fail() {
    let now = 1700000000;
    let good = codec().issue(AccountId(42), now);
    assert_eq!(codec().validate(&good, now), Ok(AccountId(42)));
    let tag = "9cc0e3ed1be6b2301c4c9a74452ea4f807865851b4f6d5da8ca91ca823284fc2";
    let cases = [
        String::new(),
        String::from("."),
        String::from("..."),
        String::from("42.1700000000.1700003600"),
        String::from("42.1700000000.1700003600."),
        format!("42.1700000000.1700003600.{}", tag.to_uppercase()),
        format!("42.1700000000.1700003600.{}", &tag[..63]),
        format!("42.1700000000.1700003600.{}0", tag),
        format!("42.1700000000.1700003600.{} ", tag),
        format!(" 42.1700000000.1700003600.{}", tag),
        format!("042.1700000000.1700003600.{}", tag),
        format!("+42.1700000000.1700003600.{}", tag),
        format!("42.1700000000.1700003600.0.{}", tag),
        format!("42.1700000000.{}", tag),
        format!("42.1700000000.1700003600.{}.", tag),
        format!("42.1700000000.1700003600.\u{e9}{}", tag),
        String::from("not a token"),
    ];
    for case in cases.iter() {
        assert_eq!(codec().validate(case, now), Err(Error::Unauthorized));
    }
}

#[test]
fn claims_that_are_not_canonical_fail_even_under_their_own_tag() {
    // Each tag below is the tag of the text before it under the key "secret".
    let honest =
        "42.0.3600.bb63dd76935d7415bc4b727f415e3800d199a5e61967e40744ad442ecd40b61f";
    assert_eq!(codec().issue(AccountId(42), 0), honest);
    assert_eq!(codec().validate(honest, 0), Ok(AccountId(42)));
    let cases = [
        "042.0.3600.7439f5f8f306679d35af1af9577c5c29b0a40bd89e2b3a8cc28ac0b8ea46023a",
        "+42.0.3600.cb855263843b899b1fb4faaf449975299d88f090102a8effb63e84a3113ad51a",
        "42.0.d3e8fd2f4dcb295cf3b3ad6a8644df988a23fd472ee6e9358070ec85841cf443",
        "42.0.3600.1.c908207eff6e57d284fb179c7a69cb941183cedc28864a58132d415e8dfacddb",
        "-0.0.3600.8b5d5b34125e2b5f6b5dd7c3eed66bb17db17ac798015d1baabe2bfd45f1331f",
        "2147483648.0.3600.389682babd900b93c2738b14e1d452b64208a2e23ce96e1b67ca1c41864461a3",
        "42.0.9223372036854775808.e6a5f3ba2bf2962bd6f8a2936e59df39f64514c92326c2a00741b39bc0ba0106",
        ".f9e66e179b6747ae54108f82f8ade8b3c25d76fd30afde6c395822c530196169",
        "42..3600.73178595773c5a7c06c1d20f90b1db69672673ac50ab652994b0a4ba4267f47a",
    ];
    for case in cases.iter() {
        assert_eq!(codec().validate(case, 0), Err(Error::Unauthorized));
    }
}

#[test]
fn two_tokens_for_the_same_claims_are_equal() {
    assert_eq!(
        codec().issue(AccountId(9), 77),
        codec().issue(AccountId(9), 77)
    );
    assert_ne!(
        codec().issue(AccountId(9), 77),
        codec().issue(AccountId(9), 78)
    );
    assert_ne!(
        codec().issue(AccountId(9), 77),
        codec().issue(AccountId(10), 77)
    );
}

fn session(account: i32, nbf: i64, exp: i64) -> Session {
    Session {
        exp,
        account_id: AccountId(account),
        nbf,
    }
}

#[test]
fn claims_are_written_account_first() {
    assert_eq!(write_claims(session(42, 0, 3600)), b"42.0.3600".to_vec());
    assert_eq!(write_claims(session(-1, -2, -3)), b"-1.-2.-3".to_vec());
    assert_eq!(write_claims(session(0, 0, 0)), b"0.0.0".to_vec());
    assert_eq!(
        write_claims(session(i32::MIN, i64::MIN, i64::MAX)),
        b"-2147483648.-9223372036854775808.9223372036854775807".to_vec()
    );
}

#[test]
fn claims_are_read_back() {
    let cases = [
        session(42, 0, 3600),
        session(-1, -2, -3),
        session(0, 0, 0),
        session(i32::MAX, i64::MAX, i64::MIN),
        session(i32::MIN, i64::MIN, i64::MAX),
    ];
    for case in cases.iter() {
        assert_eq!(read_claims(&write_claims(*case)), Some(*case));
    }
}

#[test]
fn claims_in_any_other_shape_are_refused() {
    let refused: [&[u8]; 16] = [
        b"",
        b".",
        b"..",
        b"42",
        b"42.0",
        b"42.0.",
        b".0.3600",
        b"42..3600",
        b"42.0.3600.",
        b"42.0.3600.1",
        b"042.0.3600",
        b"42.+0.3600",
        b"42.0.3600 ",
        b"2147483648.0.3600",
        b"42.9223372036854775808.0",
        b"42.0.-9223372036854775809",
    ];
    for case in refused.iter() {
        assert_eq!(read_claims(case), None);
    }
}

#[test]
fn seal_appends_the_tag_in_hexadecimal() {
    assert_eq!(
        seal(b"42.0.3600".to_vec(), &[0x00, 0xab, 0x10, 0xff]),
        b"42.0.3600.00ab10ff".to_vec()
    );
    assert_eq!(seal(Vec::new(), &[]), b".".to_vec());
}

#[test]
fn unseal_splits_at_the_last_separator() {
    let sealed = b"42.0.3600.00ab10ff";
    let (claims, tag) = unseal(sealed).unwrap();
    assert_eq!(claims, b"42.0.3600");
    assert_eq!(tag, vec![0x00, 0xab, 0x10, 0xff]);

    let (claims, tag) = unseal(b".").unwrap();
    assert_eq!(claims, b"");
    assert_eq!(tag, Vec::<u8>::new());

    let (claims, tag) = unseal(b"a.b.c.").unwrap();
    assert_eq!(claims, b"a.b.c");
    assert_eq!(tag, Vec::<u8>::new());
}

#[test]
fn unseal_refuses_what_was_not_sealed() {
    let refused: [&[u8]; 6] = [b"", b"00ab", b"x.0", b"x.AB", b"x.abc", b"x.ab "];
    for case in refused.iter() {
        assert_eq!(unseal(case), None);
    }
}

#[test]
fn accept_reads_claims_under_the_right_tag_only() {
    assert_eq!(accept(b"42.0.3600", true, 0), Ok(AccountId(42)));
    assert_eq!(accept(b"42.0.3600", true, 3599), Ok(AccountId(42)));
    assert_eq!(accept(b"42.0.3600", true, 3600), Err(Error::Unauthorized));
    assert_eq!(accept(b"42.0.3600", true, -1), Err(Error::Unauthorized));
    assert_eq!(accept(b"42.0.3600", false, 0), Err(Error::Unauthorized));
    assert_eq!(accept(b"42.0.3600.", true, 0), Err(Error::Unauthorized));
    assert_eq!(accept(b"", true, 0), Err(Error::Unauthorized));
}

#[test]
fn claims_with_an_empty_window_are_never_accepted() {
    assert_eq!(accept(b"42.10.10", true, 10), Err(Error::Unauthorized));
    assert_eq!(accept(b"42.10.5", true, 7), Err(Error::Unauthorized));
}
