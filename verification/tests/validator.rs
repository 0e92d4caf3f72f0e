use idcheck::error::ValidationError;
use idcheck::validator::{decide, validate, validate_chars};

#[test]
fn token_without_symbols_scores_152() {
    assert_eq!(validate("abcdefghijk"), Ok((false, 152)));
}

#[test]
fn capital_alphabet_holds_a_large_numeral() {
    assert_eq!(validate("ABCDEFGHIJK"), Err(ValidationError::NumeralOverflow));
}

#[test]
fn three_tens_merge_into_thirty() {
    assert_eq!(validate("XXXabcdefgh"), Err(ValidationError::NumeralOverflow));
}

#[test]
fn short_token_is_refused_for_its_length() {
    assert_eq!(validate("abcdefghij"), Err(ValidationError::InvalidLength));
}

#[test]
fn long_token_is_refused_for_its_length() {
    assert_eq!(validate("abcdefghijkl"), Err(ValidationError::InvalidLength));
}

#[test]
fn empty_token_is_refused_for_its_length() {
    assert_eq!(validate(""), Err(ValidationError::InvalidLength));
}

#[test]
fn length_is_checked_before_the_numerals() {
    assert_eq!(validate("MMM"), Err(ValidationError::InvalidLength));
    assert_eq!(validate("OgOgOgOgOgOgOg"), Err(ValidationError::InvalidLength));
}

#[test]
fn length_counts_characters_not_bytes() {
    assert_eq!(validate("ééééééééééé"), Ok((false, 152)));
    assert_eq!(validate("éééééé"), Err(ValidationError::InvalidLength));
}

#[test]
fn validation_is_deterministic() {
    let tokens: [&str; 6] = [
        "abcdefghijk",
        "VaVIIbcdefg",
        "Ogaaaaaaaaa",
        "OgaaaOgaaaa",
        "dQw4w9WgXcQ",
        "short",
    ];
    for token in tokens {
        assert_eq!(validate(token), validate(token));
        let copy: String = token.to_string();
        assert_eq!(validate(copy.as_str()), validate(token));
    }
}

#[test]
fn each_large_numeral_is_refused() {
    assert_eq!(validate("aaaaaaaaaLa"), Err(ValidationError::NumeralOverflow));
    assert_eq!(validate("Caaaaaaaaaa"), Err(ValidationError::NumeralOverflow));
    assert_eq!(validate("aaaaaDaaaaa"), Err(ValidationError::NumeralOverflow));
    assert_eq!(validate("aaaaaaaaaaM"), Err(ValidationError::NumeralOverflow));
}

#[test]
fn large_numeral_wins_over_a_passing_rest() {
    assert_eq!(validate("Vabcdefghij"), Ok((false, 152)));
    assert_eq!(validate("VabcdefghiL"), Err(ValidationError::NumeralOverflow));
}

#[test]
fn large_numeral_wins_over_weight_overflow() {
    assert_eq!(validate("OgOgaaaaaaa"), Err(ValidationError::WeightOverflow));
    assert_eq!(validate("OgOgaaaaaaM"), Err(ValidationError::NumeralOverflow));
}

#[test]
fn product_seven_adds_23() {
    assert_eq!(validate("VIIabcdefgh"), Ok((false, 152)));
    assert_eq!(validate("VIIaHeaaaaa"), Ok((false, 154)));
}

#[test]
fn product_five_adds_129() {
    assert_eq!(validate("Vabcdefghij"), Ok((false, 152)));
    assert_eq!(validate("aVaaaaaaaaa"), Ok((false, 152)));
    assert_eq!(validate("aaaaaaaaaaV"), Ok((false, 152)));
    assert_eq!(validate("VHaaaaaaaaa"), Ok((false, 153)));
    assert_eq!(validate("VaaaaaaaaaO"), Ok((false, 160)));
}

#[test]
fn product_thirty_five_adds_nothing() {
    assert_eq!(validate("VaVIIbcdefg"), Ok((false, 152)));
    assert_eq!(validate("VaVIIaaaaHe"), Ok((false, 154)));
    assert_eq!(validate("XXXVaaaaaaa"), Ok((false, 23)));
}

#[test]
fn product_one_below_49_adds_152() {
    assert_eq!(validate("Heabcdefghi"), Ok((false, 154)));
    assert_eq!(validate("aaaaaaaaaaH"), Ok((false, 153)));
    assert_eq!(validate("Yaaaaaaaaaa"), Ok((false, 191)));
    assert_eq!(validate("KrNaaaaaaaa"), Ok((false, 199)));
    assert_eq!(validate("TiFeaaaaaaa"), Ok((false, 200)));
}

#[test]
fn product_one_from_49_sets_the_flag_and_adds_23() {
    assert_eq!(validate("Inaaaaaaaaa"), Ok((true, 72)));
    assert_eq!(validate("Snaaaaaaaaa"), Ok((true, 73)));
    assert_eq!(validate("Ogaaaaaaaaa"), Ok((true, 141)));
    assert_eq!(validate("IaIaaaaaaaa"), Ok((true, 129)));
}

#[test]
fn adjusted_total_of_200_passes_and_201_fails() {
    assert_eq!(validate("OgPraaaaaaa"), Ok((true, 200)));
    assert_eq!(validate("OgNdaaaaaaa"), Err(ValidationError::WeightOverflow));
}

#[test]
fn unrecognised_products_are_refused() {
    assert_eq!(validate("VIaaaaaaaaa"), Err(ValidationError::NumeralOverflow));
    assert_eq!(validate("XXVaaaaaaaa"), Err(ValidationError::NumeralOverflow));
    assert_eq!(validate("dQw4w9WgXcQ"), Err(ValidationError::NumeralOverflow));
    assert_eq!(validate("VXVXVXVXVXV"), Err(ValidationError::NumeralOverflow));
}

#[test]
fn weight_overflow_after_the_adjustment() {
    assert_eq!(validate("IVaaaaaaaaa"), Err(ValidationError::WeightOverflow));
    assert_eq!(validate("IIIIIIIaaaa"), Err(ValidationError::WeightOverflow));
    assert_eq!(validate("UUaaaaaaaaa"), Err(ValidationError::WeightOverflow));
    assert_eq!(validate("OgaaaOgaaaa"), Err(ValidationError::WeightOverflow));
}

#[test]
fn symbols_are_case_sensitive() {
    assert_eq!(validate("heaaaaaaaaa"), Ok((false, 152)));
    assert_eq!(validate("vaaaaaaaaaa"), Ok((false, 152)));
    assert_eq!(validate("HEaaaaaaaaa"), Ok((false, 153)));
}

#[test]
fn validate_chars_agrees_with_validate() {
    let tokens: [&str; 5] = ["abcdefghijk", "VaVIIbcdefg", "OgNdaaaaaaa", "XXXabcdefgh", "abc"];
    for token in tokens {
        let chars: Vec<char> = token.chars().collect();
        assert_eq!(validate_chars(&chars), validate(token));
    }
}

#[test]
fn decide_applies_each_special_case() {
    assert_eq!(decide(35, 152), Ok((false, 152)));
    assert_eq!(decide(35, 200), Ok((false, 200)));
    assert_eq!(decide(35, 201), Err(ValidationError::WeightOverflow));
    assert_eq!(decide(7, 129), Ok((false, 152)));
    assert_eq!(decide(7, 177), Ok((false, 200)));
    assert_eq!(decide(7, 178), Err(ValidationError::WeightOverflow));
    assert_eq!(decide(5, 23), Ok((false, 152)));
    assert_eq!(decide(5, 71), Ok((false, 200)));
    assert_eq!(decide(5, 72), Err(ValidationError::WeightOverflow));
    assert_eq!(decide(1, 0), Ok((false, 152)));
    assert_eq!(decide(1, 48), Ok((false, 200)));
    assert_eq!(decide(1, 49), Ok((true, 72)));
    assert_eq!(decide(1, 177), Ok((true, 200)));
    assert_eq!(decide(1, 178), Err(ValidationError::WeightOverflow));
}

#[test]
fn decide_refuses_other_products() {
    assert_eq!(decide(0, 0), Err(ValidationError::NumeralOverflow));
    assert_eq!(decide(2, 0), Err(ValidationError::NumeralOverflow));
    assert_eq!(decide(6, 10), Err(ValidationError::NumeralOverflow));
    assert_eq!(decide(30, 0), Err(ValidationError::NumeralOverflow));
    assert_eq!(decide(36, 0), Err(ValidationError::NumeralOverflow));
    assert_eq!(decide(u32::MAX, 0), Err(ValidationError::NumeralOverflow));
    assert_eq!(decide(30, 5000), Err(ValidationError::NumeralOverflow));
}

#[test]
fn decide_takes_the_largest_weights() {
    assert_eq!(decide(1, u32::MAX), Err(ValidationError::WeightOverflow));
    assert_eq!(decide(5, u32::MAX), Err(ValidationError::WeightOverflow));
    assert_eq!(decide(35, u32::MAX), Err(ValidationError::WeightOverflow));
}

#[test]
fn error_messages() {
    assert_eq!(ValidationError::InvalidLength.message(), "Video ID was not the right length.");
    assert_eq!(ValidationError::NumeralOverflow.message(), "Roman numerals exceeded limits.");
    assert_eq!(
        ValidationError::WeightOverflow.message(),
        "Accumulated attomic number exceeded limits."
    );
}
