use rest::sentence::AssertionSentence;

#[test]
fn test_assertion_sentence_new() {
    let sentence = AssertionSentence::new("be", "positive");

    assert_eq!(sentence.subject, "");
    assert_eq!(sentence.verb, "be");
    assert_eq!(sentence.object, "positive");
    assert_eq!(sentence.qualifiers.len(), 0);
    assert_eq!(sentence.negated, false);
}

#[test]
fn test_with_negation() {
    let sentence = AssertionSentence::new("be", "positive").with_negation(true);

    assert_eq!(sentence.negated, true);

    // Test chaining and toggle
    let toggled_sentence = sentence.with_negation(false);

    assert_eq!(toggled_sentence.negated, false);
}

#[test]
fn test_with_qualifier() {
    let sentence = AssertionSentence::new("be", "in range").with_qualifier("when rounded");

    assert_eq!(sentence.qualifiers, vec!["when rounded"]);

    // Test multiple qualifiers
    let updated_sentence = sentence.with_qualifier("with tolerance");

    assert_eq!(updated_sentence.qualifiers, vec!["when rounded", "with tolerance"]);
}

#[test]
fn test_format_basic() {
    let sentence = AssertionSentence::new("be", "positive");

    assert_eq!(sentence.format(), "be positive");
}

#[test]
fn test_format_with_negation() {
    let sentence = AssertionSentence::new("be", "positive").with_negation(true);

    assert_eq!(sentence.format(), "not be positive");
}

#[test]
fn test_format_with_qualifiers() {
    let sentence = AssertionSentence::new("be", "in range")
        .with_qualifier("when rounded")
        .with_qualifier("with tolerance");

    assert_eq!(sentence.format(), "be in range when rounded with tolerance");
}

#[test]
fn test_format_with_negation_and_qualifiers() {
    let sentence =
        AssertionSentence::new("be", "in range").with_negation(true).with_qualifier("when rounded");

    assert_eq!(sentence.format(), "not be in range when rounded");
}

#[test]
fn test_format_grammatical() {
    let sentence = AssertionSentence::new("be", "positive");

    assert_eq!(sentence.format_grammatical(), "be positive");

    let negated = sentence.clone().with_negation(true);

    // The "not" should be after the verb for grammatical correctness
    assert_eq!(negated.format_grammatical(), "be not positive");
}

#[test]
fn test_format_grammatical_with_qualifiers() {
    let sentence =
        AssertionSentence::new("be", "in range").with_negation(true).with_qualifier("when rounded");

    assert_eq!(sentence.format_grammatical(), "be not in range when rounded");
}

#[test]
fn test_is_plural_subject() {
    // Test singular subjects
    assert_eq!(AssertionSentence::is_plural_subject("value"), false);
    assert_eq!(AssertionSentence::is_plural_subject("number"), false);
    assert_eq!(AssertionSentence::is_plural_subject("count"), false);
    assert_eq!(AssertionSentence::is_plural_subject("item"), false);

    // Test singular subjects that end in 's'
    assert_eq!(AssertionSentence::is_plural_subject("status"), false);
    assert_eq!(AssertionSentence::is_plural_subject("address"), false);
    assert_eq!(AssertionSentence::is_plural_subject("process"), false);
    assert_eq!(AssertionSentence::is_plural_subject("bus"), false);

    // Test plural subjects
    assert_eq!(AssertionSentence::is_plural_subject("values"), true);
    assert_eq!(AssertionSentence::is_plural_subject("numbers"), true);
    assert_eq!(AssertionSentence::is_plural_subject("items"), true);
    assert_eq!(AssertionSentence::is_plural_subject("lists"), true);
    assert_eq!(AssertionSentence::is_plural_subject("entries"), true);
    assert_eq!(AssertionSentence::is_plural_subject("data"), true);

    // Test snake_case compound variable names (checks last segment)
    assert_eq!(AssertionSentence::is_plural_subject("my_values"), true);
    assert_eq!(AssertionSentence::is_plural_subject("test_items"), true);
    assert_eq!(AssertionSentence::is_plural_subject("user_status"), false);
    assert_eq!(AssertionSentence::is_plural_subject("http_address"), false);
}

#[test]
fn test_extract_base_name() {
    // Test reference extraction
    assert_eq!(AssertionSentence::extract_base_name("&value"), "value");

    // Test method call extraction
    assert_eq!(AssertionSentence::extract_base_name("values.len()"), "values");

    // Test array indexing extraction
    assert_eq!(AssertionSentence::extract_base_name("items[0]"), "items");

    // Test combined cases
    assert_eq!(AssertionSentence::extract_base_name("&items[0]"), "items");
    assert_eq!(AssertionSentence::extract_base_name("&values.len()"), "values");
}

#[test]
fn test_conjugate_verb() {
    // Create a test sentence
    let sentence = AssertionSentence::new("", "");

    // Test special case verbs
    let special_verbs = [
        ("be", "is", "are"),
        ("have", "has", "have"),
        ("contain", "contains", "contain"),
        ("start with", "starts with", "start with"),
        ("end with", "ends with", "end with"),
    ];

    for (base, singular, plural) in special_verbs.iter() {
        let mut test_sentence = sentence.clone();
        test_sentence.verb = base.to_string();

        assert_eq!(test_sentence.conjugate_verb(false), *singular);
        assert_eq!(test_sentence.conjugate_verb(true), *plural);
    }

    // Test regular verbs
    let regular_verbs = [("match", "matches"), ("exceed", "exceeds"), ("include", "includes")];

    for (base, singular) in regular_verbs.iter() {
        let mut test_sentence = sentence.clone();
        test_sentence.verb = base.to_string();

        assert_eq!(test_sentence.conjugate_verb(false), *singular);
        assert_eq!(test_sentence.conjugate_verb(true), *base);
    }

    // Test verbs with special spelling rules
    let special_spelling = [
        // Verbs ending in s, x, z, sh, ch get 'es'
        ("pass", "passes"),
        ("fix", "fixes"),
        ("buzz", "buzzes"),
        ("wash", "washes"),
        ("match", "matches"),
        // Verbs ending in y (not preceded by a vowel) get 'ies'
        ("try", "tries"),
        ("fly", "flies"),
        ("comply", "complies"),
        // Verbs ending in y preceded by a vowel just get 's'
        ("play", "plays"),
        ("enjoy", "enjoys"),
    ];

    for (base, singular) in special_spelling.iter() {
        let mut test_sentence = sentence.clone();
        test_sentence.verb = base.to_string();

        assert_eq!(test_sentence.conjugate_verb(false), *singular);
        assert_eq!(test_sentence.conjugate_verb(true), *base);
    }
}

#[test]
fn test_format_with_conjugation() {
    // Test singular subject conjugation
    let sentence = AssertionSentence::new("be", "positive");
    assert_eq!(sentence.format_with_conjugation("value"), "is positive");

    // Test plural subject conjugation
    assert_eq!(sentence.format_with_conjugation("values"), "are positive");

    // Test with negation
    let negated = sentence.clone().with_negation(true);
    assert_eq!(negated.format_with_conjugation("value"), "is not positive");
    assert_eq!(negated.format_with_conjugation("values"), "are not positive");

    // Test with qualifiers
    let qualified = sentence.clone().with_qualifier("always");
    assert_eq!(qualified.format_with_conjugation("value"), "is positive always");

    // Test different verbs
    let contain_sentence = AssertionSentence::new("contain", "element");
    assert_eq!(contain_sentence.format_with_conjugation("list"), "contains element");
    assert_eq!(contain_sentence.format_with_conjugation("lists"), "contain element");
}

#[test]
fn test_display_trait() {
    let sentence = AssertionSentence::new("be", "positive");
    assert_eq!(sentence.to_string(), "be positive");

    let negated = sentence.clone().with_negation(true);
    assert_eq!(negated.to_string(), "not be positive");
}

#[test]
fn conjugation_for_a_given_number() {
    let sentence = AssertionSentence::new("have", "length 3").with_qualifier("at least");
    assert_eq!(sentence.format_conjugated(false), "has length 3 at least");
    assert_eq!(sentence.format_conjugated(true), "have length 3 at least");

    let negated = AssertionSentence::new("deny", "entry").with_negation(true);
    assert_eq!(negated.format_conjugated(false), "denies not entry");
    assert_eq!(negated.format_conjugated(true), "deny not entry");

    // A verb of one letter
    let short = AssertionSentence::new("y", "it");
    assert_eq!(short.conjugate_verb(false), "ies");
}

#[test]
fn plural_is_told_from_the_singular_found() {
    assert_eq!(AssertionSentence::differs_from_singular("values", "value"), true);
    assert_eq!(AssertionSentence::differs_from_singular("status", "status"), false);
    assert_eq!(AssertionSentence::differs_from_singular("", ""), false);
}

#[test]
fn number_is_judged_by_the_last_word_in_lowercase() {
    assert_eq!(AssertionSentence::is_plural_subject("&my_ITEMS[0]"), true);
    assert_eq!(AssertionSentence::is_plural_subject("items.first()"), true);
    assert_eq!(AssertionSentence::is_plural_subject("items_"), false);
    assert_eq!(AssertionSentence::is_plural_subject(""), false);
}

#[test]
fn base_name_of_plain_and_nested_expressions() {
    assert_eq!(AssertionSentence::extract_base_name("value"), "value");
    assert_eq!(AssertionSentence::extract_base_name("&&value"), "value");
    assert_eq!(AssertionSentence::extract_base_name("a[0].b"), "a[0]");
    assert_eq!(AssertionSentence::extract_base_name("a.b[0]"), "a");
    assert_eq!(AssertionSentence::extract_base_name(".len()"), "");
    assert_eq!(AssertionSentence::extract_base_name(""), "");
}

#[test]
fn sentence_clone_is_equal_field_by_field() {
    let sentence = AssertionSentence::new("be", "in range")
        .with_negation(true)
        .with_qualifier("when rounded");
    let copy = sentence.clone();
    assert_eq!(copy.subject, sentence.subject);
    assert_eq!(copy.verb, sentence.verb);
    assert_eq!(copy.object, sentence.object);
    assert_eq!(copy.qualifiers, sentence.qualifiers);
    assert_eq!(copy.negated, sentence.negated);
}
