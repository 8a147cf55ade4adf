use redis_test_simple::json::Comparison;
use redis_test_simple::search_parser::{FilterCondition, FilterOperator, SearchParser};
use serde_json::Value;

fn document(text: &str) -> Value {
    serde_json::from_str(text).unwrap()
}

#[test]
fn test_parse_simple_equals() {
    let params = SearchParser::parse_search_params("name=John");
    assert_eq!(params.len(), 1);
    assert_eq!(params[0].field, "name");
    assert_eq!(params[0].operator, FilterOperator::Equals);
    assert_eq!(params[0].value, "John");
}

#[test]
fn test_parse_url_encoded_values() {
    let params = SearchParser::parse_search_params(
        "name=John%20Smith&description=Some%20text%20with%20spaces",
    );
    assert_eq!(params.len(), 2);
    assert_eq!(params[0].value, "John Smith");
    assert_eq!(params[1].value, "Some text with spaces");
}

#[test]
fn test_parse_special_characters() {
    let params = SearchParser::parse_search_params("query=hello%26world&tag=%23rust");
    assert_eq!(params.len(), 2);
    assert_eq!(params[0].value, "hello&world");
    assert_eq!(params[1].value, "#rust");
}

#[test]
fn test_parse_numeric_comparisons() {
    let params = SearchParser::parse_search_params("age_gt=20&price_lt=100");
    assert_eq!(params.len(), 2);
    assert_eq!(params[0].operator, FilterOperator::GreaterThan);
    assert_eq!(params[1].operator, FilterOperator::LessThan);
}

#[test]
fn test_matches_conditions() {
    let item = document("{\"name\": \"John Smith\", \"age\": 30, \"city\": \"New York\"}");

    let conditions = vec![
        FilterCondition {
            field: "age".to_string(),
            operator: FilterOperator::GreaterThan,
            value: "25".to_string(),
        },
        FilterCondition {
            field: "name".to_string(),
            operator: FilterOperator::Like,
            value: "john".to_string(),
        },
    ];

    assert!(SearchParser::matches_conditions(&item, &conditions));
}

#[test]
fn test_malformed_url_encoding() {
    let params = SearchParser::parse_search_params("name=%XX&valid=test");
    assert_eq!(params.len(), 1, "Should skip malformed URL encoded value");
    assert_eq!(params[0].field, "valid");
    assert_eq!(params[0].value, "test");
}

#[test]
fn test_complex_url_encoding() {
    let params = SearchParser::parse_search_params(
        "invalid=%XX&name=John%20Smith%20%26%20Co&bad=%Y&valid=test%20case",
    );
    assert_eq!(params.len(), 2, "Should only include valid encoded values");
    assert!(params
        .iter()
        .any(|p| p.field == "name" && p.value == "John Smith & Co"));
    assert!(params
        .iter()
        .any(|p| p.field == "valid" && p.value == "test case"));
}

#[test]
fn test_numeric_comparisons() {
    let item = document("{\"age\": 30, \"price\": 99.99}");

    let test_cases = vec![
        ("age_gt=25", true),
        ("age_lt=35", true),
        ("age_gte=30", true),
        ("age_lte=30", true),
        ("price_lt=100", true),
        ("price_gt=100", false),
    ];

    for (query, expected) in test_cases {
        let conditions = SearchParser::parse_search_params(query);
        assert_eq!(
            SearchParser::matches_conditions(&item, &conditions),
            expected,
            "Failed for query: {}",
            query
        );
    }
}

#[test]
fn test_like_operator() {
    let item = document("{\"name\": \"John Smith\", \"description\": \"Some long text here\"}");

    let test_cases = vec![
        ("name_like=john", true),
        ("name_like=smith", true),
        ("name_like=jane", false),
        ("description_like=long%20text", true),
        ("description_like=missing", false),
    ];

    for (query, expected) in test_cases {
        let conditions = SearchParser::parse_search_params(query);
        assert_eq!(
            SearchParser::matches_conditions(&item, &conditions),
            expected,
            "Failed for query: {}",
            query
        );
    }
}

#[test]
fn percent_encoding_validity() {
    assert!(SearchParser::is_valid_percent_encoding(""));
    assert!(SearchParser::is_valid_percent_encoding("plain"));
    assert!(SearchParser::is_valid_percent_encoding("%20"));
    assert!(SearchParser::is_valid_percent_encoding("a%2Fb%2fc"));
    assert!(!SearchParser::is_valid_percent_encoding("%"));
    assert!(!SearchParser::is_valid_percent_encoding("%2"));
    assert!(!SearchParser::is_valid_percent_encoding("%2G"));
    assert!(!SearchParser::is_valid_percent_encoding("%G2"));
    assert!(!SearchParser::is_valid_percent_encoding("abc%"));
    assert!(!SearchParser::is_valid_percent_encoding("%%20"));
}

#[test]
fn plus_and_percent_20_both_decode_to_space() {
    let params = SearchParser::parse_search_params("a=x+y&b=x%20y&c=x%2By");
    assert_eq!(params.len(), 3);
    assert_eq!(params[0].value, "x y");
    assert_eq!(params[1].value, "x y");
    // the decoded plus sign is replaced as well
    assert_eq!(params[2].value, "x y");
}

#[test]
fn percent_decoding_reads_utf8() {
    let params = SearchParser::parse_search_params("name=caf%C3%A9");
    assert_eq!(params.len(), 1);
    assert_eq!(params[0].value, "caf\u{e9}");
}

#[test]
fn bytes_that_are_not_utf8_drop_the_parameter() {
    let params = SearchParser::parse_search_params("name=%FF&city=Oslo");
    assert_eq!(params.len(), 1);
    assert_eq!(params[0].field, "city");
}

#[test]
fn a_bad_parameter_drops_only_itself() {
    let params = SearchParser::parse_search_params("a=1&b=%zz&c=3");
    assert_eq!(params.len(), 2);
    assert_eq!(params[0].field, "a");
    assert_eq!(params[0].value, "1");
    assert_eq!(params[1].field, "c");
    assert_eq!(params[1].value, "3");
}

#[test]
fn parameters_need_exactly_one_equals_sign() {
    assert_eq!(SearchParser::parse_search_params("").len(), 0);
    assert_eq!(SearchParser::parse_search_params("name").len(), 0);
    assert_eq!(SearchParser::parse_search_params("a=b=c").len(), 0);
    assert_eq!(SearchParser::parse_search_params("&&").len(), 0);
    let params = SearchParser::parse_search_params("name=");
    assert_eq!(params.len(), 1);
    assert_eq!(params[0].field, "name");
    assert_eq!(params[0].value, "");
    let params = SearchParser::parse_search_params("=x");
    assert_eq!(params.len(), 1);
    assert_eq!(params[0].field, "");
    assert_eq!(params[0].value, "x");
}

#[test]
fn every_operator_suffix_is_read() {
    let cases = vec![
        ("f=1", FilterOperator::Equals),
        ("f_gt=1", FilterOperator::GreaterThan),
        ("f_lt=1", FilterOperator::LessThan),
        ("f_gte=1", FilterOperator::GreaterThanOrEqual),
        ("f_lte=1", FilterOperator::LessThanOrEqual),
        ("f_like=1", FilterOperator::Like),
        ("f_ne=1", FilterOperator::NotEquals),
    ];
    for (query, operator) in cases {
        let params = SearchParser::parse_search_params(query);
        assert_eq!(params.len(), 1, "query {}", query);
        assert_eq!(params[0].field, "f");
        assert_eq!(params[0].operator, operator);
        assert_eq!(params[0].value, "1");
    }
}

#[test]
fn a_field_with_an_underscore_is_dropped() {
    assert_eq!(SearchParser::parse_search_params("price_total=5").len(), 0);
    assert_eq!(SearchParser::parse_search_params("price_total_gt=5").len(), 0);
    assert_eq!(SearchParser::parse_search_params("price_=5").len(), 0);
    assert_eq!(SearchParser::parse_search_params("price_GT=5").len(), 0);
}

#[test]
fn parse_field_and_operator_directly() {
    let condition = SearchParser::parse_field_and_operator("age_gte", "18").unwrap();
    assert_eq!(condition.field, "age");
    assert_eq!(condition.operator, FilterOperator::GreaterThanOrEqual);
    assert_eq!(condition.value, "18");
    let condition = SearchParser::parse_field_and_operator("_ne", "x").unwrap();
    assert_eq!(condition.field, "");
    assert_eq!(condition.operator, FilterOperator::NotEquals);
    assert!(SearchParser::parse_field_and_operator("age_between", "18").is_none());
}

#[test]
fn a_condition_on_an_absent_field_is_false() {
    let item = document("{\"name\": \"John\"}");
    for query in ["age=30", "age_ne=30", "age_gt=1", "age_like=3"] {
        let conditions = SearchParser::parse_search_params(query);
        assert_eq!(conditions.len(), 1);
        assert!(!SearchParser::matches_conditions(&item, &conditions), "query {}", query);
    }
}

#[test]
fn no_condition_matches_everything() {
    assert!(SearchParser::matches_conditions(&document("{}"), &[]));
    assert!(SearchParser::matches_conditions(&document("17"), &[]));
}

#[test]
fn only_objects_have_fields() {
    let conditions = SearchParser::parse_search_params("0=a");
    assert_eq!(conditions.len(), 1);
    assert!(!SearchParser::matches_conditions(&document("[\"a\"]"), &conditions));
    assert!(!SearchParser::matches_conditions(&document("\"a\""), &conditions));
}

#[test]
fn all_conditions_have_to_hold() {
    let item = document("{\"name\": \"John\", \"age\": 30}");
    let both = SearchParser::parse_search_params("name=John&age_gt=28");
    assert!(SearchParser::matches_conditions(&item, &both));
    let one = SearchParser::parse_search_params("name=John&age_gt=30");
    assert!(!SearchParser::matches_conditions(&item, &one));
}

#[test]
fn equality_with_plain_text_matches_strings_only() {
    let item = document("{\"name\": \"John\", \"code\": 30, \"flag\": true, \"tag\": \"30\"}");
    assert!(SearchParser::values_equal(item.get("name").unwrap(), "John"));
    assert!(!SearchParser::values_equal(item.get("name").unwrap(), "john"));
    assert!(!SearchParser::values_equal(item.get("code").unwrap(), "John"));
    // a literal that is JSON is compared as a document
    assert!(SearchParser::values_equal(item.get("code").unwrap(), "30"));
    assert!(!SearchParser::values_equal(item.get("tag").unwrap(), "30"));
    assert!(SearchParser::values_equal(item.get("tag").unwrap(), "\"30\""));
    assert!(SearchParser::values_equal(item.get("flag").unwrap(), "true"));
    assert!(!SearchParser::values_equal(item.get("code").unwrap(), "30.0"));
}

#[test]
fn not_equals_negates_equality() {
    let item = document("{\"name\": \"John\", \"age\": 30}");
    let cases = vec![("name_ne=Jane", true), ("name_ne=John", false), ("age_ne=30", false), ("age_ne=31", true)];
    for (query, expected) in cases {
        let conditions = SearchParser::parse_search_params(query);
        assert_eq!(SearchParser::matches_conditions(&item, &conditions), expected, "query {}", query);
    }
}

#[test]
fn ordering_needs_numbers_on_both_sides() {
    let item = document("{\"name\": \"John\", \"age\": 30, \"text\": \"40\"}");
    let cases = vec![
        ("age_gt=abc", false),
        ("age_lt=abc", false),
        ("name_gt=1", false),
        ("text_gt=1", false),
        ("age_gt=29.5", true),
        ("age_lte=3e1", true),
        ("age_lt=inf", true),
        ("age_gte=NaN", false),
        ("age_lte=NaN", false),
        ("age_gt=30", false),
        ("age_lt=30", false),
    ];
    for (query, expected) in cases {
        let conditions = SearchParser::parse_search_params(query);
        assert_eq!(conditions.len(), 1, "query {}", query);
        assert_eq!(SearchParser::matches_conditions(&item, &conditions), expected, "query {}", query);
    }
}

#[test]
fn like_folds_case_on_both_sides() {
    let item = document("{\"name\": \"John SMITH\", \"age\": 30}");
    assert!(SearchParser::values_like(item.get("name").unwrap(), "hn sm"));
    assert!(SearchParser::values_like(item.get("name").unwrap(), "JOHN"));
    assert!(SearchParser::values_like(item.get("name").unwrap(), ""));
    assert!(!SearchParser::values_like(item.get("name").unwrap(), "smyth"));
    assert!(!SearchParser::values_like(item.get("age").unwrap(), "3"));
}

#[test]
fn operators_read_the_order() {
    let table = vec![
        (FilterOperator::GreaterThan, [false, false, true, false]),
        (FilterOperator::LessThan, [true, false, false, false]),
        (FilterOperator::GreaterThanOrEqual, [false, true, true, false]),
        (FilterOperator::LessThanOrEqual, [true, true, false, false]),
        (FilterOperator::Equals, [false, false, false, false]),
        (FilterOperator::NotEquals, [false, false, false, false]),
        (FilterOperator::Like, [false, false, false, false]),
    ];
    for (operator, expected) in table {
        let orders = [Some(Comparison::Less), Some(Comparison::Equal), Some(Comparison::Greater), None];
        for (order, want) in orders.into_iter().zip(expected) {
            assert_eq!(SearchParser::order_satisfies(order, &operator), want);
        }
    }
}

#[test]
fn compare_values_dispatches_on_the_operator() {
    let item = document("{\"age\": 30, \"name\": \"John\"}");
    let age = item.get("age").unwrap();
    let name = item.get("name").unwrap();
    assert!(SearchParser::compare_values(age, "30", &FilterOperator::Equals));
    assert!(SearchParser::compare_values(age, "31", &FilterOperator::NotEquals));
    assert!(SearchParser::compare_values(age, "29", &FilterOperator::GreaterThan));
    assert!(SearchParser::compare_values(age, "31", &FilterOperator::LessThan));
    assert!(SearchParser::compare_values(age, "30", &FilterOperator::GreaterThanOrEqual));
    assert!(SearchParser::compare_values(age, "30", &FilterOperator::LessThanOrEqual));
    assert!(SearchParser::compare_values(name, "OH", &FilterOperator::Like));
    assert!(SearchParser::compare_numeric(age, "29", &FilterOperator::GreaterThan));
    assert!(!SearchParser::compare_numeric(age, "30", &FilterOperator::Equals));
}
