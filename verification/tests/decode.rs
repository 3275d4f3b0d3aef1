use ddg::icon::u64_or_empty_string;
use ddg::{DecodeError, Icon, Json, Member, RelatedTopic, Response, Topic, TopicResult, Type};

const APPLE: &str = r#"{
    "Abstract": "",
    "AbstractSource": "Wikipedia",
    "AbstractText": "",
    "AbstractURL": "https://en.wikipedia.org/wiki/Apple_(disambiguation)",
    "Answer": "",
    "AnswerType": "",
    "Definition": "",
    "DefinitionSource": "",
    "DefinitionURL": "",
    "Entity": "",
    "Heading": "Apple",
    "Image": "",
    "ImageHeight": 0,
    "ImageIsLogo": 0,
    "ImageWidth": 0,
    "Infobox": "",
    "Redirect": "",
    "RelatedTopics": [
        {
            "FirstURL": "https://duckduckgo.com/Apple",
            "Icon": {"Height": "", "URL": "/i/apple.png", "Width": ""},
            "Result": "<a href=\"https://duckduckgo.com/Apple\">Apple</a> A fruit.",
            "Text": "Apple A fruit."
        },
        {
            "Result": "<a href=\"https://duckduckgo.com/Apple_Inc.\">Apple Inc.</a> A company.",
            "Icon": {"Width": 16, "Height": 16, "URL": "/i/inc.png"},
            "Text": "Apple Inc. A company.",
            "FirstURL": "https://duckduckgo.com/Apple_Inc."
        },
        {
            "Name": "Botany",
            "Topics": [
                {
                    "FirstURL": "https://duckduckgo.com/Malus",
                    "Icon": {"Height": "", "URL": "", "Width": ""},
                    "Result": "<a href=\"https://duckduckgo.com/Malus\">Malus</a>",
                    "Text": "Malus"
                }
            ]
        }
    ],
    "Results": [
        {
            "FirstURL": "https://apple.example",
            "Icon": {"Height": 16, "URL": "/i/site.png", "Width": 16},
            "Result": "<a href=\"https://apple.example\">Official site</a>",
            "Text": "Official site"
        }
    ],
    "Type": "D",
    "meta": {"id": "wikipedia_fathead", "tab": "About"}
}"#;

fn member(key: &str, value: Json) -> Member {
    Member { key: key.to_string(), value }
}

fn text(value: &str) -> Json {
    Json::Str(value.to_string())
}

fn blank_icon() -> Json {
    Json::Object(vec![member("Height", text("")), member("URL", text("")), member("Width", text(""))])
}

fn link_members() -> Vec<Member> {
    vec![
        member("FirstURL", text("https://a")),
        member("Icon", blank_icon()),
        member("Result", text("<a>t</a>")),
        member("Text", text("t")),
    ]
}

fn link() -> TopicResult {
    TopicResult {
        first_url: "https://a".to_string(),
        icon: Icon { height: 0, url: String::new(), width: 0 },
        result: "<a>t</a>".to_string(),
        text: "t".to_string(),
    }
}

fn permutations(n: usize) -> Vec<Vec<usize>> {
    if n == 0 {
        return vec![vec![]];
    }
    let mut all = Vec::new();
    for shorter in permutations(n - 1) {
        for at in 0..n {
            let mut longer = shorter.clone();
            longer.insert(at, n - 1);
            all.push(longer);
        }
    }
    all
}

fn nested(levels: usize) -> Json {
    let mut value = Json::Object(link_members());
    for level in 0..levels {
        value = Json::Object(vec![
            member("Name", text(&format!("level {}", level))),
            member("Topics", Json::Array(vec![value])),
        ]);
    }
    value
}

#[test]
fn is_valid_json() {
    let actual_json: Response = Response::from_str(APPLE, 32).unwrap();

    assert_eq!(actual_json.heading, "Apple");
}

#[test]
fn is_valid_response() {
    let actual_json: Response = Response::from_str(APPLE, 32).unwrap();

    assert_eq!(actual_json.heading, "Apple");
}

#[test]
fn response_fields_map_one_to_one() {
    let response = Response::from_str(APPLE, 32).unwrap();
    assert_eq!(response.abstract_html, "");
    assert_eq!(response.abstract_source, "Wikipedia");
    assert_eq!(response.abstract_url, "https://en.wikipedia.org/wiki/Apple_(disambiguation)");
    assert_eq!(response.response_type, Type::Disambiguation);
    assert_eq!(response.redirect, "");
    assert_eq!(response.related_topics.len(), 3);
    assert_eq!(
        response.related_topics[1],
        RelatedTopic::TopicResult(TopicResult {
            first_url: "https://duckduckgo.com/Apple_Inc.".to_string(),
            icon: Icon { height: 16, url: "/i/inc.png".to_string(), width: 16 },
            result: "<a href=\"https://duckduckgo.com/Apple_Inc.\">Apple Inc.</a> A company."
                .to_string(),
            text: "Apple Inc. A company.".to_string(),
        })
    );
    match &response.related_topics[2] {
        RelatedTopic::Topic(topic) => {
            assert_eq!(topic.name, "Botany");
            assert_eq!(topic.topics.len(), 1);
        }
        other => panic!("expected a category, got {:?}", other),
    }
    assert_eq!(
        response.results,
        vec![TopicResult {
            first_url: "https://apple.example".to_string(),
            icon: Icon { height: 16, url: "/i/site.png".to_string(), width: 16 },
            result: "<a href=\"https://apple.example\">Official site</a>".to_string(),
            text: "Official site".to_string(),
        }]
    );
}

#[test]
fn every_order_of_the_link_keys_gives_the_same_link() {
    let parts = [
        r#""FirstURL":"https://a""#,
        r#""Icon":{"Height":"","URL":"","Width":""}"#,
        r#""Result":"<a>t</a>""#,
        r#""Text":"t""#,
    ];
    let orders = permutations(4);
    assert_eq!(orders.len(), 24);
    for order in orders {
        let body: Vec<&str> = order.iter().map(|&i| parts[i]).collect();
        let document = format!("{{{}}}", body.join(","));
        assert_eq!(
            RelatedTopic::from_str(&document, 0),
            Ok(RelatedTopic::TopicResult(link())),
            "{}",
            document
        );
        let members: Vec<Member> = order.iter().map(|&i| link_members()[i].clone()).collect();
        assert_eq!(
            RelatedTopic::from_json(&Json::Object(members), 0),
            Ok(RelatedTopic::TopicResult(link()))
        );
    }
}

#[test]
fn both_orders_of_the_category_keys_give_the_same_category() {
    let expected = Ok(RelatedTopic::Topic(Topic { name: "Companies".to_string(), topics: vec![] }));
    assert_eq!(RelatedTopic::from_str(r#"{"Name":"Companies","Topics":[]}"#, 1), expected);
    assert_eq!(RelatedTopic::from_str(r#"{"Topics":[],"Name":"Companies"}"#, 1), expected);
}

#[test]
fn height_is_a_number_or_the_empty_string() {
    let icon = Icon::from_json(&Json::parse(r#"{"Height":"","URL":"u","Width":""}"#).unwrap());
    assert_eq!(icon, Ok(Icon { height: 0, url: "u".to_string(), width: 0 }));
    let icon = Icon::from_json(&Json::parse(r#"{"Height":42,"URL":"u","Width":7}"#).unwrap());
    assert_eq!(icon, Ok(Icon { height: 42, url: "u".to_string(), width: 7 }));
    let icon = Icon::from_json(&Json::parse(r#"{"Height":"7","URL":"u","Width":""}"#).unwrap());
    assert_eq!(icon, Err(DecodeError::InvalidNumericField(text("7"))));
}

#[test]
fn coercer_takes_numbers_and_the_empty_string_only() {
    assert_eq!(u64_or_empty_string(&Json::Number(0)), Ok(0));
    assert_eq!(u64_or_empty_string(&Json::Number(u64::MAX)), Ok(u64::MAX));
    assert_eq!(u64_or_empty_string(&text("")), Ok(0));
    for other in [
        text(" "),
        text("0"),
        Json::Null,
        Json::Bool(true),
        Json::Decimal("-1".to_string()),
        Json::Array(vec![]),
        Json::Object(vec![]),
    ] {
        assert_eq!(
            u64_or_empty_string(&other),
            Err(DecodeError::InvalidNumericField(other.clone()))
        );
    }
}

#[test]
fn an_unknown_key_is_fatal() {
    assert_eq!(
        RelatedTopic::from_str(r#"{"Bogus":1}"#, 3),
        Err(DecodeError::UnknownKey("Bogus".to_string()))
    );
    let mut members = link_members();
    members.push(member("Bogus", Json::Number(1)));
    assert_eq!(
        RelatedTopic::from_json(&Json::Object(members), 3),
        Err(DecodeError::UnknownKey("Bogus".to_string()))
    );
    assert_eq!(
        RelatedTopic::from_str(r#"{"Name":"n","Topics":[],"firsturl":"x"}"#, 3),
        Err(DecodeError::UnknownKey("firsturl".to_string()))
    );
}

#[test]
fn the_first_member_at_fault_gives_the_error() {
    let document = r#"{"Icon":{"Height":"7","URL":"","Width":""},"Bogus":1}"#;
    assert_eq!(
        RelatedTopic::from_str(document, 3),
        Err(DecodeError::InvalidNumericField(text("7")))
    );
    let document = r#"{"Bogus":1,"Icon":{"Height":"7","URL":"","Width":""}}"#;
    assert_eq!(
        RelatedTopic::from_str(document, 3),
        Err(DecodeError::UnknownKey("Bogus".to_string()))
    );
}

#[test]
fn an_empty_list_of_related_topics_is_no_error() {
    let start = APPLE.find("\"RelatedTopics\": [").unwrap();
    let end = APPLE.find("\"Results\"").unwrap();
    let document = format!("{}\"RelatedTopics\": [],\n    {}", &APPLE[..start], &APPLE[end..]);
    let response = Response::from_str(&document, 32).unwrap();
    assert_eq!(response.related_topics, Vec::<RelatedTopic>::new());
    assert_eq!(response.heading, "Apple");
}

#[test]
fn a_category_keeps_its_entries_in_order() {
    let document = r#"{"Name":"Companies","Topics":[{"FirstURL":"https://a","Icon":{"Height":"","URL":"","Width":""},"Result":"<a>t</a>","Text":"t"}]}"#;
    assert_eq!(
        RelatedTopic::from_str(document, 1),
        Ok(RelatedTopic::Topic(Topic {
            name: "Companies".to_string(),
            topics: vec![RelatedTopic::TopicResult(TopicResult {
                first_url: "https://a".to_string(),
                icon: Icon { height: 0, url: "".to_string(), width: 0 },
                result: "<a>t</a>".to_string(),
                text: "t".to_string(),
            })],
        }))
    );
    let document = r#"{"Name":"n","Topics":[{"Name":"first","Topics":[]},{"Name":"second","Topics":[]},{"Name":"third","Topics":[]}]}"#;
    match RelatedTopic::from_str(document, 2).unwrap() {
        RelatedTopic::Topic(topic) => {
            let names: Vec<String> = topic
                .topics
                .iter()
                .map(|entry| match entry {
                    RelatedTopic::Topic(inner) => inner.name.clone(),
                    RelatedTopic::TopicResult(inner) => inner.text.clone(),
                })
                .collect();
            assert_eq!(names, vec!["first", "second", "third"]);
        }
        other => panic!("expected a category, got {:?}", other),
    }
}

#[test]
fn nesting_beyond_the_limit_is_refused() {
    for limit in 0..6 {
        for levels in 0..8 {
            let decoded = RelatedTopic::from_json(&nested(levels), limit);
            if levels <= limit {
                assert!(decoded.is_ok(), "{} levels under limit {}", levels, limit);
            } else {
                assert_eq!(decoded, Err(DecodeError::DepthExceeded));
            }
        }
    }
    assert_eq!(
        RelatedTopic::from_str(r#"{"Name":"n","Topics":[]}"#, 0),
        Err(DecodeError::DepthExceeded)
    );
}

#[test]
fn a_deep_document_exhausts_the_limit_and_not_the_stack() {
    let decoded = RelatedTopic::from_json(&nested(2000), 64);
    assert_eq!(decoded, Err(DecodeError::DepthExceeded));
}

#[test]
fn an_object_of_both_variants_or_of_neither_is_ambiguous() {
    assert_eq!(RelatedTopic::from_str("{}", 3), Err(DecodeError::AmbiguousOrEmptyObject));
    assert_eq!(
        RelatedTopic::from_str(r#"{"Name":"n","Text":"t"}"#, 3),
        Err(DecodeError::AmbiguousOrEmptyObject)
    );
    let mut members = link_members();
    members.push(member("Topics", Json::Array(vec![])));
    members.push(member("Name", text("n")));
    assert_eq!(
        RelatedTopic::from_json(&Json::Object(members), 3),
        Err(DecodeError::AmbiguousOrEmptyObject)
    );
}

#[test]
fn each_field_of_the_chosen_variant_is_required() {
    for missing in 0..4 {
        let mut members = link_members();
        let gone = members.remove(missing);
        assert_eq!(
            RelatedTopic::from_json(&Json::Object(members), 3),
            Err(DecodeError::MissingRequiredField(gone.key))
        );
    }
    assert_eq!(
        RelatedTopic::from_str(r#"{"Name":"n"}"#, 3),
        Err(DecodeError::MissingRequiredField("Topics".to_string()))
    );
    assert_eq!(
        RelatedTopic::from_str(r#"{"Topics":[]}"#, 3),
        Err(DecodeError::MissingRequiredField("Name".to_string()))
    );
    assert_eq!(
        RelatedTopic::from_str(r#"{"Text":"t"}"#, 3),
        Err(DecodeError::MissingRequiredField("FirstURL".to_string()))
    );
}

#[test]
fn a_repeated_key_is_an_error() {
    for repeated in 0..4 {
        let mut members = link_members();
        members.push(link_members()[repeated].clone());
        assert_eq!(
            RelatedTopic::from_json(&Json::Object(members), 3),
            Err(DecodeError::DuplicateKey(link_members()[repeated].key.clone()))
        );
    }
    let members = vec![member("Name", text("a")), member("Name", text("b"))];
    assert_eq!(
        RelatedTopic::from_json(&Json::Object(members), 3),
        Err(DecodeError::DuplicateKey("Name".to_string()))
    );
    let members = vec![
        member("Topics", Json::Array(vec![])),
        member("Name", text("a")),
        member("Topics", Json::Array(vec![])),
    ];
    assert_eq!(
        RelatedTopic::from_json(&Json::Object(members), 3),
        Err(DecodeError::DuplicateKey("Topics".to_string()))
    );
    let members = vec![
        member("URL", text("a")),
        member("Height", Json::Number(1)),
        member("Width", Json::Number(1)),
        member("URL", text("b")),
    ];
    assert_eq!(
        Icon::from_json(&Json::Object(members)),
        Err(DecodeError::DuplicateKey("URL".to_string()))
    );
}

#[test]
fn a_value_of_the_wrong_type_is_invalid() {
    assert_eq!(
        RelatedTopic::from_str(r#"{"FirstURL":5}"#, 3),
        Err(DecodeError::InvalidValue(Json::Number(5)))
    );
    assert_eq!(
        RelatedTopic::from_str(r#"{"Name":"n","Topics":"none"}"#, 3),
        Err(DecodeError::InvalidValue(text("none")))
    );
    assert_eq!(
        RelatedTopic::from_str(r#"{"Name":"n","Topics":[7]}"#, 3),
        Err(DecodeError::InvalidValue(Json::Number(7)))
    );
    assert_eq!(RelatedTopic::from_str("[]", 3), Err(DecodeError::InvalidValue(Json::Array(vec![]))));
    assert_eq!(
        RelatedTopic::from_str(r#"{"Icon":null}"#, 3),
        Err(DecodeError::InvalidValue(Json::Null))
    );
    assert_eq!(Response::from_str("true", 3), Err(DecodeError::InvalidValue(Json::Bool(true))));
    let document = APPLE.replace("\"Type\": \"D\"", "\"Type\": \"Z\"");
    assert_eq!(Response::from_str(&document, 32), Err(DecodeError::InvalidValue(text("Z"))));
}

#[test]
fn a_text_that_ends_early_is_reported_as_such() {
    assert_eq!(RelatedTopic::from_str("", 3), Err(DecodeError::UnexpectedEndOfInput));
    assert_eq!(RelatedTopic::from_str(r#"{"Name":"n""#, 3), Err(DecodeError::UnexpectedEndOfInput));
    assert_eq!(
        RelatedTopic::from_str(r#"{"Name":"n","Topics":["#, 3),
        Err(DecodeError::UnexpectedEndOfInput)
    );
    assert_eq!(Response::from_str(&APPLE[..APPLE.len() - 1], 32), Err(DecodeError::UnexpectedEndOfInput));
}

#[test]
fn a_text_that_is_not_json_is_a_syntax_error() {
    assert_eq!(RelatedTopic::from_str(r#"{"Name" "n"}"#, 3), Err(DecodeError::Syntax));
    assert_eq!(RelatedTopic::from_str(r#"{"Name":"n"} trailing"#, 3), Err(DecodeError::Syntax));
    assert_eq!(Response::from_str("<html></html>", 3), Err(DecodeError::Syntax));
}

#[test]
fn a_response_lacks_no_field() {
    for key in [
        "Abstract",
        "AbstractText",
        "AbstractSource",
        "AbstractURL",
        "Image",
        "Heading",
        "Answer",
        "AnswerType",
        "Definition",
        "DefinitionSource",
        "DefinitionURL",
        "RelatedTopics",
        "Results",
        "Type",
        "Redirect",
    ] {
        let document = APPLE.replacen(&format!("\"{}\":", key), &format!("\"Was{}\":", key), 1);
        assert_eq!(
            Response::from_str(&document, 32),
            Err(DecodeError::MissingRequiredField(key.to_string())),
            "{}",
            key
        );
    }
}

#[test]
fn results_hold_links_only() {
    let document = APPLE.replace(
        "\"Results\": [",
        "\"Results\": [{\"Name\": \"n\", \"Topics\": []},",
    );
    assert_eq!(
        Response::from_str(&document, 32),
        Err(DecodeError::UnknownKey("Name".to_string()))
    );
    assert_eq!(TopicResult::from_json(&Json::Object(link_members())), Ok(link()));
    assert_eq!(
        TopicResult::from_json(&Json::Object(vec![])),
        Err(DecodeError::AmbiguousOrEmptyObject)
    );
    assert_eq!(
        TopicResult::from_json(&text("link")),
        Err(DecodeError::InvalidValue(text("link")))
    );
}

#[test]
fn an_icon_may_hold_more_than_its_fields() {
    let value = Json::parse(r#"{"Alt":"a","Width":3,"URL":"u","Height":""}"#).unwrap();
    assert_eq!(Icon::from_json(&value), Ok(Icon { height: 0, url: "u".to_string(), width: 3 }));
    let value = Json::parse(r#"{"Width":3,"Height":""}"#).unwrap();
    assert_eq!(
        Icon::from_json(&value),
        Err(DecodeError::MissingRequiredField("URL".to_string()))
    );
    assert_eq!(
        Icon::from_json(&Json::parse(r#"{"Height":1,"URL":2,"Width":3}"#).unwrap()),
        Err(DecodeError::InvalidValue(Json::Number(2)))
    );
}

#[test]
fn type_codes() {
    assert_eq!(Type::from_code("A"), Some(Type::Article));
    assert_eq!(Type::from_code("D"), Some(Type::Disambiguation));
    assert_eq!(Type::from_code("C"), Some(Type::Category));
    assert_eq!(Type::from_code("N"), Some(Type::Name));
    assert_eq!(Type::from_code("E"), Some(Type::Exclusive));
    assert_eq!(Type::from_code(""), Some(Type::Nothing));
    assert_eq!(Type::from_code("a"), None);
    assert_eq!(Type::from_code("AD"), None);
    assert_eq!(Type::default(), Type::Nothing);
    assert_eq!(Type::from_json(&Json::Number(1)), Err(DecodeError::InvalidValue(Json::Number(1))));
}

#[test]
fn copies_are_deep_and_equal() {
    let response = Response::from_str(APPLE, 32).unwrap();
    let copy = response.clone();
    assert_eq!(copy, response);
    let topic = response.related_topics[2].clone();
    assert_eq!(topic, response.related_topics[2]);
    let document = Json::parse(APPLE).unwrap();
    assert_eq!(document.clone(), document);
    assert_eq!(Response::default().response_type, Type::Nothing);
    assert_eq!(Response::default().related_topics.len(), 0);
}

#[test]
fn errors_describe_themselves() {
    assert_eq!(DecodeError::InvalidNumericField(text("7")).description(), "invalid numeric field");
    assert_eq!(DecodeError::UnknownKey("Bogus".to_string()).description(), "unknown key `Bogus`");
    assert_eq!(DecodeError::AmbiguousOrEmptyObject.description(), "ambiguous or empty object");
    assert_eq!(
        DecodeError::MissingRequiredField("Icon".to_string()).description(),
        "missing field `Icon`"
    );
    assert_eq!(DecodeError::UnexpectedEndOfInput.description(), "unexpected end of input");
    assert_eq!(DecodeError::DepthExceeded.description(), "depth exceeded");
    assert_eq!(DecodeError::DuplicateKey("Name".to_string()).description(), "duplicate key `Name`");
    assert_eq!(DecodeError::InvalidValue(Json::Null).description(), "invalid value");
    assert_eq!(DecodeError::Syntax.description(), "syntax error");
}
