use autodns::routes::{compile_routes, Routes};

fn assert_route(routes: &Routes, domain: &str, defaults: &[String], expected_id: i32, expected_upstreams: &[&str]) {
    let (route_id, upstreams) = routes.select(domain, defaults);
    let expected = expected_upstreams.iter().copied().map(ToString::to_string).collect::<Vec<_>>();
    assert_eq!(route_id, expected_id);
    assert_eq!(upstreams, expected.as_slice());
}

fn route_trie_case() {
    let upstreams: Vec<String> = ["a", "b", "c", "d"].into_iter().map(ToString::to_string).collect();
    let routes = compile_routes(
        &[
            "suffix:example.com=a".to_string(),
            "suffix:api.example.com=b".to_string(),
            "exact:www.example.com=c".to_string(),
            "wildcard:*.example.net=d".to_string(),
        ],
        &upstreams,
    )
    .expect("compile routes");

    assert_route(&routes, "www.example.com", &[], 3, &["c"]);
    assert_route(&routes, "v1.api.example.com", &[], 2, &["b"]);
    assert_route(&routes, "example.com", &[], 1, &["a"]);
    assert_route(&routes, "sub.example.net", &[], 4, &["d"]);
    assert_route(&routes, "example.net", &["a".to_string()], 0, &["a"]);
}

#[test]
fn dns_route_trie_prefers_exact_then_longest_suffix() {
    route_trie_case();
}

#[test]
fn tests_route_trie_prefers_exact_then_longest_suffix() {
    route_trie_case();
}

#[test]
fn wildcard_rule_does_not_match_its_own_domain() {
    let upstreams: Vec<String> = vec!["w".to_string()];
    let routes = compile_routes(&["wildcard:*.example.org=w".to_string()], &upstreams).expect("compile routes");
    assert_route(&routes, "example.org", &[], 0, &[]);
    assert_route(&routes, "a.b.example.org", &[], 1, &["w"]);
}

#[test]
fn route_errors_name_the_rule() {
    let upstreams: Vec<String> = vec!["a".to_string()];
    let cases = [
        ("", "route[0] must not be empty"),
        ("suffix example.com=a", "route[0] must contain exactly one ':'"),
        ("suffix:example.com", "route[0] must contain exactly one '='"),
        ("prefix:example.com=a", "route[0] has unsupported match type \"prefix\""),
        ("wildcard:example.com=a", "route[0] wildcard domain must start with '*.'"),
        ("exact:*.example.com=a", "route[0] wildcard domain requires wildcard match type"),
        ("exact:example.com=", "route[0] upstream name must not be empty"),
        ("exact:example.com=b", "route[0] references unknown upstream \"b\""),
        ("exact:example.com=a,a", "route[0] contains duplicate upstream \"a\""),
    ];
    for (rule, expected) in cases {
        let err = match compile_routes(&[rule.to_string()], &upstreams) {
            Ok(_) => panic!("rule {rule:?} must be refused"),
            Err(err) => err,
        };
        assert_eq!(err.message(), expected);
    }
    let err = match compile_routes(&["exact:x.example=a".to_string(), "exact:X.example.=a".to_string()], &upstreams) {
        Ok(_) => panic!("duplicate must be refused"),
        Err(err) => err,
    };
    assert_eq!(err.message(), "duplicate route for \"x.example\"");
}

#[test]
fn compiled_rules_take_their_position_as_id_and_keep_listed_upstreams() {
    let upstreams: Vec<String> = ["a", "b", "c"].into_iter().map(ToString::to_string).collect();
    let routes = compile_routes(
        &[
            "wildcard:*.one.test=c".to_string(),
            "exact:two.test= b , a ".to_string(),
            "suffix:three.test=a,c".to_string(),
        ],
        &upstreams,
    )
    .expect("compile routes");
    assert_route(&routes, "x.one.test", &[], 1, &["c"]);
    assert_route(&routes, "two.test", &[], 2, &["b", "a"]);
    assert_route(&routes, "deep.three.test", &[], 3, &["a", "c"]);
    assert_route(&routes, "elsewhere.test", &["b".to_string()], 0, &["b"]);
}

#[test]
fn wildcard_rule_wins_a_tie_with_a_suffix_rule_of_the_same_domain() {
    let upstreams: Vec<String> = ["s", "w"].into_iter().map(ToString::to_string).collect();
    let routes = compile_routes(
        &["suffix:example.org=s".to_string(), "wildcard:*.example.org=w".to_string()],
        &upstreams,
    )
    .expect("compile routes");
    assert_route(&routes, "a.example.org", &[], 2, &["w"]);
    assert_route(&routes, "example.org", &[], 1, &["s"]);
}
