//! Integration tests for the nvr crate.

use nvr::{Config, Error, NotFound, ParseError, ParseLimits, resolve};
use std::collections::HashMap;
use varchain::Scope;

#[test]
fn test_simple_variable() {
    let mut kv = HashMap::new();
    kv.insert("key".to_string(), "value".to_string());
    let scope = Scope::new().push(kv);
    let config = Config::default();

    let r = resolve("Hello {{key}}!", &scope, &config).unwrap();
    assert_eq!(r, "Hello value!");
}

#[test]
fn test_nested_variable() {
    let mut kv = HashMap::new();
    kv.insert("a".to_string(), "b".to_string());
    kv.insert("key_b".to_string(), "success".to_string());
    let scope = Scope::new().push(kv);
    let config = Config::default();

    let r = resolve("Result: {{key_{{a}}}}", &scope, &config).unwrap();
    assert_eq!(r, "Result: success");
}

#[test]
fn test_multi_level_nesting() {
    let mut kv = HashMap::new();
    kv.insert("1".to_string(), "2".to_string());
    kv.insert("2".to_string(), "3".to_string());
    kv.insert("val_3".to_string(), "deep".to_string());
    let scope = Scope::new().push(kv);
    let config = Config::default();

    let r = resolve("{{val_{{{{1}}}}}}", &scope, &config).unwrap();
    assert_eq!(r, "deep");
}

#[test]
fn test_depth_limit() {
    let mut kv = HashMap::new();
    kv.insert("a".to_string(), "{{a}}".to_string()); // recursion if we resolved values, but we resolve keys
    let scope = Scope::new().push(kv);

    // Testing depth of nested keys
    let config = Config {
        max_resolve_depth: 2,
        ..Config::default()
    };

    // {{ {{ {{a}} }} }} -> depth 3
    let res = resolve("{{{{{{a}}}}}}", &scope, &config);
    match res {
        Err(Error::DepthExceeded { limit }) => assert_eq!(limit, 2),
        _ => panic!("Expected DepthExceeded error, got {:?}", res),
    }
}

#[test]
fn test_size_limit() {
    let mut kv = HashMap::new();
    kv.insert("long".to_string(), "1234567890".to_string());
    let scope = Scope::new().push(kv);

    let config = Config {
        max_result_size: 5,
        ..Config::default()
    };

    let res = resolve("{{long}}", &scope, &config);
    match res {
        Err(Error::SizeExceeded { limit }) => assert_eq!(limit, 5),
        _ => panic!("Expected SizeExceeded error, got {:?}", res),
    }
}

#[test]
fn test_injection_protection() {
    let mut kv = HashMap::new();
    kv.insert("malicious".to_string(), "secret}}".to_string());
    let scope = Scope::new().push(kv);
    let config = Config::default();

    // {{ {{malicious}} }} -> key becomes "secret}}"
    let res = resolve("{{{{malicious}}}}", &scope, &config);
    match res {
        Err(Error::Injection { key }) => assert_eq!(key, "secret}}"),
        _ => panic!("Expected Injection error, got {:?}", res),
    }
}

#[test]
fn test_not_found_behaviors() {
    let scope = Scope::new(); // Empty scope

    // 1. ReturnOriginal
    let c1 = Config {
        not_found: NotFound::ReturnOriginal,
        ..Config::default()
    };
    assert_eq!(resolve("{{missing}}", &scope, &c1).unwrap(), "{{missing}}");

    // 2. ReturnEmpty
    let c2 = Config {
        not_found: NotFound::ReturnEmpty,
        ..Config::default()
    };
    assert_eq!(resolve("{{missing}}", &scope, &c2).unwrap(), "");

    // 3. Error
    let c3 = Config {
        not_found: NotFound::Error,
        ..Config::default()
    };
    let res = resolve("{{missing}}", &scope, &c3);
    match res {
        Err(Error::NotFound { key }) => assert_eq!(key, "missing"),
        _ => panic!("Expected NotFound error"),
    }
}

#[test]
fn test_plain_text() {
    let scope = Scope::new();
    let config = Config::default();
    assert_eq!(
        resolve("just plain text", &scope, &config).unwrap(),
        "just plain text"
    );
}

#[test]
fn test_empty_template() {
    let scope = Scope::new();
    let config = Config::default();
    assert_eq!(resolve("", &scope, &config).unwrap(), "");
}

#[test]
fn test_depth_zero() {
    let scope = Scope::new();
    let config = Config {
        max_resolve_depth: 0,
        ..Config::default()
    };

    // Any variable resolution requires at least depth 1 (the variable itself)
    let res = resolve("{{a}}", &scope, &config);
    match res {
        Err(Error::DepthExceeded { limit }) => assert_eq!(limit, 0),
        _ => panic!("Expected DepthExceeded(0), got {:?}", res),
    }

    // Plain text should still work at depth 0
    assert_eq!(resolve("hello", &scope, &config).unwrap(), "hello");
}

#[test]
fn test_size_zero() {
    let scope = Scope::new();
    let config = Config {
        max_result_size: 0,
        ..Config::default()
    };

    // Any output should fail
    let res = resolve("a", &scope, &config);
    match res {
        Err(Error::SizeExceeded { limit }) => assert_eq!(limit, 0),
        _ => panic!("Expected SizeExceeded(0), got {:?}", res),
    }

    // Empty template with size 0 should work
    assert_eq!(resolve("", &scope, &config).unwrap(), "");
}

#[test]
fn test_mixed_variables() {
    let mut kv = HashMap::new();
    kv.insert("a".to_string(), "val_a".to_string());
    kv.insert("b".to_string(), "val_b".to_string());
    let scope = Scope::new().push(kv);
    let config = Config::default();

    let r = resolve("Start {{a}} and {{b}} End", &scope, &config).unwrap();
    assert_eq!(r, "Start val_a and val_b End");
}

#[test]
fn test_connect_scenario() {
    let mut kv = HashMap::new();
    kv.insert("env".to_string(), "prod".to_string());
    kv.insert("host_prod".to_string(), "10.0.0.1".to_string());
    let scope = Scope::new().push(kv);
    let config = Config::default();

    let r = resolve("Connect to: {{host_{{env}}}}", &scope, &config).unwrap();
    assert_eq!(r, "Connect to: 10.0.0.1");
}

#[test]
fn test_return_original_idempotent() {
    let scope = Scope::new();
    let config = Config {
        not_found: NotFound::ReturnOriginal,
        ..Config::default()
    };

    let first = resolve("{{missing}} and {{also_gone}}!", &scope, &config).unwrap();
    assert_eq!(first, "{{missing}} and {{also_gone}}!");
    let second = resolve(&first, &scope, &config).unwrap();
    assert_eq!(second, first);
}

#[test]
fn test_resolve_default() {
    let mut kv = HashMap::new();
    kv.insert("key".to_string(), "value".to_string());
    let scope = Scope::new().push(kv);

    let r = nvr::resolve_default("Hello {{key}}!", &scope).unwrap();
    assert_eq!(r, "Hello value!");
}

#[test]
fn test_default_config() {
    let config = Config::default();
    assert_eq!(config.max_resolve_depth, 5);
    assert_eq!(config.max_result_size, 65536);
    assert_eq!(config.not_found, NotFound::ReturnOriginal);
    assert_eq!(config.parse.max_depth, 5);
    assert_eq!(config.parse.max_nodes, 50);
}

#[test]
fn test_parse_unclosed_variable() {
    let scope = Scope::new();
    let config = Config::default();

    let res = resolve("Hello {{name", &scope, &config);
    match res {
        Err(Error::Parse(ParseError::UnclosedVariable { offset })) => assert_eq!(offset, 6),
        _ => panic!("Expected Parse(UnclosedVariable), got {:?}", res),
    }
}

#[test]
fn test_parse_empty_variable() {
    let scope = Scope::new();
    let config = Config::default();

    let res = resolve("{{}}", &scope, &config);
    match res {
        Err(Error::Parse(ParseError::EmptyVariable { offset })) => assert_eq!(offset, 0),
        _ => panic!("Expected Parse(EmptyVariable), got {:?}", res),
    }
}

#[test]
fn test_parse_depth_limit() {
    let scope = Scope::new();
    let config = Config {
        parse: ParseLimits {
            max_depth: 1,
            max_nodes: 100,
        },
        ..Config::default()
    };

    let res = resolve("{{a{{b}}}}", &scope, &config);
    match res {
        Err(Error::Parse(ParseError::DepthExceeded { limit, offset })) => {
            assert_eq!(limit, 1);
            assert_eq!(offset, 3);
        }
        _ => panic!("Expected Parse(DepthExceeded), got {:?}", res),
    }
}

#[test]
fn test_parse_node_limit() {
    let scope = Scope::new();
    let config = Config {
        parse: ParseLimits {
            max_depth: 10,
            max_nodes: 2,
        },
        ..Config::default()
    };

    let res = resolve("abc{{d}}", &scope, &config);
    match res {
        Err(Error::Parse(ParseError::NodeLimitExceeded { limit, offset })) => {
            assert_eq!(limit, 2);
            assert_eq!(offset, 5);
        }
        _ => panic!("Expected Parse(NodeLimitExceeded), got {:?}", res),
    }
}

#[test]
fn test_size_limit_counts_bytes() {
    let mut kv = HashMap::new();
    // "héllo" is five characters but six UTF-8 bytes.
    kv.insert("word".to_string(), "h\u{e9}llo".to_string());
    let scope = Scope::new().push(kv);

    let tight = Config {
        max_result_size: 5,
        ..Config::default()
    };
    let res = resolve("{{word}}", &scope, &tight);
    match res {
        Err(Error::SizeExceeded { limit }) => assert_eq!(limit, 5),
        _ => panic!("Expected SizeExceeded error, got {:?}", res),
    }

    let just_enough = Config {
        max_result_size: 6,
        ..Config::default()
    };
    assert_eq!(resolve("{{word}}", &scope, &just_enough).unwrap(), "h\u{e9}llo");
}

#[test]
fn test_value_braces_not_scanned() {
    let mut kv = HashMap::new();
    kv.insert("a".to_string(), "va{l}ue".to_string());
    let scope = Scope::new().push(kv);
    let config = Config::default();

    // A looked-up value used only as output text is never checked for braces.
    assert_eq!(resolve("{{a}}", &scope, &config).unwrap(), "va{l}ue");
}

#[test]
fn test_missing_nested_key_injection() {
    // With ReturnOriginal, a missing inner variable turns the outer key into
    // "{{a}}", which the injection check then rejects.
    let scope = Scope::new();
    let config = Config {
        not_found: NotFound::ReturnOriginal,
        ..Config::default()
    };

    let res = resolve("{{{{a}}}}", &scope, &config);
    match res {
        Err(Error::Injection { key }) => assert_eq!(key, "{{a}}"),
        _ => panic!("Expected Injection error, got {:?}", res),
    }
}

#[test]
fn test_append_with_limit() {
    let mut out = String::from("ab");
    assert!(nvr::append_with_limit(&mut out, "cd", 4).is_ok());
    assert_eq!(out, "abcd");

    let res = nvr::append_with_limit(&mut out, "e", 4);
    match res {
        Err(Error::SizeExceeded { limit }) => assert_eq!(limit, 4),
        _ => panic!("Expected SizeExceeded error, got {:?}", res),
    }
    assert_eq!(out, "abcd");
}

#[test]
fn test_return_original_size_accounting() {
    // ReturnOriginal re-emits "{{" + key + "}}", which counts against the
    // size limit: "{{missing}}" is 11 bytes.
    let scope = Scope::new();
    let tight = Config {
        max_result_size: 10,
        ..Config::default()
    };
    let res = resolve("{{missing}}", &scope, &tight);
    match res {
        Err(Error::SizeExceeded { limit }) => assert_eq!(limit, 10),
        _ => panic!("Expected SizeExceeded error, got {:?}", res),
    }

    let just_enough = Config {
        max_result_size: 11,
        ..Config::default()
    };
    assert_eq!(resolve("{{missing}}", &scope, &just_enough).unwrap(), "{{missing}}");
}
