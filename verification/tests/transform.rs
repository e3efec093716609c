use testx::attr::{AttrToken, AttributeList, ConfigError, FnPath};
use testx::{render, testx, OuterBody, TestFn};

fn word(s: &str) -> AttrToken {
    AttrToken::Word(s.to_string())
}

fn quoted(toks: Vec<AttrToken>) -> AttrToken {
    AttrToken::Quoted(toks)
}

fn path(segs: &[&str]) -> FnPath {
    FnPath {
        leading: false,
        segments: segs.iter().map(|s| s.to_string()).collect(),
    }
}

fn decl(name: &str, params: &[&str], attrs: &[&str]) -> TestFn {
    TestFn {
        name: name.to_string(),
        vis: String::new(),
        params: params.iter().map(|s| s.to_string()).collect(),
        attrs: attrs.iter().map(|s| s.to_string()).collect(),
        body: "{ assert_eq!(num, 4711); }".to_string(),
    }
}

#[test]
fn default_resolution_one_param() {
    let e = testx(&vec![], decl("sample", &["num: u32"], &[])).unwrap();
    assert_eq!(e.outer.body, OuterBody::SetupThenInner(path(&["setup"])));
    assert_eq!(e.inner.name, "sample_inner");
    assert_eq!(e.outer.name, "sample");
}

#[test]
fn round_trip_default_setup() {
    fn setup() -> u32 {
        4711
    }
    fn sample_inner(num: u32) {
        assert_eq!(num, 4711);
    }
    let e = testx(&vec![], decl("sample", &["num: u32"], &[])).unwrap();
    assert_eq!(e.inner.params, vec!["num: u32".to_string()]);
    match &e.outer.body {
        OuterBody::SetupThenInner(p) => {
            assert_eq!(*p, path(&["setup"]));
            let sr = setup();
            sample_inner(sr);
        }
        OuterBody::CallInner => panic!("expected a setup call"),
    }
}

#[test]
fn custom_setup_string() {
    fn setup_666() -> u32 {
        666
    }
    fn sample_inner(num: u32) {
        assert_eq!(num, 666);
    }
    let toks = vec![word("setup"), AttrToken::EqSign, quoted(vec![word("setup_666")])];
    let e = testx(&toks, decl("sample", &["num: u32"], &[])).unwrap();
    match &e.outer.body {
        OuterBody::SetupThenInner(p) => {
            assert_eq!(*p, path(&["setup_666"]));
            let sr = setup_666();
            sample_inner(sr);
        }
        OuterBody::CallInner => panic!("expected a setup call"),
    }
}

#[test]
fn string_and_path_forms_agree() {
    let quoted_form = vec![word("setup"), AttrToken::EqSign, quoted(vec![word("setup_666")])];
    let path_form = vec![word("setup"), AttrToken::EqSign, word("setup_666")];
    let a = testx(&quoted_form, decl("sample", &["num: u32"], &[])).unwrap();
    let b = testx(&path_form, decl("sample", &["num: u32"], &[])).unwrap();
    assert_eq!(a, b);
    assert_eq!(a.outer.body, OuterBody::SetupThenInner(path(&["setup_666"])));
}

#[test]
fn qualified_setup_path() {
    let toks = vec![
        word("setup"),
        AttrToken::EqSign,
        word("self"),
        AttrToken::PathSep,
        word("setup_666"),
    ];
    let e = testx(&toks, decl("sample", &["num: u32"], &[])).unwrap();
    assert_eq!(e.outer.body, OuterBody::SetupThenInner(path(&["self", "setup_666"])));
}

#[test]
fn no_setup_zero_param_same_as_default() {
    let with_marker = testx(&vec![word("no_setup")], decl("sample", &[], &[])).unwrap();
    let without = testx(&vec![], decl("sample", &[], &[])).unwrap();
    assert_eq!(with_marker, without);
    assert_eq!(with_marker.outer.body, OuterBody::CallInner);
}

#[test]
fn zero_param_ignores_setup_config() {
    let toks = vec![word("setup"), AttrToken::EqSign, quoted(vec![word("x")])];
    let e = testx(&toks, decl("sample", &[], &[])).unwrap();
    assert_eq!(e.outer.body, OuterBody::CallInner);
}

#[test]
fn one_param_no_setup_calls_inner_directly() {
    let e = testx(&vec![word("no_setup")], decl("sample", &["num: u32"], &[])).unwrap();
    assert_eq!(e.outer.body, OuterBody::CallInner);
}

#[test]
fn unsupported_key_bogus() {
    let r = testx(&vec![word("bogus")], decl("sample", &[], &[]));
    assert_eq!(
        r.unwrap_err(),
        ConfigError::UnsupportedKey {
            key: "bogus".to_string(),
            at: 0,
        }
    );
}

#[test]
fn attrs_move_to_outer_in_order() {
    let e = testx(
        &vec![],
        decl("sample", &["num: u32"], &["#[ignore]", "#[should_panic]"]),
    )
    .unwrap();
    assert_eq!(
        e.outer.attrs,
        vec!["#[ignore]".to_string(), "#[should_panic]".to_string()]
    );
    assert!(e.inner.attrs.is_empty());
}

#[test]
fn inner_renamed_and_private() {
    let e = testx(&vec![], decl("sample", &["num: u32"], &["#[ignore]"])).unwrap();
    assert_eq!(e.inner.name, "sample_inner");
    assert_eq!(e.inner.vis, "");
    assert_eq!(e.inner.params, vec!["num: u32".to_string()]);
    assert_eq!(e.inner.body, "{ assert_eq!(num, 4711); }");
}

#[test]
fn missing_eq_after_setup() {
    let r = testx(&vec![word("setup")], decl("sample", &[], &[]));
    assert_eq!(r.unwrap_err(), ConfigError::ExpectedEq { at: 1 });
}

#[test]
fn malformed_setup_value() {
    let toks = vec![word("setup"), AttrToken::EqSign, AttrToken::Comma];
    let r = testx(&toks, decl("sample", &[], &[]));
    assert_eq!(r.unwrap_err(), ConfigError::MalformedValue { at: 2 });
}

#[test]
fn trailing_tokens_rejected() {
    let toks = vec![word("no_setup"), word("x")];
    let r = testx(&toks, decl("sample", &[], &[]));
    assert_eq!(r.unwrap_err(), ConfigError::ExpectedComma { at: 1 });
}

#[test]
fn first_entry_wins() {
    let toks = vec![
        word("no_setup"),
        AttrToken::Comma,
        word("setup"),
        AttrToken::EqSign,
        word("foo"),
    ];
    let e = testx(&toks, decl("sample", &["num: u32"], &[])).unwrap();
    assert_eq!(e.outer.body, OuterBody::CallInner);
}

#[test]
fn later_entries_still_checked() {
    let toks = vec![word("no_setup"), AttrToken::Comma, word("bogus")];
    let r = testx(&toks, decl("sample", &[], &[]));
    assert_eq!(
        r.unwrap_err(),
        ConfigError::UnsupportedKey {
            key: "bogus".to_string(),
            at: 2,
        }
    );
}

#[test]
fn quoted_leading_separator() {
    let toks = vec![
        word("setup"),
        AttrToken::EqSign,
        quoted(vec![AttrToken::PathSep, word("a")]),
    ];
    let e = testx(&toks, decl("sample", &["num: u32"], &[])).unwrap();
    assert_eq!(
        e.outer.body,
        OuterBody::SetupThenInner(FnPath {
            leading: true,
            segments: vec!["a".to_string()],
        })
    );
}

#[test]
fn quoted_garbage_rejected() {
    let toks = vec![
        word("setup"),
        AttrToken::EqSign,
        quoted(vec![word("a"), AttrToken::Comma]),
    ];
    let r = testx(&toks, decl("sample", &[], &[]));
    assert_eq!(r.unwrap_err(), ConfigError::MalformedValue { at: 2 });
}

#[test]
fn empty_quoted_rejected() {
    let toks = vec![word("setup"), AttrToken::EqSign, quoted(vec![])];
    let r = testx(&toks, decl("sample", &[], &[]));
    assert_eq!(r.unwrap_err(), ConfigError::MalformedValue { at: 2 });
}

#[test]
fn entry_must_start_with_identifier() {
    let r = testx(&vec![AttrToken::EqSign], decl("sample", &[], &[]));
    assert_eq!(r.unwrap_err(), ConfigError::ExpectedEntry { at: 0 });
}

#[test]
fn attribute_list_default_reference() {
    let al = AttributeList::parse(&vec![]).unwrap();
    assert_eq!(al.setup_func(), Some(&path(&["setup"])));
}

#[test]
fn attribute_list_no_setup_reference() {
    let al = AttributeList::parse(&vec![word("no_setup")]).unwrap();
    assert_eq!(al.setup_func(), None);
}

#[test]
fn default_setup_func_is_setup() {
    assert_eq!(AttributeList::default_setup_func(), path(&["setup"]));
}

#[test]
fn quoted_dotted_path() {
    let toks = vec![
        word("setup"),
        AttrToken::EqSign,
        quoted(vec![word("helpers"), AttrToken::PathSep, word("setup_666")]),
    ];
    let e = testx(&toks, decl("sample", &["num: u32"], &[])).unwrap();
    assert_eq!(
        e.outer.body,
        OuterBody::SetupThenInner(path(&["helpers", "setup_666"]))
    );
}

#[test]
fn emitted_source_text() {
    let e = testx(&vec![], decl("sample", &["num: U32"], &[])).unwrap();
    let text = render(&e);
    assert_eq!(
        text,
        "fn sample_inner(num: U32) { assert_eq!(num, 4711); }\n\
         #[test]\n\
         fn sample() { let sr = setup(); sample_inner(sr); }\n"
    );
}

#[test]
fn emitted_source_text_no_setup() {
    let e = testx(&vec![word("no_setup")], decl("sample", &[], &["#[ignore]"])).unwrap();
    let text = render(&e);
    assert_eq!(
        text,
        "fn sample_inner() { assert_eq!(num, 4711); }\n\
         #[test]\n\
         #[ignore]\n\
         fn sample() { sample_inner(); }\n"
    );
}

#[test]
fn explicit_default_same_as_none() {
    let explicit = vec![word("setup"), AttrToken::EqSign, quoted(vec![word("setup")])];
    let a = testx(&explicit, decl("sample", &["num: u32"], &[])).unwrap();
    let b = testx(&vec![], decl("sample", &["num: u32"], &[])).unwrap();
    assert_eq!(a, b);
}
