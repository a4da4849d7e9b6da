//! Tokens in text.
use agent_locksmith::repo::TokenNamespace;
use agent_locksmith::token::parse;

#[test]
fn a_token_says_whose_it_is() {
    let t = parse("lk_abc.s3cret").unwrap();
    assert!(matches!(t.namespace, TokenNamespace::Agent));
    assert_eq!(t.public_id, "abc");
    assert_eq!(t.secret.expose(), "s3cret");
    let t = parse("lkop_abc.x").unwrap();
    assert!(matches!(t.namespace, TokenNamespace::Operator));
    let t = parse("lkbt_abc.x").unwrap();
    assert!(matches!(t.namespace, TokenNamespace::Bootstrap));
    assert_eq!(t.public_id, "abc");
}

#[test]
fn the_secret_starts_behind_the_first_dot() {
    let t = parse("lk_abc.x.y").unwrap();
    assert_eq!(t.public_id, "abc");
    assert_eq!(t.secret.expose(), "x.y");
}

#[test]
fn other_texts_are_no_tokens() {
    for raw in ["", "abc.x", "lk_", "lk_abc", "lk_.x", "lk_abc.", "xx_abc.x", "LK_abc.x"] {
        assert!(parse(raw).is_none(), "{raw}");
    }
}
