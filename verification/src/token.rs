//! Tokens in text: a prefix that says whose they are, a public id, a dot, a secret.
use vstd::prelude::*;

use crate::admin::service::{agent_token, invitation, token_text};
use crate::repo::{opt_token, ParsedToken, TokenNamespace, TokenView};
use crate::secret::Secret;
use crate::text::{
    index_of, lemma_index_of, lemma_index_of_bounds, split_once, split_once_spec, starts,
    strip_prefix,
};

verus! {

/// The prefix of a kind of tokens.
pub open spec fn prefix_of(n: TokenNamespace) -> Seq<char> {
    match n {
        TokenNamespace::Agent => "lk_"@,
        TokenNamespace::Operator => "lkop_"@,
        TokenNamespace::Bootstrap => "lkbt_"@,
    }
}

/// The public id and the secret of what stands behind a prefix: the parts around
/// the first dot, neither of them empty.
pub open spec fn parts(n: TokenNamespace, rest: Seq<char>) -> Option<TokenView> {
    match split_once_spec(rest, '.') {
        Some((public_id, secret)) => if public_id.len() == 0 || secret.len() == 0 {
            None
        } else {
            Some(TokenView { namespace: n, public_id, secret })
        },
        None => None,
    }
}

/// What a text says, read as a token.
pub open spec fn token_in(raw: Seq<char>) -> Option<TokenView> {
    if starts(raw, prefix_of(TokenNamespace::Bootstrap)) {
        parts(TokenNamespace::Bootstrap, raw.skip("lkbt_"@.len() as int))
    } else if starts(raw, prefix_of(TokenNamespace::Operator)) {
        parts(TokenNamespace::Operator, raw.skip("lkop_"@.len() as int))
    } else if starts(raw, prefix_of(TokenNamespace::Agent)) {
        parts(TokenNamespace::Agent, raw.skip("lk_"@.len() as int))
    } else {
        None
    }
}

fn parts_of(namespace: TokenNamespace, rest: &str) -> (r: Option<ParsedToken>)
    ensures
        opt_token(r) == parts(namespace, rest@),
{
    match split_once(rest, '.') {
        Some((public_id, secret)) => if public_id.as_str().is_empty()
            || secret.as_str().is_empty() {
            None
        } else {
            Some(ParsedToken { namespace, public_id, secret: Secret::new(secret) })
        },
        None => None,
    }
}

/// Reads a text as a token.
pub fn parse(raw: &str) -> (r: Option<ParsedToken>)
    ensures
        opt_token(r) == token_in(raw@),
{
    if let Some(rest) = strip_prefix(raw, "lkbt_") {
        return parts_of(TokenNamespace::Bootstrap, rest.as_str());
    }
    if let Some(rest) = strip_prefix(raw, "lkop_") {
        return parts_of(TokenNamespace::Operator, rest.as_str());
    }
    if let Some(rest) = strip_prefix(raw, "lk_") {
        return parts_of(TokenNamespace::Agent, rest.as_str());
    }
    None
}

/// A token that was given out is read back as what it was made from. Public ids hold
/// no dot.
pub proof fn law_token_is_read_back(n: TokenNamespace, public_id: Seq<char>, secret: Seq<char>)
    requires
        public_id.len() > 0,
        !public_id.contains('.'),
        secret.len() > 0,
    ensures
        token_in(token_text(prefix_of(n), public_id, secret)) == Some(
            TokenView { namespace: n, public_id, secret },
        ),
{
    reveal_strlit("lk_");
    reveal_strlit("lkop_");
    reveal_strlit("lkbt_");
    reveal_strlit(".");
    let p = prefix_of(n);
    let raw = token_text(p, public_id, secret);
    let rest = public_id + "."@ + secret;
    assert(raw =~= p + rest);
    assert(raw.skip(p.len() as int) =~= rest);
    assert(raw.take(p.len() as int) =~= p);
    assert forall|j: int| 0 <= j < public_id.len() implies rest[j] != '.' by {
        assert(rest[j] == public_id[j]);
        assert(public_id.contains(public_id[j]));
    }
    lemma_index_of(rest, '.', public_id.len() as int);
    assert(index_of(rest, '.') == public_id.len());
    assert(rest.take(public_id.len() as int) =~= public_id);
    assert(rest.skip(public_id.len() as int + 1) =~= secret);
    assert(parts(n, rest) == Some(TokenView { namespace: n, public_id, secret }));
    assert(raw[2] == p[2]);
    match n {
        TokenNamespace::Bootstrap => {},
        TokenNamespace::Operator => {
            assert(raw.take(5)[2] == 'o');
            assert("lkbt_"@[2] == 'b');
        },
        TokenNamespace::Agent => {
            assert(raw[2] == '_');
            if starts(raw, "lkbt_"@) {
                assert(raw.take(5)[2] == raw[2]);
            }
            if starts(raw, "lkop_"@) {
                assert(raw.take(5)[2] == raw[2]);
            }
        },
    }
}

/// What is read as a token is a prefix that says whose it is, a public id without a dot, a
/// dot, and a secret, neither of them empty; everything else is no token.
pub proof fn law_tokens_are_prefix_id_and_secret(raw: Seq<char>)
    ensures
        token_in(raw) matches Some(t) ==> {
            &&& t.public_id.len() > 0 && !t.public_id.contains('.') && t.secret.len() > 0
            &&& t.namespace == TokenNamespace::Agent ==> raw == "lk_"@ + t.public_id + "."@
                + t.secret
            &&& t.namespace == TokenNamespace::Operator ==> raw == "lkop_"@ + t.public_id + "."@
                + t.secret
            &&& t.namespace == TokenNamespace::Bootstrap ==> raw == "lkbt_"@ + t.public_id + "."@
                + t.secret
        },
        token_in(raw) is None ==> forall|n: TokenNamespace, id: Seq<char>, secret: Seq<char>|
            id.len() > 0 && !id.contains('.') && secret.len() > 0 ==> raw != #[trigger] token_text(
                prefix_of(n),
                id,
                secret,
            ),
{
    reveal_strlit(".");
    reveal_strlit("lk_");
    reveal_strlit("lkop_");
    reveal_strlit("lkbt_");
    if let Some(t) = token_in(raw) {
        let p = prefix_of(t.namespace);
        let rest = raw.skip(p.len() as int);
        assert(raw =~= raw.take(p.len() as int) + rest);
        lemma_index_of_bounds(rest, '.');
        let k = index_of(rest, '.');
        assert(rest =~= rest.take(k) + "."@ + rest.skip(k + 1));
        assert(raw =~= p + t.public_id + "."@ + t.secret);
    } else {
        assert forall|n: TokenNamespace, id: Seq<char>, secret: Seq<char>|
            id.len() > 0 && !id.contains('.') && secret.len() > 0 implies raw
            != #[trigger] token_text(prefix_of(n), id, secret) by {
            law_token_is_read_back(n, id, secret);
        }
    }
}

/// The token that an agent is given is read back as that agent's, with that secret; the one
/// that invites an agent is read back as a bootstrap token.
pub proof fn law_given_tokens_are_read_back(public_id: Seq<char>, secret: Seq<char>)
    requires
        public_id.len() > 0,
        !public_id.contains('.'),
        secret.len() > 0,
    ensures
        token_in(agent_token(public_id, secret)) == Some(
            TokenView { namespace: TokenNamespace::Agent, public_id, secret },
        ),
        token_in(invitation(public_id, secret)) == Some(
            TokenView { namespace: TokenNamespace::Bootstrap, public_id, secret },
        ),
        agent_token(public_id, secret) == "lk_"@ + public_id + "."@ + secret,
        invitation(public_id, secret) == "lkbt_"@ + public_id + "."@ + secret,
{
    law_token_is_read_back(TokenNamespace::Agent, public_id, secret);
    law_token_is_read_back(TokenNamespace::Bootstrap, public_id, secret);
}

} // verus!
