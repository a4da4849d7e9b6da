//! What the stores of agents and bootstrap tokens hold.
use vstd::prelude::*;

use crate::json::{opt_json, Json, JsonView};
use crate::text::{opt_text, texts};

verus! {

/// The view of an optional list of names.
pub open spec fn opt_texts(v: Option<Vec<String>>) -> Option<Seq<Seq<char>>> {
    match v {
        Some(l) => Some(texts(l@)),
        None => None,
    }
}

/// A copy of an optional list of names.
pub fn copy_opt_texts(v: &Option<Vec<String>>) -> (r: Option<Vec<String>>)
    ensures
        opt_texts(r) == opt_texts(*v),
{
    match v {
        Some(l) => Some(crate::text::copy_all(l)),
        None => None,
    }
}

/// An agent as it is stored. The secret is stored as a hash only.
pub struct AgentRecord {
    pub id: i64,
    pub public_id: String,
    pub name: String,
    pub description: Option<String>,
    pub secret_hash: String,
    pub tool_allowlist: Option<Vec<String>>,
    pub tool_denylist: Option<Vec<String>>,
    pub metadata: Option<Json>,
    pub registered_at: i64,
    pub last_used_at: Option<i64>,
    pub expires_at: Option<i64>,
    pub revoked_at: Option<i64>,
    pub cert_identity: Option<String>,
}

/// What an [`AgentRecord`] says.
#[verifier::ext_equal]
pub ghost struct AgentView {
    pub id: i64,
    pub public_id: Seq<char>,
    pub name: Seq<char>,
    pub description: Option<Seq<char>>,
    pub secret_hash: Seq<char>,
    pub tool_allowlist: Option<Seq<Seq<char>>>,
    pub tool_denylist: Option<Seq<Seq<char>>>,
    pub metadata: Option<JsonView>,
    pub registered_at: i64,
    pub last_used_at: Option<i64>,
    pub expires_at: Option<i64>,
    pub revoked_at: Option<i64>,
    pub cert_identity: Option<Seq<char>>,
}

impl View for AgentRecord {
    type V = AgentView;

    open spec fn view(&self) -> AgentView {
        AgentView {
            id: self.id,
            public_id: self.public_id@,
            name: self.name@,
            description: opt_text(self.description),
            secret_hash: self.secret_hash@,
            tool_allowlist: opt_texts(self.tool_allowlist),
            tool_denylist: opt_texts(self.tool_denylist),
            metadata: opt_json(self.metadata),
            registered_at: self.registered_at,
            last_used_at: self.last_used_at,
            expires_at: self.expires_at,
            revoked_at: self.revoked_at,
            cert_identity: opt_text(self.cert_identity),
        }
    }
}

/// What a bootstrap token lets its bearer do.
pub struct BootstrapScope {
    pub tool_allowlist: Option<Vec<String>>,
    pub expires_at: Option<i64>,
    pub single_use: bool,
}

/// What a [`BootstrapScope`] says.
#[verifier::ext_equal]
pub ghost struct ScopeView {
    pub tool_allowlist: Option<Seq<Seq<char>>>,
    pub expires_at: Option<i64>,
    pub single_use: bool,
}

impl View for BootstrapScope {
    type V = ScopeView;

    open spec fn view(&self) -> ScopeView {
        ScopeView {
            tool_allowlist: opt_texts(self.tool_allowlist),
            expires_at: self.expires_at,
            single_use: self.single_use,
        }
    }
}

impl BootstrapScope {
    /// A copy of the scope.
    pub fn copy(&self) -> (r: BootstrapScope)
        ensures
            r@ == self@,
    {
        BootstrapScope {
            tool_allowlist: copy_opt_texts(&self.tool_allowlist),
            expires_at: self.expires_at,
            single_use: self.single_use,
        }
    }
}

/// A bootstrap token as it is stored.
pub struct BootstrapTokenRecord {
    pub public_id: String,
    pub scope: BootstrapScope,
    pub created_by: String,
    pub created_at: i64,
    pub expires_at: Option<i64>,
    pub used_at: Option<i64>,
    pub used_by_agent_id: Option<i64>,
    pub revoked_at: Option<i64>,
}

/// Why a store refused an operation.
#[derive(Debug)]
pub enum RepoError {
    /// Another agent has the name.
    AgentNameConflict(String),
    /// The agent is being rotated.
    RotationInProgress(String),
    /// There is no such agent.
    AgentNotFound,
    /// The secret is not the stored one.
    InvalidCredential,
    /// The store failed.
    Backend(String),
}

/// Which store a token belongs to, by its prefix.
#[derive(Debug, Clone, Copy, PartialEq, Eq, Structural)]
pub enum TokenNamespace {
    Agent,
    Operator,
    Bootstrap,
}

/// A token taken apart.
pub struct ParsedToken {
    pub namespace: TokenNamespace,
    pub public_id: String,
    pub secret: crate::secret::Secret,
}

/// What a [`ParsedToken`] says.
pub ghost struct TokenView {
    pub namespace: TokenNamespace,
    pub public_id: Seq<char>,
    pub secret: Seq<char>,
}

impl View for ParsedToken {
    type V = TokenView;

    open spec fn view(&self) -> TokenView {
        TokenView {
            namespace: self.namespace,
            public_id: self.public_id@,
            secret: self.secret@,
        }
    }
}

/// The view of a token that may not have parsed.
pub open spec fn opt_token(t: Option<ParsedToken>) -> Option<TokenView> {
    match t {
        Some(p) => Some(p@),
        None => None,
    }
}

/// What may be absent is there exactly if it is, and is then what it says.
pub proof fn law_absent_is_absent(v: Vec<String>, t: ParsedToken, i: int)
    requires
        0 <= i < v@.len(),
    ensures
        opt_texts(Some(v)) matches Some(s) && s.len() == v@.len() && s[i] == v@[i]@,
        opt_texts(None) is None,
        opt_token(Some(t)) == Some(t@),
        opt_token(None) is None,
{
}

} // verus!
