//! How an upstream is authenticated, and the JSON form in which that is stored
//! and sent.
use vstd::prelude::*;

use crate::json::{
    alike, distinct_names, flat, has_name, holds, is_private, jempty, jstr, jstrs,
    lemma_alike_members, lemma_array_view, lemma_not_private, lemma_object_view,
    lemma_texts_are_readable, lemma_with_holds, member, members, readable, views, Json, JsonView,
    NESTING_MAX,
};
use crate::oauth::session::DEFAULT_SESSION_LABEL;
use crate::text::{cat, copy_all, opt_text, same, starts, starts_with, texts};

verus! {

/// Where a credential is resolved from before the daemon serves requests.
#[derive(Debug)]
pub enum SecretRef {
    /// An environment variable, with an optional prefix put before its value.
    FromEnv { var: String, prefix: Option<String> },
}

/// How an upstream is authenticated. No variant holds a credential: each holds
/// names, handles or public client metadata.
#[derive(Debug, PartialEq, Eq)]
pub enum AuthSpec {
    /// Nothing is injected.
    NoAuth,
    /// `<header>: <value of the environment variable>`.
    Header { header: String, env_var: String },
    /// `Authorization: Bearer <value of the environment variable>`.
    Bearer { env_var: String },
    /// `<header>: <value>`, the value being sealed in the credential store.
    StoredHeader { header: String, secret_ref: String },
    /// `Authorization: Bearer <value>`, the value being sealed in the
    /// credential store.
    StoredBearer { secret_ref: String },
    /// `<header>: <value>`, the value being resolved from an `op://` reference.
    OpHeader { header: String, reference: String },
    /// `Authorization: Bearer <value>`, the value being resolved from an
    /// `op://` reference.
    OpBearer { reference: String },
    /// OAuth 2.0 with a proof key for the code exchange.
    OauthPkce {
        client_id: String,
        redirect_uri: String,
        scopes: Vec<String>,
        auth_url: String,
        token_url: String,
        session_label: Option<String>,
    },
    /// OAuth 2.0 with a device code.
    OauthDeviceCode {
        client_id: String,
        scopes: Vec<String>,
        device_url: String,
        token_url: String,
        session_label: Option<String>,
    },
}

/// What an [`AuthSpec`] says.
#[verifier::ext_equal]
pub ghost enum AuthView {
    NoAuth,
    Header { header: Seq<char>, env_var: Seq<char> },
    Bearer { env_var: Seq<char> },
    StoredHeader { header: Seq<char>, secret_ref: Seq<char> },
    StoredBearer { secret_ref: Seq<char> },
    OpHeader { header: Seq<char>, reference: Seq<char> },
    OpBearer { reference: Seq<char> },
    OauthPkce {
        client_id: Seq<char>,
        redirect_uri: Seq<char>,
        scopes: Seq<Seq<char>>,
        auth_url: Seq<char>,
        token_url: Seq<char>,
        session_label: Option<Seq<char>>,
    },
    OauthDeviceCode {
        client_id: Seq<char>,
        scopes: Seq<Seq<char>>,
        device_url: Seq<char>,
        token_url: Seq<char>,
        session_label: Option<Seq<char>>,
    },
}

impl View for AuthSpec {
    type V = AuthView;

    open spec fn view(&self) -> AuthView {
        match self {
            AuthSpec::NoAuth => AuthView::NoAuth,
            AuthSpec::Header { header, env_var } => AuthView::Header {
                header: header@,
                env_var: env_var@,
            },
            AuthSpec::Bearer { env_var } => AuthView::Bearer { env_var: env_var@ },
            AuthSpec::StoredHeader { header, secret_ref } => AuthView::StoredHeader {
                header: header@,
                secret_ref: secret_ref@,
            },
            AuthSpec::StoredBearer { secret_ref } => AuthView::StoredBearer {
                secret_ref: secret_ref@,
            },
            AuthSpec::OpHeader { header, reference } => AuthView::OpHeader {
                header: header@,
                reference: reference@,
            },
            AuthSpec::OpBearer { reference } => AuthView::OpBearer { reference: reference@ },
            AuthSpec::OauthPkce {
                client_id,
                redirect_uri,
                scopes,
                auth_url,
                token_url,
                session_label,
            } => AuthView::OauthPkce {
                client_id: client_id@,
                redirect_uri: redirect_uri@,
                scopes: texts(scopes@),
                auth_url: auth_url@,
                token_url: token_url@,
                session_label: opt_text(*session_label),
            },
            AuthSpec::OauthDeviceCode {
                client_id,
                scopes,
                device_url,
                token_url,
                session_label,
            } => AuthView::OauthDeviceCode {
                client_id: client_id@,
                scopes: texts(scopes@),
                device_url: device_url@,
                token_url: token_url@,
                session_label: opt_text(*session_label),
            },
        }
    }
}

impl AuthView {
    /// Whether the token comes from an OAuth session.
    pub open spec fn oauth(self) -> bool {
        self is OauthPkce || self is OauthDeviceCode
    }

    /// Whether the value is sealed in the credential store.
    pub open spec fn stored(self) -> bool {
        self is StoredHeader || self is StoredBearer
    }

    /// Whether the value is resolved from an `op://` reference.
    pub open spec fn op(self) -> bool {
        self is OpHeader || self is OpBearer
    }

    /// Whether the value is an environment variable's.
    pub open spec fn from_env(self) -> bool {
        self is Header || self is Bearer
    }

    /// The OAuth session label that was set, if any.
    pub open spec fn label(self) -> Option<Seq<char>> {
        match self {
            AuthView::OauthPkce { session_label, .. } => session_label,
            AuthView::OauthDeviceCode { session_label, .. } => session_label,
            _ => None,
        }
    }

    /// The handle into the credential store.
    pub open spec fn stored_ref(self) -> Option<Seq<char>> {
        match self {
            AuthView::StoredHeader { secret_ref, .. } => Some(secret_ref),
            AuthView::StoredBearer { secret_ref } => Some(secret_ref),
            _ => None,
        }
    }

    /// The `op://` reference.
    pub open spec fn op_ref(self) -> Option<Seq<char>> {
        match self {
            AuthView::OpHeader { reference, .. } => Some(reference),
            AuthView::OpBearer { reference } => Some(reference),
            _ => None,
        }
    }

    /// The environment variable that holds the value.
    pub open spec fn env(self) -> Option<Seq<char>> {
        match self {
            AuthView::Header { env_var, .. } => Some(env_var),
            AuthView::Bearer { env_var } => Some(env_var),
            _ => None,
        }
    }
}

/// Whether a reference uses the `op://` scheme and has something after it.
pub open spec fn valid_op_ref(reference: Seq<char>) -> bool {
    starts(reference, "op://"@) && reference.len() > 5
}

impl AuthSpec {
    /// Whether a header is ever injected.
    pub fn injects_header(&self) -> (r: bool)
        ensures
            r == !(self@ is NoAuth),
    {
        !matches!(self, AuthSpec::NoAuth)
    }

    /// Whether the token comes from an OAuth session.
    pub fn is_oauth(&self) -> (r: bool)
        ensures
            r == self@.oauth(),
    {
        matches!(self, AuthSpec::OauthPkce { .. } | AuthSpec::OauthDeviceCode { .. })
    }

    /// The OAuth session label that was set; nothing where the default label is
    /// meant, and nothing for a shape that is not OAuth.
    pub fn oauth_session_label(&self) -> (r: Option<&str>)
        ensures
            match r {
                Some(s) => self@.label() == Some(s@),
                None => self@.label() is None,
            },
    {
        match self {
            AuthSpec::OauthPkce { session_label, .. } => match session_label {
                Some(s) => Some(s.as_str()),
                None => None,
            },
            AuthSpec::OauthDeviceCode { session_label, .. } => match session_label {
                Some(s) => Some(s.as_str()),
                None => None,
            },
            _ => None,
        }
    }

    /// The OAuth session label to use: the one that was set, or the default
    /// one. Nothing for a shape that is not OAuth.
    pub fn session_label_or_default(&self) -> (r: Option<&str>)
        ensures
            match r {
                Some(s) => self@.oauth() && s@ == (match self@.label() {
                    Some(l) => l,
                    None => DEFAULT_SESSION_LABEL@,
                }),
                None => !self@.oauth(),
            },
    {
        if !self.is_oauth() {
            return None;
        }
        match self.oauth_session_label() {
            Some(s) => Some(s),
            None => Some(DEFAULT_SESSION_LABEL),
        }
    }

    /// The environment variable to resolve before requests are served, without
    /// a prefix. Nothing for a shape whose value does not come from one.
    pub fn to_secret_ref(&self) -> (r: Option<SecretRef>)
        ensures
            match r {
                Some(SecretRef::FromEnv { var, prefix }) => self@.env() == Some(var@)
                    && prefix is None,
                None => self@.env() is None,
            },
    {
        match self {
            AuthSpec::Header { env_var, .. } => Some(
                SecretRef::FromEnv { var: env_var.clone(), prefix: None },
            ),
            AuthSpec::Bearer { env_var } => Some(
                SecretRef::FromEnv { var: env_var.clone(), prefix: None },
            ),
            _ => None,
        }
    }

    /// Whether the value is sealed in the credential store.
    pub fn is_stored(&self) -> (r: bool)
        ensures
            r == self@.stored(),
    {
        matches!(self, AuthSpec::StoredHeader { .. } | AuthSpec::StoredBearer { .. })
    }

    /// The handle into the credential store.
    pub fn stored_secret_ref(&self) -> (r: Option<&str>)
        ensures
            match r {
                Some(s) => self@.stored_ref() == Some(s@),
                None => self@.stored_ref() is None,
            },
    {
        match self {
            AuthSpec::StoredHeader { secret_ref, .. } => Some(secret_ref.as_str()),
            AuthSpec::StoredBearer { secret_ref } => Some(secret_ref.as_str()),
            _ => None,
        }
    }

    /// Whether the value is resolved from an `op://` reference.
    pub fn is_op(&self) -> (r: bool)
        ensures
            r == self@.op(),
    {
        matches!(self, AuthSpec::OpHeader { .. } | AuthSpec::OpBearer { .. })
    }

    /// The `op://` reference.
    pub fn op_reference(&self) -> (r: Option<&str>)
        ensures
            match r {
                Some(s) => self@.op_ref() == Some(s@),
                None => self@.op_ref() is None,
            },
    {
        match self {
            AuthSpec::OpHeader { reference, .. } => Some(reference.as_str()),
            AuthSpec::OpBearer { reference } => Some(reference.as_str()),
            _ => None,
        }
    }

    /// Refuses an `op` shape whose reference does not use the `op://` scheme or
    /// has nothing after it. Every other shape passes.
    pub fn validate_op_reference(&self) -> (r: Result<(), String>)
        ensures
            match (self@.op_ref(), r) {
                (None, Ok(())) => true,
                (None, Err(_)) => false,
                (Some(reference), Ok(())) => valid_op_ref(reference),
                (Some(reference), Err(why)) => !valid_op_ref(reference) && why@
                    == "op custody reference must use the op:// scheme, got: "@ + reference,
            },
    {
        match self.op_reference() {
            Some(reference) => {
                if starts_with(reference, "op://") && reference.unicode_len() > 5 {
                    Ok(())
                } else {
                    Err(cat("op custody reference must use the op:// scheme, got: ", reference))
                }
            },
            None => Ok(()),
        }
    }
}

impl Clone for AuthSpec {
    fn clone(&self) -> (r: AuthSpec)
        ensures
            r@ == self@,
    {
        match self {
            AuthSpec::NoAuth => AuthSpec::NoAuth,
            AuthSpec::Header { header, env_var } => AuthSpec::Header {
                header: header.clone(),
                env_var: env_var.clone(),
            },
            AuthSpec::Bearer { env_var } => AuthSpec::Bearer { env_var: env_var.clone() },
            AuthSpec::StoredHeader { header, secret_ref } => AuthSpec::StoredHeader {
                header: header.clone(),
                secret_ref: secret_ref.clone(),
            },
            AuthSpec::StoredBearer { secret_ref } => AuthSpec::StoredBearer {
                secret_ref: secret_ref.clone(),
            },
            AuthSpec::OpHeader { header, reference } => AuthSpec::OpHeader {
                header: header.clone(),
                reference: reference.clone(),
            },
            AuthSpec::OpBearer { reference } => AuthSpec::OpBearer {
                reference: reference.clone(),
            },
            AuthSpec::OauthPkce {
                client_id,
                redirect_uri,
                scopes,
                auth_url,
                token_url,
                session_label,
            } => AuthSpec::OauthPkce {
                client_id: client_id.clone(),
                redirect_uri: redirect_uri.clone(),
                scopes: copy_all(scopes),
                auth_url: auth_url.clone(),
                token_url: token_url.clone(),
                session_label: crate::text::copy_opt(session_label),
            },
            AuthSpec::OauthDeviceCode {
                client_id,
                scopes,
                device_url,
                token_url,
                session_label,
            } => AuthSpec::OauthDeviceCode {
                client_id: client_id.clone(),
                scopes: copy_all(scopes),
                device_url: device_url.clone(),
                token_url: token_url.clone(),
                session_label: crate::text::copy_opt(session_label),
            },
        }
    }
}

/// Every shape is exactly one of: nothing, an environment variable's value, a
/// stored value, a resolved reference, an OAuth session.
pub proof fn law_custody_partition(a: AuthView)
    ensures
        (a is NoAuth) as int + a.from_env() as int + a.stored() as int + a.op() as int
            + a.oauth() as int == 1,
        a.env() is Some <==> a.from_env(),
        a.stored_ref() is Some <==> a.stored(),
        a.op_ref() is Some <==> a.op(),
{
}

/// The text of the member `key`, where it is a string.
pub open spec fn text_member(j: JsonView, key: Seq<char>) -> Option<Seq<char>> {
    match member(j, key) {
        Some(JsonView::Str(s)) => Some(s),
        _ => None,
    }
}

/// Whether every value is a string.
pub open spec fn all_texts(v: Seq<JsonView>) -> bool {
    forall|i: int| 0 <= i < v.len() ==> (#[trigger] v[i]) is Str
}

/// The texts of the member `key`, where it is an array of strings.
pub open spec fn texts_member(j: JsonView, key: Seq<char>) -> Option<Seq<Seq<char>>> {
    match member(j, key) {
        Some(JsonView::Array(v)) => if all_texts(v) {
            Some(v.map_values(|e: JsonView| e->Str_0))
        } else {
            None
        },
        _ => None,
    }
}

/// The text of the member `key` where it is a string, and no text where it is
/// absent or null; nothing where it is anything else.
pub open spec fn opt_text_member(j: JsonView, key: Seq<char>) -> Option<Option<Seq<char>>> {
    match member(j, key) {
        None => Some(None),
        Some(JsonView::Null) => Some(None),
        Some(JsonView::Str(s)) => Some(Some(s)),
        _ => None,
    }
}

/// The tag of a shape.
pub open spec fn auth_tag(a: AuthView) -> Seq<char> {
    match a {
        AuthView::NoAuth => "none"@,
        AuthView::Header { .. } => "header"@,
        AuthView::Bearer { .. } => "bearer"@,
        AuthView::StoredHeader { .. } => "stored_header"@,
        AuthView::StoredBearer { .. } => "stored_bearer"@,
        AuthView::OpHeader { .. } => "op_header"@,
        AuthView::OpBearer { .. } => "op_bearer"@,
        AuthView::OauthPkce { .. } => "oauth_pkce"@,
        AuthView::OauthDeviceCode { .. } => "oauth_device_code"@,
    }
}

/// The object with the session label, where there is one.
pub open spec fn with_label(j: JsonView, label: Option<Seq<char>>) -> JsonView {
    match label {
        Some(l) => j.with("session_label"@, jstr(l)),
        None => j,
    }
}

/// The JSON form of a shape: its tag under `kind`, then its fields.
pub open spec fn auth_json(a: AuthView) -> JsonView {
    let j = jempty().with("kind"@, jstr(auth_tag(a)));
    match a {
        AuthView::NoAuth => j,
        AuthView::Header { header, env_var } => j.with("header"@, jstr(header)).with(
            "env_var"@,
            jstr(env_var),
        ),
        AuthView::Bearer { env_var } => j.with("env_var"@, jstr(env_var)),
        AuthView::StoredHeader { header, secret_ref } => j.with("header"@, jstr(header)).with(
            "secret_ref"@,
            jstr(secret_ref),
        ),
        AuthView::StoredBearer { secret_ref } => j.with("secret_ref"@, jstr(secret_ref)),
        AuthView::OpHeader { header, reference } => j.with("header"@, jstr(header)).with(
            "reference"@,
            jstr(reference),
        ),
        AuthView::OpBearer { reference } => j.with("reference"@, jstr(reference)),
        AuthView::OauthPkce {
            client_id,
            redirect_uri,
            scopes,
            auth_url,
            token_url,
            session_label,
        } => with_label(
            j.with("client_id"@, jstr(client_id)).with("redirect_uri"@, jstr(redirect_uri)).with(
                "scopes"@,
                jstrs(scopes),
            ).with("auth_url"@, jstr(auth_url)).with("token_url"@, jstr(token_url)),
            session_label,
        ),
        AuthView::OauthDeviceCode {
            client_id,
            scopes,
            device_url,
            token_url,
            session_label,
        } => with_label(
            j.with("client_id"@, jstr(client_id)).with("scopes"@, jstrs(scopes)).with(
                "device_url"@,
                jstr(device_url),
            ).with("token_url"@, jstr(token_url)),
            session_label,
        ),
    }
}

/// Whether a shape with the given tag has a member of the given name.
pub open spec fn field_of(tag: Seq<char>, key: Seq<char>) -> bool {
    ||| key == "kind"@
    ||| key == "header"@ && (tag == "header"@ || tag == "stored_header"@ || tag == "op_header"@)
    ||| key == "env_var"@ && (tag == "header"@ || tag == "bearer"@)
    ||| key == "secret_ref"@ && (tag == "stored_header"@ || tag == "stored_bearer"@)
    ||| key == "reference"@ && (tag == "op_header"@ || tag == "op_bearer"@)
    ||| (key == "client_id"@ || key == "scopes"@ || key == "token_url"@ || key
        == "session_label"@) && (tag == "oauth_pkce"@ || tag == "oauth_device_code"@)
    ||| (key == "redirect_uri"@ || key == "auth_url"@) && tag == "oauth_pkce"@
    ||| key == "device_url"@ && tag == "oauth_device_code"@
}

/// Whether an object has no member that a shape with the given tag lacks.
pub open spec fn only_fields(j: JsonView, tag: Seq<char>) -> bool {
    forall|i: int|
        0 <= i < j->Object_0.len() ==> field_of(tag, (#[trigger] j->Object_0[i]).0)
}

/// The shape that a JSON object writes: its tag is known, every field of the
/// shape is there with the right type, and there is no other member. The tag
/// `none` is taken whatever else the object holds.
pub open spec fn auth_of(j: JsonView) -> Option<AuthView> {
    match text_member(j, "kind"@) {
        None => None,
        Some(tag) => if tag == "none"@ {
            Some(AuthView::NoAuth)
        } else if !only_fields(j, tag) {
            None
        } else {
            auth_with_tag(j, tag)
        },
    }
}

/// The shape with the given tag, its fields taken from an object.
pub open spec fn auth_with_tag(j: JsonView, tag: Seq<char>) -> Option<AuthView> {
    let header = text_member(j, "header"@);
    let env_var = text_member(j, "env_var"@);
    let secret_ref = text_member(j, "secret_ref"@);
    let reference = text_member(j, "reference"@);
    if tag == "header"@ {
        if header is Some && env_var is Some {
            Some(AuthView::Header { header: header->0, env_var: env_var->0 })
        } else {
            None
        }
    } else if tag == "bearer"@ {
        if env_var is Some {
            Some(AuthView::Bearer { env_var: env_var->0 })
        } else {
            None
        }
    } else if tag == "stored_header"@ {
        if header is Some && secret_ref is Some {
            Some(AuthView::StoredHeader { header: header->0, secret_ref: secret_ref->0 })
        } else {
            None
        }
    } else if tag == "stored_bearer"@ {
        if secret_ref is Some {
            Some(AuthView::StoredBearer { secret_ref: secret_ref->0 })
        } else {
            None
        }
    } else if tag == "op_header"@ {
        if header is Some && reference is Some {
            Some(AuthView::OpHeader { header: header->0, reference: reference->0 })
        } else {
            None
        }
    } else if tag == "op_bearer"@ {
        if reference is Some {
            Some(AuthView::OpBearer { reference: reference->0 })
        } else {
            None
        }
    } else if tag == "oauth_pkce"@ {
        let client_id = text_member(j, "client_id"@);
        let redirect_uri = text_member(j, "redirect_uri"@);
        let scopes = texts_member(j, "scopes"@);
        let auth_url = text_member(j, "auth_url"@);
        let token_url = text_member(j, "token_url"@);
        let session_label = opt_text_member(j, "session_label"@);
        if client_id is Some && redirect_uri is Some && scopes is Some && auth_url is Some
            && token_url is Some && session_label is Some {
            Some(
                AuthView::OauthPkce {
                    client_id: client_id->0,
                    redirect_uri: redirect_uri->0,
                    scopes: scopes->0,
                    auth_url: auth_url->0,
                    token_url: token_url->0,
                    session_label: session_label->0,
                },
            )
        } else {
            None
        }
    } else if tag == "oauth_device_code"@ {
        let client_id = text_member(j, "client_id"@);
        let scopes = texts_member(j, "scopes"@);
        let device_url = text_member(j, "device_url"@);
        let token_url = text_member(j, "token_url"@);
        let session_label = opt_text_member(j, "session_label"@);
        if client_id is Some && scopes is Some && device_url is Some && token_url is Some
            && session_label is Some {
            Some(
                AuthView::OauthDeviceCode {
                    client_id: client_id->0,
                    scopes: scopes->0,
                    device_url: device_url->0,
                    token_url: token_url->0,
                    session_label: session_label->0,
                },
            )
        } else {
            None
        }
    } else {
        None
    }
}

fn put_label(j: Json, label: &Option<String>) -> (r: Json)
    requires
        j is Object,
    ensures
        r@ == with_label(j@, opt_text(*label)),
{
    match label {
        Some(l) => j.with("session_label", Json::text(l.as_str())),
        None => j,
    }
}

fn read_text(j: &Json, key: &str) -> (r: Option<String>)
    ensures
        opt_text(r) == text_member(j@, key@),
{
    match j.get(key) {
        Some(v) => match v.as_text() {
            Some(s) => Some(s.to_owned()),
            None => None,
        },
        None => None,
    }
}

/// The texts of an array of strings.
pub fn read_text_list(v: &Json) -> (r: Option<Vec<String>>)
    ensures
        match r {
            Some(l) => v@ is Array && all_texts(v@->Array_0) && texts(l@)
                == v@->Array_0.map_values(|e: JsonView| e->Str_0),
            None => !(v@ is Array && all_texts(v@->Array_0)),
        },
{
    match v {
        Json::Array(items) => {
            proof {
                lemma_array_view(*items);
            }
            let mut out: Vec<String> = Vec::new();
            let mut i: usize = 0;
            while i < items.len()
                invariant
                    i <= items@.len(),
                    out@.len() == i,
                    v@ == JsonView::Array(views(items@)),
                    forall|k: int| 0 <= k < i ==> (#[trigger] items@[k])@ == jstr(out@[k]@),
                decreases items.len() - i,
            {
                match items[i].as_text() {
                    Some(s) => {
                        out.push(s.to_owned());
                    },
                    None => {
                        assert(!(v@->Array_0[i as int] is Str));
                        return None;
                    },
                }
                i = i + 1;
            }
            assert(texts(out@) =~= v@->Array_0.map_values(|e: JsonView| e->Str_0));
            Some(out)
        },
        _ => None,
    }
}

fn read_texts(j: &Json, key: &str) -> (r: Option<Vec<String>>)
    ensures
        match r {
            Some(l) => texts_member(j@, key@) == Some(texts(l@)),
            None => texts_member(j@, key@) is None,
        },
{
    match j.get(key) {
        Some(v) => read_text_list(v),
        None => None,
    }
}

fn read_opt_text(j: &Json, key: &str) -> (r: Option<Option<String>>)
    ensures
        match r {
            Some(o) => opt_text_member(j@, key@) == Some(opt_text(o)),
            None => opt_text_member(j@, key@) is None,
        },
{
    match j.get(key) {
        Some(v) => match v {
            Json::Null => Some(None),
            Json::Str(s) => Some(Some(s.clone())),
            _ => None,
        },
        None => Some(None),
    }
}

fn is_field(tag: &str, key: &str) -> (r: bool)
    ensures
        r == field_of(tag@, key@),
{
    let oauth = same(tag, "oauth_pkce") || same(tag, "oauth_device_code");
    same(key, "kind") || (same(key, "header") && (same(tag, "header") || same(tag, "stored_header")
        || same(tag, "op_header"))) || (same(key, "env_var") && (same(tag, "header") || same(
        tag,
        "bearer",
    ))) || (same(key, "secret_ref") && (same(tag, "stored_header") || same(tag, "stored_bearer")))
        || (same(key, "reference") && (same(tag, "op_header") || same(tag, "op_bearer"))) || ((same(
        key,
        "client_id",
    ) || same(key, "scopes") || same(key, "token_url") || same(key, "session_label")) && oauth) || ((
    same(key, "redirect_uri") || same(key, "auth_url")) && same(tag, "oauth_pkce")) || (same(
        key,
        "device_url",
    ) && same(tag, "oauth_device_code"))
}

fn has_only_fields(j: &Json, tag: &str) -> (r: bool)
    requires
        j is Object,
    ensures
        r == only_fields(j@, tag@),
{
    match j {
        Json::Object(v) => {
            proof {
                lemma_object_view(*v);
            }
            let mut i: usize = 0;
            while i < v.len()
                invariant
                    i <= v@.len(),
                    j@ == JsonView::Object(members(v@)),
                    forall|k: int|
                        0 <= k < i ==> field_of(tag@, (#[trigger] j@->Object_0[k]).0),
                decreases v.len() - i,
            {
                assert(j@->Object_0[i as int].0 == v@[i as int].0@);
                if !is_field(tag, v[i].0.as_str()) {
                    return false;
                }
                i = i + 1;
            }
            true
        },
        _ => true,
    }
}

impl AuthSpec {
    /// The JSON form of this shape.
    pub fn to_json(&self) -> (r: Json)
        ensures
            r@ == auth_json(self@),
    {
        match self {
            AuthSpec::NoAuth => Json::object().with("kind", Json::text("none")),
            AuthSpec::Header { header, env_var } => Json::object().with(
                "kind",
                Json::text("header"),
            ).with("header", Json::text(header.as_str())).with(
                "env_var",
                Json::text(env_var.as_str()),
            ),
            AuthSpec::Bearer { env_var } => Json::object().with("kind", Json::text("bearer")).with(
                "env_var",
                Json::text(env_var.as_str()),
            ),
            AuthSpec::StoredHeader { header, secret_ref } => Json::object().with(
                "kind",
                Json::text("stored_header"),
            ).with("header", Json::text(header.as_str())).with(
                "secret_ref",
                Json::text(secret_ref.as_str()),
            ),
            AuthSpec::StoredBearer { secret_ref } => Json::object().with(
                "kind",
                Json::text("stored_bearer"),
            ).with("secret_ref", Json::text(secret_ref.as_str())),
            AuthSpec::OpHeader { header, reference } => Json::object().with(
                "kind",
                Json::text("op_header"),
            ).with("header", Json::text(header.as_str())).with(
                "reference",
                Json::text(reference.as_str()),
            ),
            AuthSpec::OpBearer { reference } => Json::object().with(
                "kind",
                Json::text("op_bearer"),
            ).with("reference", Json::text(reference.as_str())),
            AuthSpec::OauthPkce {
                client_id,
                redirect_uri,
                scopes,
                auth_url,
                token_url,
                session_label,
            } => put_label(
                Json::object().with("kind", Json::text("oauth_pkce")).with(
                    "client_id",
                    Json::text(client_id.as_str()),
                ).with("redirect_uri", Json::text(redirect_uri.as_str())).with(
                    "scopes",
                    Json::texts(scopes),
                ).with("auth_url", Json::text(auth_url.as_str())).with(
                    "token_url",
                    Json::text(token_url.as_str()),
                ),
                session_label,
            ),
            AuthSpec::OauthDeviceCode {
                client_id,
                scopes,
                device_url,
                token_url,
                session_label,
            } => put_label(
                Json::object().with("kind", Json::text("oauth_device_code")).with(
                    "client_id",
                    Json::text(client_id.as_str()),
                ).with("scopes", Json::texts(scopes)).with(
                    "device_url",
                    Json::text(device_url.as_str()),
                ).with("token_url", Json::text(token_url.as_str())),
                session_label,
            ),
        }
    }

    /// The shape that a JSON value writes, if it writes one.
    pub fn from_json(j: &Json) -> (r: Option<AuthSpec>)
        ensures
            match r {
                Some(a) => auth_of(j@) == Some(a@),
                None => auth_of(j@) is None,
            },
    {
        let tag = match read_text(j, "kind") {
            Some(t) => t,
            None => {
                return None;
            },
        };
        if same(tag.as_str(), "none") {
            return Some(AuthSpec::NoAuth);
        }
        if !has_only_fields(j, tag.as_str()) {
            return None;
        }
        from_tagged(j, tag.as_str())
    }
}

fn from_tagged(j: &Json, tag: &str) -> (r: Option<AuthSpec>)
    ensures
        match r {
            Some(a) => auth_with_tag(j@, tag@) == Some(a@),
            None => auth_with_tag(j@, tag@) is None,
        },
{
    if same(tag, "header") {
        match (read_text(j, "header"), read_text(j, "env_var")) {
            (Some(header), Some(env_var)) => Some(AuthSpec::Header { header, env_var }),
            _ => None,
        }
    } else if same(tag, "bearer") {
        match read_text(j, "env_var") {
            Some(env_var) => Some(AuthSpec::Bearer { env_var }),
            None => None,
        }
    } else if same(tag, "stored_header") {
        match (read_text(j, "header"), read_text(j, "secret_ref")) {
            (Some(header), Some(secret_ref)) => Some(
                AuthSpec::StoredHeader { header, secret_ref },
            ),
            _ => None,
        }
    } else if same(tag, "stored_bearer") {
        match read_text(j, "secret_ref") {
            Some(secret_ref) => Some(AuthSpec::StoredBearer { secret_ref }),
            None => None,
        }
    } else if same(tag, "op_header") {
        match (read_text(j, "header"), read_text(j, "reference")) {
            (Some(header), Some(reference)) => Some(AuthSpec::OpHeader { header, reference }),
            _ => None,
        }
    } else if same(tag, "op_bearer") {
        match read_text(j, "reference") {
            Some(reference) => Some(AuthSpec::OpBearer { reference }),
            None => None,
        }
    } else if same(tag, "oauth_pkce") {
        match (
            read_text(j, "client_id"),
            read_text(j, "redirect_uri"),
            read_texts(j, "scopes"),
            read_text(j, "auth_url"),
            read_text(j, "token_url"),
            read_opt_text(j, "session_label"),
        ) {
            (
                Some(client_id),
                Some(redirect_uri),
                Some(scopes),
                Some(auth_url),
                Some(token_url),
                Some(session_label),
            ) => Some(
                AuthSpec::OauthPkce {
                    client_id,
                    redirect_uri,
                    scopes,
                    auth_url,
                    token_url,
                    session_label,
                },
            ),
            _ => None,
        }
    } else if same(tag, "oauth_device_code") {
        match (
            read_text(j, "client_id"),
            read_texts(j, "scopes"),
            read_text(j, "device_url"),
            read_text(j, "token_url"),
            read_opt_text(j, "session_label"),
        ) {
            (
                Some(client_id),
                Some(scopes),
                Some(device_url),
                Some(token_url),
                Some(session_label),
            ) => Some(
                AuthSpec::OauthDeviceCode {
                    client_id,
                    scopes,
                    device_url,
                    token_url,
                    session_label,
                },
            ),
            _ => None,
        }
    } else {
        None
    }
}

proof fn lemma_names_differ()
    ensures
        "kind"@.len() == 4,
        "header"@.len() == 6 && "header"@[0] == 'h',
        "env_var"@.len() == 7,
        "secret_ref"@.len() == 10 && "secret_ref"@[0] == 's',
        "reference"@.len() == 9 && "reference"@[0] == 'r',
        "client_id"@.len() == 9 && "client_id"@[0] == 'c',
        "redirect_uri"@.len() == 12,
        "scopes"@.len() == 6 && "scopes"@[0] == 's',
        "auth_url"@.len() == 8,
        "token_url"@.len() == 9 && "token_url"@[0] == 't',
        "device_url"@.len() == 10 && "device_url"@[0] == 'd',
        "session_label"@.len() == 13,
        "none"@.len() == 4,
        "bearer"@.len() == 6 && "bearer"@[0] == 'b',
        "stored_header"@.len() == 13 && "stored_header"@[7] == 'h',
        "stored_bearer"@.len() == 13 && "stored_bearer"@[7] == 'b',
        "op_header"@.len() == 9 && "op_header"@[3] == 'h',
        "op_bearer"@.len() == 9 && "op_bearer"@[3] == 'b',
        "oauth_pkce"@.len() == 10,
        "oauth_device_code"@.len() == 17,
{
    reveal_strlit("kind");
    reveal_strlit("header");
    reveal_strlit("env_var");
    reveal_strlit("secret_ref");
    reveal_strlit("reference");
    reveal_strlit("client_id");
    reveal_strlit("redirect_uri");
    reveal_strlit("scopes");
    reveal_strlit("auth_url");
    reveal_strlit("token_url");
    reveal_strlit("device_url");
    reveal_strlit("session_label");
    reveal_strlit("none");
    reveal_strlit("bearer");
    reveal_strlit("stored_header");
    reveal_strlit("stored_bearer");
    reveal_strlit("op_header");
    reveal_strlit("op_bearer");
    reveal_strlit("oauth_pkce");
    reveal_strlit("oauth_device_code");
}

/// Reading the JSON form of a shape gives the shape back.
#[verifier::rlimit(40)]
pub proof fn law_auth_json_round_trip(a: AuthView)
    ensures
        auth_of(auth_json(a)) == Some(a),
{
    broadcast use crate::json::lemma_member_with;

    lemma_names_differ();
    let j = auth_json(a);
    let base = jempty().with("kind"@, jstr(auth_tag(a)));
    assert(member(jempty(), "kind"@) is None);
    assert(member(base, "kind"@) == Some(jstr(auth_tag(a))));
    match a {
        AuthView::OauthPkce { scopes, session_label, .. } => {
            let v = scopes.map_values(|s: Seq<char>| jstr(s));
            assert(all_texts(v));
            assert(v.map_values(|e: JsonView| e->Str_0) =~= scopes);
        },
        AuthView::OauthDeviceCode { scopes, session_label, .. } => {
            let v = scopes.map_values(|s: Seq<char>| jstr(s));
            assert(all_texts(v));
            assert(v.map_values(|e: JsonView| e->Str_0) =~= scopes);
        },
        _ => {},
    }
}

proof fn lemma_names_are_plain()
    ensures
        !is_private("kind"@),
        !is_private("header"@),
        !is_private("env_var"@),
        !is_private("secret_ref"@),
        !is_private("reference"@),
        !is_private("client_id"@),
        !is_private("redirect_uri"@),
        !is_private("scopes"@),
        !is_private("auth_url"@),
        !is_private("token_url"@),
        !is_private("device_url"@),
        !is_private("session_label"@),
{
    reveal_strlit("kind");
    reveal_strlit("header");
    reveal_strlit("env_var");
    reveal_strlit("secret_ref");
    reveal_strlit("reference");
    reveal_strlit("client_id");
    reveal_strlit("redirect_uri");
    reveal_strlit("scopes");
    reveal_strlit("auth_url");
    reveal_strlit("token_url");
    reveal_strlit("device_url");
    reveal_strlit("session_label");
    lemma_not_private("kind"@);
    lemma_not_private("header"@);
    lemma_not_private("env_var"@);
    lemma_not_private("secret_ref"@);
    lemma_not_private("reference"@);
    lemma_not_private("client_id"@);
    lemma_not_private("redirect_uri"@);
    lemma_not_private("scopes"@);
    lemma_not_private("auth_url"@);
    lemma_not_private("token_url"@);
    lemma_not_private("device_url"@);
    lemma_not_private("session_label"@);
}

/// The JSON form of a shape can be written as a text and read back.
pub(crate) proof fn lemma_auth_is_readable(a: AuthView)
    ensures
        readable(auth_json(a), NESTING_MAX as nat),
        distinct_names(auth_json(a)->Object_0),
        forall|i: int|
            0 <= i < auth_json(a)->Object_0.len() ==> flat(
                (#[trigger] auth_json(a)->Object_0[i]).1,
            ),
{
    broadcast use crate::json::lemma_member_with;
    broadcast use crate::json::lemma_readable_with;

    lemma_names_differ();
    lemma_names_are_plain();
    assert(readable(jempty(), NESTING_MAX as nat));
    assert(member(jempty(), "kind"@) is None);
    match a {
        AuthView::OauthPkce { scopes, .. } => {
            lemma_texts_are_readable(scopes, 126);
        },
        AuthView::OauthDeviceCode { scopes, .. } => {
            lemma_texts_are_readable(scopes, 126);
        },
        _ => {},
    }
}

/// A value that is like the JSON form of a shape is read as that shape.
pub(crate) proof fn lemma_alike_is_read_back(a: AuthView, read: JsonView)
    requires
        alike(auth_json(a), read),
    ensures
        auth_of(read) == Some(a),
{
    let j = auth_json(a);
    lemma_auth_is_readable(a);
    lemma_alike_members(j, read);
    law_auth_json_round_trip(a);
    law_auth_json_holds_no_value(a);
    let tag = auth_tag(a);
    assert(member(read, "kind"@) == member(j, "kind"@));
    assert forall|k: int| 0 <= k < read->Object_0.len() implies field_of(
        tag,
        (#[trigger] read->Object_0[k]).0,
    ) by {
        assert(has_name(j->Object_0, read->Object_0[k].0));
    }
    assert(text_member(j, "kind"@) == Some(tag)) by {
        broadcast use crate::json::lemma_member_with;

        lemma_names_differ();
        assert(member(jempty(), "kind"@) is None);
    }
    assert(auth_with_tag(read, tag) == auth_with_tag(j, tag));
}

/// No shape has a member for a credential: every member of its JSON form is one
/// of the twelve that hold a name, a handle or public client metadata.
pub proof fn law_auth_json_holds_no_value(a: AuthView)
    ensures
        only_fields(auth_json(a), auth_tag(a)),
        !exists|i: int|
            0 <= i < auth_json(a)->Object_0.len() && (#[trigger] auth_json(a)->Object_0[i]).0
                == "value"@,
{
    lemma_names_differ();
    reveal_strlit("value");
    assert("value"@.len() == 5);
}

/// Each shape is written with its tag and its own fields, each under its own name, and with
/// nothing else.
#[verifier::rlimit(40)]
pub proof fn law_shapes_are_written_field_by_field(a: AuthSpec)
    ensures
        ({
            let j = auth_json(a@);
            match a {
                AuthSpec::NoAuth => holds(j, "kind"@, JsonView::Str("none"@))
                    && j->Object_0.len() == 1,
                AuthSpec::Header { header, env_var } => holds(
                    j,
                    "kind"@,
                    JsonView::Str("header"@),
                ) && holds(j, "header"@, JsonView::Str(header@)) && holds(
                    j,
                    "env_var"@,
                    JsonView::Str(env_var@),
                ) && j->Object_0.len() == 3,
                AuthSpec::Bearer { env_var } => holds(j, "kind"@, JsonView::Str("bearer"@))
                    && holds(j, "env_var"@, JsonView::Str(env_var@)) && j->Object_0.len() == 2,
                AuthSpec::StoredHeader { header, secret_ref } => holds(
                    j,
                    "kind"@,
                    JsonView::Str("stored_header"@),
                ) && holds(j, "header"@, JsonView::Str(header@)) && holds(
                    j,
                    "secret_ref"@,
                    JsonView::Str(secret_ref@),
                ) && j->Object_0.len() == 3,
                AuthSpec::StoredBearer { secret_ref } => holds(
                    j,
                    "kind"@,
                    JsonView::Str("stored_bearer"@),
                ) && holds(j, "secret_ref"@, JsonView::Str(secret_ref@)) && j->Object_0.len() == 2,
                AuthSpec::OpHeader { header, reference } => holds(
                    j,
                    "kind"@,
                    JsonView::Str("op_header"@),
                ) && holds(j, "header"@, JsonView::Str(header@)) && holds(
                    j,
                    "reference"@,
                    JsonView::Str(reference@),
                ) && j->Object_0.len() == 3,
                AuthSpec::OpBearer { reference } => holds(j, "kind"@, JsonView::Str("op_bearer"@))
                    && holds(j, "reference"@, JsonView::Str(reference@)) && j->Object_0.len() == 2,
                AuthSpec::OauthPkce {
                    client_id,
                    redirect_uri,
                    scopes,
                    auth_url,
                    token_url,
                    session_label,
                } => {
                    &&& holds(j, "kind"@, JsonView::Str("oauth_pkce"@))
                    &&& holds(j, "client_id"@, JsonView::Str(client_id@))
                    &&& holds(j, "redirect_uri"@, JsonView::Str(redirect_uri@))
                    &&& holds(j, "scopes"@, jstrs(texts(scopes@)))
                    &&& holds(j, "auth_url"@, JsonView::Str(auth_url@))
                    &&& holds(j, "token_url"@, JsonView::Str(token_url@))
                    &&& session_label matches Some(l) ==> holds(
                        j,
                        "session_label"@,
                        JsonView::Str(l@),
                    )
                    &&& j->Object_0.len() == 6 + (session_label is Some) as int
                },
                AuthSpec::OauthDeviceCode {
                    client_id,
                    scopes,
                    device_url,
                    token_url,
                    session_label,
                } => {
                    &&& holds(j, "kind"@, JsonView::Str("oauth_device_code"@))
                    &&& holds(j, "client_id"@, JsonView::Str(client_id@))
                    &&& holds(j, "scopes"@, jstrs(texts(scopes@)))
                    &&& holds(j, "device_url"@, JsonView::Str(device_url@))
                    &&& holds(j, "token_url"@, JsonView::Str(token_url@))
                    &&& session_label matches Some(l) ==> holds(
                        j,
                        "session_label"@,
                        JsonView::Str(l@),
                    )
                    &&& j->Object_0.len() == 5 + (session_label is Some) as int
                },
            }
        }),
{
    broadcast use lemma_with_holds;

}

/// What a shape needs is what it names: a variable, a handle into the store, a reference to
/// a vault, or a session, and no shape two of them.
pub proof fn law_shapes_name_what_they_need(a: AuthSpec)
    ensures
        a@.env() == match a {
            AuthSpec::Header { env_var, .. } => Some(env_var@),
            AuthSpec::Bearer { env_var } => Some(env_var@),
            _ => None,
        },
        a@.stored_ref() == match a {
            AuthSpec::StoredHeader { secret_ref, .. } => Some(secret_ref@),
            AuthSpec::StoredBearer { secret_ref } => Some(secret_ref@),
            _ => None,
        },
        a@.op_ref() == match a {
            AuthSpec::OpHeader { reference, .. } => Some(reference@),
            AuthSpec::OpBearer { reference } => Some(reference@),
            _ => None,
        },
        a@.label() == match a {
            AuthSpec::OauthPkce { session_label, .. } => opt_text(session_label),
            AuthSpec::OauthDeviceCode { session_label, .. } => opt_text(session_label),
            _ => None,
        },
        a@.oauth() <==> a is OauthPkce || a is OauthDeviceCode,
        a@.stored() <==> a is StoredHeader || a is StoredBearer,
        a@.op() <==> a is OpHeader || a is OpBearer,
        a@.from_env() <==> a is Header || a is Bearer,
{
}

/// A reference to a vault is one with the scheme `op` and something behind it.
pub proof fn law_references_name_a_vault(rest: Seq<char>, other: Seq<char>)
    ensures
        rest.len() > 0 ==> valid_op_ref("op://"@ + rest),
        !valid_op_ref("op://"@),
        other.len() >= 5 && other.take(5) != "op://"@ ==> !valid_op_ref(other),
        other.len() < 5 ==> !valid_op_ref(other),
{
    reveal_strlit("op://");
    assert("op://"@.len() == 5);
    assert(("op://"@ + rest).take(5) =~= "op://"@);
}

/// A shape is read only from an object that holds nothing but what the shape is written with;
/// the label of a session, which may be left out of some shapes, counts as written. An object
/// with a tag that is not known is no shape. What is read has the tag that was written.
#[verifier::rlimit(40)]
pub proof fn law_other_members_are_refused(j: JsonView, i: int)
    requires
        j is Object,
        0 <= i < j->Object_0.len(),
        auth_of(j) is Some,
        !(auth_of(j)->Some_0 is NoAuth),
    ensures
        j->Object_0[i].0 == "session_label"@ ==> auth_of(j)->Some_0.oauth(),
        j->Object_0[i].0 != "session_label"@ ==> member(
            auth_json(auth_of(j)->Some_0),
            j->Object_0[i].0,
        ) is Some,
        text_member(j, "kind"@) == Some(auth_tag(auth_of(j)->Some_0)),
{
    broadcast use crate::json::lemma_member_with;

    lemma_names_differ();
    let tag = text_member(j, "kind"@)->Some_0;
    let key = j->Object_0[i].0;
    assert(field_of(tag, key));
}

} // verus!
