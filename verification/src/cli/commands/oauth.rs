//! `oauth`: the OAuth sessions.
use vstd::prelude::*;

use crate::cli::client::{op_call, Answer, AnswerView, Call, CallView, CliClient, CliError, CliFault};
use crate::cli::commands::registration::{planned, with_token};
use crate::json::{jempty, jstr, Json, JsonView};
use crate::text::{
    cat, cat3, cat4, chars_of, has_char, opt_text, quoted, quoted_text, same, trim, trimmed,
};

verus! {

/// The commands on OAuth sessions.
#[derive(Debug)]
pub enum OauthCmd {
    /// Keeps a session from a refresh token that was obtained elsewhere.
    Bootstrap(BootstrapArgs),
    /// Shows a session.
    Status { name: String, label: Option<String> },
    /// Forgets a session.
    Revoke { name: String, label: Option<String> },
    /// Lists all sessions.
    List,
}

/// What a session is made from.
#[derive(Debug)]
pub struct BootstrapArgs {
    /// The registration.
    pub name: String,
    /// The session's label.
    pub label: Option<String>,
    /// The refresh token.
    pub refresh_token: Option<String>,
    /// Whether the refresh token is read from the standard input.
    pub refresh_token_stdin: bool,
}

/// Whether a text can be a session's label.
pub open spec fn label_chars(s: Seq<char>) -> bool {
    forall|i: int| 0 <= i < s.len() ==> label_char(#[trigger] s[i])
}

/// Whether a character can stand in a session's label.
pub open spec fn label_char(c: char) -> bool {
    'a' <= c <= 'z' || 'A' <= c <= 'Z' || '0' <= c <= '9' || c == '-' || c == '_'
}

/// Whether a text can be a session's label.
pub fn is_label(s: &str) -> (r: bool)
    ensures
        r == label_chars(s@),
{
    let cs = chars_of(s);
    let mut i: usize = 0;
    while i < cs.len()
        invariant
            cs@ == s@,
            i <= cs@.len(),
            forall|k: int| 0 <= k < i ==> label_char(#[trigger] cs@[k]),
        decreases cs.len() - i,
    {
        let c = cs[i];
        if !(('a' <= c && c <= 'z') || ('A' <= c && c <= 'Z') || ('0' <= c && c <= '9') || c == '-'
            || c == '_') {
            assert(!label_char(s@[i as int]));
            return false;
        }
        i = i + 1;
    }
    true
}

/// The error for a text that can be no label.
pub open spec fn label_fault(label: Seq<char>) -> CliFault {
    CliFault::Usage("session label must be ascii alphanumeric / '-' / '_'; got: "@ + quoted_text(label))
}

/// The error for a text that can be no label.
pub fn label_error(label: &str) -> (r: CliError)
    ensures
        r@ == label_fault(label@),
{
    CliError::Usage(
        cat(
            "session label must be ascii alphanumeric / '-' / '_'; got: ",
            quoted(label).as_str(),
        ),
    )
}

/// A path with its label: none where it is the default one.
pub open spec fn labelled(path: Seq<char>, label: Option<Seq<char>>) -> Result<Seq<char>, CliFault> {
    match label {
        Some(l) if l != "default"@ => if !label_chars(l) {
            Err(label_fault(l))
        } else if path.contains('?') {
            Ok(path + "&"@ + "label="@ + l)
        } else {
            Ok(path + "?"@ + "label="@ + l)
        },
        _ => Ok(path),
    }
}

/// A path with its label as a query.
pub fn with_label_query(path: &str, label: Option<&str>) -> (r: Result<String, CliError>)
    ensures
        match r {
            Ok(p) => labelled(
                path@,
                match label {
                    Some(l) => Some(l@),
                    None => None,
                },
            ) == Ok::<Seq<char>, CliFault>(p@),
            Err(e) => labelled(
                path@,
                match label {
                    Some(l) => Some(l@),
                    None => None,
                },
            ) == Err::<Seq<char>, CliFault>(e@),
        },
{
    match label {
        Some(l) => if same(l, "default") {
            Ok(path.to_owned())
        } else if !is_label(l) {
            Err(label_error(l))
        } else {
            let sep = if has_char(path, '?') {
                "&"
            } else {
                "?"
            };
            Ok(cat4(path, sep, "label=", l))
        },
        None => Ok(path.to_owned()),
    }
}

/// The path of a session's registration.
pub open spec fn oauth_path(name: Seq<char>) -> Seq<char> {
    "/admin/operator/oauth/"@ + name
}

/// The refresh token that the arguments name: the one given, or what was read from
/// the standard input. One of them must be named, and it must hold more than
/// spaces.
pub open spec fn token_named(args: BootstrapArgs, stdin: Result<String, String>) -> Result<
    Seq<char>,
    CliFault,
> {
    match args.refresh_token {
        Some(t) => token_kept(t@),
        None => if args.refresh_token_stdin {
            match stdin {
                Ok(t) => token_kept(t@),
                Err(e) => Err(CliFault::Usage("read stdin: "@ + e@)),
            }
        } else {
            Err(
                CliFault::Usage(
                    "must provide either --refresh-token <TOKEN> or --refresh-token-stdin"@,
                ),
            )
        },
    }
}

/// A refresh token without the spaces around it.
pub open spec fn token_kept(t: Seq<char>) -> Result<Seq<char>, CliFault> {
    if trimmed(t).len() == 0 {
        Err(CliFault::Usage("refresh token is empty"@))
    } else {
        Ok(trimmed(t))
    }
}

/// What making a session comes to.
pub open spec fn bootstrap_plan(
    args: BootstrapArgs,
    stdin: Result<String, String>,
    token: Option<Seq<char>>,
) -> Result<CallView, CliFault> {
    match token_named(args, stdin) {
        Err(e) => Err(e),
        Ok(refresh_token) => match token {
            None => Err(CliFault::MissingOpToken),
            Some(t) => match labelled(
                oauth_path(args.name@) + "/bootstrap"@,
                opt_text(args.label),
            ) {
                Err(e) => Err(e),
                Ok(path) => Ok(
                    op_call(
                        "POST"@,
                        path,
                        t,
                        Some(jempty().with("refresh_token"@, jstr(refresh_token))),
                        AnswerView::Whole,
                    ),
                ),
            },
        },
    }
}

/// What showing or forgetting a session comes to.
pub open spec fn session_plan(
    method: Seq<char>,
    name: Seq<char>,
    label: Option<Seq<char>>,
    token: Option<Seq<char>>,
    answer: AnswerView,
) -> Result<CallView, CliFault> {
    match token {
        None => Err(CliFault::MissingOpToken),
        Some(t) => match labelled(oauth_path(name), label) {
            Err(e) => Err(e),
            Ok(path) => Ok(op_call(method, path, t, None, answer)),
        },
    }
}

/// What is shown of a session that was forgotten.
pub open spec fn revoked_json(name: Seq<char>, label: Option<Seq<char>>) -> JsonView {
    jempty().with("name"@, jstr(name)).with(
        "label"@,
        jstr(
            match label {
                Some(l) => l,
                None => "default"@,
            },
        ),
    ).with("revoked"@, JsonView::Bool(true))
}

/// What a command on OAuth sessions comes to.
pub open spec fn oauth_plan(
    cmd: OauthCmd,
    stdin: Result<String, String>,
    token: Option<Seq<char>>,
) -> Result<CallView, CliFault> {
    match cmd {
        OauthCmd::Bootstrap(args) => bootstrap_plan(args, stdin, token),
        OauthCmd::Status { name, label } => session_plan(
            "GET"@,
            name@,
            opt_text(label),
            token,
            AnswerView::Whole,
        ),
        OauthCmd::Revoke { name, label } => session_plan(
            "DELETE"@,
            name@,
            opt_text(label),
            token,
            AnswerView::Own(revoked_json(name@, opt_text(label))),
        ),
        OauthCmd::List => with_token(
            token,
            op_call(
                "GET"@,
                "/admin/operator/oauth"@,
                token->0,
                None,
                AnswerView::Member("sessions"@),
            ),
        ),
    }
}

/// Whether the arguments name the refresh token in at most one way.
pub open spec fn one_source(cmd: OauthCmd) -> bool {
    match cmd {
        OauthCmd::Bootstrap(args) => !(args.refresh_token is Some && args.refresh_token_stdin),
        _ => true,
    }
}

fn opt_str(o: &Option<String>) -> (r: Option<&str>)
    ensures
        match r {
            Some(s) => opt_text(*o) == Some(s@),
            None => *o is None,
        },
{
    match o {
        Some(s) => Some(s.as_str()),
        None => None,
    }
}

fn bootstrap(args: BootstrapArgs, stdin: Result<String, String>, token: Option<String>) -> (r:
    Result<Call, CliError>)
    requires
        !(args.refresh_token is Some && args.refresh_token_stdin),
    ensures
        planned(r, bootstrap_plan(args, stdin, opt_text(token))),
{
    let given = match (args.refresh_token, args.refresh_token_stdin) {
        (Some(t), _) => t,
        (None, true) => match stdin {
            Ok(t) => t,
            Err(e) => return Err(CliError::Usage(cat("read stdin: ", e.as_str()))),
        },
        (None, false) => return Err(
            CliError::Usage(
                "must provide either --refresh-token <TOKEN> or --refresh-token-stdin".to_owned(),
            ),
        ),
    };
    let kept = trim(given.as_str());
    if kept.as_str().is_empty() {
        return Err(CliError::Usage("refresh token is empty".to_owned()));
    }
    let t = match CliClient::op_token(token) {
        Ok(t) => t,
        Err(e) => return Err(e),
    };
    let path = cat3("/admin/operator/oauth/", args.name.as_str(), "/bootstrap");
    match with_label_query(path.as_str(), opt_str(&args.label)) {
        Ok(p) => {
            let body = Json::object().with("refresh_token", Json::text(kept.as_str()));
            Ok(Call::operator("POST", p, t, Some(body), Answer::Whole))
        },
        Err(e) => Err(e),
    }
}

fn session_call(
    method: &'static str,
    name: &str,
    label: &Option<String>,
    token: Option<String>,
    answer: Answer,
) -> (r: Result<Call, CliError>)
    ensures
        planned(r, session_plan(method@, name@, opt_text(*label), opt_text(token), answer@)),
{
    let t = match CliClient::op_token(token) {
        Ok(t) => t,
        Err(e) => return Err(e),
    };
    let path = cat("/admin/operator/oauth/", name);
    match with_label_query(path.as_str(), opt_str(label)) {
        Ok(p) => Ok(Call::operator(method, p, t, None, answer)),
        Err(e) => Err(e),
    }
}

/// What a command on OAuth sessions asks of the daemon. `stdin` is what was read
/// from the standard input; it counts only where a command asks for it.
pub fn run(cmd: OauthCmd, stdin: Result<String, String>, token: Option<String>) -> (r: Result<
    Call,
    CliError,
>)
    requires
        one_source(cmd),
    ensures
        planned(r, oauth_plan(cmd, stdin, opt_text(token))),
{
    match cmd {
        OauthCmd::Bootstrap(args) => bootstrap(args, stdin, token),
        OauthCmd::Status { name, label } => session_call(
            "GET",
            name.as_str(),
            &label,
            token,
            Answer::Whole,
        ),
        OauthCmd::Revoke { name, label } => {
            let shown_label = match &label {
                Some(l) => Json::text(l.as_str()),
                None => Json::text("default"),
            };
            let own = Json::object().with("name", Json::text(name.as_str())).with(
                "label",
                shown_label,
            ).with("revoked", Json::Bool(true));
            session_call("DELETE", name.as_str(), &label, token, Answer::Own(own))
        },
        OauthCmd::List => {
            let t = match CliClient::op_token(token) {
                Ok(t) => t,
                Err(e) => return Err(e),
            };
            Ok(
                Call::operator(
                    "GET",
                    "/admin/operator/oauth".to_owned(),
                    t,
                    None,
                    Answer::Member("sessions"),
                ),
            )
        },
    }
}

/// The label that goes into a query holds nothing that a query gives a meaning to.
pub proof fn law_labels_need_no_escape(path: Seq<char>, l: Seq<char>)
    requires
        labelled(path, Some(l)) is Ok,
        l != "default"@,
    ensures
        !l.contains('&') && !l.contains('?') && !l.contains('#') && !l.contains('%')
            && !l.contains('=') && !l.contains('/') && !l.contains(' '),
{
    assert(label_chars(l));
    assert forall|c: char| l.contains(c) implies label_char(c) by {
        let i = choose|i: int| 0 <= i < l.len() && l[i] == c;
        assert(label_char(l[i]));
    }
    assert(!label_char('&') && !label_char('?') && !label_char('#') && !label_char('%')
        && !label_char('=') && !label_char('/') && !label_char(' '));
}

/// A session is started with the refresh token that is named, or with that of the standard
/// input, without the white space around it; an empty one is a fault of the command line.
pub proof fn law_refresh_token_is_the_named_one(
    args: BootstrapArgs,
    stdin: Result<String, String>,
)
    ensures
        args.refresh_token matches Some(s) ==> (trimmed(s@).len() > 0 ==> token_named(args, stdin)
            == Ok::<Seq<char>, CliFault>(trimmed(s@))),
        args.refresh_token is None && args.refresh_token_stdin && stdin is Ok && trimmed(
            stdin->Ok_0@,
        ).len() > 0 ==> token_named(args, stdin) == Ok::<Seq<char>, CliFault>(
            trimmed(stdin->Ok_0@),
        ),
        args.refresh_token is None && !args.refresh_token_stdin ==> token_named(args, stdin) is Err,
        token_named(args, stdin) matches Ok(s) ==> s.len() > 0,
        token_named(args, stdin) matches Err(e) ==> e is Usage,
{
}

/// Each command goes to the registration that it names, with the operator's token; the label
/// goes along unless it is the default one.
pub proof fn law_commands_reach_their_session(
    args: BootstrapArgs,
    name: String,
    label: Option<String>,
    stdin: Result<String, String>,
    t: Seq<char>,
)
    ensures
        oauth_plan(OauthCmd::Bootstrap(args), stdin, Some(t)) matches Ok(c) ==> {
            &&& c.method == "POST"@ && c.token == t
            &&& labelled(
                "/admin/operator/oauth/"@ + args.name@ + "/bootstrap"@,
                opt_text(args.label),
            ) == Ok::<Seq<char>, CliFault>(c.path)
            &&& token_named(args, stdin) is Ok && c.body == Some(
                JsonView::Object(
                    seq![("refresh_token"@, JsonView::Str(token_named(args, stdin)->Ok_0))],
                ),
            )
        },
        oauth_plan(OauthCmd::Status { name, label }, stdin, Some(t)) matches Ok(c) ==> c.method
            == "GET"@ && c.token == t && c.body is None && labelled(
            "/admin/operator/oauth/"@ + name@,
            opt_text(label),
        ) == Ok::<Seq<char>, CliFault>(c.path),
        oauth_plan(OauthCmd::Revoke { name, label }, stdin, Some(t)) matches Ok(c) ==> c.method
            == "DELETE"@ && c.token == t && c.body is None && labelled(
            "/admin/operator/oauth/"@ + name@,
            opt_text(label),
        ) == Ok::<Seq<char>, CliFault>(c.path),
        oauth_plan(OauthCmd::List, stdin, Some(t)) matches Ok(c) && c.method == "GET"@ && c.path
            == "/admin/operator/oauth"@ && c.token == t,
        oauth_plan(OauthCmd::List, stdin, None) == Err::<CallView, CliFault>(
            CliFault::MissingOpToken,
        ),
{
    if let Ok(c) = oauth_plan(OauthCmd::Bootstrap(args), stdin, Some(t)) {
        let r = token_named(args, stdin)->Ok_0;
        assert(jempty().with("refresh_token"@, jstr(r))->Object_0 =~= seq![
            ("refresh_token"@, JsonView::Str(r)),
        ]);
    }
}

/// A label goes behind the path as a query, after what is asked already; the default label
/// and none are the same, and a label with other characters than letters, digits, dashes and
/// underscores is refused.
pub proof fn law_labels_are_asked_for(path: Seq<char>, l: Seq<char>)
    ensures
        labelled(path, None) == Ok::<Seq<char>, CliFault>(path),
        labelled(path, Some("default"@)) == Ok::<Seq<char>, CliFault>(path),
        l != "default"@ && label_chars(l) && !path.contains('?') ==> labelled(path, Some(l))
            == Ok::<Seq<char>, CliFault>(path + "?"@ + "label="@ + l),
        l != "default"@ && label_chars(l) && path.contains('?') ==> labelled(path, Some(l)) == Ok::<
            Seq<char>,
            CliFault,
        >(path + "&"@ + "label="@ + l),
        l != "default"@ && labelled(path, Some(l)) is Ok ==> forall|c: char| #[trigger]
            l.contains(c) ==> 'a' <= c <= 'z' || 'A' <= c <= 'Z' || '0' <= c <= '9' || c == '-'
                || c == '_',
{
    if l != "default"@ && labelled(path, Some(l)) is Ok {
        assert forall|c: char| #[trigger] l.contains(c) implies 'a' <= c <= 'z' || 'A' <= c <= 'Z'
            || '0' <= c <= '9' || c == '-' || c == '_' by {
            let i = l.index_of(c);
            assert(label_char(l[i]));
        }
    }
}

/// A session that was dropped is shown by its name and label, the default one where none was
/// given.
pub proof fn law_dropped_sessions_are_named(name: Seq<char>, label: Option<Seq<char>>)
    ensures
        revoked_json(name, label) == JsonView::Object(
            seq![
                ("name"@, JsonView::Str(name)),
                (
                    "label"@,
                    JsonView::Str(
                        if label is Some {
                            label->Some_0
                        } else {
                            "default"@
                        },
                    ),
                ),
                ("revoked"@, JsonView::Bool(true)),
            ],
        ),
{
    let shown = if label is Some {
        label->Some_0
    } else {
        "default"@
    };
    assert(revoked_json(name, label)->Object_0 =~= seq![
        ("name"@, JsonView::Str(name)),
        ("label"@, JsonView::Str(shown)),
        ("revoked"@, JsonView::Bool(true)),
    ]);
}

/// A label is made of the letters of the alphabet, digits, dashes and underscores.
pub proof fn law_what_labels_are_made_of(c: char)
    ensures
        label_char(c) <==> (97 <= c as int <= 122) || (65 <= c as int <= 90) || (48 <= c as int
            <= 57) || c as int == 45 || c as int == 95,
{
}

} // verus!
