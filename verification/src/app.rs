//! What the agent listener answers by itself: whether the daemon lives, whether it
//! is ready, what it is, and which tools it has.
use vstd::prelude::*;

use crate::config::{AppConfig, ToolConfig};
use crate::json::{
    holds, jempty, jnat, jstr, jstrs, lemma_with_holds, views, Json, JsonView,
};
use crate::reply::{reply, Reply, ReplyView};
use crate::secret::ResolvedCreds;
use crate::text::{cat, texts};

verus! {

/// Whether a tool needs a credential that is not there or is empty.
pub open spec fn unresolved(t: ToolConfig, creds: Map<Seq<char>, Seq<char>>) -> bool {
    t.auth is Some && !(creds.contains_key(t.name@) && creds[t.name@].len() > 0)
}

/// The names of the tools that need a credential that is not there, in order.
pub open spec fn unresolved_names(tools: Seq<ToolConfig>, creds: Map<Seq<char>, Seq<char>>) -> Seq<
    Seq<char>,
>
    decreases tools.len(),
{
    if tools.len() == 0 {
        Seq::empty()
    } else {
        let rest = unresolved_names(tools.drop_last(), creds);
        if unresolved(tools.last(), creds) {
            rest.push(tools.last().name@)
        } else {
            rest
        }
    }
}

fn is_unresolved(t: &ToolConfig, creds: &ResolvedCreds) -> (r: bool)
    ensures
        r == unresolved(*t, creds@),
{
    match &t.auth {
        Some(_) => match creds.get(t.name.as_str()) {
            Some(s) => s.expose().is_empty(),
            None => true,
        },
        None => false,
    }
}

/// The answer to the question whether the daemon lives.
pub fn livez_handler(uptime_seconds: u64) -> (r: Reply)
    ensures
        r@ == reply(
            200,
            jempty().with("status"@, jstr("live"@)).with(
                "uptime_seconds"@,
                jnat(uptime_seconds as nat),
            ),
        ),
{
    Reply::new(
        200,
        Json::object().with("status", Json::text("live")).with(
            "uptime_seconds",
            Json::count(uptime_seconds),
        ),
    )
}

/// The answer to the question whether the daemon is ready: it is where every tool
/// that needs a credential has one.
pub open spec fn readiness(
    tools: Seq<ToolConfig>,
    creds: Map<Seq<char>, Seq<char>>,
    uptime_seconds: u64,
) -> ReplyView {
    let missing = unresolved_names(tools, creds);
    if missing.len() > 0 {
        reply(
            503,
            jempty().with("status"@, jstr("not_ready"@)).with(
                "reason"@,
                jstr("tool_credentials_unresolved"@),
            ).with("tools"@, jstrs(missing)),
        )
    } else {
        reply(
            200,
            jempty().with("status"@, jstr("ready"@)).with(
                "uptime_seconds"@,
                jnat(uptime_seconds as nat),
            ),
        )
    }
}

/// The answer to the question whether the daemon is ready.
pub fn readyz_handler(config: &AppConfig, creds: &ResolvedCreds, uptime_seconds: u64) -> (r: Reply)
    ensures
        r@ == readiness(config.tools@, creds@, uptime_seconds),
{
    let mut missing: Vec<String> = Vec::new();
    let mut i: usize = 0;
    let ghost all = config.tools@;
    assert(texts(missing@) =~= unresolved_names(all.take(0), creds@));
    while i < config.tools.len()
        invariant
            i <= config.tools@.len(),
            all == config.tools@,
            texts(missing@) == unresolved_names(all.take(i as int), creds@),
        decreases config.tools.len() - i,
    {
        assert(all.take(i + 1).drop_last() =~= all.take(i as int));
        assert(all.take(i + 1).last() == all[i as int]);
        if is_unresolved(&config.tools[i], creds) {
            let ghost before = missing@;
            missing.push(config.tools[i].name.clone());
            assert(texts(missing@) =~= texts(before).push(all[i as int].name@));
        }
        i = i + 1;
    }
    assert(all.take(all.len() as int) =~= all);
    if missing.len() > 0 {
        return Reply::new(
            503,
            Json::object().with("status", Json::text("not_ready")).with(
                "reason",
                Json::text("tool_credentials_unresolved"),
            ).with("tools", Json::texts(&missing)),
        );
    }
    Reply::new(
        200,
        Json::object().with("status", Json::text("ready")).with(
            "uptime_seconds",
            Json::count(uptime_seconds),
        ),
    )
}

/// The answer to the question what the daemon is.
pub fn version_handler(version: &str, name: &str) -> (r: Reply)
    ensures
        r@ == reply(
            200,
            jempty().with("version"@, jstr(version@)).with("name"@, jstr(name@)),
        ),
{
    Reply::new(
        200,
        Json::object().with("version", Json::text(version)).with("name", Json::text(name)),
    )
}

/// What is shown of a tool.
pub open spec fn tool_json(t: ToolConfig) -> JsonView {
    jempty().with("name"@, jstr(t.name@)).with("type"@, jstr("api"@)).with(
        "path"@,
        jstr("/api/"@ + t.name@),
    ).with("description"@, jstr(t.description@))
}

/// The tools that can be called, in order: those that need no credential, and those
/// that have theirs.
pub open spec fn active_json(tools: Seq<ToolConfig>, creds: Map<Seq<char>, Seq<char>>) -> Seq<
    JsonView,
>
    decreases tools.len(),
{
    if tools.len() == 0 {
        Seq::empty()
    } else {
        let rest = active_json(tools.drop_last(), creds);
        if unresolved(tools.last(), creds) {
            rest
        } else {
            rest.push(tool_json(tools.last()))
        }
    }
}

/// The list of the tools that can be called.
pub fn tools_handler(config: &AppConfig, creds: &ResolvedCreds) -> (r: Reply)
    ensures
        r@ == reply(
            200,
            jempty().with("tools"@, JsonView::Array(active_json(config.tools@, creds@))),
        ),
{
    let mut out: Vec<Json> = Vec::new();
    let mut i: usize = 0;
    let ghost all = config.tools@;
    assert(views(out@) =~= active_json(all.take(0), creds@));
    while i < config.tools.len()
        invariant
            i <= config.tools@.len(),
            all == config.tools@,
            views(out@) == active_json(all.take(i as int), creds@),
        decreases config.tools.len() - i,
    {
        assert(all.take(i + 1).drop_last() =~= all.take(i as int));
        assert(all.take(i + 1).last() == all[i as int]);
        if !is_unresolved(&config.tools[i], creds) {
            let t = &config.tools[i];
            let j = Json::object().with("name", Json::text(t.name.as_str())).with(
                "type",
                Json::text("api"),
            ).with("path", Json::text(cat("/api/", t.name.as_str()).as_str())).with(
                "description",
                Json::text(t.description.as_str()),
            );
            let ghost before = out@;
            out.push(j);
            assert(views(out@) =~= views(before).push(j@));
        }
        i = i + 1;
    }
    assert(all.take(all.len() as int) =~= all);
    Reply::new(200, Json::object().with("tools", Json::array(out)))
}

proof fn lemma_counts(tools: Seq<ToolConfig>, creds: Map<Seq<char>, Seq<char>>)
    ensures
        active_json(tools, creds).len() + unresolved_names(tools, creds).len() == tools.len(),
    decreases tools.len(),
{
    if tools.len() > 0 {
        lemma_counts(tools.drop_last(), creds);
    }
}

/// The daemon is ready exactly where every tool can be called.
pub proof fn law_ready_when_every_tool_can_be_called(
    tools: Seq<ToolConfig>,
    creds: Map<Seq<char>, Seq<char>>,
    uptime_seconds: u64,
)
    ensures
        readiness(tools, creds, uptime_seconds).status == 200 <==> active_json(tools, creds).len()
            == tools.len(),
        readiness(tools, creds, uptime_seconds).status == 503 <==> exists|i: int|
            0 <= i < tools.len() && #[trigger] unresolved(tools[i], creds),
{
    lemma_counts(tools, creds);
    lemma_missing(tools, creds);
}

proof fn lemma_missing(tools: Seq<ToolConfig>, creds: Map<Seq<char>, Seq<char>>)
    ensures
        unresolved_names(tools, creds).len() > 0 <==> exists|i: int|
            0 <= i < tools.len() && #[trigger] unresolved(tools[i], creds),
    decreases tools.len(),
{
    if tools.len() > 0 {
        let head = tools.drop_last();
        lemma_missing(head, creds);
        if unresolved_names(tools, creds).len() > 0 {
            if unresolved(tools.last(), creds) {
                assert(unresolved(tools[tools.len() - 1], creds));
            } else {
                let i = choose|i: int| 0 <= i < head.len() && #[trigger] unresolved(head[i], creds);
                assert(unresolved(tools[i], creds));
            }
        } else if exists|i: int| 0 <= i < tools.len() && #[trigger] unresolved(tools[i], creds) {
            let i = choose|i: int| 0 <= i < tools.len() && #[trigger] unresolved(tools[i], creds);
            assert(unresolved(head[i], creds));
        }
    }
}

/// A tool is listed as callable, and not as missing its credential, exactly if it needs
/// none or has one that is not empty; each tool stands on one of the two lists, in the
/// order of the tools.
pub proof fn law_tools_are_callable_or_named_as_missing(
    tools: Seq<ToolConfig>,
    t: ToolConfig,
    creds: Map<Seq<char>, Seq<char>>,
)
    ensures
        active_json(Seq::empty(), creds).len() == 0,
        unresolved_names(Seq::empty(), creds).len() == 0,
        (t.auth is None || (creds.contains_key(t.name@) && creds[t.name@].len() > 0)) ==> {
            &&& active_json(tools.push(t), creds) == active_json(tools, creds) + seq![
                tool_json(t),
            ]
            &&& unresolved_names(tools.push(t), creds) == unresolved_names(tools, creds)
        },
        t.auth is Some && (!creds.contains_key(t.name@) || creds[t.name@].len() == 0) ==> {
            &&& active_json(tools.push(t), creds) == active_json(tools, creds)
            &&& unresolved_names(tools.push(t), creds) == unresolved_names(tools, creds) + seq![
                t.name@,
            ]
        },
{
    assert(tools.push(t).drop_last() =~= tools);
    assert(active_json(tools, creds) + seq![tool_json(t)] =~= active_json(tools, creds).push(
        tool_json(t),
    ));
    assert(unresolved_names(tools, creds) + seq![t.name@] =~= unresolved_names(tools, creds).push(
        t.name@,
    ));
}

/// An agent sees of a tool its name, where it is called, and its description, and nothing
/// else.
pub proof fn law_tools_show_name_path_and_description(t: ToolConfig)
    ensures
        tool_json(t) == JsonView::Object(
            seq![
                ("name"@, JsonView::Str(t.name@)),
                ("type"@, JsonView::Str("api"@)),
                ("path"@, JsonView::Str("/api/"@ + t.name@)),
                ("description"@, JsonView::Str(t.description@)),
            ],
        ),
{
    assert(tool_json(t)->Object_0 =~= seq![
        ("name"@, JsonView::Str(t.name@)),
        ("type"@, JsonView::Str("api"@)),
        ("path"@, JsonView::Str("/api/"@ + t.name@)),
        ("description"@, JsonView::Str(t.description@)),
    ]);
}

/// A daemon that is ready says how long it has run; one that is not names every tool whose
/// credential is missing.
pub proof fn law_readiness_names_what_is_missing(
    tools: Seq<ToolConfig>,
    creds: Map<Seq<char>, Seq<char>>,
    uptime_seconds: u64,
)
    ensures
        ({
            let r = readiness(tools, creds, uptime_seconds);
            let missing = unresolved_names(tools, creds);
            &&& r.status == 200 || r.status == 503
            &&& r.status == 503 <==> missing.len() > 0
            &&& r.status == 503 ==> holds(r.body->Some_0, "tools"@, jstrs(missing)) && holds(
                r.body->Some_0,
                "status"@,
                JsonView::Str("not_ready"@),
            )
            &&& r.status == 200 ==> holds(
                r.body->Some_0,
                "uptime_seconds"@,
                jnat(uptime_seconds as nat),
            ) && holds(r.body->Some_0, "status"@, JsonView::Str("ready"@))
        }),
{
    broadcast use lemma_with_holds;

}

/// A daemon that is not ready says that credentials are missing.
pub proof fn law_not_ready_says_why(
    tools: Seq<ToolConfig>,
    creds: Map<Seq<char>, Seq<char>>,
    uptime_seconds: u64,
)
    requires
        unresolved_names(tools, creds).len() > 0,
    ensures
        holds(
            readiness(tools, creds, uptime_seconds).body->Some_0,
            "reason"@,
            JsonView::Str("tool_credentials_unresolved"@),
        ),
{
    broadcast use lemma_with_holds;

}

} // verus!
