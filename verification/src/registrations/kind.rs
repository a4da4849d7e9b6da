//! The three kinds of registration.
use vstd::prelude::*;

use crate::text::same;

verus! {

/// What a registration stands for.
///
/// - `Model`: a language, embedding, audio or image model; agents find it under
///   `GET /models`.
/// - `Tool`: any other upstream; agents find it under `GET /tools`.
/// - `Infra`: middleware that the proxy itself calls; agents never see it.
#[derive(Debug, Clone, Copy, PartialEq, Eq, Hash, Structural)]
pub enum Kind {
    Model,
    Tool,
    Infra,
}

/// The name of a kind.
pub open spec fn kind_name(k: Kind) -> Seq<char> {
    match k {
        Kind::Model => "model"@,
        Kind::Tool => "tool"@,
        Kind::Infra => "infra"@,
    }
}

/// The path segment under which a kind is administered.
pub open spec fn kind_segment(k: Kind) -> Seq<char> {
    match k {
        Kind::Model => "models"@,
        Kind::Tool => "tools"@,
        Kind::Infra => "infra"@,
    }
}

/// The kind that a name stands for.
pub open spec fn kind_named(s: Seq<char>) -> Option<Kind> {
    if s == "model"@ {
        Some(Kind::Model)
    } else if s == "tool"@ {
        Some(Kind::Tool)
    } else if s == "infra"@ {
        Some(Kind::Infra)
    } else {
        None
    }
}

impl Kind {
    /// The path segment under which this kind is administered.
    pub fn url_segment(&self) -> (r: &'static str)
        ensures
            r@ == kind_segment(*self),
    {
        match self {
            Kind::Model => "models",
            Kind::Tool => "tools",
            Kind::Infra => "infra",
        }
    }

    /// The name, as it is stored and shown.
    pub fn as_str(&self) -> (r: &'static str)
        ensures
            r@ == kind_name(*self),
    {
        match self {
            Kind::Model => "model",
            Kind::Tool => "tool",
            Kind::Infra => "infra",
        }
    }

    /// The kind with the given name.
    pub fn named(s: &str) -> (r: Option<Kind>)
        ensures
            r == kind_named(s@),
    {
        if same(s, "model") {
            Some(Kind::Model)
        } else if same(s, "tool") {
            Some(Kind::Tool)
        } else if same(s, "infra") {
            Some(Kind::Infra)
        } else {
            None
        }
    }
}

/// A kind's name stands for that kind, and no other kind has it.
pub proof fn law_kind_name_round_trip(k: Kind)
    ensures
        kind_named(kind_name(k)) == Some(k),
{
    reveal_strlit("model");
    reveal_strlit("tool");
    reveal_strlit("infra");
    assert("model"@[0] == 'm' && "tool"@[0] == 't' && "infra"@[0] == 'i');
}

/// Agents find models under `models` and tools under `tools`, and no two kinds share a
/// place or a name.
pub proof fn law_kinds_have_their_own_places(a: Kind, b: Kind)
    ensures
        kind_segment(Kind::Model) == "models"@,
        kind_segment(Kind::Tool) == "tools"@,
        kind_segment(Kind::Infra) == "infra"@,
        kind_name(Kind::Model) == "model"@,
        kind_name(Kind::Tool) == "tool"@,
        kind_name(Kind::Infra) == "infra"@,
        a != b ==> kind_segment(a) != kind_segment(b) && kind_name(a) != kind_name(b),
{
    law_kind_name_round_trip(a);
    law_kind_name_round_trip(b);
    reveal_strlit("models");
    reveal_strlit("tools");
    reveal_strlit("infra");
    assert("models"@[0] == 'm' && "tools"@[0] == 't' && "infra"@[0] == 'i');
}

/// A text that is no kind's name stands for no kind.
pub proof fn law_other_names_are_no_kind(s: Seq<char>)
    ensures
        kind_named(s) matches Some(k) ==> kind_name(k) == s,
        kind_named(s) is None <==> s != "model"@ && s != "tool"@ && s != "infra"@,
{
}

} // verus!
