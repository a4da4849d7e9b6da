//! Configuration fields that were renamed, deprecated or removed, and the
//! warning that each of them gives once.
use vstd::prelude::*;

use crate::text::{holds, same, texts};

verus! {

/// What became of a field.
#[derive(Debug, Clone, Copy)]
pub enum DeprecationDisposition {
    /// It has another name now.
    Renamed { new_name: &'static str },
    /// It still works.
    Deprecated,
    /// It is ignored.
    Removed,
}

/// A field that is no longer what it was.
#[derive(Debug, Clone, Copy)]
pub struct DeprecationEntry {
    /// The dotted path of the field; the elements of a list are written `[]`.
    pub field_path: &'static str,
    pub disposition: DeprecationDisposition,
    pub since_version: &'static str,
    pub removal_target: Option<&'static str>,
}

/// What an operator is told of a field.
#[derive(Debug, Clone, Copy)]
pub struct DeprecationWarning {
    pub entry: DeprecationEntry,
    pub message: &'static str,
}

/// The fields that are known to have changed, and those that were met already.
pub struct DeprecationRegistry {
    entries: Vec<DeprecationEntry>,
    warned_once: Vec<String>,
}

/// The position of the first entry for a field, from position `from` on; the
/// number of entries where there is none.
pub open spec fn entry_index(entries: Seq<DeprecationEntry>, path: Seq<char>, from: int) -> int
    decreases entries.len() - from,
{
    if from >= entries.len() {
        entries.len() as int
    } else if entries[from].field_path@ == path {
        from
    } else {
        entry_index(entries, path, from + 1)
    }
}

/// Whether there is an entry for a field.
pub open spec fn known(entries: Seq<DeprecationEntry>, path: Seq<char>) -> bool {
    entry_index(entries, path, 0) < entries.len()
}

/// Whether meeting a field is worth a warning: it is known and was not met
/// before.
pub open spec fn is_news(
    table: Seq<DeprecationEntry>,
    warned: Set<Seq<char>>,
    path: Seq<char>,
) -> bool {
    known(table, path) && !warned.contains(path)
}

/// The fields that were met, once one more is.
pub open spec fn after_notice(
    table: Seq<DeprecationEntry>,
    warned: Set<Seq<char>>,
    path: Seq<char>,
) -> Set<Seq<char>> {
    if known(table, path) {
        warned.insert(path)
    } else {
        warned
    }
}

pub proof fn lemma_entry_index(entries: Seq<DeprecationEntry>, path: Seq<char>, from: int)
    requires
        0 <= from <= entries.len(),
    ensures
        from <= entry_index(entries, path, from) <= entries.len(),
        entry_index(entries, path, from) < entries.len() ==> entries[entry_index(
            entries,
            path,
            from,
        )].field_path@ == path,
    decreases entries.len() - from,
{
    if from < entries.len() && entries[from].field_path@ != path {
        lemma_entry_index(entries, path, from + 1);
    }
}

impl DeprecationRegistry {
    /// The entries, in the order in which they were given.
    pub closed spec fn table(&self) -> Seq<DeprecationEntry> {
        self.entries@
    }

    /// The fields that were met already.
    pub closed spec fn warned(&self) -> Set<Seq<char>> {
        texts(self.warned_once@).to_set()
    }

    /// A registry with the given entries; no field was met yet.
    pub fn new(entries: Vec<DeprecationEntry>) -> (r: DeprecationRegistry)
        ensures
            r.table() == entries@,
            r.warned() == Set::<Seq<char>>::empty(),
    {
        let r = DeprecationRegistry { entries, warned_once: Vec::new() };
        assert(r.warned() =~= Set::<Seq<char>>::empty());
        r
    }

    /// The first entry for `field_path`.
    pub fn lookup(&self, field_path: &str) -> (r: Option<&DeprecationEntry>)
        ensures
            match r {
                Some(e) => known(self.table(), field_path@) && *e == self.table()[entry_index(
                    self.table(),
                    field_path@,
                    0,
                )],
                None => !known(self.table(), field_path@),
            },
    {
        let mut i: usize = 0;
        while i < self.entries.len()
            invariant
                i <= self.entries@.len(),
                entry_index(self.entries@, field_path@, 0) == entry_index(
                    self.entries@,
                    field_path@,
                    i as int,
                ),
            decreases self.entries.len() - i,
        {
            if same(self.entries[i].field_path, field_path) {
                return Some(&self.entries[i]);
            }
            i = i + 1;
        }
        None
    }

    /// Records that a field was met. True the first time that a known field is
    /// met; false after that, and for a field without an entry.
    pub fn notice(&mut self, field_path: &str) -> (r: bool)
        ensures
            final(self).table() == old(self).table(),
            r == is_news(old(self).table(), old(self).warned(), field_path@),
            final(self).warned() == after_notice(
                old(self).table(),
                old(self).warned(),
                field_path@,
            ),
    {
        if self.lookup(field_path).is_none() {
            return false;
        }
        if holds(&self.warned_once, field_path) {
            assert(self.warned().insert(field_path@) =~= self.warned());
            return false;
        }
        let ghost before = self.warned_once@;
        let s: String = field_path.to_owned();
        self.warned_once.push(s);
        proof {
            crate::text::lemma_texts_push(before, s);
            let t = texts(before);
            assert(texts(self.warned_once@) == t.push(field_path@));
            assert forall|x: Seq<char>|
                #![auto]
                t.push(field_path@).contains(x) <==> t.contains(x) || x == field_path@ by {
                if t.contains(x) {
                    let i = choose|i: int| 0 <= i < t.len() && t[i] == x;
                    assert(t.push(field_path@)[i] == x);
                }
                if x == field_path@ {
                    assert(t.push(field_path@)[t.len() as int] == x);
                }
            }
            assert(self.warned() =~= old(self).warned().insert(field_path@));
        }
        true
    }

    /// The entries, in the order in which they were given.
    pub fn entries(&self) -> (r: &[DeprecationEntry])
        ensures
            r@ == self.table(),
    {
        self.entries.as_slice()
    }
}

/// How often `notice` answers `true` for `path`, when the fields of `history`
/// are met one after the other and those of `warned` were met before.
pub open spec fn times_noticed(
    table: Seq<DeprecationEntry>,
    warned: Set<Seq<char>>,
    history: Seq<Seq<char>>,
    path: Seq<char>,
) -> nat
    decreases history.len(),
{
    if history.len() == 0 {
        0
    } else {
        let field = history[0];
        let now: nat = if field == path && is_news(table, warned, field) {
            1
        } else {
            0
        };
        now + times_noticed(table, after_notice(table, warned, field), history.skip(1), path)
    }
}

/// However often a field is met, it is noticed at most once: exactly once where
/// it is known, is met, and was not met before.
pub proof fn law_noticed_once(
    table: Seq<DeprecationEntry>,
    warned: Set<Seq<char>>,
    history: Seq<Seq<char>>,
    path: Seq<char>,
)
    ensures
        times_noticed(table, warned, history, path) == (if known(table, path) && history.contains(
            path,
        ) && !warned.contains(path) {
            1nat
        } else {
            0nat
        }),
    decreases history.len(),
{
    if history.len() > 0 {
        let field = history[0];
        let rest = history.skip(1);
        law_noticed_once(table, after_notice(table, warned, field), rest, path);
        if history.contains(path) && field != path {
            let i = choose|i: int| 0 <= i < history.len() && history[i] == path;
            assert(rest[i - 1] == path);
        }
        if rest.contains(path) {
            let i = choose|i: int| 0 <= i < rest.len() && rest[i] == path;
            assert(history[i + 1] == path);
        }
    }
}

/// The entries that the daemon ships with.
pub open spec fn default_table() -> Seq<DeprecationEntry> {
    seq![
        DeprecationEntry {
            field_path: "tools[].cloud",
            disposition: DeprecationDisposition::Renamed { new_name: "tools[].egress" },
            since_version: "0.2.0",
            removal_target: Some("0.3.0"),
        },
        DeprecationEntry {
            field_path: "telemetry",
            disposition: DeprecationDisposition::Removed,
            since_version: "0.2.0",
            removal_target: None,
        },
        DeprecationEntry {
            field_path: "tools[].timeout_seconds",
            disposition: DeprecationDisposition::Renamed {
                new_name: "tools[].timeouts.request_seconds",
            },
            since_version: "0.2.0",
            removal_target: Some("0.3.0"),
        },
        DeprecationEntry {
            field_path: "inbound_auth.token",
            disposition: DeprecationDisposition::Deprecated,
            since_version: "2.0.0",
            removal_target: None,
        },
    ]
}

/// The registry that the daemon ships with.
pub fn default_registry() -> (r: DeprecationRegistry)
    ensures
        r.table() == default_table(),
        r.warned() == Set::<Seq<char>>::empty(),
{
    let mut entries: Vec<DeprecationEntry> = Vec::new();
    entries.push(
        DeprecationEntry {
            field_path: "tools[].cloud",
            disposition: DeprecationDisposition::Renamed { new_name: "tools[].egress" },
            since_version: "0.2.0",
            removal_target: Some("0.3.0"),
        },
    );
    entries.push(
        DeprecationEntry {
            field_path: "telemetry",
            disposition: DeprecationDisposition::Removed,
            since_version: "0.2.0",
            removal_target: None,
        },
    );
    entries.push(
        DeprecationEntry {
            field_path: "tools[].timeout_seconds",
            disposition: DeprecationDisposition::Renamed {
                new_name: "tools[].timeouts.request_seconds",
            },
            since_version: "0.2.0",
            removal_target: Some("0.3.0"),
        },
    );
    entries.push(
        DeprecationEntry {
            field_path: "inbound_auth.token",
            disposition: DeprecationDisposition::Deprecated,
            since_version: "2.0.0",
            removal_target: None,
        },
    );
    assert(entries@ =~= default_table());
    DeprecationRegistry::new(entries)
}

/// What the warning for a field says.
pub open spec fn warning_message(d: DeprecationDisposition) -> Seq<char> {
    match d {
        DeprecationDisposition::Renamed { .. } => "configuration field renamed; replace with the documented field"@,
        DeprecationDisposition::Deprecated => "configuration field deprecated; please migrate"@,
        DeprecationDisposition::Removed => "configuration field removed; value is ignored"@,
    }
}

/// The warning for a field that was met in a configuration file: one the first
/// time that a known field is met, none otherwise.
pub fn emit_deprecation(registry: &mut DeprecationRegistry, field_path: &str) -> (r: Option<
    DeprecationWarning,
>)
    ensures
        final(registry).table() == old(registry).table(),
        final(registry).warned() == after_notice(
            old(registry).table(),
            old(registry).warned(),
            field_path@,
        ),
        match r {
            Some(w) => is_news(old(registry).table(), old(registry).warned(), field_path@)
                && w.entry == old(registry).table()[entry_index(
                old(registry).table(),
                field_path@,
                0,
            )] && w.message@ == warning_message(w.entry.disposition),
            None => !is_news(old(registry).table(), old(registry).warned(), field_path@),
        },
{
    if !registry.notice(field_path) {
        return None;
    }
    match registry.lookup(field_path) {
        Some(e) => Some(
            DeprecationWarning {
                entry: *e,
                message: match e.disposition {
                    DeprecationDisposition::Renamed { .. } => "configuration field renamed; replace with the documented field",
                    DeprecationDisposition::Deprecated => "configuration field deprecated; please migrate",
                    DeprecationDisposition::Removed => "configuration field removed; value is ignored",
                },
            },
        ),
        None => None,
    }
}

/// The warning that the shared token of `inbound_auth` is ignored: one, the
/// first time that it is set while agents have their own tokens.
pub fn emit_inbound_auth_token_runtime_deprecation(
    registry: &mut DeprecationRegistry,
    admin_substrate_enabled: bool,
    inbound_auth_token_set: bool,
) -> (r: Option<DeprecationWarning>)
    ensures
        final(registry).table() == old(registry).table(),
        final(registry).warned() == (if admin_substrate_enabled && inbound_auth_token_set {
            after_notice(old(registry).table(), old(registry).warned(), "inbound_auth.token"@)
        } else {
            old(registry).warned()
        }),
        r is Some <==> (admin_substrate_enabled && inbound_auth_token_set && is_news(
            old(registry).table(),
            old(registry).warned(),
            "inbound_auth.token"@,
        )),
        match r {
            Some(w) => w.entry == old(registry).table()[entry_index(
                old(registry).table(),
                "inbound_auth.token"@,
                0,
            )] && w.message@ == "shared inbound_auth.token is ignored when the admin substrate is enabled — per-agent bearer authentication takes precedence. Remove the inbound_auth block to silence this warning. (M9 / v2.0.0)"@,
            None => true,
        },
{
    if !(admin_substrate_enabled && inbound_auth_token_set) {
        return None;
    }
    if !registry.notice("inbound_auth.token") {
        return None;
    }
    match registry.lookup("inbound_auth.token") {
        Some(e) => Some(
            DeprecationWarning {
                entry: *e,
                message: "shared inbound_auth.token is ignored when the admin substrate is enabled — per-agent bearer authentication takes precedence. Remove the inbound_auth block to silence this warning. (M9 / v2.0.0)",
            },
        ),
        None => None,
    }
}

/// A field is known exactly if some entry is about it, and what is said of it is what the
/// first such entry says.
pub proof fn law_first_entry_counts(entries: Seq<DeprecationEntry>, path: Seq<char>, from: int)
    requires
        0 <= from <= entries.len(),
    ensures
        entry_index(entries, path, from) == entries.len() <==> forall|k: int|
            from <= k < entries.len() ==> (#[trigger] entries[k]).field_path@ != path,
        entry_index(entries, path, from) < entries.len() ==> entries[entry_index(
            entries,
            path,
            from,
        )].field_path@ == path,
        forall|k: int|
            from <= k < entry_index(entries, path, from) ==> (#[trigger] entries[k]).field_path@
                != path,
        from == 0 ==> (known(entries, path) <==> entry_index(entries, path, from) < entries.len()),
    decreases entries.len() - from,
{
    if from < entries.len() && entries[from].field_path@ != path {
        law_first_entry_counts(entries, path, from + 1);
    }
}

/// The fields that the daemon knows to have changed: what the cloud flag and the old time
/// limit of a tool are called now, that telemetry is gone, and that the shared token is on its
/// way out. Every one of them is found under its own path.
pub proof fn law_what_fields_have_changed(path: Seq<char>)
    ensures
        ({
            let t = default_table();
            &&& t.len() == 4
            &&& known(t, path) <==> path == "tools[].cloud"@ || path == "telemetry"@ || path
                == "tools[].timeout_seconds"@ || path == "inbound_auth.token"@
            &&& forall|i: int|
                #![trigger t[i]]
                0 <= i < 4 ==> match t[i].disposition {
                    DeprecationDisposition::Renamed { new_name } => (t[i].field_path@
                        == "tools[].cloud"@ && new_name@ == "tools[].egress"@)
                        || (t[i].field_path@ == "tools[].timeout_seconds"@ && new_name@
                        == "tools[].timeouts.request_seconds"@),
                    DeprecationDisposition::Removed => t[i].field_path@ == "telemetry"@,
                    DeprecationDisposition::Deprecated => t[i].field_path@
                        == "inbound_auth.token"@,
                }
        }),
{
    let t = default_table();
    assert(t[0].field_path@ == "tools[].cloud"@);
    assert(t[1].field_path@ == "telemetry"@);
    assert(t[2].field_path@ == "tools[].timeout_seconds"@);
    assert(t[3].field_path@ == "inbound_auth.token"@);
    reveal_with_fuel(entry_index, 5);
}

/// A warning says of a field that has another name now that it has, of one that still works
/// that it is on its way out, and of one that does nothing any more that it is ignored.
pub proof fn law_warnings_say_what_became_of_a_field(d: DeprecationDisposition)
    ensures
        d is Renamed ==> warning_message(d)
            == "configuration field renamed; replace with the documented field"@,
        d is Deprecated ==> warning_message(d) == "configuration field deprecated; please migrate"@,
        d is Removed ==> warning_message(d) == "configuration field removed; value is ignored"@,
{
}

} // verus!
