//! The daemon: what it needs to start, what it deletes, and how it ends.
use vstd::prelude::*;

use crate::config::{AppConfig, AuditConfig};
use crate::text::{cat, opt_text};

verus! {

/// Why the daemon stopped.
#[derive(Debug)]
pub enum DaemonError {
    /// The administration lacks something in the configuration.
    AdminConfig(String),
    /// The database failed.
    Database(String),
    /// The operators' file cannot be used.
    OperatorCreds(String),
    /// A file or a socket failed.
    Io(String),
    /// A listener failed.
    Server(String),
}

/// What a [`DaemonError`] says.
pub ghost enum DaemonFault {
    AdminConfig(Seq<char>),
    Database(Seq<char>),
    OperatorCreds(Seq<char>),
    Io(Seq<char>),
    Server(Seq<char>),
}

impl View for DaemonError {
    type V = DaemonFault;

    open spec fn view(&self) -> DaemonFault {
        match self {
            DaemonError::AdminConfig(m) => DaemonFault::AdminConfig(m@),
            DaemonError::Database(m) => DaemonFault::Database(m@),
            DaemonError::OperatorCreds(m) => DaemonFault::OperatorCreds(m@),
            DaemonError::Io(m) => DaemonFault::Io(m@),
            DaemonError::Server(m) => DaemonFault::Server(m@),
        }
    }
}

/// The message of an error.
pub open spec fn daemon_message(e: DaemonFault) -> Seq<char> {
    match e {
        DaemonFault::AdminConfig(m) => "admin substrate misconfigured: "@ + m,
        DaemonFault::Database(m) => "database: "@ + m,
        DaemonFault::OperatorCreds(m) => "operator credentials: "@ + m,
        DaemonFault::Io(m) => "io: "@ + m,
        DaemonFault::Server(m) => "server: "@ + m,
    }
}

impl DaemonError {
    /// The message of the error.
    pub fn message(&self) -> (r: String)
        ensures
            r@ == daemon_message(self@),
    {
        match self {
            DaemonError::AdminConfig(m) => cat("admin substrate misconfigured: ", m.as_str()),
            DaemonError::Database(m) => cat("database: ", m.as_str()),
            DaemonError::OperatorCreds(m) => cat("operator credentials: ", m.as_str()),
            DaemonError::Io(m) => cat("io: ", m.as_str()),
            DaemonError::Server(m) => cat("server: ", m.as_str()),
        }
    }
}

/// What the administration needs: its socket, the database, the operators' file.
pub struct AdminPlan {
    pub socket: String,
    pub database: String,
    pub operators: String,
}

/// What an [`AdminPlan`] says.
pub ghost struct AdminPlanView {
    pub socket: Seq<char>,
    pub database: Seq<char>,
    pub operators: Seq<char>,
}

impl View for AdminPlan {
    type V = AdminPlanView;

    open spec fn view(&self) -> AdminPlanView {
        AdminPlanView {
            socket: self.socket@,
            database: self.database@,
            operators: self.operators@,
        }
    }
}

/// What the administration needs, where there is a socket for it. With a socket the
/// database must be named, and then the operators' file.
pub open spec fn admin_needs(c: AppConfig) -> Result<Option<AdminPlanView>, DaemonFault> {
    match c.listen.admin_socket {
        None => Ok(None),
        Some(s) => match (c.database, c.operator_credentials_path) {
            (None, _) => Err(
                DaemonFault::AdminConfig(
                    "listen.admin_socket is set but `database.path` is missing"@,
                ),
            ),
            (_, None) => Err(
                DaemonFault::AdminConfig(
                    "listen.admin_socket is set but `operator_credentials_path` is missing"@,
                ),
            ),
            (Some(d), Some(o)) => Ok(
                Some(AdminPlanView { socket: s.path@, database: d.path@, operators: o@ }),
            ),
        },
    }
}

/// What the administration needs, where there is a socket for it.
pub fn admin_plan(c: &AppConfig) -> (r: Result<Option<AdminPlan>, DaemonError>)
    ensures
        match r {
            Ok(Some(p)) => admin_needs(*c) == Ok::<Option<AdminPlanView>, DaemonFault>(Some(p@)),
            Ok(None) => admin_needs(*c) == Ok::<Option<AdminPlanView>, DaemonFault>(None),
            Err(e) => admin_needs(*c) == Err::<Option<AdminPlanView>, DaemonFault>(e@),
        },
{
    let socket = match &c.listen.admin_socket {
        Some(s) => s.path.clone(),
        None => return Ok(None),
    };
    let database = match &c.database {
        Some(d) => d.path.clone(),
        None => return Err(
            DaemonError::AdminConfig(
                "listen.admin_socket is set but `database.path` is missing".to_owned(),
            ),
        ),
    };
    match &c.operator_credentials_path {
        Some(o) => Ok(Some(AdminPlan { socket, database, operators: o.clone() })),
        None => Err(
            DaemonError::AdminConfig(
                "listen.admin_socket is set but `operator_credentials_path` is missing".to_owned(),
            ),
        ),
    }
}

/// The milliseconds of a day.
pub const MS_PER_DAY: i64 = 86_400_000;

/// The time before which audit rows are deleted.
pub open spec fn cutoff(now_ms: int, retention_days: int) -> int {
    now_ms - retention_days * 86_400_000
}

/// The time before which audit rows are deleted.
pub fn retention_cutoff(now_ms: i64, retention_days: u32) -> (r: i64)
    requires
        cutoff(now_ms as int, retention_days as int) >= i64::MIN,
    ensures
        r == cutoff(now_ms as int, retention_days as int),
{
    now_ms - retention_days as i64 * MS_PER_DAY
}

/// The pause between two looks for old rows, in seconds.
pub open spec fn pause(configured: u64) -> u64 {
    if configured == 0 {
        1
    } else {
        configured
    }
}

/// How many seconds lie between two looks for old rows: at least one.
pub fn sweep_interval(c: &AuditConfig) -> (r: u64)
    ensures
        r == pause(c.sweep_interval_seconds),
{
    if c.sweep_interval_seconds == 0 {
        1
    } else {
        c.sweep_interval_seconds
    }
}

/// A row is never deleted before it is as old as rows are kept, and always after.
pub proof fn law_rows_are_kept_as_long_as_said(ts: int, now_ms: int, retention_days: int)
    ensures
        ts < cutoff(now_ms, retention_days) <==> now_ms - ts > retention_days * 86_400_000,
{
}

/// How the daemon ended: by the first listener that failed, the agents' before the
/// administration's.
pub open spec fn ended(
    agent: Option<Seq<char>>,
    admin: Option<Seq<char>>,
    https: Option<Seq<char>>,
) -> Result<(), DaemonFault> {
    match (agent, admin, https) {
        (Some(e), _, _) => Err(DaemonFault::Server("agent listener: "@ + e)),
        (None, Some(e), _) => Err(DaemonFault::Server("admin listener: "@ + e)),
        (None, None, Some(e)) => Err(DaemonFault::Server("admin HTTPS listener: "@ + e)),
        (None, None, None) => Ok(()),
    }
}

/// How the daemon ended, from the errors of its listeners.
pub fn drained(agent: Option<String>, admin: Option<String>, https: Option<String>) -> (r: Result<
    (),
    DaemonError,
>)
    ensures
        match r {
            Ok(()) => ended(opt_text(agent), opt_text(admin), opt_text(https)) is Ok,
            Err(e) => ended(opt_text(agent), opt_text(admin), opt_text(https)) == Err::<
                (),
                DaemonFault,
            >(e@),
        },
{
    match (agent, admin, https) {
        (Some(e), _, _) => Err(DaemonError::Server(cat("agent listener: ", e.as_str()))),
        (None, Some(e), _) => Err(DaemonError::Server(cat("admin listener: ", e.as_str()))),
        (None, None, Some(e)) => Err(
            DaemonError::Server(cat("admin HTTPS listener: ", e.as_str())),
        ),
        (None, None, None) => Ok(()),
    }
}

/// Operators are served exactly if there is a socket for them, and then the database and
/// the operators file have to be named too; they are those of the configuration.
pub proof fn law_operators_need_a_database_and_a_file(c: AppConfig)
    ensures
        c.listen.admin_socket is None ==> admin_needs(c) == Ok::<
            Option<AdminPlanView>,
            DaemonFault,
        >(None),
        c.listen.admin_socket is Some ==> (admin_needs(c) is Ok <==> c.database is Some
            && c.operator_credentials_path is Some),
        admin_needs(c) matches Ok(Some(p)) ==> p.socket == c.listen.admin_socket->Some_0.path@
            && p.database == c.database->Some_0.path@ && p.operators
            == c.operator_credentials_path->Some_0@,
        admin_needs(c) matches Err(e) ==> e is AdminConfig,
{
}

/// The daemon ends well exactly if every listener did; else it tells of the first that did
/// not, the agents' before the operators'.
pub proof fn law_first_failed_listener_is_told(
    agent: Option<Seq<char>>,
    admin: Option<Seq<char>>,
    https: Option<Seq<char>>,
)
    ensures
        ended(agent, admin, https) is Ok <==> agent is None && admin is None && https is None,
        agent matches Some(e) ==> ended(agent, admin, https) == Err::<(), DaemonFault>(
            DaemonFault::Server("agent listener: "@ + e),
        ),
        agent is None && admin is Some ==> ended(agent, admin, https) == Err::<(), DaemonFault>(
            DaemonFault::Server("admin listener: "@ + admin->Some_0),
        ),
        agent is None && admin is None && https is Some ==> ended(agent, admin, https) == Err::<
            (),
            DaemonFault,
        >(DaemonFault::Server("admin HTTPS listener: "@ + https->Some_0)),
{
}

/// Rows that are a day older are deleted a day later, and keeping rows for a day more moves
/// the limit back by a day.
pub proof fn law_limit_moves_with_time(now_ms: int, days: int)
    ensures
        cutoff(now_ms, 0) == now_ms,
        cutoff(now_ms + 24 * 60 * 60 * 1000, days + 1) == cutoff(now_ms, days),
        cutoff(now_ms, days + 1) == cutoff(now_ms, days) - 24 * 60 * 60 * 1000,
{
}

/// The message of an error ends in its cause.
pub proof fn law_messages_end_in_the_cause(m: Seq<char>)
    ensures
        crate::text::ends_in(daemon_message(DaemonFault::AdminConfig(m)), m),
        crate::text::ends_in(daemon_message(DaemonFault::Database(m)), m),
        crate::text::ends_in(daemon_message(DaemonFault::OperatorCreds(m)), m),
        crate::text::ends_in(daemon_message(DaemonFault::Io(m)), m),
        crate::text::ends_in(daemon_message(DaemonFault::Server(m)), m),
{
    broadcast use crate::text::lemma_ends_in;

}

/// Old rows are looked for as often as is configured, and never without a pause: two looks
/// lie a second apart at least.
pub proof fn law_looks_lie_apart(seconds: u64)
    ensures
        pause(seconds) >= 1,
        seconds >= 1 ==> pause(seconds) == seconds,
        pause(0) == 1,
{
}

/// Where there is a socket for operators but something is not named, the error says what.
pub proof fn law_missing_settings_are_named(c: AppConfig)
    requires
        c.listen.admin_socket is Some,
    ensures
        c.database is None ==> admin_needs(c) == Err::<Option<AdminPlanView>, DaemonFault>(
            DaemonFault::AdminConfig("listen.admin_socket is set but `database.path` is missing"@),
        ),
        c.database is Some && c.operator_credentials_path is None ==> admin_needs(c) == Err::<
            Option<AdminPlanView>,
            DaemonFault,
        >(
            DaemonFault::AdminConfig(
                "listen.admin_socket is set but `operator_credentials_path` is missing"@,
            ),
        ),
{
}

} // verus!
