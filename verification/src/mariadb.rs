//! A sink that writes commands into the database's queue, through the `mariadb`
//! command line client.
//!
//! What the client is run with, and what is made of its output, is decided here.
//! Running it is left to the caller.
use vstd::prelude::*;

use crate::command;
use crate::config::Config;
use crate::error;
use crate::error::AppError;
use crate::error::Failure;
use crate::state::QueueCommand;
use crate::state::QueueCommandView;
use crate::state::QueueReceipt;
use crate::state::QueueReceiptView;
use crate::text;

verus! {

/// The database that the queue is in, and how to log in to it.
#[derive(Clone)]
pub struct MariadbCliSink {
    db_host: String,
    db_port: u16,
    db_user: String,
    db_password: String,
    logon_db: String,
}

/// The model of a [`MariadbCliSink`].
pub struct DatabaseView {
    pub host: Seq<char>,
    pub port: u16,
    pub user: Seq<char>,
    pub password: Seq<char>,
    pub name: Seq<char>,
}

impl View for MariadbCliSink {
    type V = DatabaseView;

    closed spec fn view(&self) -> DatabaseView {
        DatabaseView {
            host: self.db_host@,
            port: self.db_port,
            user: self.db_user@,
            password: self.db_password@,
            name: self.logon_db@,
        }
    }
}

/// A program to run.
#[derive(Debug)]
pub struct ProcessCall {
    pub program: &'static str,
    pub arguments: Vec<String>,
    /// Environment variables that are set for it, by name and value.
    pub variables: Vec<(String, String)>,
}

/// The model of a [`ProcessCall`].
pub struct ProcessCallView {
    pub program: Seq<char>,
    pub arguments: Seq<Seq<char>>,
    pub variables: Seq<(Seq<char>, Seq<char>)>,
}

impl View for ProcessCall {
    type V = ProcessCallView;

    open spec fn view(&self) -> ProcessCallView {
        ProcessCallView {
            program: self.program@,
            arguments: self.arguments.deep_view(),
            variables: self.variables.deep_view(),
        }
    }
}

/// What a program that ran to its end left behind.
#[derive(Debug)]
pub struct ProcessOutput {
    pub success: bool,
    /// How the program ended, in words.
    pub status: String,
    pub stdout: Vec<u8>,
    pub stderr: Vec<u8>,
}

/// The model of a [`ProcessOutput`].
pub struct ProcessOutputView {
    pub success: bool,
    pub status: Seq<char>,
    pub stdout: Seq<u8>,
    pub stderr: Seq<u8>,
}

impl View for ProcessOutput {
    type V = ProcessOutputView;

    open spec fn view(&self) -> ProcessOutputView {
        ProcessOutputView {
            success: self.success,
            status: self.status@,
            stdout: self.stdout@,
            stderr: self.stderr@,
        }
    }
}

/// How running a program went: what it left behind, or why it could not be started.
pub open spec fn ran(r: Result<ProcessOutput, String>) -> Result<ProcessOutputView, Seq<char>> {
    match r {
        Ok(output) => Ok(output@),
        Err(error) => Err(error@),
    }
}

/// The text that std reads from bytes in UTF-8, with replacement characters where
/// they are not valid.
pub uninterp spec fn utf8_lossy(bytes: Seq<u8>) -> Seq<char>;

/// `String::from_utf8_lossy` of std: the text depends on the bytes alone, and is
/// what they encode where they are valid UTF-8.
#[verifier::external_body]
fn read_utf8_lossy(bytes: &[u8]) -> (r: String)
    ensures
        r@ == utf8_lossy(bytes@),
        vstd::utf8::valid_utf8(bytes@) ==> r@ == vstd::utf8::decode_utf8(bytes@),
{
    String::from_utf8_lossy(bytes).into_owned()
}

impl DatabaseView {
    /// The call that runs a statement.
    pub open spec fn call(self, sql: Seq<char>) -> ProcessCallView {
        ProcessCallView {
            program: "mariadb"@,
            arguments: seq![
                "--host"@,
                self.host,
                "--port"@,
                text::decimal(self.port as nat),
                "--user"@,
                self.user,
                "--database"@,
                self.name,
                "--batch"@,
                "--raw"@,
                "--skip-column-names"@,
                "--execute"@,
                sql,
            ],
            variables: seq![("MYSQL_PWD"@, self.password)],
        }
    }
}

/// What a statement printed, or why it failed, from the texts that the client left
/// behind.
pub open spec fn statement_result(
    success: bool,
    status: Seq<char>,
    stdout: Seq<char>,
    stderr: Seq<char>,
) -> Result<Seq<char>, Failure> {
    let complaint = text::trimmed(stderr);
    if success {
        Ok(text::trimmed(stdout))
    } else if complaint.len() == 0 {
        Err(Failure::Upstream("mariadb exited with "@ + status))
    } else {
        Err(Failure::Upstream(complaint))
    }
}

/// What a statement printed, or why it failed.
pub open spec fn sql_output(ran: Result<ProcessOutputView, Seq<char>>) -> Result<
    Seq<char>,
    Failure,
> {
    match ran {
        Err(error) => Err(Failure::Dependency("failed to spawn mariadb: "@ + error)),
        Ok(output) => statement_result(
            output.success,
            output.status,
            utf8_lossy(output.stdout),
            utf8_lossy(output.stderr),
        ),
    }
}

/// The statement that queues a command and asks for the number it was given.
pub open spec fn insert_statement(request: QueueCommandView) -> Result<Seq<char>, Failure> {
    match command::sql_literal(request.command) {
        Err(failure) => Err(failure),
        Ok(literal) => Ok(
            "INSERT INTO pending_commands (realm_id, run_at_time, command) VALUES ("@
                + text::decimal(request.realm_id as nat) + ", "@ + text::decimal(
                request.run_at_unix as nat,
            ) + ", '"@ + literal + "'); SELECT LAST_INSERT_ID();"@,
        ),
    }
}

/// The receipt for a command, from what the statement that queued it printed: the
/// number on the last line.
pub open spec fn insert_receipt(request: QueueCommandView, output: Seq<char>) -> Result<
    QueueReceiptView,
    Failure,
> {
    match text::unsigned(text::trimmed(text::last_line(output)), u64::MAX as nat) {
        Some(id) => Ok(request.receipt(id as u64)),
        None => Err(Failure::Upstream("unexpected LAST_INSERT_ID output: "@ + output)),
    }
}

/// The receipt for a command, from how the statement that queued it went.
pub open spec fn queued(request: QueueCommandView, output: Result<Seq<char>, Failure>) -> Result<
    QueueReceiptView,
    Failure,
> {
    match output {
        Ok(output) => insert_receipt(request, output),
        Err(failure) => Err(failure),
    }
}

/// What a statement printed, or why it failed, from the texts that the client left
/// behind.
pub fn statement_output(success: bool, status: &str, stdout: &str, stderr: &str) -> (r: Result<
    String,
    AppError,
>)
    ensures
        error::outcome(r) == statement_result(success, status@, stdout@, stderr@),
{
    if success {
        return Ok(text::trim(stdout).to_owned());
    }
    let complaint = text::trim(stderr);
    if complaint.is_empty() {
        let mut message = "mariadb exited with ".to_owned();
        message.append(status);
        Err(AppError::Upstream(message))
    } else {
        Err(AppError::Upstream(complaint.to_owned()))
    }
}

/// The receipt for a command, from what the statement that queued it printed.
pub fn receipt_from_output(request: QueueCommand, output: &str) -> (r: Result<
    QueueReceipt,
    AppError,
>)
    ensures
        error::outcome(r) == insert_receipt(request@, output@),
{
    let line = text::tail_line(output);
    match text::parse_unsigned(text::trim(line.as_str()), u64::MAX) {
        Some(id) => Ok(request.into_receipt(id)),
        None => {
            let mut message = "unexpected LAST_INSERT_ID output: ".to_owned();
            message.append(output);
            Err(AppError::Upstream(message))
        },
    }
}

impl MariadbCliSink {
    /// The sink for the database that the configuration names.
    pub fn from_config<A>(config: &Config<A>) -> (r: Self)
        ensures
            r@.host == config.db_host@,
            r@.port == config.db_port,
            r@.user == config.db_user@,
            r@.password == config.db_password@,
            r@.name == config.logon_db@,
    {
        MariadbCliSink {
            db_host: config.db_host.clone(),
            db_port: config.db_port,
            db_user: config.db_user.clone(),
            db_password: config.db_password.clone(),
            logon_db: config.logon_db.clone(),
        }
    }

    /// The call that runs the statement `sql`.
    pub fn sql_call(&self, sql: &str) -> (r: ProcessCall)
        ensures
            r@ == self@.call(sql@),
    {
        let mut arguments: Vec<String> = Vec::new();
        arguments.push("--host".to_owned());
        arguments.push(self.db_host.clone());
        arguments.push("--port".to_owned());
        arguments.push(text::to_decimal(self.db_port as u64));
        arguments.push("--user".to_owned());
        arguments.push(self.db_user.clone());
        arguments.push("--database".to_owned());
        arguments.push(self.logon_db.clone());
        arguments.push("--batch".to_owned());
        arguments.push("--raw".to_owned());
        arguments.push("--skip-column-names".to_owned());
        arguments.push("--execute".to_owned());
        arguments.push(sql.to_owned());
        let mut variables: Vec<(String, String)> = Vec::new();
        variables.push(("MYSQL_PWD".to_owned(), self.db_password.clone()));
        assert(arguments.deep_view() == self@.call(sql@).arguments);
        assert(variables.deep_view() == self@.call(sql@).variables);
        ProcessCall { program: "mariadb", arguments, variables }
    }

    /// What a statement printed, or why it failed.
    pub fn run_sql(&self, ran_sql: &Result<ProcessOutput, String>) -> (r: Result<String, AppError>)
        ensures
            error::outcome(r) == sql_output(ran(*ran_sql)),
            ran_sql matches Ok(output) ==> {
                &&& vstd::utf8::valid_utf8(output.stdout@)
                &&& vstd::utf8::valid_utf8(output.stderr@)
            } ==> error::outcome(r) == statement_result(
                output.success,
                output.status@,
                vstd::utf8::decode_utf8(output.stdout@),
                vstd::utf8::decode_utf8(output.stderr@),
            ),
    {
        match ran_sql {
            Err(error) => {
                let mut message = "failed to spawn mariadb: ".to_owned();
                message.append(error.as_str());
                Err(AppError::Dependency(message))
            },
            Ok(output) => {
                let stdout = read_utf8_lossy(output.stdout.as_slice());
                let stderr = read_utf8_lossy(output.stderr.as_slice());
                statement_output(
                    output.success,
                    output.status.as_str(),
                    stdout.as_str(),
                    stderr.as_str(),
                )
            },
        }
    }

    /// The call that asks whether the database answers.
    pub fn healthcheck_call(&self) -> (r: ProcessCall)
        ensures
            r@ == self@.call("SELECT 1;"@),
    {
        self.sql_call("SELECT 1;")
    }

    /// Whether the database answered.
    pub fn healthcheck(&self, ran_sql: &Result<ProcessOutput, String>) -> (r: Result<(), AppError>)
        ensures
            r is Ok <==> sql_output(ran(*ran_sql)) is Ok,
            r matches Err(e) ==> sql_output(ran(*ran_sql)) == Err::<Seq<char>, _>(e@),
    {
        self.run_sql(ran_sql)?;
        Ok(())
    }

    /// The call that queues a command.
    pub fn enqueue_call(&self, request: &QueueCommand) -> (r: Result<ProcessCall, AppError>)
        ensures
            match insert_statement(request@) {
                Ok(sql) => r is Ok && r->Ok_0@ == self@.call(sql),
                Err(failure) => r is Err && r->Err_0@ == failure,
            },
    {
        let literal = command::escape_sql_literal(request.command.as_str())?;
        let mut sql =
            "INSERT INTO pending_commands (realm_id, run_at_time, command) VALUES (".to_owned();
        sql.append(text::to_decimal(request.realm_id as u64).as_str());
        sql.append(", ");
        sql.append(text::to_decimal(request.run_at_unix).as_str());
        sql.append(", '");
        sql.append(literal.as_str());
        sql.append("'); SELECT LAST_INSERT_ID();");
        Ok(self.sql_call(sql.as_str()))
    }

    /// The receipt for a command, from how its call went.
    pub fn enqueue(&self, request: QueueCommand, ran_sql: &Result<ProcessOutput, String>) -> (r: Result<
        QueueReceipt,
        AppError,
    >)
        ensures
            error::outcome(r) == queued(request@, sql_output(ran(*ran_sql))),
            ran_sql matches Ok(output) ==> {
                &&& vstd::utf8::valid_utf8(output.stdout@)
                &&& vstd::utf8::valid_utf8(output.stderr@)
            } ==> error::outcome(r) == queued(
                request@,
                statement_result(
                    output.success,
                    output.status@,
                    vstd::utf8::decode_utf8(output.stdout@),
                    vstd::utf8::decode_utf8(output.stderr@),
                ),
            ),
    {
        let output = self.run_sql(ran_sql)?;
        receipt_from_output(request, output.as_str())
    }
}

} // verus!
