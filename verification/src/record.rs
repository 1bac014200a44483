//! Log records and the files that they go to.
use crate::mask;
use crate::sanitize::{self, sanitize_message};
use crate::text::same_text;
use crate::translate;
use vstd::prelude::*;

verus! {

/// The target of the records of the Codex API.
pub const CODEX_API_LOG_TARGET: &'static str = "codex_api";

/// How serious a record is.
#[derive(Clone, Copy, PartialEq, Eq, Structural, Debug)]
pub enum LogLevel {
    Info,
    Warn,
    Error,
}

/// What a record is about.
#[derive(Clone, Copy, PartialEq, Eq, Structural, Debug)]
pub enum LogTarget {
    /// The application.
    App,
    /// The Codex API.
    CodexApi,
}

/// A record that is ready to be written.
#[derive(Debug)]
pub struct LogRecord {
    pub level: LogLevel,
    pub target: LogTarget,
    pub message: String,
}

/// The text of a target. Records about the application carry the path of the module that writes
/// them.
pub open spec fn target_text(target: LogTarget, module: Seq<char>) -> Seq<char> {
    match target {
        LogTarget::App => module,
        LogTarget::CodexApi => CODEX_API_LOG_TARGET@,
    }
}

impl LogTarget {
    /// The text of the target, for a record that the module with the path `module` writes.
    pub fn text<'a>(self, module: &'a str) -> (res: &'a str)
        ensures
            res@ == target_text(self, module@),
    {
        match self {
            LogTarget::App => module,
            LogTarget::CodexApi => CODEX_API_LOG_TARGET,
        }
    }
}

impl LogRecord {
    /// Whether this is the record of `message` with the given level and target.
    pub open spec fn records(self, level: LogLevel, target: LogTarget, message: Seq<char>) -> bool {
        &&& self.level == level
        &&& self.target == target
        &&& self.message@ == sanitize::sanitized(message)
    }
}

/// Whether records with the target `target` go to the application log.
pub open spec fn to_app_log(target: Seq<char>) -> bool {
    target != CODEX_API_LOG_TARGET@
}

/// Whether records with the target `target` go to the Codex API log.
pub open spec fn to_codex_api_log(target: Seq<char>) -> bool {
    target == CODEX_API_LOG_TARGET@
}

/// The record of a message carries the level and the target that it was logged with, whatever the
/// message is, and the message as it is after sanitizing.
pub proof fn law_record_carries_level_and_target(
    record: LogRecord,
    level: LogLevel,
    target: LogTarget,
    message: Seq<char>,
)
    ensures
        record.records(level, target, message) ==> record.level == level && record.target == target,
        record.records(level, target, message) <==> (level == record.level && target
            == record.target && sanitize::sanitized(message) == record.message@),
{
}

/// The target `codex_api`, and no other, leads to the Codex API log; every other target leads to
/// the application log. Records of the application carry the path of their module as target.
pub proof fn law_codex_api_target_parts_the_logs(target: Seq<char>)
    ensures
        to_codex_api_log(target) <==> target == "codex_api"@,
        to_app_log(target) <==> target != "codex_api"@,
        target_text(LogTarget::App, target) == target,
        target_text(LogTarget::CodexApi, target) == "codex_api"@,
{
}

/// Every record goes to exactly one of the two logs.
pub proof fn law_one_log_for_each_record(target: Seq<char>)
    ensures
        to_app_log(target) != to_codex_api_log(target),
{
}

/// A record of the Codex API goes to the Codex API log and not to the application log; a record of
/// the application goes to the application log and not to the other, as long as the module that
/// writes it is not itself called like the target of the Codex API.
pub proof fn law_records_reach_their_log(target: LogTarget, module: Seq<char>)
    requires
        module != CODEX_API_LOG_TARGET@,
    ensures
        to_codex_api_log(target_text(target, module)) <==> target == LogTarget::CodexApi,
        to_app_log(target_text(target, module)) <==> target == LogTarget::App,
{
}

/// Whether records with the target `target` go to the application log.
pub fn goes_to_app_log(target: &str) -> (res: bool)
    ensures
        res == to_app_log(target@),
{
    !same_text(target, CODEX_API_LOG_TARGET)
}

/// Whether records with the target `target` go to the Codex API log.
pub fn goes_to_codex_api_log(target: &str) -> (res: bool)
    ensures
        res == to_codex_api_log(target@),
{
    same_text(target, CODEX_API_LOG_TARGET)
}

/// The record of a message of the application.
pub fn log_info(message: &str) -> (res: LogRecord)
    ensures
        res.records(LogLevel::Info, LogTarget::App, message@),
        res.level == LogLevel::Info,
        res.target == LogTarget::App,
        res.message@ == sanitize::sanitized(message@),
        sanitize::finds_addresses(translate::translated(message@)),
        sanitize::plain_address(message@) ==> res.message@ == mask::masked_email(message@),
        !message@.contains('@') ==> res.message@ == translate::translated(message@),
{
    LogRecord {
        level: LogLevel::Info,
        target: LogTarget::App,
        message: sanitize_message(message),
    }
}

/// The record of a warning of the application.
pub fn log_warn(message: &str) -> (res: LogRecord)
    ensures
        res.records(LogLevel::Warn, LogTarget::App, message@),
        res.level == LogLevel::Warn,
        res.target == LogTarget::App,
        res.message@ == sanitize::sanitized(message@),
        sanitize::finds_addresses(translate::translated(message@)),
        sanitize::plain_address(message@) ==> res.message@ == mask::masked_email(message@),
        !message@.contains('@') ==> res.message@ == translate::translated(message@),
{
    LogRecord {
        level: LogLevel::Warn,
        target: LogTarget::App,
        message: sanitize_message(message),
    }
}

/// The record of an error of the application.
pub fn log_error(message: &str) -> (res: LogRecord)
    ensures
        res.records(LogLevel::Error, LogTarget::App, message@),
        res.level == LogLevel::Error,
        res.target == LogTarget::App,
        res.message@ == sanitize::sanitized(message@),
        sanitize::finds_addresses(translate::translated(message@)),
        sanitize::plain_address(message@) ==> res.message@ == mask::masked_email(message@),
        !message@.contains('@') ==> res.message@ == translate::translated(message@),
{
    LogRecord {
        level: LogLevel::Error,
        target: LogTarget::App,
        message: sanitize_message(message),
    }
}

/// The record of a message of the Codex API.
pub fn log_codex_api_info(message: &str) -> (res: LogRecord)
    ensures
        res.records(LogLevel::Info, LogTarget::CodexApi, message@),
        res.level == LogLevel::Info,
        res.target == LogTarget::CodexApi,
        res.message@ == sanitize::sanitized(message@),
        sanitize::finds_addresses(translate::translated(message@)),
        sanitize::plain_address(message@) ==> res.message@ == mask::masked_email(message@),
        !message@.contains('@') ==> res.message@ == translate::translated(message@),
{
    LogRecord {
        level: LogLevel::Info,
        target: LogTarget::CodexApi,
        message: sanitize_message(message),
    }
}

/// The record of a warning of the Codex API.
pub fn log_codex_api_warn(message: &str) -> (res: LogRecord)
    ensures
        res.records(LogLevel::Warn, LogTarget::CodexApi, message@),
        res.level == LogLevel::Warn,
        res.target == LogTarget::CodexApi,
        res.message@ == sanitize::sanitized(message@),
        sanitize::finds_addresses(translate::translated(message@)),
        sanitize::plain_address(message@) ==> res.message@ == mask::masked_email(message@),
        !message@.contains('@') ==> res.message@ == translate::translated(message@),
{
    LogRecord {
        level: LogLevel::Warn,
        target: LogTarget::CodexApi,
        message: sanitize_message(message),
    }
}

/// The record of an error of the Codex API.
pub fn log_codex_api_error(message: &str) -> (res: LogRecord)
    ensures
        res.records(LogLevel::Error, LogTarget::CodexApi, message@),
        res.level == LogLevel::Error,
        res.target == LogTarget::CodexApi,
        res.message@ == sanitize::sanitized(message@),
        sanitize::finds_addresses(translate::translated(message@)),
        sanitize::plain_address(message@) ==> res.message@ == mask::masked_email(message@),
        !message@.contains('@') ==> res.message@ == translate::translated(message@),
{
    LogRecord {
        level: LogLevel::Error,
        target: LogTarget::CodexApi,
        message: sanitize_message(message),
    }
}

} // verus!
