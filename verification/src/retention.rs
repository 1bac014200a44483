//! Which log files have expired.
//!
//! The directory is read and the files are removed elsewhere. What was read is handed over as a
//! [`CleanupScan`], and what is to be done comes back as one [`CleanupAction`] for each entry.
use crate::listing::{self, DirEntry};
use crate::names::{self, is_managed_log_file};
use crate::text::{self, decimal_text, join};
use chrono::Duration;
use vstd::prelude::*;
use vstd::string::*;

verus! {

/// The number of days for which a log file is kept.
pub const LOG_RETENTION_DAYS: i64 = 3;

/// The number of seconds of a day.
pub const SECONDS_PER_DAY: i64 = 86400;

/// The number of nanoseconds of a second.
pub const NANOS_PER_SECOND: i128 = 1000000000;

/// What is known of the time of the last modification of a file.
pub enum ModifiedAt {
    /// The time, in nanoseconds since the Unix epoch.
    Known(i128),
    /// The metadata of the file could not be read; holds the system's message.
    NoMetadata(String),
    /// The metadata does not give the time; holds the system's message.
    NoTime(String),
}

/// What was read of one entry of the log directory.
pub struct CleanupEntry {
    /// The file name, `None` where it is not valid Unicode.
    pub name: Option<String>,
    /// The path, as it is shown in messages.
    pub path: String,
    /// Whether the entry is a regular file.
    pub is_file: bool,
    /// The time of the last modification.
    pub modified: ModifiedAt,
}

/// What reading the log directory gave.
pub enum CleanupScan {
    /// The log directory could not be opened for reading; holds the system's message.
    Unreadable(String),
    /// The entries. An entry that could not be read is the system's message.
    Entries(Vec<Result<CleanupEntry, String>>),
}

/// What is to be done about an entry.
pub enum CleanupAction {
    /// Nothing.
    Keep,
    /// This warning is to be logged.
    Warn(String),
    /// The file is to be removed.
    Remove,
}

/// The model of a [`CleanupAction`].
pub enum CleanupActionView {
    Keep,
    Warn(Seq<char>),
    Remove,
}

impl View for CleanupAction {
    type V = CleanupActionView;

    open spec fn view(&self) -> CleanupActionView {
        match *self {
            CleanupAction::Keep => CleanupActionView::Keep,
            CleanupAction::Warn(message) => CleanupActionView::Warn(message@),
            CleanupAction::Remove => CleanupActionView::Remove,
        }
    }
}

/// The instant before which a file must have been modified to be expired, in nanoseconds since
/// the Unix epoch, where the current time is `secs` seconds and `nanos` nanoseconds after it.
pub open spec fn cutoff_at(secs: i64, nanos: u32) -> int {
    (secs - LOG_RETENTION_DAYS * SECONDS_PER_DAY) * NANOS_PER_SECOND + nanos
}

/// Whether an entry is a managed log file.
pub open spec fn is_log(entry: CleanupEntry) -> bool {
    entry.is_file && (entry.name matches Some(name) && names::managed_name(name@))
}

/// A message about a path.
pub open spec fn path_message(what: Seq<char>, path: Seq<char>, error: Seq<char>) -> Seq<char> {
    what + path + ", "@ + error
}

/// What is to be done about an entry.
pub open spec fn planned(entry: Result<CleanupEntry, String>, cutoff: int) -> CleanupActionView {
    match entry {
        Err(error) => CleanupActionView::Warn("读取日志文件失败，已忽略: "@ + error@),
        Ok(entry) => if !is_log(entry) {
            CleanupActionView::Keep
        } else {
            match entry.modified {
                ModifiedAt::NoMetadata(error) => CleanupActionView::Warn(
                    path_message("读取日志元数据失败，已忽略: "@, entry.path@, error@),
                ),
                ModifiedAt::NoTime(error) => CleanupActionView::Warn(
                    path_message("读取日志修改时间失败，已忽略: "@, entry.path@, error@),
                ),
                ModifiedAt::Known(time) => if time >= cutoff {
                    CleanupActionView::Keep
                } else {
                    CleanupActionView::Remove
                },
            }
        },
    }
}

/// What is to be done about the log directory: one action for each of its entries, or a warning
/// where it could not be read.
pub open spec fn cleanup_plan(scan: CleanupScan, cutoff: int) -> Seq<CleanupActionView> {
    match scan {
        CleanupScan::Unreadable(error) => seq![
            CleanupActionView::Warn("读取日志目录失败，跳过清理: "@ + error@),
        ],
        CleanupScan::Entries(entries) => entries@.map_values(
            |entry: Result<CleanupEntry, String>| planned(entry, cutoff),
        ),
    }
}

/// The models of a list of actions.
pub open spec fn action_views(actions: Seq<CleanupAction>) -> Seq<CleanupActionView> {
    actions.map_values(|action: CleanupAction| action@)
}

/// The message about a cleanup that removed `removed` files.
pub open spec fn summary(removed: nat) -> Seq<char> {
    "日志清理完成：删除 "@ + text::decimal(removed) + " 个超过 "@ + text::decimal(
        LOG_RETENTION_DAYS as nat,
    ) + " 天的日志文件"@
}

/// The number of removed files after one more removal was tried.
pub open spec fn removed_after(removed: nat, outcome: Result<(), String>) -> nat {
    if outcome is Ok {
        removed + 1
    } else {
        removed
    }
}

/// The number of removed files after the removals with these outcomes were tried one by one.
pub open spec fn removed_by(outcomes: Seq<Result<(), String>>) -> nat
    decreases outcomes.len(),
{
    if outcomes.len() == 0 {
        0
    } else {
        removed_after(removed_by(outcomes.drop_last()), outcomes.last())
    }
}

/// The count of a cleanup is the number of removals that succeeded.
pub proof fn law_count_is_of_successes(outcomes: Seq<Result<(), String>>)
    ensures
        removed_by(outcomes) == outcomes.filter(|outcome: Result<(), String>| outcome is Ok).len(),
        removed_by(outcomes) <= outcomes.len(),
    decreases outcomes.len(),
{
    reveal(Seq::filter);
    if outcomes.len() > 0 {
        law_count_is_of_successes(outcomes.drop_last());
    }
}

/// A file is removed exactly where it is a managed log file that is known to have been modified
/// before the cutoff.
pub proof fn law_removes_expired_logs_only(entry: Result<CleanupEntry, String>, cutoff: int)
    ensures
        planned(entry, cutoff) == CleanupActionView::Remove <==> (entry matches Ok(found)
            && is_log(found) && (found.modified matches ModifiedAt::Known(time) && time < cutoff)),
{
}

/// Every regular file that is called `app.log` or `codex-api.log`, or so with a dot and any suffix
/// behind it, and that is known to have been modified before the cutoff is removed. Nothing else
/// is.
pub proof fn law_expired_logs_are_removed(entry: CleanupEntry, cutoff: int)
    ensures
        planned(Ok(entry), cutoff) == CleanupActionView::Remove <==> {
            &&& entry.is_file
            &&& entry.name matches Some(name) && {
                ||| name@ == "app.log"@
                ||| name@ == "codex-api.log"@
                ||| exists|suffix: Seq<char>| name@ == #[trigger] ("app.log"@ + seq!['.'] + suffix)
                ||| exists|suffix: Seq<char>|
                    name@ == #[trigger] ("codex-api.log"@ + seq!['.'] + suffix)
            }
            &&& entry.modified matches ModifiedAt::Known(time) && time < cutoff
        },
{
    if let Some(name) = entry.name {
        names::law_managed_names(name@);
    }
}

/// A log file with the stem `stem` and any suffix is removed where it was modified before the
/// cutoff, and kept where it was not. Where the time cannot be read, a warning says so, with the
/// path and the error.
pub proof fn law_log_with_stem_is_removed_or_kept(
    entry: CleanupEntry,
    name: String,
    stem: Seq<char>,
    suffix: Seq<char>,
    cutoff: int,
)
    requires
        stem == "app.log"@ || stem == "codex-api.log"@,
        name@ == stem || name@ == stem + seq!['.'] + suffix,
        entry.is_file,
        entry.name == Some(name),
    ensures
        match entry.modified {
            ModifiedAt::Known(time) => if time < cutoff {
                planned(Ok(entry), cutoff) == CleanupActionView::Remove
            } else {
                planned(Ok(entry), cutoff) == CleanupActionView::Keep
            },
            ModifiedAt::NoMetadata(error) => planned(Ok(entry), cutoff) == CleanupActionView::Warn(
                "读取日志元数据失败，已忽略: "@ + entry.path@ + ", "@ + error@,
            ),
            ModifiedAt::NoTime(error) => planned(Ok(entry), cutoff) == CleanupActionView::Warn(
                "读取日志修改时间失败，已忽略: "@ + entry.path@ + ", "@ + error@,
            ),
        },
{
    names::law_managed_is_app_or_codex(name@);
    names::law_dated_name_has_stem(stem, suffix);
}

/// What is not a regular file, has no readable name, or is not called like one of the logs is kept.
pub proof fn law_other_entries_are_kept(entry: CleanupEntry, cutoff: int)
    requires
        !entry.is_file || (entry.name matches Some(name) ==> {
            &&& name@ != "app.log"@
            &&& name@ != "codex-api.log"@
            &&& forall|suffix: Seq<char>| name@ != #[trigger] ("app.log"@ + seq!['.'] + suffix)
            &&& forall|suffix: Seq<char>|
                name@ != #[trigger] ("codex-api.log"@ + seq!['.'] + suffix)
        }),
    ensures
        planned(Ok(entry), cutoff) == CleanupActionView::Keep,
{
    if let Some(name) = entry.name {
        names::law_managed_names(name@);
    }
}

/// Each entry of the directory is dealt with on its own and in its place; one that could not be
/// read is warned about. A directory that could not be read gives one warning.
pub proof fn law_each_entry_has_its_action(
    entries: Vec<Result<CleanupEntry, String>>,
    error: String,
    cutoff: int,
)
    ensures
        cleanup_plan(CleanupScan::Entries(entries), cutoff).len() == entries@.len(),
        forall|i: int|
            0 <= i < entries@.len() ==> {
                &&& #[trigger] cleanup_plan(CleanupScan::Entries(entries), cutoff)[i] == planned(
                    entries@[i],
                    cutoff,
                )
                &&& entries@[i] matches Err(message) ==> planned(entries@[i], cutoff)
                    == CleanupActionView::Warn("读取日志文件失败，已忽略: "@ + message@)
            },
        cleanup_plan(CleanupScan::Unreadable(error), cutoff) == seq![
            CleanupActionView::Warn("读取日志目录失败，跳过清理: "@ + error@),
        ],
{
}

/// The actions of a plan are modelled one by one and by what they are.
pub proof fn law_actions_are_modelled(actions: Seq<CleanupAction>)
    ensures
        action_views(actions).len() == actions.len(),
        forall|i: int|
            0 <= i < actions.len() ==> match actions[i] {
                CleanupAction::Keep => #[trigger] action_views(actions)[i]
                    == CleanupActionView::Keep,
                CleanupAction::Warn(message) => action_views(actions)[i]
                    == CleanupActionView::Warn(message@),
                CleanupAction::Remove => action_views(actions)[i] == CleanupActionView::Remove,
            },
        forall|i: int| 0 <= i < actions.len() ==> action_views(actions)[i] == #[trigger] actions[i]@,
{
}

/// The cutoff lies three days before the current time.
pub proof fn law_cutoff_is_three_days_ago(secs: i64, nanos: u32)
    ensures
        secs * 1_000_000_000 + nanos - cutoff_at(secs, nanos) == 3 * 24 * 60 * 60 * 1_000_000_000,
{
}

/// One more removal that succeeded counts one, and one that failed counts nothing.
pub proof fn law_removal_is_counted_where_it_succeeded(removed: nat, error: String)
    ensures
        removed_after(removed, Ok(())) == removed + 1,
        removed_after(removed, Err(error)) == removed,
{
}

/// A message about a path names the path and the error, and the summary of a cleanup the number of
/// removed files.
pub proof fn law_cleanup_messages(
    what: Seq<char>,
    path: Seq<char>,
    error: Seq<char>,
    removed: nat,
)
    ensures
        path_message(what, path, error) == what + path + seq![',', ' '] + error,
        summary(removed) == "日志清理完成：删除 "@ + text::decimal(removed)
            + " 个超过 3 天的日志文件"@,
{
    reveal_strlit(", ");
    reveal_strlit(" 个超过 ");
    reveal_strlit(" 天的日志文件");
    reveal_strlit(" 个超过 3 天的日志文件");
    assert(text::decimal(3) == seq!['3']);
    assert(" 个超过 "@ + text::decimal(3) + " 天的日志文件"@ == " 个超过 3 天的日志文件"@);
}

/// A file that was modified within the days of retention is kept.
pub proof fn law_recent_file_is_kept(entry: CleanupEntry, time: i128, secs: i64, nanos: u32)
    requires
        entry.modified == ModifiedAt::Known(time),
        secs * NANOS_PER_SECOND + nanos - time <= LOG_RETENTION_DAYS * SECONDS_PER_DAY
            * NANOS_PER_SECOND,
    ensures
        planned(Ok(entry), cutoff_at(secs, nanos)) == CleanupActionView::Keep,
{
}

/// A file that is to be removed is one that the listing of the managed logs shows.
pub proof fn law_removed_file_is_listed(
    entry: CleanupEntry,
    cutoff: int,
    same: DirEntry,
)
    requires
        planned(Ok(entry), cutoff) == CleanupActionView::Remove,
        same.name == entry.name,
        same.is_file == entry.is_file,
    ensures
        listing::wanted_file(Ok(same), listing::managed()) matches Some(file) && Some(file.name)
            == (match entry.name {
            Some(name) => Some(name@),
            None => None,
        }),
{
}

/// Calls `chrono::Duration::days` and takes the length in seconds from it by `num_seconds`. A
/// day has 86400 seconds, and both calls are exact as long as the duration is within the range
/// of the type, which is that of an `i64` of milliseconds.
#[verifier::external_body]
fn days_in_seconds(days: i64) -> (res: i64)
    requires
        -(i64::MAX / 1000) <= days * SECONDS_PER_DAY <= i64::MAX / 1000,
    ensures
        res == days * SECONDS_PER_DAY,
{
    Duration::days(days).num_seconds()
}

/// The instant before which a file must have been modified to be expired, in nanoseconds since
/// the Unix epoch. The current time is `secs` seconds and `nanos` nanoseconds after it.
pub fn expiry_cutoff(secs: i64, nanos: u32) -> (res: i128)
    ensures
        res == cutoff_at(secs, nanos),
{
    let kept: i64 = days_in_seconds(LOG_RETENTION_DAYS);
    (secs as i128 - kept as i128) * NANOS_PER_SECOND + nanos as i128
}

/// A message about a path.
fn warn_about(what: &str, path: &str, error: &str) -> (res: String)
    ensures
        res@ == path_message(what@, path@, error@),
{
    let mut res = join(what, path);
    res.append(", ");
    res.append(error);
    res
}

/// Decides what is to be done about an entry.
pub fn cleanup_action(entry: &Result<CleanupEntry, String>, cutoff: i128) -> (res: CleanupAction)
    ensures
        res@ == planned(*entry, cutoff as int),
{
    let entry = match entry {
        Ok(entry) => entry,
        Err(error) => return CleanupAction::Warn(
            join("读取日志文件失败，已忽略: ", error.as_str()),
        ),
    };
    let name: Option<&str> = match &entry.name {
        Some(name) => Some(name.as_str()),
        None => None,
    };
    if !entry.is_file || !is_managed_log_file(name) {
        return CleanupAction::Keep;
    }
    match &entry.modified {
        ModifiedAt::NoMetadata(error) => CleanupAction::Warn(
            warn_about("读取日志元数据失败，已忽略: ", entry.path.as_str(), error.as_str()),
        ),
        ModifiedAt::NoTime(error) => CleanupAction::Warn(
            warn_about("读取日志修改时间失败，已忽略: ", entry.path.as_str(), error.as_str()),
        ),
        ModifiedAt::Known(time) => if *time >= cutoff {
            CleanupAction::Keep
        } else {
            CleanupAction::Remove
        },
    }
}

/// Decides what is to be done about the log directory.
pub fn cleanup_expired_logs(scan: &CleanupScan, cutoff: i128) -> (res: Vec<CleanupAction>)
    ensures
        action_views(res@) == cleanup_plan(*scan, cutoff as int),
{
    let mut res: Vec<CleanupAction> = Vec::new();
    match scan {
        CleanupScan::Unreadable(error) => {
            res.push(CleanupAction::Warn(join("读取日志目录失败，跳过清理: ", error.as_str())));
        },
        CleanupScan::Entries(entries) => {
            let mut i: usize = 0;
            while i < entries.len()
                invariant
                    i <= entries@.len(),
                    res@.len() == i,
                    forall|j: int| 0 <= j < i ==> (#[trigger] res@[j])@ == planned(
                        entries@[j],
                        cutoff as int,
                    ),
                decreases entries@.len() - i,
            {
                res.push(cleanup_action(&entries[i], cutoff));
                i += 1;
            }
        },
    }
    res
}

/// The warning about a file that could not be removed.
fn removal_failure(path: &str, error: &str) -> (res: String)
    ensures
        res@ == path_message("删除过期日志失败，已忽略: "@, path@, error@),
{
    warn_about("删除过期日志失败，已忽略: ", path, error)
}

/// Takes the outcome of one removal: a file that was removed is counted, one that was not is
/// warned about.
pub fn note_removal(removed: usize, path: &str, outcome: &Result<(), String>) -> (res: (
    usize,
    Option<String>,
))
    requires
        outcome is Ok ==> removed < usize::MAX,
    ensures
        res.0 == removed_after(removed as nat, *outcome),
        match *outcome {
            Ok(_) => res.1 is None,
            Err(error) => res.1 matches Some(message) && message@ == path_message(
                "删除过期日志失败，已忽略: "@,
                path@,
                error@,
            ),
        },
{
    match outcome {
        Ok(_) => (removed + 1, None),
        Err(error) => (removed, Some(removal_failure(path, error.as_str()))),
    }
}

/// The message about a cleanup that removed `removed` files, where it removed any.
pub fn cleanup_summary(removed: usize) -> (res: Option<String>)
    ensures
        res is None <==> removed == 0,
        res matches Some(message) ==> message@ == summary(removed as nat),
{
    if removed == 0 {
        return None;
    }
    let mut res = join("日志清理完成：删除 ", decimal_text(removed).as_str());
    res.append(" 个超过 ");
    res.append(decimal_text(LOG_RETENTION_DAYS as usize).as_str());
    res.append(" 天的日志文件");
    Some(res)
}

} // verus!
