//! Listing the log directory and picking a log file from it.
//!
//! The directory itself is read elsewhere; what was read is handed over as a [`DirScan`].
use crate::names::{is_log_file_with_prefix, is_managed_log_file_name, APP_LOG_FILE_PREFIX};
use crate::text::{join, same_text, trim};
use std::cmp::Ordering;
use vstd::prelude::*;
use vstd::relations::*;

verus! {

/// What was read of one entry of the log directory.
pub struct DirEntry {
    /// The file name, `None` where it is not valid Unicode.
    pub name: Option<String>,
    /// Whether the entry is a regular file.
    pub is_file: bool,
    /// The time of the last modification, in nanoseconds since the Unix epoch, `None` where it
    /// could not be read.
    pub modified: Option<i128>,
}

/// What reading the log directory gave.
pub enum DirScan {
    /// The log directory is not there and could not be made; holds the message that says so.
    NoLogDir(String),
    /// The log directory could not be opened for reading; holds the system's message.
    Unreadable(String),
    /// The entries in the order in which the system gave them. An entry that could not be read
    /// is the system's message.
    Entries(Vec<Result<DirEntry, String>>),
}

/// A file of the log directory.
pub struct LogFile {
    /// The file name.
    pub name: String,
    /// The time of the last modification, in nanoseconds since the Unix epoch.
    pub modified: i128,
}

/// The model of a [`LogFile`].
pub struct LogFileView {
    pub name: Seq<char>,
    pub modified: int,
}

impl View for LogFile {
    type V = LogFileView;

    open spec fn view(&self) -> LogFileView {
        LogFileView { name: self.name@, modified: self.modified as int }
    }
}

/// The models of a list of files.
pub open spec fn views(files: Seq<LogFile>) -> Seq<LogFileView> {
    files.map_values(|file: LogFile| file@)
}

/// Whether the bytes `a` come before the bytes `b` in lexicographic order, or are the same.
pub open spec fn bytes_le(a: Seq<u8>, b: Seq<u8>) -> bool
    decreases a.len(),
{
    if a.len() == 0 {
        true
    } else if b.len() == 0 {
        false
    } else {
        a.first() < b.first() || (a.first() == b.first() && bytes_le(
            a.drop_first(),
            b.drop_first(),
        ))
    }
}

/// The order of a listing: the file that was modified last comes first, and of two files that
/// were modified at the same time the one with the greater name, compared byte by byte.
pub open spec fn listed_before(a: LogFileView, b: LogFileView) -> bool {
    a.modified > b.modified || (a.modified == b.modified && bytes_le(
        vstd::utf8::encode_utf8(b.name),
        vstd::utf8::encode_utf8(a.name),
    ))
}

/// [`listed_before`] as a relation.
pub open spec fn recency() -> spec_fn(LogFileView, LogFileView) -> bool {
    |a: LogFileView, b: LogFileView| listed_before(a, b)
}

/// The file that an entry stands for, where it is a regular file with a name that `wanted` holds
/// of. A file whose modification time is not known counts as modified at the Unix epoch.
pub open spec fn wanted_file(
    entry: Result<DirEntry, String>,
    wanted: spec_fn(Seq<char>) -> bool,
) -> Option<LogFileView> {
    match entry {
        Ok(entry) => match entry.name {
            Some(name) => if entry.is_file && wanted(name@) {
                Some(
                    LogFileView {
                        name: name@,
                        modified: match entry.modified {
                            Some(time) => time as int,
                            None => 0,
                        },
                    },
                )
            } else {
                None
            },
            None => None,
        },
        Err(_) => None,
    }
}

/// The files among `entries` that `wanted` holds of, in the order of the entries.
pub open spec fn wanted_files(
    entries: Seq<Result<DirEntry, String>>,
    wanted: spec_fn(Seq<char>) -> bool,
) -> Seq<LogFileView> {
    entries.filter_map(|entry: Result<DirEntry, String>| wanted_file(entry, wanted))
}

/// The message of the first entry that could not be read.
pub open spec fn first_failure(entries: Seq<Result<DirEntry, String>>) -> Option<Seq<char>>
    decreases entries.len(),
{
    if entries.len() == 0 {
        None
    } else {
        match entries.first() {
            Err(message) => Some(message@),
            Ok(_) => first_failure(entries.drop_first()),
        }
    }
}

/// The message of what went wrong first when the directory was read, where anything did.
pub open spec fn scan_failure(scan: DirScan) -> Option<Seq<char>> {
    match scan {
        DirScan::NoLogDir(message) => Some(message@),
        DirScan::Unreadable(message) => Some("读取日志目录失败: "@ + message@),
        DirScan::Entries(entries) => match first_failure(entries@) {
            Some(message) => Some("读取日志目录项失败: "@ + message),
            None => None,
        },
    }
}

/// The entries of the directory.
pub open spec fn entries_of(scan: DirScan) -> Seq<Result<DirEntry, String>> {
    match scan {
        DirScan::Entries(entries) => entries@,
        _ => seq![],
    }
}

/// The listing of the files that `wanted` holds of: those files in the order [`recency`], or the
/// message of what went wrong first.
pub open spec fn listing(
    scan: DirScan,
    wanted: spec_fn(Seq<char>) -> bool,
) -> Result<Seq<LogFileView>, Seq<char>> {
    match scan_failure(scan) {
        Some(message) => Err(message),
        None => Ok(wanted_files(entries_of(scan), wanted).sort_by(recency())),
    }
}

/// The files among `entries` that an answer takes, in the order of the entries; there is an
/// answer for each entry.
pub open spec fn chosen_files(
    entries: Seq<Result<DirEntry, String>>,
    answers: Seq<bool>,
) -> Seq<LogFileView>
    decreases entries.len(),
{
    if entries.len() == 0 {
        seq![]
    } else {
        let before = chosen_files(entries.drop_last(), answers.drop_last());
        match wanted_file(entries.last(), |name: Seq<char>| answers.last()) {
            Some(file) => before.push(file),
            None => before,
        }
    }
}

/// Whether `matcher` may give `answer` when it is asked for `name`.
pub open spec fn may_answer<F: Fn(&str) -> bool>(
    matcher: F,
    name: Seq<char>,
    answer: bool,
) -> bool {
    exists|asked: &str| asked@ == name && #[trigger] matcher.ensures((asked,), answer)
}

/// Whether `answers` has an answer for each entry, and what `matcher` may say of it where it is a
/// regular file with a readable name.
pub open spec fn answers_of<F: Fn(&str) -> bool>(
    matcher: F,
    entries: Seq<Result<DirEntry, String>>,
    answers: Seq<bool>,
) -> bool {
    &&& answers.len() == entries.len()
    &&& forall|i: int|
        #![trigger entries[i]]
        0 <= i < entries.len() ==> (entries[i] matches Ok(entry) ==> (entry.name matches Some(name)
            ==> entry.is_file ==> may_answer(matcher, name@, answers[i])))
}

/// The model of a listing.
pub open spec fn listing_view(res: Result<Vec<LogFile>, String>) -> Result<
    Seq<LogFileView>,
    Seq<char>,
> {
    match res {
        Ok(files) => Ok(views(files@)),
        Err(message) => Err(message@),
    }
}

/// The model of a picked file.
pub open spec fn pick_view(res: Result<LogFile, String>) -> Result<LogFileView, Seq<char>> {
    match res {
        Ok(file) => Ok(file@),
        Err(message) => Err(message@),
    }
}

/// Whether `wanted` says what `matcher` returns.
pub open spec fn decides<F: Fn(&str) -> bool>(
    matcher: F,
    wanted: spec_fn(Seq<char>) -> bool,
) -> bool {
    forall|name: &str, res: bool| matcher.ensures((name,), res) ==> res == wanted(name@)
}

/// The names of managed log files.
pub open spec fn managed() -> spec_fn(Seq<char>) -> bool {
    |name: Seq<char>| crate::names::managed_name(name)
}

/// The names of application log files.
pub open spec fn app_log() -> spec_fn(Seq<char>) -> bool {
    |name: Seq<char>| crate::names::has_stem(name, APP_LOG_FILE_PREFIX@)
}

proof fn lemma_bytes_le_reflexive(a: Seq<u8>)
    ensures
        bytes_le(a, a),
    decreases a.len(),
{
    if a.len() > 0 {
        lemma_bytes_le_reflexive(a.drop_first());
    }
}

proof fn lemma_bytes_le_total(a: Seq<u8>, b: Seq<u8>)
    ensures
        bytes_le(a, b) || bytes_le(b, a),
    decreases a.len(),
{
    if a.len() > 0 && b.len() > 0 {
        lemma_bytes_le_total(a.drop_first(), b.drop_first());
    }
}

proof fn lemma_bytes_le_antisymmetric(a: Seq<u8>, b: Seq<u8>)
    requires
        bytes_le(a, b),
        bytes_le(b, a),
    ensures
        a == b,
    decreases a.len(),
{
    if a.len() > 0 && b.len() > 0 {
        lemma_bytes_le_antisymmetric(a.drop_first(), b.drop_first());
        assert(a == seq![a.first()] + a.drop_first());
    }
}

proof fn lemma_bytes_le_transitive(a: Seq<u8>, b: Seq<u8>, c: Seq<u8>)
    requires
        bytes_le(a, b),
        bytes_le(b, c),
    ensures
        bytes_le(a, c),
    decreases a.len(),
{
    if a.len() > 0 && b.len() > 0 && c.len() > 0 {
        if a.first() == b.first() && b.first() == c.first() {
            lemma_bytes_le_transitive(a.drop_first(), b.drop_first(), c.drop_first());
        }
    }
}

/// The order of a listing is total: of two different files, exactly one comes first.
pub proof fn law_recency_is_total_order()
    ensures
        total_ordering(recency()),
{
    assert forall|a: LogFileView| #[trigger] recency()(a, a) by {
        lemma_bytes_le_reflexive(vstd::utf8::encode_utf8(a.name));
    }
    assert forall|a: LogFileView, b: LogFileView| #[trigger]
        recency()(a, b) && #[trigger] recency()(b, a) implies a == b by {
        lemma_bytes_le_antisymmetric(
            vstd::utf8::encode_utf8(a.name),
            vstd::utf8::encode_utf8(b.name),
        );
        vstd::utf8::encode_utf8_decode_utf8(a.name);
        vstd::utf8::encode_utf8_decode_utf8(b.name);
    }
    assert forall|a: LogFileView, b: LogFileView, c: LogFileView| #[trigger]
        recency()(a, b) && #[trigger] recency()(b, c) implies recency()(a, c) by {
        if a.modified == b.modified && b.modified == c.modified {
            lemma_bytes_le_transitive(
                vstd::utf8::encode_utf8(c.name),
                vstd::utf8::encode_utf8(b.name),
                vstd::utf8::encode_utf8(a.name),
            );
        }
    }
    assert forall|a: LogFileView, b: LogFileView| #[trigger]
        recency()(a, b) || #[trigger] recency()(b, a) by {
        lemma_bytes_le_total(
            vstd::utf8::encode_utf8(a.name),
            vstd::utf8::encode_utf8(b.name),
        );
    }
}

/// [`bytes_le`] on slices.
fn bytes_at_most(a: &[u8], b: &[u8]) -> (res: bool)
    ensures
        res == bytes_le(a@, b@),
{
    let mut i: usize = 0;
    assert(a@.skip(0) == a@);
    assert(b@.skip(0) == b@);
    while i < a.len() && i < b.len() && a[i] == b[i]
        invariant
            i <= a@.len(),
            i <= b@.len(),
            bytes_le(a@, b@) == bytes_le(a@.skip(i as int), b@.skip(i as int)),
        decreases a@.len() - i,
    {
        assert(a@.skip(i as int).drop_first() == a@.skip(i + 1));
        assert(b@.skip(i as int).drop_first() == b@.skip(i + 1));
        i += 1;
    }
    if i == a.len() {
        true
    } else if i == b.len() {
        false
    } else {
        a[i] < b[i]
    }
}

/// How two files stand to each other in a listing.
pub fn compare_log_paths_by_recency(left: &LogFile, right: &LogFile) -> (res: Ordering)
    ensures
        res == Ordering::Equal <==> left@ == right@,
        res == Ordering::Less <==> left@ != right@ && listed_before(left@, right@),
        res == Ordering::Greater <==> left@ != right@ && listed_before(right@, left@),
{
    proof {
        law_recency_is_total_order();
        assert(recency()(left@, right@) == listed_before(left@, right@));
        assert(recency()(right@, left@) == listed_before(right@, left@));
    }
    if left.modified != right.modified {
        return if left.modified > right.modified {
            Ordering::Less
        } else {
            Ordering::Greater
        };
    }
    if same_text(left.name.as_str(), right.name.as_str()) {
        Ordering::Equal
    } else if bytes_at_most(right.name.as_str().as_bytes(), left.name.as_str().as_bytes()) {
        Ordering::Less
    } else {
        Ordering::Greater
    }
}

/// Whether `left` comes before `right` in a listing, or is the same.
fn comes_first(left: &LogFile, right: &LogFile) -> (res: bool)
    ensures
        res == listed_before(left@, right@),
{
    proof {
        law_recency_is_total_order();
        assert(recency()(left@, right@) == listed_before(left@, right@));
    }
    match compare_log_paths_by_recency(left, right) {
        Ordering::Less => true,
        Ordering::Equal => true,
        Ordering::Greater => false,
    }
}

/// Puts `file` at its place into the listing `files`.
fn insert_by_recency(files: &mut Vec<LogFile>, file: LogFile)
    requires
        sorted_by(views(old(files)@), recency()),
    ensures
        sorted_by(views(final(files)@), recency()),
        views(final(files)@).to_multiset() == views(old(files)@).to_multiset().insert(file@),
{
    let ghost before = views(files@);
    let ghost x = file@;
    proof {
        law_recency_is_total_order();
    }
    let mut at: usize = 0;
    while at < files.len() && comes_first(&files[at], &file)
        invariant
            at <= files@.len(),
            before == views(files@),
            x == file@,
            forall|j: int| 0 <= j < at ==> listed_before(#[trigger] before[j], x),
        decreases files@.len() - at,
    {
        at += 1;
    }
    proof {
        if at < files@.len() {
            assert(recency()(x, before[at as int]) || recency()(before[at as int], x));
        }
    }
    files.insert(at, file);
    proof {
        let after = before.insert(at as int, x);
        assert(views(files@) == after);
        vstd::seq_lib::to_multiset_insert(before, at as int, x);
        assert forall|i: int, j: int| 0 <= i < j < after.len() implies #[trigger] recency()(
            after[i],
            after[j],
        ) by {
            if i < at && j == at {
                assert(listed_before(before[i], x));
            } else if i == at && j > at + 1 {
                assert(recency()(x, before[i]));
                assert(recency()(before[i], before[j - 1]));
            }
        }
    }
}

/// Sorts a list of files into the order of a listing.
fn sort_by_recency(files: Vec<LogFile>) -> (res: Vec<LogFile>)
    ensures
        views(res@) == views(files@).sort_by(recency()),
{
    let ghost all = views(files@);
    let mut rest = files;
    let mut res: Vec<LogFile> = Vec::new();
    proof {
        law_recency_is_total_order();
        views(res@).to_multiset_ensures();
    }
    while rest.len() > 0
        invariant
            sorted_by(views(res@), recency()),
            views(res@).to_multiset().add(views(rest@).to_multiset()) == all.to_multiset(),
        decreases rest@.len(),
    {
        let ghost old_rest = views(rest@);
        let ghost old_res = views(res@);
        let ghost last = rest@.last()@;
        if let Some(file) = rest.pop() {
            proof {
                assert(old_rest == views(rest@).push(last));
                vstd::seq_lib::to_multiset_build(views(rest@), last);
            }
            insert_by_recency(&mut res, file);
            assert(views(res@).to_multiset().add(views(rest@).to_multiset())
                =~= old_res.to_multiset().add(old_rest.to_multiset()));
        }
    }
    proof {
        views(rest@).to_multiset_ensures();
        assert(views(res@).to_multiset().add(views(rest@).to_multiset())
            =~= views(res@).to_multiset());
        all.lemma_sort_by_ensures(recency());
        vstd::seq_lib::lemma_sorted_unique(views(res@), all.sort_by(recency()), recency());
    }
    res
}

/// The listing of the files whose names `matcher` accepts. It asks the matcher once for each
/// regular file; whatever the answers are, the files taken are sorted. Where the answers depend
/// on the names alone, the listing is [`listing`].
pub fn list_log_files_by_name<F: Fn(&str) -> bool>(scan: &DirScan, matcher: F) -> (res: Result<
    Vec<LogFile>,
    String,
>)
    requires
        forall|name: &str| #[trigger] matcher.requires((name,)),
    ensures
        match scan_failure(*scan) {
            Some(message) => res matches Err(error) && error@ == message,
            None => res is Ok,
        },
        res matches Ok(files) ==> sorted_by(views(files@), recency()),
        res matches Ok(files) ==> exists|answers: Seq<bool>| #[trigger]
            answers_of(matcher, entries_of(*scan), answers) && views(files@) == chosen_files(
                entries_of(*scan),
                answers,
            ).sort_by(recency()),
        forall|wanted: spec_fn(Seq<char>) -> bool| #[trigger]
            decides(matcher, wanted) ==> listing_view(res) == listing(*scan, wanted),
{
    let entries = match scan {
        DirScan::NoLogDir(message) => return Err(message.clone()),
        DirScan::Unreadable(message) => return Err(join("读取日志目录失败: ", message.as_str())),
        DirScan::Entries(entries) => entries,
    };
    let mut files: Vec<LogFile> = Vec::new();
    let ghost mut answers: Seq<bool> = seq![];
    let mut i: usize = 0;
    assert(entries@.skip(0) == entries@);
    while i < entries.len()
        invariant
            i <= entries@.len(),
            *scan == DirScan::Entries(*entries),
            forall|name: &str| #[trigger] matcher.requires((name,)),
            first_failure(entries@) == first_failure(entries@.skip(i as int)),
            answers_of(matcher, entries@.take(i as int), answers),
            views(files@) == chosen_files(entries@.take(i as int), answers),
            forall|wanted: spec_fn(Seq<char>) -> bool| #[trigger]
                decides(matcher, wanted) ==> views(files@) == wanted_files(
                    entries@.take(i as int),
                    wanted,
                ),
        decreases entries@.len() - i,
    {
        let ghost before = views(files@);
        let ghost mut answer = false;
        assert(entries@.skip(i as int).drop_first() == entries@.skip(i + 1));
        match &entries[i] {
            Err(message) => {
                return Err(join("读取日志目录项失败: ", message.as_str()));
            },
            Ok(entry) => {
                match &entry.name {
                    Some(name) => {
                        if entry.is_file {
                            let accepted = matcher(name.as_str());
                            proof {
                                answer = accepted;
                                assert(may_answer(matcher, name@, answer));
                            }
                            if accepted {
                                let modified: i128 = match entry.modified {
                                    Some(time) => time,
                                    None => 0,
                                };
                                files.push(LogFile { name: name.clone(), modified });
                            }
                        }
                    },
                    None => {},
                }
            },
        }
        proof {
            assert forall|wanted: spec_fn(Seq<char>) -> bool| #[trigger]
                decides(matcher, wanted) implies views(files@) == wanted_files(
                entries@.take(i + 1),
                wanted,
            ) by {
                let f = |entry: Result<DirEntry, String>| wanted_file(entry, wanted);
                entries@.lemma_filter_map_take_succ(f, i as int);
                match wanted_file(entries@[i as int], wanted) {
                    Some(file) => {
                        assert(views(files@) == before.push(file));
                    },
                    None => {},
                }
            }
        }
        proof {
            let seen = entries@.take(i + 1);
            assert(seen.drop_last() == entries@.take(i as int));
            assert(answers.push(answer).drop_last() == answers);
            answers = answers.push(answer);
            match wanted_file(entries@[i as int], |name: Seq<char>| answer) {
                Some(file) => {
                    assert(views(files@) == before.push(file));
                },
                None => {},
            }
        }
        i += 1;
    }
    proof {
        assert(entries@.take(i as int) == entries@);
        law_recency_is_total_order();
        views(files@).lemma_sort_by_ensures(recency());
    }
    Ok(sort_by_recency(files))
}

/// All managed log files, the latest first.
pub fn list_managed_log_files(scan: &DirScan) -> (res: Result<Vec<LogFile>, String>)
    ensures
        listing_view(res) == listing(*scan, managed()),
        res matches Ok(files) ==> sorted_by(views(files@), recency()),
{
    assert(decides(is_managed_log_file_name, managed()));
    list_log_files_by_name(scan, is_managed_log_file_name)
}

/// The message for a directory without log files.
pub const NO_LOG_FILE: &'static str = "未找到可用日志文件";

/// The first file of `files` that is called `name`.
pub open spec fn file_named(files: Seq<LogFileView>, name: Seq<char>) -> Option<LogFileView>
    decreases files.len(),
{
    if files.len() == 0 {
        None
    } else if files.first().name == name {
        Some(files.first())
    } else {
        file_named(files.drop_first(), name)
    }
}

/// The first file of a listing.
pub open spec fn latest(listed: Result<Seq<LogFileView>, Seq<char>>) -> Result<
    LogFileView,
    Seq<char>,
> {
    match listed {
        Err(message) => Err(message),
        Ok(files) => if files.len() == 0 {
            Err(NO_LOG_FILE@)
        } else {
            Ok(files.first())
        },
    }
}

/// What a request for the file `file_name` picks from a listing: the file of that name, white
/// space at the ends of the request set aside, or the first file where nothing but white space
/// is asked for.
pub open spec fn resolved(
    listed: Result<Seq<LogFileView>, Seq<char>>,
    file_name: Option<Seq<char>>,
) -> Result<LogFileView, Seq<char>> {
    match (listed, file_name) {
        (Ok(files), Some(name)) => if files.len() > 0 && crate::text::trimmed(name).len() > 0 {
            match file_named(files, crate::text::trimmed(name)) {
                Some(file) => Ok(file),
                None => Err("未找到指定日志文件: "@ + crate::text::trimmed(name)),
            }
        } else {
            latest(listed)
        },
        _ => latest(listed),
    }
}

/// The model of a requested name.
pub open spec fn request_view(file_name: Option<&str>) -> Option<Seq<char>> {
    match file_name {
        Some(name) => Some(name@),
        None => None,
    }
}

/// Picks the first file of a list.
fn take_first(files: Vec<LogFile>) -> (res: Result<LogFile, String>)
    ensures
        pick_view(res) == latest(Ok(views(files@))),
{
    let mut files = files;
    if files.len() == 0 {
        Err(NO_LOG_FILE.to_owned())
    } else {
        Ok(files.remove(0))
    }
}

/// Picks a managed log file: the one called `file_name`, or the latest one.
pub fn resolve_managed_log_file(scan: &DirScan, file_name: Option<&str>) -> (res: Result<
    LogFile,
    String,
>)
    ensures
        pick_view(res) == resolved(listing(*scan, managed()), request_view(file_name)),
{
    let mut files = match list_managed_log_files(scan) {
        Ok(files) => files,
        Err(message) => return Err(message),
    };
    if files.len() == 0 {
        return Err(NO_LOG_FILE.to_owned());
    }
    let wanted = match file_name {
        Some(name) => trim(name),
        None => return take_first(files),
    };
    if wanted.is_empty() {
        return take_first(files);
    }
    let ghost all = views(files@);
    let mut i: usize = 0;
    assert(all.skip(0) == all);
    while i < files.len()
        invariant
            i <= files@.len(),
            all == views(files@),
            file_named(all, wanted@) == file_named(all.skip(i as int), wanted@),
            file_name matches Some(name) && wanted@ == crate::text::trimmed(name@),
            wanted@.len() > 0,
            all.len() > 0,
            listing(*scan, managed()) == Ok::<Seq<LogFileView>, Seq<char>>(all),
        decreases files@.len() - i,
    {
        if same_text(files[i].name.as_str(), wanted) {
            return Ok(files.swap_remove(i));
        }
        assert(all.skip(i as int).drop_first() == all.skip(i + 1));
        i += 1;
    }
    Err(join("未找到指定日志文件: ", wanted))
}

/// Picks the latest application log file.
pub fn get_latest_app_log_file(scan: &DirScan) -> (res: Result<LogFile, String>)
    ensures
        pick_view(res) == latest(listing(*scan, app_log())),
{
    let matcher = |name: &str| -> (res: bool)
        ensures
            res == crate::names::has_stem(name@, APP_LOG_FILE_PREFIX@),
        { is_log_file_with_prefix(name, APP_LOG_FILE_PREFIX) };
    assert(decides(matcher, app_log()));
    match list_log_files_by_name(scan, matcher) {
        Ok(files) => take_first(files),
        Err(message) => Err(message),
    }
}

} // verus!
