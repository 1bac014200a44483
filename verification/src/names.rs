//! Which file names belong to the logs.
use crate::text::{begins_with, join, same_text};
use vstd::prelude::*;

verus! {

/// The name of the directory of the logs, inside the data directory.
pub const LOG_DIR_NAME: &'static str = "logs";

/// The name of the current application log, and the stem of its dated files.
pub const APP_LOG_FILE_PREFIX: &'static str = "app.log";

/// The name of the current Codex API log, and the stem of its dated files.
pub const CODEX_API_LOG_FILE_PREFIX: &'static str = "codex-api.log";

/// The stems of all managed log files.
pub const MANAGED_LOG_FILE_PREFIXES: [&'static str; 2] = [
    APP_LOG_FILE_PREFIX,
    CODEX_API_LOG_FILE_PREFIX,
];

/// Whether `name` is the stem `prefix` itself, or the stem followed by a dot and anything.
pub open spec fn has_stem(name: Seq<char>, prefix: Seq<char>) -> bool {
    name == prefix || (prefix + seq!['.']).is_prefix_of(name)
}

/// Whether `name` has one of the managed stems.
pub open spec fn managed_name(name: Seq<char>) -> bool {
    exists|i: int|
        0 <= i < MANAGED_LOG_FILE_PREFIXES@.len() && has_stem(
            name,
            #[trigger] MANAGED_LOG_FILE_PREFIXES@[i]@,
        )
}

/// A managed name is the name of an application log or of a Codex API log.
pub proof fn law_managed_is_app_or_codex(name: Seq<char>)
    ensures
        managed_name(name) <==> has_stem(name, APP_LOG_FILE_PREFIX@) || has_stem(
            name,
            CODEX_API_LOG_FILE_PREFIX@,
        ),
{
    assert(MANAGED_LOG_FILE_PREFIXES@[0]@ == APP_LOG_FILE_PREFIX@);
    assert(MANAGED_LOG_FILE_PREFIXES@[1]@ == CODEX_API_LOG_FILE_PREFIX@);
}

/// A name has a stem exactly where it is the stem, or the stem, a dot and some suffix.
pub proof fn law_stem_is_followed_by_dot(name: Seq<char>, prefix: Seq<char>)
    ensures
        has_stem(name, prefix) <==> (name == prefix || exists|suffix: Seq<char>|
            name == #[trigger] (prefix + seq!['.'] + suffix)),
{
    let stem = prefix + seq!['.'];
    if stem.is_prefix_of(name) {
        let suffix = name.skip(stem.len() as int);
        assert(name == stem + suffix);
        assert(name == prefix + seq!['.'] + suffix);
    }
    if exists|suffix: Seq<char>| name == #[trigger] (prefix + seq!['.'] + suffix) {
        let suffix = choose|suffix: Seq<char>| name == #[trigger] (prefix + seq!['.'] + suffix);
        law_dated_name_has_stem(prefix, suffix);
    }
}

/// The managed names are `app.log`, `codex-api.log`, and each of the two with a dot and any suffix
/// behind it.
pub proof fn law_managed_names(name: Seq<char>)
    ensures
        managed_name(name) <==> {
            ||| name == "app.log"@
            ||| name == "codex-api.log"@
            ||| exists|suffix: Seq<char>| name == #[trigger] ("app.log"@ + seq!['.'] + suffix)
            ||| exists|suffix: Seq<char>| name == #[trigger] ("codex-api.log"@ + seq!['.'] + suffix)
        },
        LOG_DIR_NAME@ == "logs"@,
{
    law_managed_is_app_or_codex(name);
    law_stem_is_followed_by_dot(name, "app.log"@);
    law_stem_is_followed_by_dot(name, "codex-api.log"@);
}

/// No name belongs to both logs.
pub proof fn law_logs_are_disjoint(name: Seq<char>)
    ensures
        !(has_stem(name, APP_LOG_FILE_PREFIX@) && has_stem(name, CODEX_API_LOG_FILE_PREFIX@)),
{
    reveal_strlit("app.log");
    reveal_strlit("codex-api.log");
    if has_stem(name, APP_LOG_FILE_PREFIX@) {
        if name != APP_LOG_FILE_PREFIX@ {
            let stem = APP_LOG_FILE_PREFIX@ + seq!['.'];
            assert(name.subrange(0, stem.len() as int)[0] == stem[0]);
        }
        assert(name[0] == 'a');
    }
    if has_stem(name, CODEX_API_LOG_FILE_PREFIX@) {
        if name != CODEX_API_LOG_FILE_PREFIX@ {
            let stem = CODEX_API_LOG_FILE_PREFIX@ + seq!['.'];
            assert(name.subrange(0, stem.len() as int)[0] == stem[0]);
        }
        assert(name[0] == 'c');
    }
}

/// A stem with a dot and any suffix behind it has that stem.
pub proof fn law_dated_name_has_stem(prefix: Seq<char>, suffix: Seq<char>)
    ensures
        has_stem(prefix, prefix),
        has_stem(prefix + seq!['.'] + suffix, prefix),
{
    let stem = prefix + seq!['.'];
    assert((stem + suffix).subrange(0, stem.len() as int) == stem);
}

/// Whether the file name `name` has the stem `prefix`.
pub fn is_log_file_with_prefix(name: &str, prefix: &str) -> (res: bool)
    ensures
        res == has_stem(name@, prefix@),
{
    let stem = join(prefix, ".");
    proof {
        reveal_strlit(".");
    }
    same_text(name, prefix) || begins_with(name, stem.as_str())
}

/// Whether the file name `name` is that of a managed log file.
pub fn is_managed_log_file_name(name: &str) -> (res: bool)
    ensures
        res == managed_name(name@),
{
    let prefixes = MANAGED_LOG_FILE_PREFIXES;
    let mut i: usize = 0;
    while i < prefixes.len()
        invariant
            i <= prefixes@.len(),
            prefixes == MANAGED_LOG_FILE_PREFIXES,
            forall|j: int| 0 <= j < i ==> !has_stem(name@, #[trigger] prefixes@[j]@),
        decreases prefixes@.len() - i,
    {
        if is_log_file_with_prefix(name, prefixes[i]) {
            return true;
        }
        i += 1;
    }
    false
}

/// Whether a path leads to a managed log file. `file_name` is the last component of the path,
/// `None` where it has none or where that component is not valid Unicode.
pub fn is_managed_log_file(file_name: Option<&str>) -> (res: bool)
    ensures
        res == (file_name matches Some(name) && managed_name(name@)),
{
    match file_name {
        Some(name) => is_managed_log_file_name(name),
        None => false,
    }
}

} // verus!
