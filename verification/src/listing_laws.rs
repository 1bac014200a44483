//! What holds of every listing of the log directory and of every file picked from one.
use crate::listing::{self, DirEntry, DirScan, LogFile, LogFileView};
use crate::{names, text};
use vstd::multiset::*;
use vstd::prelude::*;
use vstd::relations::*;
use vstd::seq_lib::*;
use vstd::utf8::encode_utf8;

verus! {

broadcast use {group_to_multiset_ensures, group_multiset_axioms};

proof fn lemma_wanted_contains(
    entries: Seq<Result<DirEntry, String>>,
    wanted: spec_fn(Seq<char>) -> bool,
    i: int,
)
    requires
        0 <= i < entries.len(),
        listing::wanted_file(entries[i], wanted) is Some,
    ensures
        listing::wanted_files(entries, wanted).contains(
            listing::wanted_file(entries[i], wanted)->0,
        ),
    decreases entries.len(),
{
    let file = listing::wanted_file(entries[i], wanted)->0;
    let f = |entry: Result<DirEntry, String>| listing::wanted_file(entry, wanted);
    let rest = entries.drop_last();
    let all = listing::wanted_files(entries, wanted);
    if i == entries.len() - 1 {
        assert(all.last() == file);
    } else {
        lemma_wanted_contains(rest, wanted, i);
        let kept = rest.filter_map(f);
        let k = choose|k: int| 0 <= k < kept.len() && kept[k] == file;
        assert(all[k] == file);
    }
}

/// A listing holds the wanted files of the directory and no others.
pub proof fn law_listing_is_complete(
    entries: Vec<Result<DirEntry, String>>,
    wanted: spec_fn(Seq<char>) -> bool,
    file: LogFileView,
)
    ensures
        listing::listing(DirScan::Entries(entries), wanted) matches Ok(files) ==> (
        files.contains(file) <==> exists|i: int|
            0 <= i < entries@.len() && #[trigger] listing::wanted_file(entries@[i], wanted)
                == Some(file)),
{
    let found = listing::wanted_files(entries@, wanted);
    let f = |entry: Result<DirEntry, String>| listing::wanted_file(entry, wanted);
    listing::law_recency_is_total_order();
    found.lemma_sort_by_ensures(listing::recency());
    let files = found.sort_by(listing::recency());
    assert(files.contains(file) <==> found.contains(file)) by {
        assert(files.to_multiset().count(file) == found.to_multiset().count(file));
    }
    if found.contains(file) {
        entries@.lemma_filter_map_contains(f, file);
        let entry = choose|entry: Result<DirEntry, String>| #[trigger]
            entries@.contains(entry) && f(entry) == Some(file);
        let i = choose|i: int| 0 <= i < entries@.len() && entries@[i] == entry;
        assert(listing::wanted_file(entries@[i], wanted) == Some(file));
    }
    if exists|i: int|
        0 <= i < entries@.len() && #[trigger] listing::wanted_file(entries@[i], wanted)
            == Some(file) {
        let i = choose|i: int|
            0 <= i < entries@.len() && #[trigger] listing::wanted_file(entries@[i], wanted)
                == Some(file);
        lemma_wanted_contains(entries@, wanted, i);
    }
}

/// The files of a listing stand in the order of their recency, each as often as in the directory.
pub proof fn law_listing_is_sorted(
    entries: Vec<Result<DirEntry, String>>,
    wanted: spec_fn(Seq<char>) -> bool,
)
    ensures
        listing::listing(DirScan::Entries(entries), wanted) matches Ok(files) ==> {
            &&& sorted_by(files, listing::recency())
            &&& files.to_multiset() == listing::wanted_files(
                entries@,
                wanted,
            ).to_multiset()
        },
{
    listing::law_recency_is_total_order();
    listing::wanted_files(entries@, wanted).lemma_sort_by_ensures(
        listing::recency(),
    );
}

/// Reading the directory fails exactly where one of its entries cannot be read.
pub proof fn law_first_failure(entries: Seq<Result<DirEntry, String>>)
    ensures
        listing::first_failure(entries) is None <==> forall|i: int|
            0 <= i < entries.len() ==> (#[trigger] entries[i]) is Ok,
    decreases entries.len(),
{
    if entries.len() > 0 {
        let rest = entries.drop_first();
        law_first_failure(rest);
        if entries.first() is Ok && listing::first_failure(rest) is None {
            assert forall|i: int| 0 <= i < entries.len() implies (#[trigger] entries[i]) is Ok by {
                if i > 0 {
                    assert(entries[i] == rest[i - 1]);
                }
            }
        }
        if forall|i: int| 0 <= i < entries.len() ==> (#[trigger] entries[i]) is Ok {
            assert(forall|i: int| 0 <= i < rest.len() ==> (#[trigger] rest[i]) is Ok);
        }
    }
}

/// The first file of a listing was modified no earlier than any other wanted file.
pub proof fn law_latest_is_newest(
    entries: Vec<Result<DirEntry, String>>,
    wanted: spec_fn(Seq<char>) -> bool,
    i: int,
)
    requires
        0 <= i < entries@.len(),
        listing::wanted_file(entries@[i], wanted) is Some,
    ensures
        listing::latest(listing::listing(DirScan::Entries(entries), wanted)) matches Ok(
            file,
        ) ==> file.modified >= listing::wanted_file(entries@[i], wanted)->0.modified,
        listing::first_failure(entries@) is None ==> listing::latest(
            listing::listing(DirScan::Entries(entries), wanted),
        ) is Ok,
{
    let other = listing::wanted_file(entries@[i], wanted)->0;
    law_listing_is_complete(entries, wanted, other);
    law_listing_is_sorted(entries, wanted);
    if let Ok(files) = listing::listing(DirScan::Entries(entries), wanted) {
        let k = choose|k: int| 0 <= k < files.len() && files[k] == other;
        if k > 0 {
            assert(listing::recency()(files[0], files[k]));
        }
    }
}

proof fn lemma_filter_map_remove<A, B>(s: Seq<A>, f: spec_fn(A) -> Option<B>, k: int)
    requires
        0 <= k < s.len(),
    ensures
        s.filter_map(f).to_multiset() == match f(s[k]) {
            Some(b) => s.remove(k).filter_map(f).to_multiset().insert(b),
            None => s.remove(k).filter_map(f).to_multiset(),
        },
    decreases s.len(),
{
    let rest = s.drop_last();
    if k == s.len() - 1 {
        if let Some(b) = f(s[k]) {
            assert(s.filter_map(f) == rest.filter_map(f).push(b));
        }
    } else {
        lemma_filter_map_remove(rest, f, k);
        let less = s.remove(k);
        assert(less.drop_last() == rest.remove(k));
        if let Some(c) = f(s.last()) {
            assert(s.filter_map(f) == rest.filter_map(f).push(c));
            assert(less.filter_map(f) == rest.remove(k).filter_map(f).push(c));
            if let Some(b) = f(s[k]) {
                assert(s.filter_map(f).to_multiset() =~= less.filter_map(f).to_multiset().insert(
                    b,
                ));
            }
        }
    }
}

proof fn lemma_filter_map_permuted<A, B>(s: Seq<A>, t: Seq<A>, f: spec_fn(A) -> Option<B>)
    requires
        s.to_multiset() == t.to_multiset(),
    ensures
        s.filter_map(f).to_multiset() == t.filter_map(f).to_multiset(),
    decreases s.len(),
{
    assert(s.len() == s.to_multiset().len());
    if s.len() > 0 {
        let last = s.len() - 1;
        assert(s.to_multiset().count(s[last]) > 0);
        assert(t.contains(s[last]));
        let k = choose|k: int| 0 <= k < t.len() && t[k] == s[last];
        to_multiset_remove(s, last);
        to_multiset_remove(t, k);
        lemma_filter_map_permuted(s.remove(last), t.remove(k), f);
        lemma_filter_map_remove(s, f, last);
        lemma_filter_map_remove(t, f, k);
    }
}

/// A listing does not depend on the order in which the system gave the entries.
pub proof fn law_listing_ignores_entry_order(
    a: Vec<Result<DirEntry, String>>,
    b: Vec<Result<DirEntry, String>>,
    wanted: spec_fn(Seq<char>) -> bool,
)
    requires
        a@.to_multiset() == b@.to_multiset(),
        listing::first_failure(a@) is None,
    ensures
        listing::listing(DirScan::Entries(a), wanted) == listing::listing(
            DirScan::Entries(b),
            wanted,
        ),
{
    law_first_failure(a@);
    law_first_failure(b@);
    assert forall|i: int| 0 <= i < b@.len() implies (#[trigger] b@[i]) is Ok by {
        assert(b@.to_multiset().count(b@[i]) > 0);
        let k = choose|k: int| 0 <= k < a@.len() && a@[k] == b@[i];
        assert(a@[k] is Ok);
    }
    let f = |entry: Result<DirEntry, String>| listing::wanted_file(entry, wanted);
    lemma_filter_map_permuted(a@, b@, f);
    let x = listing::wanted_files(a@, wanted);
    let y = listing::wanted_files(b@, wanted);
    listing::law_recency_is_total_order();
    x.lemma_sort_by_ensures(listing::recency());
    y.lemma_sort_by_ensures(listing::recency());
    lemma_sorted_unique(
        x.sort_by(listing::recency()),
        y.sort_by(listing::recency()),
        listing::recency(),
    );
}

proof fn lemma_filter_to_multiset<A>(s: Seq<A>, p: spec_fn(A) -> bool)
    ensures
        s.filter(p).to_multiset() == s.to_multiset().filter(p),
    decreases s.len(),
{
    reveal(Seq::filter);
    if s.len() > 0 {
        let rest = s.drop_last();
        lemma_filter_to_multiset(rest, p);
        assert(s == rest.push(s.last()));
    }
    assert(s.filter(p).to_multiset() =~= s.to_multiset().filter(p));
}

proof fn lemma_filter_sorted<A>(s: Seq<A>, p: spec_fn(A) -> bool, leq: spec_fn(A, A) -> bool)
    requires
        sorted_by(s, leq),
    ensures
        sorted_by(s.filter(p), leq),
    decreases s.len(),
{
    reveal(Seq::filter);
    if s.len() > 0 {
        let rest = s.drop_last();
        assert forall|i: int, j: int| 0 <= i < j < rest.len() implies #[trigger] leq(
            rest[i],
            rest[j],
        ) by {
            assert(leq(s[i], s[j]));
        }
        lemma_filter_sorted(rest, p, leq);
        let kept = rest.filter(p);
        if p(s.last()) {
            assert forall|i: int, j: int| 0 <= i < j < kept.len() + 1 implies #[trigger] leq(
                kept.push(s.last())[i],
                kept.push(s.last())[j],
            ) by {
                if j == kept.len() {
                    assert(kept.contains(kept[i]));
                    rest.lemma_filter_contains_rev(p, kept[i]);
                    let k = choose|k: int| 0 <= k < rest.len() && rest[k] == kept[i];
                    assert(leq(s[k], s[s.len() - 1]));
                } else {
                    assert(leq(kept[i], kept[j]));
                }
            }
        }
    }
}

proof fn lemma_app_logs_are_managed(entries: Seq<Result<DirEntry, String>>)
    ensures
        listing::wanted_files(entries, listing::app_log()) == listing::wanted_files(
            entries,
            listing::managed(),
        ).filter(|file: LogFileView| listing::app_log()(file.name)),
    decreases entries.len(),
{
    reveal(Seq::filter);
    let app = |file: LogFileView| listing::app_log()(file.name);
    if entries.len() > 0 {
        let rest = entries.drop_last();
        lemma_app_logs_are_managed(rest);
        if let Ok(entry) = entries.last() {
            if let Some(name) = entry.name {
                names::law_managed_is_app_or_codex(name@);
            }
        }
        let before = listing::wanted_files(rest, listing::managed());
        match listing::wanted_file(entries.last(), listing::managed()) {
            Some(file) => {
                assert(listing::wanted_files(entries, listing::managed()) == before.push(file));
                assert(before.push(file).drop_last() == before);
            },
            None => {},
        }
    }
}

/// The listing of the application logs is the listing of the managed logs without the others.
pub proof fn law_app_listing_is_part_of_managed(scan: DirScan)
    ensures
        listing::listing(scan, listing::app_log()) == (match listing::listing(
            scan,
            listing::managed(),
        ) {
            Ok(files) => Ok(files.filter(|file: LogFileView| listing::app_log()(file.name))),
            Err(message) => Err(message),
        }),
{
    let app = |file: LogFileView| listing::app_log()(file.name);
    if let DirScan::Entries(entries) = scan {
        let all = listing::wanted_files(entries@, listing::managed());
        let some = listing::wanted_files(entries@, listing::app_log());
        lemma_app_logs_are_managed(entries@);
        listing::law_recency_is_total_order();
        all.lemma_sort_by_ensures(listing::recency());
        some.lemma_sort_by_ensures(listing::recency());
        let sorted = all.sort_by(listing::recency());
        lemma_filter_to_multiset(all, app);
        lemma_filter_to_multiset(sorted, app);
        lemma_filter_sorted(sorted, app, listing::recency());
        lemma_sorted_unique(
            some.sort_by(listing::recency()),
            sorted.filter(app),
            listing::recency(),
        );
    }
}

proof fn lemma_file_named(files: Seq<LogFileView>, name: Seq<char>)
    ensures
        listing::file_named(files, name) matches Some(file) ==> file.name == name && files.contains(
            file,
        ),
        listing::file_named(files, name) is None ==> forall|i: int|
            0 <= i < files.len() ==> (#[trigger] files[i]).name != name,
    decreases files.len(),
{
    if files.len() > 0 {
        let rest = files.drop_first();
        lemma_file_named(rest, name);
        if listing::file_named(files, name) is None {
            assert forall|i: int| 0 <= i < files.len() implies (#[trigger] files[i]).name
                != name by {
                if i > 0 {
                    assert(files[i] == rest[i - 1]);
                }
            }
        }
    }
}

/// A picked file is one of the listing, and has the name that was asked for.
pub proof fn law_resolved_file_is_listed(files: Seq<LogFileView>, request: Option<Seq<char>>)
    ensures
        listing::resolved(Ok(files), request) matches Ok(file) ==> files.contains(file) && (
        request matches Some(name) ==> text::trimmed(name).len() > 0 ==> file.name == text::trimmed(
            name,
        )),
{
    if let Some(name) = request {
        lemma_file_named(files, text::trimmed(name));
    }
}

/// A request of nothing but white space is no request: it picks the latest file.
pub proof fn law_blank_request_picks_latest(
    listed: Result<Seq<LogFileView>, Seq<char>>,
    request: Seq<char>,
)
    requires
        forall|i: int| 0 <= i < request.len() ==> text::white_space(#[trigger] request[i]),
    ensures
        listing::resolved(listed, Some(request)) == listing::latest(listed),
        listing::resolved(listed, None) == listing::latest(listed),
{
    text::law_trimmed_blank(request);
}

/// Every file of a listing can be picked by its name, where the name has no white space at its
/// ends.
pub proof fn law_listed_file_resolves(files: Seq<LogFileView>, i: int)
    requires
        0 <= i < files.len(),
        files[i].name.len() > 0,
        text::trimmed(files[i].name) == files[i].name,
    ensures
        listing::resolved(Ok(files), Some(files[i].name)) matches Ok(file) && file.name
            == files[i].name,
{
    lemma_file_named(files, files[i].name);
}

/// The latest application log can be picked by its name among the managed logs, where the name
/// has no white space at its ends.
pub proof fn law_latest_app_log_resolves(scan: DirScan)
    ensures
        listing::latest(listing::listing(scan, listing::app_log())) matches Ok(file) ==> (
        text::trimmed(file.name) == file.name ==> (listing::resolved(
            listing::listing(scan, listing::managed()),
            Some(file.name),
        ) matches Ok(picked) && picked.name == file.name)),
{
    law_app_listing_is_part_of_managed(scan);
    if let Ok(files) = listing::listing(scan, listing::managed()) {
        let app = |file: LogFileView| listing::app_log()(file.name);
        let some = files.filter(app);
        if some.len() > 0 {
            files.lemma_filter_contains_rev(app, some[0]);
            files.lemma_filter_pred(app, 0);
            let i = choose|i: int| 0 <= i < files.len() && files[i] == some[0];
            assert(names::has_stem(some[0].name, names::APP_LOG_FILE_PREFIX@));
            reveal_strlit("app.log");
            if text::trimmed(files[i].name) == files[i].name {
                law_listed_file_resolves(files, i);
            }
        }
    }
}

proof fn lemma_wanted_sources(
    entries: Seq<Result<DirEntry, String>>,
    wanted: spec_fn(Seq<char>) -> bool,
) -> (source: Seq<int>)
    ensures
        source.len() == listing::wanted_files(entries, wanted).len(),
        source.no_duplicates(),
        forall|k: int|
            0 <= k < source.len() ==> 0 <= #[trigger] source[k] < entries.len()
                && listing::wanted_file(entries[source[k]], wanted) == Some(
                listing::wanted_files(entries, wanted)[k],
            ),
        forall|i: int|
            0 <= i < entries.len() && #[trigger] listing::wanted_file(entries[i], wanted) is Some
                ==> source.contains(i),
    decreases entries.len(),
{
    if entries.len() == 0 {
        Seq::empty()
    } else {
        let rest = entries.drop_last();
        let last = entries.len() - 1;
        let before = lemma_wanted_sources(rest, wanted);
        let f = |entry: Result<DirEntry, String>| listing::wanted_file(entry, wanted);
        match listing::wanted_file(entries.last(), wanted) {
            Some(file) => {
                let source = before.push(last);
                assert(listing::wanted_files(entries, wanted) == listing::wanted_files(
                    rest,
                    wanted,
                ).push(file));
                assert forall|i: int|
                    0 <= i < entries.len() && #[trigger] listing::wanted_file(entries[i], wanted)
                        is Some implies source.contains(i) by {
                    if i < last {
                        assert(rest[i] == entries[i]);
                        assert(listing::wanted_file(rest[i], wanted) is Some);
                        let k = choose|k: int| 0 <= k < before.len() && before[k] == i;
                        assert(source[k] == i);
                    } else {
                        assert(source[before.len() as int] == i);
                    }
                }
                source
            },
            None => {
                assert(listing::wanted_files(entries, wanted) == listing::wanted_files(
                    rest,
                    wanted,
                ));
                assert forall|i: int|
                    0 <= i < entries.len() && #[trigger] listing::wanted_file(entries[i], wanted)
                        is Some implies before.contains(i) by {
                    assert(rest[i] == entries[i]);
                    assert(listing::wanted_file(rest[i], wanted) is Some);
                }
                before
            },
        }
    }
}

spec fn paired<A>(a: Seq<A>, source: Seq<int>, x: A, i: int) -> bool {
    exists|m: int| 0 <= m < a.len() && #[trigger] a[m] == x && source[m] == i
}

proof fn lemma_permuted_sources<A>(a: Seq<A>, b: Seq<A>, source: Seq<int>) -> (moved: Seq<int>)
    requires
        a.to_multiset() == b.to_multiset(),
        source.len() == a.len(),
        source.no_duplicates(),
    ensures
        moved.len() == b.len(),
        moved.no_duplicates(),
        forall|k: int| 0 <= k < b.len() ==> paired(a, source, b[k], #[trigger] moved[k]),
        forall|i: int| source.contains(i) <==> #[trigger] moved.contains(i),
    decreases b.len(),
{
    assert(a.len() == a.to_multiset().len());
    assert(b.len() == b.to_multiset().len());
    if b.len() == 0 {
        assert(source == Seq::<int>::empty());
        Seq::empty()
    } else {
        let last = b.len() - 1;
        assert(b.to_multiset().count(b[last]) > 0);
        assert(a.contains(b[last]));
        let m = choose|m: int| 0 <= m < a.len() && a[m] == b[last];
        to_multiset_remove(a, m);
        to_multiset_remove(b, last);
        let less = source.remove(m);
        assert forall|i: int, j: int| 0 <= i < j < less.len() implies less[i] != less[j] by {
            let x = if i < m {
                i
            } else {
                i + 1
            };
            let y = if j < m {
                j
            } else {
                j + 1
            };
            assert(less[i] == source[x] && less[j] == source[y]);
        }
        let before = lemma_permuted_sources(a.remove(m), b.remove(last), less);
        let moved = before.push(source[m]);
        assert(!less.contains(source[m])) by {
            if less.contains(source[m]) {
                let k = choose|k: int| 0 <= k < less.len() && less[k] == source[m];
                let x = if k < m {
                    k
                } else {
                    k + 1
                };
                assert(source[x] == source[m]);
            }
        }
        assert(!before.contains(source[m]));
        assert forall|i: int, j: int| 0 <= i < j < moved.len() implies moved[i] != moved[j] by {
            if j == before.len() {
                assert(before.contains(before[i]));
            }
        }
        assert forall|k: int| 0 <= k < b.len() implies paired(
            a,
            source,
            b[k],
            #[trigger] moved[k],
        ) by {
            if k == last {
                assert(a[m] == b[k] && source[m] == moved[k]);
            } else {
                assert(moved[k] == before[k]);
                assert(paired(a.remove(m), less, b.remove(last)[k], before[k]));
                let n = choose|n: int|
                    0 <= n < a.remove(m).len() && #[trigger] a.remove(m)[n] == b.remove(last)[k]
                        && less[n] == before[k];
                let x = if n < m {
                    n
                } else {
                    n + 1
                };
                assert(a[x] == b[k] && source[x] == moved[k]);
            }
        }
        assert forall|i: int| source.contains(i) <==> #[trigger] moved.contains(i) by {
            if source.contains(i) && i != source[m] {
                let k = choose|k: int| 0 <= k < source.len() && source[k] == i;
                let x = if k < m {
                    k
                } else {
                    k - 1
                };
                assert(less[x] == i);
                assert(before.contains(i));
                let y = choose|y: int| 0 <= y < before.len() && before[y] == i;
                assert(moved[y] == i);
            }
            if i == source[m] {
                assert(moved[before.len() as int] == i);
            }
            if moved.contains(i) && i != source[m] {
                let y = choose|y: int| 0 <= y < moved.len() && moved[y] == i;
                assert(before[y] == i);
                assert(less.contains(i));
                let k = choose|k: int| 0 <= k < less.len() && less[k] == i;
                let x = if k < m {
                    k
                } else {
                    k + 1
                };
                assert(source[x] == i);
            }
        }
        moved
    }
}

/// Each file of a listing comes from an entry of its own, a regular file with a wanted name, and
/// carries the name and the modification time of that entry, or the time 0 where it is not known.
/// Each such entry is listed. The sources are the places of the entries.
pub proof fn law_listed_files_are_the_wanted_entries(
    entries: Vec<Result<DirEntry, String>>,
    wanted: spec_fn(Seq<char>) -> bool,
    files: Seq<LogFileView>,
) -> (source: Seq<int>)
    requires
        listing::listing(DirScan::Entries(entries), wanted) == Ok::<Seq<LogFileView>, Seq<char>>(
            files,
        ),
    ensures
        source.len() == files.len(),
        source.no_duplicates(),
        forall|k: int|
            #![trigger source[k]]
            0 <= k < files.len() ==> {
                &&& 0 <= source[k] < entries@.len()
                &&& entries@[source[k]] matches Ok(entry) && {
                    &&& entry.is_file
                    &&& entry.name matches Some(name) && wanted(name@) && files[k].name == name@
                    &&& entry.modified matches Some(time) ==> files[k].modified == time
                    &&& entry.modified is None ==> files[k].modified == 0
                }
            },
        forall|i: int|
            #![trigger entries@[i]]
            0 <= i < entries@.len() ==> (entries@[i] matches Ok(entry) ==> entry.is_file ==> (
            entry.name matches Some(name) ==> wanted(name@) ==> source.contains(i))),
{
    let found = listing::wanted_files(entries@, wanted);
    let before = lemma_wanted_sources(entries@, wanted);
    listing::law_recency_is_total_order();
    found.lemma_sort_by_ensures(listing::recency());
    let source = lemma_permuted_sources(found, files, before);
    assert forall|k: int|
        #![trigger source[k]]
        0 <= k < files.len() implies 0 <= source[k] < entries@.len() && listing::wanted_file(
        entries@[source[k]],
        wanted,
    ) == Some(files[k]) by {
        assert(paired(found, before, files[k], source[k]));
        let m = choose|m: int|
            0 <= m < found.len() && #[trigger] found[m] == files[k] && before[m] == source[k];
        assert(0 <= before[m] < entries@.len());
    }
    assert forall|i: int|
        #![trigger entries@[i]]
        0 <= i < entries@.len() && listing::wanted_file(
            entries@[i],
            wanted,
        ) is Some implies source.contains(i) by {
        assert(before.contains(i));
    }
    source
}

/// Bytes come before others, or are the same, exactly where the two agree up to some place at which
/// the first end or have the lesser byte.
pub proof fn law_bytes_are_compared_at_first_difference(a: Seq<u8>, b: Seq<u8>)
    ensures
        listing::bytes_le(a, b) <==> exists|d: int|
            0 <= d <= a.len() && d <= b.len() && #[trigger] a.take(d) == b.take(d) && (d == a.len()
                || d < b.len() && a[d] < b[d]),
    decreases a.len(),
{
    if a.len() == 0 {
        assert(a.take(0) == b.take(0));
    } else if b.len() > 0 {
        let x = a.drop_first();
        let y = b.drop_first();
        law_bytes_are_compared_at_first_difference(x, y);
        if a[0] < b[0] {
            assert(a.take(0) == b.take(0));
        }
        if a[0] == b[0] && listing::bytes_le(x, y) {
            let d = choose|d: int|
                0 <= d <= x.len() && d <= y.len() && #[trigger] x.take(d) == y.take(d) && (d
                    == x.len() || d < y.len() && x[d] < y[d]);
            assert(a.take(d + 1) == seq![a[0]] + x.take(d));
            assert(b.take(d + 1) == seq![b[0]] + y.take(d));
            assert(a.take(d + 1) == b.take(d + 1));
        }
        if exists|d: int|
            0 <= d <= a.len() && d <= b.len() && #[trigger] a.take(d) == b.take(d) && (d == a.len()
                || d < b.len() && a[d] < b[d]) {
            let d = choose|d: int|
                0 <= d <= a.len() && d <= b.len() && #[trigger] a.take(d) == b.take(d) && (d
                    == a.len() || d < b.len() && a[d] < b[d]);
            if d > 0 {
                assert(a.take(d)[0] == b.take(d)[0]);
                assert(x.take(d - 1) == a.take(d).drop_first());
                assert(y.take(d - 1) == b.take(d).drop_first());
                assert(x.take(d - 1) == y.take(d - 1));
            }
        }
    }
}

/// A file that was modified later comes first, whatever the names are. Of two files that were
/// modified at the same time, the one whose name has the greater bytes comes first.
pub proof fn law_later_file_comes_first(a: LogFileView, b: LogFileView)
    ensures
        listing::recency()(a, b) == listing::listed_before(a, b),
        a.modified > b.modified ==> listing::listed_before(a, b) && !listing::listed_before(b, a),
        a.modified == b.modified ==> (listing::listed_before(a, b) <==> listing::bytes_le(
            encode_utf8(b.name),
            encode_utf8(a.name),
        )),
{
}

/// The files of a listing stand by the time of their modification, the later before the earlier,
/// and those of the same time by their names, the greater before the lesser.
pub proof fn law_listing_goes_by_time_and_name(
    entries: Vec<Result<DirEntry, String>>,
    wanted: spec_fn(Seq<char>) -> bool,
    files: Seq<LogFileView>,
    p: int,
    q: int,
)
    requires
        listing::listing(DirScan::Entries(entries), wanted) == Ok::<Seq<LogFileView>, Seq<char>>(
            files,
        ),
        0 <= p < q < files.len(),
    ensures
        files[p].modified >= files[q].modified,
        files[p].modified == files[q].modified ==> ({
            let less = encode_utf8(files[q].name);
            let more = encode_utf8(files[p].name);
            exists|d: int|
                0 <= d <= less.len() && d <= more.len() && #[trigger] less.take(d) == more.take(d)
                    && (d == less.len() || d < more.len() && less[d] < more[d])
        }),
{
    law_listing_is_sorted(entries, wanted);
    assert(listing::recency()(files[p], files[q]));
    law_bytes_are_compared_at_first_difference(
        encode_utf8(files[q].name),
        encode_utf8(files[p].name),
    );
}

/// Of two regular files with wanted names in the directory, the one that was modified later stands
/// before the other in the listing, and both carry their times.
pub proof fn law_later_entry_is_listed_before(
    entries: Vec<Result<DirEntry, String>>,
    wanted: spec_fn(Seq<char>) -> bool,
    files: Seq<LogFileView>,
    i: int,
    j: int,
)
    requires
        listing::listing(DirScan::Entries(entries), wanted) == Ok::<Seq<LogFileView>, Seq<char>>(
            files,
        ),
        0 <= i < entries@.len(),
        0 <= j < entries@.len(),
        entries@[i] matches Ok(late) && late.is_file && (late.name matches Some(name) && wanted(
            name@,
        )) && late.modified is Some,
        entries@[j] matches Ok(early) && early.is_file && (early.name matches Some(name) && wanted(
            name@,
        )) && early.modified is Some,
        entries@[i]->Ok_0.modified->0 > entries@[j]->Ok_0.modified->0,
    ensures
        exists|p: int, q: int|
            0 <= p < q < files.len() && #[trigger] files[p] == (LogFileView {
                name: entries@[i]->Ok_0.name->0@,
                modified: entries@[i]->Ok_0.modified->0 as int,
            }) && #[trigger] files[q] == (LogFileView {
                name: entries@[j]->Ok_0.name->0@,
                modified: entries@[j]->Ok_0.modified->0 as int,
            }),
{
    let source = law_listed_files_are_the_wanted_entries(entries, wanted, files);
    assert(source.contains(i));
    assert(source.contains(j));
    let p = choose|p: int| 0 <= p < source.len() && source[p] == i;
    let q = choose|q: int| 0 <= q < source.len() && source[q] == j;
    if q < p {
        law_listing_goes_by_time_and_name(entries, wanted, files, q, p);
    }
    assert(files[p].modified > files[q].modified);
}

/// The latest file was modified no earlier than any regular file with a wanted name in the
/// directory, and there is one as soon as there is such a file.
pub proof fn law_no_entry_is_later_than_latest(
    entries: Vec<Result<DirEntry, String>>,
    wanted: spec_fn(Seq<char>) -> bool,
    i: int,
)
    requires
        forall|k: int| 0 <= k < entries@.len() ==> (#[trigger] entries@[k]) is Ok,
        0 <= i < entries@.len(),
        entries@[i]->Ok_0.is_file,
        entries@[i]->Ok_0.name matches Some(name) && wanted(name@),
    ensures
        listing::latest(listing::listing(DirScan::Entries(entries), wanted)) matches Ok(file) && (
        entries@[i]->Ok_0.modified matches Some(time) ==> file.modified >= time),
{
    law_first_failure(entries@);
    if let Ok(files) = listing::listing(DirScan::Entries(entries), wanted) {
        let source = law_listed_files_are_the_wanted_entries(entries, wanted, files);
        assert(source.contains(i));
        let p = choose|p: int| 0 <= p < source.len() && source[p] == i;
        if p > 0 {
            law_listing_goes_by_time_and_name(entries, wanted, files, 0, p);
        }
    }
}

/// A listing fails where the directory could not be read, and says why: with the message itself
/// where there is no directory, and with the message of the first entry that could not be read.
/// In every other case there is a listing.
pub proof fn law_listing_fails_with_first_message(
    scan: DirScan,
    wanted: spec_fn(Seq<char>) -> bool,
    k: int,
)
    ensures
        match scan {
            DirScan::NoLogDir(message) => listing::scan_failure(scan) == Some(message@),
            DirScan::Unreadable(message) => listing::scan_failure(scan) == Some(
                "读取日志目录失败: "@ + message@,
            ),
            DirScan::Entries(entries) => {
                &&& 0 <= k < entries@.len() && (forall|i: int|
                    0 <= i < k ==> (#[trigger] entries@[i]) is Ok) ==> (entries@[k] matches Err(
                    message,
                ) ==> listing::scan_failure(scan) == Some("读取日志目录项失败: "@ + message@))
                &&& (forall|i: int| 0 <= i < entries@.len() ==> (#[trigger] entries@[i]) is Ok)
                    <==> listing::scan_failure(scan) is None
                &&& listing::entries_of(scan) == entries@
            },
        },
        match listing::scan_failure(scan) {
            Some(message) => listing::listing(scan, wanted) == Err::<
                Seq<LogFileView>,
                Seq<char>,
            >(message),
            None => listing::listing(scan, wanted) is Ok,
        },
{
    if let DirScan::Entries(entries) = scan {
        law_first_failure(entries@);
        if 0 <= k < entries@.len() && (forall|i: int| 0 <= i < k ==> (#[trigger] entries@[i]) is Ok)
            && entries@[k] is Err {
            lemma_first_failure_at(entries@, k);
        }
    }
}

proof fn lemma_first_failure_at(entries: Seq<Result<DirEntry, String>>, k: int)
    requires
        0 <= k < entries.len(),
        forall|i: int| 0 <= i < k ==> (#[trigger] entries[i]) is Ok,
        entries[k] is Err,
    ensures
        listing::first_failure(entries) == Some(entries[k]->Err_0@),
    decreases k,
{
    if k > 0 {
        assert(entries[0] is Ok);
        let rest = entries.drop_first();
        assert forall|i: int| 0 <= i < k - 1 implies (#[trigger] rest[i]) is Ok by {
            assert(rest[i] == entries[i + 1]);
        }
        lemma_first_failure_at(rest, k - 1);
    }
}

/// The files that answers take are the regular files with readable names whose answer is yes, each
/// with the name and the time of its entry, in the order of the entries.
pub proof fn law_chosen_files_are_the_accepted_entries(
    entries: Seq<Result<DirEntry, String>>,
    answers: Seq<bool>,
) -> (source: Seq<int>)
    requires
        answers.len() == entries.len(),
    ensures
        source.len() == listing::chosen_files(entries, answers).len(),
        forall|k: int, m: int|
            0 <= k < m < source.len() ==> #[trigger] source[k] < #[trigger] source[m],
        forall|k: int|
            #![trigger source[k]]
            0 <= k < source.len() ==> {
                &&& 0 <= source[k] < entries.len()
                &&& answers[source[k]]
                &&& entries[source[k]] matches Ok(entry) && {
                    let file = listing::chosen_files(entries, answers)[k];
                    &&& entry.is_file
                    &&& entry.name matches Some(name) && file.name == name@
                    &&& entry.modified matches Some(time) ==> file.modified == time
                    &&& entry.modified is None ==> file.modified == 0
                }
            },
        forall|i: int|
            #![trigger entries[i]]
            0 <= i < entries.len() && answers[i] ==> (entries[i] matches Ok(entry) ==> entry.is_file
                ==> entry.name is Some ==> source.contains(i)),
    decreases entries.len(),
{
    if entries.len() == 0 {
        Seq::empty()
    } else {
        let rest = entries.drop_last();
        let last = entries.len() - 1;
        let before = law_chosen_files_are_the_accepted_entries(rest, answers.drop_last());
        let taken = listing::wanted_file(entries.last(), |name: Seq<char>| answers.last());
        let source = if taken is Some {
            before.push(last)
        } else {
            before
        };
        assert forall|i: int|
            #![trigger entries[i]]
            0 <= i < entries.len() && answers[i] && (entries[i] matches Ok(entry) && entry.is_file
                && entry.name is Some) implies source.contains(i) by {
            if i < last {
                assert(rest[i] == entries[i]);
                assert(before.contains(i));
                let k = choose|k: int| 0 <= k < before.len() && before[k] == i;
                assert(source[k] == i);
            } else {
                assert(source[before.len() as int] == i);
            }
        }
        source
    }
}

/// A listing asks for nothing of the matcher but that its answers are those of `wanted`, and an
/// answer is one that the matcher may give for the name.
pub proof fn law_matcher_decides_by_its_answers<F: Fn(&str) -> bool>(
    matcher: F,
    wanted: spec_fn(Seq<char>) -> bool,
    name: &str,
    answer: bool,
)
    ensures
        listing::decides(matcher, wanted) <==> forall|asked: &str, res: bool|
            matcher.ensures((asked,), res) ==> res == wanted(asked@),
        matcher.ensures((name,), answer) ==> listing::may_answer(matcher, name@, answer),
        listing::may_answer(matcher, name@, answer) ==> exists|asked: &str|
            asked@ == name@ && #[trigger] matcher.ensures((asked,), answer),
{
}

/// There is an answer for each entry, and for a regular file with a readable name it is one that the
/// matcher may give for the name.
pub proof fn law_answers_are_of_the_matcher<F: Fn(&str) -> bool>(
    matcher: F,
    entries: Seq<Result<DirEntry, String>>,
    answers: Seq<bool>,
    i: int,
)
    requires
        listing::answers_of(matcher, entries, answers),
        0 <= i < entries.len(),
    ensures
        answers.len() == entries.len(),
        entries[i] matches Ok(entry) ==> entry.is_file ==> (entry.name matches Some(name)
            ==> exists|asked: &str|
            asked@ == name@ && #[trigger] matcher.ensures((asked,), answers[i])),
{
}

/// The managed logs are wanted by the names of both logs, the application logs by `app.log` alone.
pub proof fn law_wanted_names(name: Seq<char>)
    ensures
        listing::managed()(name) <==> {
            ||| name == "app.log"@
            ||| name == "codex-api.log"@
            ||| exists|suffix: Seq<char>| name == #[trigger] ("app.log"@ + seq!['.'] + suffix)
            ||| exists|suffix: Seq<char>| name == #[trigger] ("codex-api.log"@ + seq!['.'] + suffix)
        },
        listing::app_log()(name) <==> {
            ||| name == "app.log"@
            ||| exists|suffix: Seq<char>| name == #[trigger] ("app.log"@ + seq!['.'] + suffix)
        },
{
    names::law_managed_names(name);
    names::law_stem_is_followed_by_dot(name, "app.log"@);
}

/// Files and lists of files are modelled by their names and times, results by what they hold.
pub proof fn law_results_are_modelled(
    files: Vec<LogFile>,
    file: LogFile,
    message: String,
    request: &str,
)
    ensures
        file@ == (LogFileView { name: file.name@, modified: file.modified as int }),
        listing::views(files@).len() == files@.len(),
        forall|i: int|
            0 <= i < files@.len() ==> #[trigger] listing::views(files@)[i] == (LogFileView {
                name: files@[i].name@,
                modified: files@[i].modified as int,
            }),
        listing::listing_view(Ok(files)) == Ok::<Seq<LogFileView>, Seq<char>>(
            listing::views(files@),
        ),
        listing::listing_view(Err(message)) == Err::<Seq<LogFileView>, Seq<char>>(message@),
        listing::pick_view(Ok(file)) == Ok::<LogFileView, Seq<char>>(file@),
        listing::pick_view(Err(message)) == Err::<LogFileView, Seq<char>>(message@),
        listing::request_view(Some(request)) == Some(request@),
        listing::request_view(None) == None::<Seq<char>>,
{
}

/// Where nothing, or nothing but white space, is asked for, the first file is picked. A listing that
/// failed or is empty gives an error, whatever is asked for.
pub proof fn law_no_request_picks_first_file(
    files: Seq<LogFileView>,
    message: Seq<char>,
    request: Option<Seq<char>>,
)
    ensures
        listing::resolved(Err(message), request) == Err::<LogFileView, Seq<char>>(message),
        listing::latest(Err(message)) == Err::<LogFileView, Seq<char>>(message),
        files.len() == 0 ==> listing::resolved(Ok(files), request) == Err::<
            LogFileView,
            Seq<char>,
        >("未找到可用日志文件"@),
        files.len() == 0 ==> listing::latest(Ok(files)) == Err::<LogFileView, Seq<char>>(
            "未找到可用日志文件"@,
        ),
        files.len() > 0 ==> listing::latest(Ok(files)) == Ok::<LogFileView, Seq<char>>(files[0]),
        files.len() > 0 && (request matches Some(name) ==> forall|i: int|
            0 <= i < name.len() ==> text::white_space(#[trigger] name[i])) ==> listing::resolved(
            Ok(files),
            request,
        ) == Ok::<LogFileView, Seq<char>>(files[0]),
{
    if let Some(name) = request {
        if forall|i: int| 0 <= i < name.len() ==> text::white_space(#[trigger] name[i]) {
            text::law_trimmed_blank(name);
        }
    }
}

/// Where a name is asked for, with or without white space around it, the first file of that name is
/// picked, and where there is none the error says the name.
pub proof fn law_request_picks_file_of_that_name(
    files: Seq<LogFileView>,
    before: Seq<char>,
    name: Seq<char>,
    after: Seq<char>,
    k: int,
)
    requires
        forall|i: int| 0 <= i < before.len() ==> text::white_space(#[trigger] before[i]),
        forall|i: int| 0 <= i < after.len() ==> text::white_space(#[trigger] after[i]),
        name.len() > 0,
        !text::white_space(name.first()),
        !text::white_space(name.last()),
        files.len() > 0,
        0 <= k <= files.len(),
        forall|i: int| 0 <= i < k ==> (#[trigger] files[i]).name != name,
        k < files.len() ==> files[k].name == name,
    ensures
        k < files.len() ==> listing::resolved(Ok(files), Some(before + name + after)) == Ok::<
            LogFileView,
            Seq<char>,
        >(files[k]),
        k == files.len() ==> listing::resolved(Ok(files), Some(before + name + after)) == Err::<
            LogFileView,
            Seq<char>,
        >("未找到指定日志文件: "@ + name),
{
    text::law_trimmed_keeps_the_middle(before, name, after);
    lemma_file_named_at(files, name, k);
}

proof fn lemma_file_named_at(files: Seq<LogFileView>, name: Seq<char>, k: int)
    requires
        0 <= k <= files.len(),
        forall|i: int| 0 <= i < k ==> (#[trigger] files[i]).name != name,
        k < files.len() ==> files[k].name == name,
    ensures
        listing::file_named(files, name) == if k < files.len() {
            Some(files[k])
        } else {
            None
        },
    decreases files.len(),
{
    if files.len() > 0 && k > 0 {
        assert(files[0].name != name);
        let rest = files.drop_first();
        assert forall|i: int| 0 <= i < k - 1 implies (#[trigger] rest[i]).name != name by {
            assert(rest[i] == files[i + 1]);
        }
        lemma_file_named_at(rest, name, k - 1);
    }
}

} // verus!
