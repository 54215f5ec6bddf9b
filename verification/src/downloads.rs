//! What to download: the resources an index lists, which of them a local
//! copy lacks, the download tasks for them, and how progress is reported.

use vstd::prelude::*;
use vstd::string::*;
use crate::error::{WwError, ErrorKind, network_error};
use crate::json::{Json, member, str_member, str_of, int_of, array_of};
use crate::paths::{PathStyle, join, join_spec, file_name, file_name_spec, strip_prefix, strip_prefix_spec};
use crate::transfer::all_true;
use crate::text::str_eq;
use crate::urls::{try_resolve_url, url_join_of};
use crate::text::concat3;

verus! {

/// One file of a resource index.
#[derive(Debug)]
pub struct ResourceEntry {
    /// Path of the file relative to the game folder.
    pub dest: String,
    /// Expected MD5 of the file, in lower-case hexadecimal.
    pub md5: String,
    /// Expected size of the file in bytes.
    pub size: i64,
}

impl View for ResourceEntry {
    type V = (Seq<char>, Seq<char>, i64);

    open spec fn view(&self) -> (Seq<char>, Seq<char>, i64) {
        (self.dest@, self.md5@, self.size)
    }
}

/// One file to download.
#[derive(Debug)]
pub struct DownloadTask {
    pub url: String,
    pub path: String,
    pub size: u64,
}

impl View for DownloadTask {
    type V = (Seq<char>, Seq<char>, u64);

    open spec fn view(&self) -> (Seq<char>, Seq<char>, u64) {
        (self.url@, self.path@, self.size)
    }
}

/// The string member `key` of `j`, or the empty string.
pub open spec fn str_or_empty(j: Json, key: Seq<char>) -> Seq<char> {
    match str_member(j, key) {
        Some(s) => s,
        None => Seq::empty(),
    }
}

/// The resource that the index item `item` describes: its `dest`, `md5`
/// (empty when absent) and `size` (0 when absent or not an `i64`).
pub open spec fn resource_of(item: Json) -> (Seq<char>, Seq<char>, i64) {
    (
        str_or_empty(item, "dest"@),
        str_or_empty(item, "md5"@),
        match int_of(member(item, "size"@)) {
            Some(n) => n,
            None => 0,
        },
    )
}

/// The resources of index items `items`, in order.
pub fn resources_of_items(items: &Vec<Json>) -> (r: Vec<ResourceEntry>)
    ensures
        r@.len() == items@.len(),
        forall|i: int| 0 <= i < items@.len() ==> (#[trigger] r@[i])@ == resource_of(items@[i]),
{
    let mut r: Vec<ResourceEntry> = Vec::new();
    let mut i: usize = 0;
    while i < items.len()
        invariant
            i <= items@.len(),
            r@.len() == i,
            forall|j: int| 0 <= j < i ==> (#[trigger] r@[j])@ == resource_of(items@[j]),
        decreases items@.len() - i,
    {
        let item = &items[i];
        let dest = match item.str_member("dest") {
            Some(s) => s,
            None => String::new(),
        };
        let md5 = match item.str_member("md5") {
            Some(s) => s,
            None => String::new(),
        };
        let size: i64 = match item.int_member("size") {
            Some(n) => n,
            None => 0,
        };
        r.push(ResourceEntry { dest, md5, size });
        i = i + 1;
    }
    r
}

/// The resource list of the game index `index`.
pub open spec fn index_items(index: Json) -> Option<Seq<Json>> {
    array_of(member(index, "resource"@))
}

/// The resources of the game index `index`; an error when it has no
/// `resource` list.
pub fn resource_entries(index: &Json) -> (r: Result<Vec<ResourceEntry>, WwError>)
    ensures
        match r {
            Ok(v) => index_items(*index) matches Some(items) && v@.len() == items.len()
                && forall|i: int| 0 <= i < items.len() ==> (#[trigger] v@[i])@ == resource_of(items[i]),
            Err(e) => index_items(*index) is None
                && e@ == (ErrorKind::Network, "游戏索引中缺少 'resource' 列表"@),
        },
{
    match index.get("resource") {
        Some(v) => match v.as_array() {
            Some(items) => Ok(resources_of_items(items)),
            None => Err(network_error("游戏索引中缺少 'resource' 列表")),
        },
        None => Err(network_error("游戏索引中缺少 'resource' 列表")),
    }
}

/// The resources of the pre-download index `index`, when it has a
/// `resource` list.
pub fn predownload_entries(index: &Json) -> (r: Option<Vec<ResourceEntry>>)
    ensures
        match r {
            Some(v) => index_items(*index) matches Some(items) && v@.len() == items.len()
                && forall|i: int| 0 <= i < items.len() ==> (#[trigger] v@[i])@ == resource_of(items[i]),
            None => index_items(*index) is None,
        },
{
    match index.get("resource") {
        Some(v) => match v.as_array() {
            Some(items) => Some(resources_of_items(items)),
            None => None,
        },
        None => None,
    }
}

/// What is known of a local copy of a resource before it is checked.
#[derive(Debug)]
pub struct FileObservation {
    /// Whether the file exists.
    pub exists: bool,
    /// Its length, when it could be read.
    pub len: Option<u64>,
    /// Its MD5, when it was asked for and could be computed.
    pub md5: Option<String>,
}

/// Whether a resource must be downloaded during a synchronisation: when the
/// file is missing; when MD5s are checked, when its MD5 is not the expected
/// one; otherwise when its length (-1 when unreadable) is not the expected size.
pub open spec fn needs_sync_spec(exists: bool, len: Option<u64>, md5: Option<Seq<char>>, force_check_md5: bool, entry: (Seq<char>, Seq<char>, i64)) -> bool {
    if !exists {
        true
    } else if force_check_md5 {
        md5 != Some(entry.1)
    } else {
        match len {
            Some(l) => l as i64 != entry.2,
            None => -1 != entry.2,
        }
    }
}

/// Whether a resource must be downloaded during a synchronisation.
pub fn needs_sync(obs: &FileObservation, force_check_md5: bool, entry: &ResourceEntry) -> (r: bool)
    ensures
        r == needs_sync_spec(obs.exists, obs.len, crate::config::opt_view(obs.md5), force_check_md5, entry@),
        !obs.exists ==> r,
        obs.exists && force_check_md5 ==> (r <==> crate::config::opt_view(obs.md5) != Some(entry.md5@)),
        forall|l: u64| obs.exists && !force_check_md5 && obs.len == Some(l) && l <= i64::MAX ==> (r <==> l != entry.size),
        obs.exists && !force_check_md5 && obs.len is None ==> (r <==> entry.size != -1),
{
    if !obs.exists {
        true
    } else if force_check_md5 {
        match &obs.md5 {
            Some(m) => !crate::text::str_eq(m.as_str(), entry.md5.as_str()),
            None => true,
        }
    } else {
        let l: i64 = match obs.len {
            Some(l) => l as i64,
            None => -1,
        };
        l != entry.size
    }
}

/// What decides a synchronisation: a missing file is downloaded; when MD5s
/// are checked, a file is downloaded exactly when its MD5 is unknown or not
/// the expected one; otherwise exactly when its length differs from the
/// expected size, a length that cannot be read counting as -1. (A length over
/// `i64::MAX` is compared after the conversion to `i64` that the size check
/// makes, so it is left out here.)
pub proof fn lemma_sync_rule(
    exists: bool,
    len: Option<u64>,
    md5: Option<Seq<char>>,
    force_check_md5: bool,
    entry: (Seq<char>, Seq<char>, i64),
)
    ensures
        !exists ==> needs_sync_spec(exists, len, md5, force_check_md5, entry),
        exists && force_check_md5 ==> (needs_sync_spec(exists, len, md5, force_check_md5, entry) <==> md5 != Some(entry.1)),
        forall|l: u64| exists && !force_check_md5 && len == Some(l) && l <= i64::MAX
            ==> (needs_sync_spec(exists, len, md5, force_check_md5, entry) <==> l != entry.2),
        exists && !force_check_md5 && len is None
            ==> (needs_sync_spec(exists, len, md5, force_check_md5, entry) <==> entry.2 != -1),
{
}

/// Whether a pre-download resource must be downloaded: when the file is
/// missing or its length (0 when unreadable) is not the expected size.
pub open spec fn needs_predownload_spec(exists: bool, len: Option<u64>, expected: u64) -> bool {
    if !exists {
        true
    } else {
        match len {
            Some(l) => l != expected,
            None => 0 != expected,
        }
    }
}

/// What decides a pre-download: a missing file is fetched, and an existing
/// one exactly when its length differs from the expected size, a length that
/// cannot be read counting as 0.
pub proof fn lemma_predownload_rule(exists: bool, len: Option<u64>, expected: u64)
    ensures
        !exists ==> needs_predownload_spec(exists, len, expected),
        forall|l: u64| exists && len == Some(l) ==> (needs_predownload_spec(exists, len, expected) <==> l != expected),
        exists && len is None ==> (needs_predownload_spec(exists, len, expected) <==> expected != 0),
{
}

/// Whether a pre-download resource must be downloaded.
pub fn needs_predownload(exists: bool, len: Option<u64>, expected: u64) -> (r: bool)
    ensures
        r == needs_predownload_spec(exists, len, expected),
        !exists ==> r,
        forall|l: u64| exists && len == Some(l) ==> (r <==> l != expected),
        exists && len is None ==> (r <==> expected != 0),
{
    if !exists {
        true
    } else {
        let l: u64 = match len {
            Some(l) => l,
            None => 0,
        };
        l != expected
    }
}

/// Where the resource `dest` is stored under `folder`.
pub fn resource_path(style: PathStyle, folder: &str, dest: &str) -> (r: String)
    ensures
        r@ == join_spec(style, folder@, dest@),
{
    join(style, folder, dest)
}

/// The address a resource is fetched from: `res_base`, `/` and its path,
/// resolved against the CDN URL.
pub open spec fn resource_url(cdn: Seq<char>, res_base: Seq<char>, dest: Seq<char>) -> Option<Seq<char>> {
    match url_join_of(cdn, res_base + "/"@ + dest) {
        Ok(u) => Some(u),
        Err(_) => None,
    }
}

/// The tasks for the first `n` entries: one for each entry that needs a
/// download and whose address resolves, in order.
pub open spec fn planned_tasks(
    entries: Seq<(Seq<char>, Seq<char>, i64)>,
    needs: Seq<bool>,
    style: PathStyle,
    folder: Seq<char>,
    res_base: Seq<char>,
    cdn: Seq<char>,
    n: int,
) -> Seq<(Seq<char>, Seq<char>, u64)>
    decreases n,
{
    if n <= 0 {
        Seq::empty()
    } else {
        let prev = planned_tasks(entries, needs, style, folder, res_base, cdn, n - 1);
        let e = entries[n - 1];
        match resource_url(cdn, res_base, e.0) {
            Some(u) => if needs[n - 1] {
                prev.push((u, join_spec(style, folder, e.0), e.2 as u64))
            } else {
                prev
            },
            None => prev,
        }
    }
}

/// The download tasks for the entries marked in `needs`, files stored under
/// `folder` and fetched from `res_base` on the CDN `cdn`.
pub fn plan_tasks(
    entries: &Vec<ResourceEntry>,
    needs: &Vec<bool>,
    style: PathStyle,
    folder: &str,
    res_base: &str,
    cdn: &str,
) -> (r: Vec<DownloadTask>)
    requires
        needs@.len() == entries@.len(),
    ensures
        r@.map_values(|t: DownloadTask| t@) == planned_tasks(
            entries@.map_values(|e: ResourceEntry| e@),
            needs@,
            style,
            folder@,
            res_base@,
            cdn@,
            entries@.len() as int,
        ),
{
    let ghost ev = entries@.map_values(|e: ResourceEntry| e@);
    let mut r: Vec<DownloadTask> = Vec::new();
    let mut i: usize = 0;
    while i < entries.len()
        invariant
            i <= entries@.len(),
            needs@.len() == entries@.len(),
            ev == entries@.map_values(|e: ResourceEntry| e@),
            r@.map_values(|t: DownloadTask| t@) == planned_tasks(ev, needs@, style, folder@, res_base@, cdn@, i as int),
        decreases entries@.len() - i,
    {
        let e = &entries[i];
        if needs[i] {
            let rel = concat3(res_base, "/", e.dest.as_str());
            match try_resolve_url(cdn, rel.as_str()) {
                Some(u) => {
                    let path = join(style, folder, e.dest.as_str());
                    let t = DownloadTask { url: u, path, size: e.size as u64 };
                    let ghost before = r@;
                    r.push(t);
                    proof {
                        assert(r@.map_values(|t: DownloadTask| t@) =~= before.map_values(|t: DownloadTask| t@).push(t@));
                    }
                },
                None => {},
            }
        }
        proof {
            assert(ev[i as int] == e@);
        }
        i = i + 1;
    }
    r
}

/// Every planned task downloads an entry that needs it, to its place under
/// `folder`, from its resolved address; and every entry that needs a download
/// and whose address resolves is planned.
pub proof fn lemma_planned_tasks_sound(
    entries: Seq<(Seq<char>, Seq<char>, i64)>,
    needs: Seq<bool>,
    style: PathStyle,
    folder: Seq<char>,
    res_base: Seq<char>,
    cdn: Seq<char>,
    n: int,
)
    requires
        0 <= n <= entries.len(),
        needs.len() == entries.len(),
    ensures
        planned_tasks(entries, needs, style, folder, res_base, cdn, n).len() <= n,
        forall|k: int|
            #![trigger planned_tasks(entries, needs, style, folder, res_base, cdn, n)[k]]
            0 <= k < planned_tasks(entries, needs, style, folder, res_base, cdn, n).len() ==>
            exists|i: int| #![trigger needs[i]] 0 <= i < n && needs[i]
                && resource_url(cdn, res_base, entries[i].0) == Some(planned_tasks(entries, needs, style, folder, res_base, cdn, n)[k].0)
                && planned_tasks(entries, needs, style, folder, res_base, cdn, n)[k].1 == join_spec(style, folder, entries[i].0)
                && planned_tasks(entries, needs, style, folder, res_base, cdn, n)[k].2 == entries[i].2 as u64,
        forall|i: int| 0 <= i < n && #[trigger] needs[i] && resource_url(cdn, res_base, entries[i].0) is Some ==>
            planned_tasks(entries, needs, style, folder, res_base, cdn, n).contains(
                (resource_url(cdn, res_base, entries[i].0)->0, join_spec(style, folder, entries[i].0), entries[i].2 as u64)),
    decreases n,
{
    if n > 0 {
        lemma_planned_tasks_sound(entries, needs, style, folder, res_base, cdn, n - 1);
        let prev = planned_tasks(entries, needs, style, folder, res_base, cdn, n - 1);
        let cur = planned_tasks(entries, needs, style, folder, res_base, cdn, n);
        assert forall|k: int| #![trigger cur[k]] 0 <= k < cur.len() implies
            exists|i: int| #![trigger needs[i]] 0 <= i < n && needs[i]
                && resource_url(cdn, res_base, entries[i].0) == Some(cur[k].0)
                && cur[k].1 == join_spec(style, folder, entries[i].0)
                && cur[k].2 == entries[i].2 as u64 by {
            if k < prev.len() {
                assert(cur[k] == prev[k]);
                let i = choose|i: int| #![trigger needs[i]] 0 <= i < n - 1 && needs[i]
                    && resource_url(cdn, res_base, entries[i].0) == Some(prev[k].0)
                    && prev[k].1 == join_spec(style, folder, entries[i].0)
                    && prev[k].2 == entries[i].2 as u64;
            } else {
                assert(needs[n - 1]);
            }
        }
        assert forall|i: int| 0 <= i < n && #[trigger] needs[i] && resource_url(cdn, res_base, entries[i].0) is Some implies
            cur.contains((resource_url(cdn, res_base, entries[i].0)->0, join_spec(style, folder, entries[i].0), entries[i].2 as u64)) by {
            let t = (resource_url(cdn, res_base, entries[i].0)->0, join_spec(style, folder, entries[i].0), entries[i].2 as u64);
            if i < n - 1 {
                let k = choose|k: int| 0 <= k < prev.len() && prev[k] == t;
                assert(cur[k] == t);
            } else {
                assert(cur[cur.len() - 1] == t);
            }
        }
    }
}

/// The needs of a synchronisation: entry `i` needs a download as
/// `needs_sync_spec` says of observation `i`.
pub open spec fn sync_needs(
    entries: Seq<(Seq<char>, Seq<char>, i64)>,
    obs: Seq<FileObservation>,
    force_check_md5: bool,
) -> Seq<bool> {
    Seq::new(entries.len(), |i: int| needs_sync_spec(obs[i].exists, obs[i].len, crate::config::opt_view(obs[i].md5), force_check_md5, entries[i]))
}

/// The downloads of a synchronisation of the files `entries` under `folder`,
/// given what `obs` tells of their local copies.
pub fn plan_sync(
    entries: &Vec<ResourceEntry>,
    obs: &Vec<FileObservation>,
    force_check_md5: bool,
    style: PathStyle,
    folder: &str,
    res_base: &str,
    cdn: &str,
) -> (r: Vec<DownloadTask>)
    requires
        obs@.len() == entries@.len(),
    ensures
        r@.map_values(|t: DownloadTask| t@) == planned_tasks(
            entries@.map_values(|e: ResourceEntry| e@),
            sync_needs(entries@.map_values(|e: ResourceEntry| e@), obs@, force_check_md5),
            style,
            folder@,
            res_base@,
            cdn@,
            entries@.len() as int,
        ),
{
    let ghost ev = entries@.map_values(|e: ResourceEntry| e@);
    let mut needs: Vec<bool> = Vec::new();
    let mut i: usize = 0;
    while i < entries.len()
        invariant
            i <= entries@.len(),
            obs@.len() == entries@.len(),
            ev == entries@.map_values(|e: ResourceEntry| e@),
            needs@.len() == i,
            forall|k: int| 0 <= k < i ==> #[trigger] needs@[k] == sync_needs(ev, obs@, force_check_md5)[k],
        decreases entries@.len() - i,
    {
        let n = needs_sync(&obs[i], force_check_md5, &entries[i]);
        needs.push(n);
        i = i + 1;
    }
    assert(needs@ =~= sync_needs(ev, obs@, force_check_md5));
    plan_tasks(entries, &needs, style, folder, res_base, cdn)
}

/// The needs of a pre-download: entry `i` needs a download as
/// `needs_predownload_spec` says of what is known of file `i`.
pub open spec fn predownload_needs(
    entries: Seq<(Seq<char>, Seq<char>, i64)>,
    obs: Seq<FileObservation>,
) -> Seq<bool> {
    Seq::new(entries.len(), |i: int| needs_predownload_spec(obs[i].exists, obs[i].len, entries[i].2 as u64))
}

/// The downloads of a pre-download of the files `entries` into `root`,
/// given what `obs` tells of the files already there.
pub fn plan_predownload(
    entries: &Vec<ResourceEntry>,
    obs: &Vec<FileObservation>,
    style: PathStyle,
    root: &str,
    res_base: &str,
    cdn: &str,
) -> (r: Vec<DownloadTask>)
    requires
        obs@.len() == entries@.len(),
    ensures
        r@.map_values(|t: DownloadTask| t@) == planned_tasks(
            entries@.map_values(|e: ResourceEntry| e@),
            predownload_needs(entries@.map_values(|e: ResourceEntry| e@), obs@),
            style,
            root@,
            res_base@,
            cdn@,
            entries@.len() as int,
        ),
{
    let ghost ev = entries@.map_values(|e: ResourceEntry| e@);
    let mut needs: Vec<bool> = Vec::new();
    let mut i: usize = 0;
    while i < entries.len()
        invariant
            i <= entries@.len(),
            obs@.len() == entries@.len(),
            ev == entries@.map_values(|e: ResourceEntry| e@),
            needs@.len() == i,
            forall|k: int| 0 <= k < i ==> #[trigger] needs@[k] == predownload_needs(ev, obs@)[k],
        decreases entries@.len() - i,
    {
        let n = needs_predownload(obs[i].exists, obs[i].len, entries[i].size as u64);
        needs.push(n);
        i = i + 1;
    }
    assert(needs@ =~= predownload_needs(ev, obs@));
    plan_tasks(entries, &needs, style, root, res_base, cdn)
}

/// The number of tasks and their total size.
pub open spec fn total_size(tasks: Seq<(Seq<char>, Seq<char>, u64)>) -> nat
    decreases tasks.len(),
{
    if tasks.len() == 0 {
        0
    } else {
        total_size(tasks.drop_last()) + (tasks.last().2 as nat)
    }
}

/// The number of tasks and the sum of their sizes.
pub fn batch_totals(tasks: &Vec<DownloadTask>) -> (r: (u64, u64))
    requires
        total_size(tasks@.map_values(|t: DownloadTask| t@)) <= u64::MAX,
    ensures
        r.0 == tasks@.len(),
        r.1 == total_size(tasks@.map_values(|t: DownloadTask| t@)),
{
    let ghost tv = tasks@.map_values(|t: DownloadTask| t@);
    let mut total: u64 = 0;
    let mut i: usize = 0;
    while i < tasks.len()
        invariant
            i <= tasks@.len(),
            tv == tasks@.map_values(|t: DownloadTask| t@),
            total_size(tv) <= u64::MAX,
            total == total_size(tv.subrange(0, i as int)),
        decreases tasks@.len() - i,
    {
        proof {
            lemma_total_size_prefix(tv, i as int + 1);
            assert(tv.subrange(0, i + 1).drop_last() =~= tv.subrange(0, i as int));
        }
        total = total + tasks[i].size;
        i = i + 1;
    }
    assert(tv.subrange(0, i as int) =~= tv);
    (tasks.len() as u64, total)
}

proof fn lemma_total_size_prefix(tv: Seq<(Seq<char>, Seq<char>, u64)>, n: int)
    requires
        0 <= n <= tv.len(),
    ensures
        total_size(tv.subrange(0, n)) <= total_size(tv),
    decreases tv.len() - n,
{
    if n < tv.len() {
        lemma_total_size_prefix(tv, n + 1);
        assert(tv.subrange(0, n + 1).drop_last() =~= tv.subrange(0, n));
    } else {
        assert(tv.subrange(0, n) =~= tv);
    }
}

/// How many completed downloads pass between progress reports: every one
/// for up to 200 files, every 20th beyond that.
pub open spec fn progress_interval_spec(total: u64) -> u64 {
    if total <= 200 {
        1
    } else {
        20
    }
}

/// How many completed downloads pass between progress reports.
pub fn progress_interval(total: u64) -> (r: u64)
    ensures
        r == progress_interval_spec(total),
        total <= 200 ==> r == 1,
        total > 200 ==> r == 20,
{
    if total <= 200 {
        1
    } else {
        20
    }
}

/// Whether the `n`-th completed download is reported.
pub open spec fn progress_due_spec(n: u64, every: u64, total: u64) -> bool {
    n % every == 0 || n == total
}

/// Whether the `n`-th completed download is reported.
pub fn progress_due(n: u64, every: u64, total: u64) -> (r: bool)
    requires
        every > 0,
    ensures
        r == progress_due_spec(n, every, total),
        r <==> (n % every == 0 || n == total),
{
    n % every == 0 || n == total
}

/// Every download is reported when there are few, and the last one always is.
pub proof fn lemma_last_download_reported(total: u64, n: u64)
    ensures
        progress_due_spec(total, progress_interval_spec(total), total),
        total <= 200 ==> progress_due_spec(n, progress_interval_spec(total), total),
        total > 200 ==> (progress_due_spec(n, progress_interval_spec(total), total) <==> (n % 20 == 0 || n == total)),
{
}

/// Whether the `n`-th checked file is reported during a check of `total`
/// files: only when MD5s are checked, every 50th and the last.
pub fn verify_progress_due(force_check_md5: bool, n: u64, total: u64) -> (r: bool)
    ensures
        r == (force_check_md5 && (n % 50 == 0 || n == total)),
{
    force_check_md5 && (n % 50 == 0 || n == total)
}

/// Whether the `done`-th moved pre-download file of `count` is reported:
/// every 10th and the last.
pub fn merge_progress_due(done: u64, count: u64) -> (r: bool)
    ensures
        r == (done % 10 == 0 || done == count),
{
    done % 10 == 0 || done == count
}

/// The resource base path of a launcher section: `resourcesBasePath` when
/// present (it must then be a string), otherwise `baseUrl`.
pub open spec fn res_base_spec(section: Json) -> Option<Seq<char>> {
    match member(section, "resourcesBasePath"@) {
        Some(v) => str_of(Some(v)),
        None => str_member(section, "baseUrl"@),
    }
}

/// The resource base path of a launcher section.
pub fn res_base(section: &Json) -> (r: Option<String>)
    ensures
        crate::config::opt_view(r) == res_base_spec(*section),
{
    match section.get("resourcesBasePath") {
        Some(v) => match v.as_str() {
            Some(s) => Some(s.clone()),
            None => None,
        },
        None => section.str_member("baseUrl"),
    }
}

/// Files downloaded at the same time in a batch.
pub const DOWNLOAD_CONCURRENT: usize = 8;
/// Files whose MD5 is computed at the same time when verifying.
pub const VERIFY_CONCURRENT: usize = 64;

/// The result of a batch whose downloads ended with `ok`: an error when any
/// download failed.
pub fn batch_result(ok: &Vec<bool>) -> (r: Result<(), WwError>)
    ensures
        match r {
            Ok(()) => forall|i: int| 0 <= i < ok@.len() ==> ok@[i],
            Err(e) => (exists|i: int| 0 <= i < ok@.len() && !ok@[i])
                && e@ == (ErrorKind::Network, "部分文件下载失败，请重试。"@),
        },
{
    if all_true(ok) {
        Ok(())
    } else {
        Err(network_error("部分文件下载失败，请重试。"))
    }
}

/// Name of the file that marks a finished pre-download.
pub const PREDOWNLOAD_MARKER_FILE: &'static str = "predownload_version.json";

/// Where the entry `path` of the pre-download folder `root` goes in the game
/// folder `game_folder`: files other than the marker keep their place relative
/// to the folder; directories and the marker are not moved.
pub open spec fn predownload_destination_spec(
    style: PathStyle,
    root: Seq<char>,
    game_folder: Seq<char>,
    path: Seq<char>,
    is_file: bool,
) -> Option<Seq<char>> {
    if is_file && file_name_spec(style, path) != Some(PREDOWNLOAD_MARKER_FILE@) {
        match strip_prefix_spec(style, path, root) {
            Some(rel) => Some(join_spec(style, game_folder, rel)),
            None => None,
        }
    } else {
        None
    }
}

/// Where the entry `path` of the pre-download folder `root` is moved to, if
/// it is moved at all.
pub fn predownload_destination(
    style: PathStyle,
    root: &str,
    game_folder: &str,
    path: &str,
    is_file: bool,
) -> (r: Option<String>)
    requires
        strip_prefix_spec(style, path@, root@) is Some,
    ensures
        crate::config::opt_view(r) == predownload_destination_spec(style, root@, game_folder@, path@, is_file),
{
    if !is_file {
        return None;
    }
    let is_marker = match file_name(style, path) {
        Some(n) => str_eq(n.as_str(), PREDOWNLOAD_MARKER_FILE),
        None => false,
    };
    if is_marker {
        return None;
    }
    match strip_prefix(style, path, root) {
        Some(rel) => Some(join(style, game_folder, rel.as_str())),
        None => None,
    }
}

/// What a synchronisation does once its downloads are planned.
#[derive(PartialEq, Eq, Structural, Clone, Copy, Debug)]
pub enum SyncStep {
    /// Download the planned files.
    DownloadTasks,
    /// Write the MD5 cache to disk.
    SaveMd5Cache,
    /// Record the server's version in the local configuration; a failure
    /// there is only logged.
    RefreshLocalConfig,
    /// Report that every file passed and nothing is downloaded.
    ReportAllPassed,
}

/// The message when a synchronisation finds nothing to download.
pub const ALL_PASSED_MESSAGE: &'static str = "所有文件校验通过，无需下载。";

/// The steps after planning `task_count` downloads: download, save the MD5
/// cache and record the version when there is anything to download; else
/// only the report that every file passed.
pub fn steps_after_sync_plan(task_count: usize) -> (r: Vec<SyncStep>)
    ensures
        r@ == if task_count > 0 {
            seq![SyncStep::DownloadTasks, SyncStep::SaveMd5Cache, SyncStep::RefreshLocalConfig]
        } else {
            seq![SyncStep::ReportAllPassed]
        },
{
    if task_count > 0 {
        vec![SyncStep::DownloadTasks, SyncStep::SaveMd5Cache, SyncStep::RefreshLocalConfig]
    } else {
        vec![SyncStep::ReportAllPassed]
    }
}

/// A step of downloading the full client.
#[derive(PartialEq, Eq, Structural, Clone, Copy, Debug)]
pub enum FullDownloadStep {
    /// Announce the server and the game folder.
    AnnounceStart,
    /// Create the game folder.
    CreateGameFolder,
    /// Synchronise the files, checking every MD5 when `force_check_md5`.
    Sync { force_check_md5: bool },
    /// Announce that the files are being checked.
    AnnounceCheck,
    /// Announce that the client is complete.
    AnnounceDone,
}

/// The message before the full client is checked.
pub const FULL_CHECK_MESSAGE: &'static str = "下载完成，正在检验游戏完整性...";

/// The steps of downloading the full client: a synchronisation by size, then
/// one that checks every MD5; any failing step ends the download.
pub fn full_download_steps() -> (r: Vec<FullDownloadStep>)
    ensures
        r@ == seq![
            FullDownloadStep::AnnounceStart,
            FullDownloadStep::CreateGameFolder,
            FullDownloadStep::Sync { force_check_md5: false },
            FullDownloadStep::AnnounceCheck,
            FullDownloadStep::Sync { force_check_md5: true },
            FullDownloadStep::AnnounceDone,
        ],
{
    vec![
        FullDownloadStep::AnnounceStart,
        FullDownloadStep::CreateGameFolder,
        FullDownloadStep::Sync { force_check_md5: false },
        FullDownloadStep::AnnounceCheck,
        FullDownloadStep::Sync { force_check_md5: true },
        FullDownloadStep::AnnounceDone,
    ]
}

/// The message when the full client of `server` is complete.
pub fn full_download_done_message(server: &str) -> (r: String)
    ensures
        r@ == server@ + " 服完整客户端下载完毕！"@,
{
    crate::text::concat2(server, " 服完整客户端下载完毕！")
}

} // verus!
