//! Switching the installed client between servers: the server-specific files
//! of every server are disabled (renamed with a `.bak` extension), then those
//! of the target server are enabled again.

use vstd::prelude::*;
use vstd::string::*;
use crate::config::{server_diff_entry, diff_files_for, server_diff_files, KURO_LOGIN_DLL, KURO_PAK, BILIBILI_SDK_DLL, BILIBILI_PAK};
use crate::paths::{PathStyle, ends_with_file_name, with_bak_extension, lemma_bak_appends, lemma_has_file_name};
use crate::text::str_eq;

verus! {

/// The name of a disabled file.
pub open spec fn bak_of(f: Seq<char>) -> Seq<char> {
    f + ".bak"@
}

/// Whether `p` is the name of a disabled file.
pub open spec fn is_bak(p: Seq<char>) -> bool {
    p.len() >= 4 && p.subrange(p.len() - 4, p.len() as int) == ".bak"@
}

/// The file that the disabled file `p` stands for.
pub open spec fn unbak(p: Seq<char>) -> Seq<char> {
    p.subrange(0, p.len() - 4)
}

/// Every server-specific file.
pub open spec fn diff_set() -> Set<Seq<char>> {
    set![KURO_LOGIN_DLL@, KURO_PAK@, BILIBILI_SDK_DLL@, BILIBILI_PAK@]
}

/// The server-specific files of `target`.
pub open spec fn target_set(target: Seq<char>) -> Set<Seq<char>> {
    match server_diff_entry(target) {
        Some(fs) => fs.to_set(),
        None => Set::empty(),
    }
}

/// The set of names held in `v`.
pub open spec fn names(v: Seq<String>) -> Set<Seq<char>> {
    Set::new(|p: Seq<char>| exists|j: int| 0 <= j < v.len() && (#[trigger] v[j])@ == p)
}

/// Each file of `s`, holding its own content: a map from the name of each
/// present file to the name of the file whose content it holds.
pub open spec fn start_map(s: Set<Seq<char>>) -> Map<Seq<char>, Seq<char>> {
    Map::new(|p: Seq<char>| s.contains(p), |p: Seq<char>| p)
}

/// The files present after the renames `ops` are made in turn, starting from
/// the files `m`, each mapped to the file whose content it holds; a rename
/// moves the content of its source and replaces a file already under the new
/// name.
pub open spec fn apply_moves(
    m: Map<Seq<char>, Seq<char>>,
    ops: Seq<(Seq<char>, Seq<char>)>,
) -> Map<Seq<char>, Seq<char>>
    decreases ops.len(),
{
    if ops.len() == 0 {
        m
    } else {
        let prev = apply_moves(m, ops.drop_last());
        prev.remove(ops.last().0).insert(ops.last().1, prev[ops.last().0])
    }
}

/// Every rename of `ops` moves a file that is present when it is made.
pub open spec fn renames_valid(m: Map<Seq<char>, Seq<char>>, ops: Seq<(Seq<char>, Seq<char>)>) -> bool {
    forall|i: int| 0 <= i < ops.len() ==> #[trigger] apply_moves(m, ops.take(i)).dom().contains(ops[i].0)
}

/// Whether `p` is present after switching to `target` from the files `s`:
/// the target's files are present when they or their disabled copies were;
/// other server-specific files are absent; a disabled copy of a target file is
/// absent; a disabled copy of another server-specific file is present when it
/// or the file was; every other file is untouched.
pub open spec fn after_checkout(s: Set<Seq<char>>, target: Seq<char>, p: Seq<char>) -> bool {
    if target_set(target).contains(p) {
        s.contains(p) || s.contains(bak_of(p))
    } else if diff_set().contains(p) {
        false
    } else if is_bak(p) && target_set(target).contains(unbak(p)) {
        false
    } else if is_bak(p) && diff_set().contains(unbak(p)) {
        s.contains(p) || s.contains(unbak(p))
    } else {
        s.contains(p)
    }
}

/// Whether a target file can be neither found nor restored from `s`.
pub open spec fn checkout_missing(s: Set<Seq<char>>, target: Seq<char>) -> bool {
    exists|t: Seq<char>| #[trigger] target_set(target).contains(t) && !s.contains(t) && !s.contains(bak_of(t))
}

/// Whose content `p` holds after switching to `target` from the files `s`:
/// a target file keeps its own content if it was present, else it holds that
/// of its disabled copy; the disabled copy of another server-specific file
/// holds that file's content if the file was present, else its own; every
/// other file keeps its own content.
pub open spec fn checkout_origin(s: Set<Seq<char>>, target: Seq<char>, p: Seq<char>) -> Seq<char> {
    if target_set(target).contains(p) {
        if s.contains(p) {
            p
        } else {
            bak_of(p)
        }
    } else if is_bak(p) && diff_set().contains(unbak(p)) && s.contains(unbak(p)) {
        unbak(p)
    } else {
        p
    }
}

/// The files present after switching to `target` from the files `s`, each
/// mapped to the file whose content it holds.
pub open spec fn checkout_result(s: Set<Seq<char>>, target: Seq<char>) -> Map<Seq<char>, Seq<char>> {
    Map::new(|p: Seq<char>| after_checkout(s, target, p), |p: Seq<char>| checkout_origin(s, target, p))
}

/// Whose content each file holds after a switch, stated on the files
/// themselves: a target file that was present keeps its own content; one that
/// was absent but had a disabled copy takes that copy's content; one with
/// neither stays absent. A server-specific file of another server is absent
/// afterwards, and if it was present its content is under its disabled name.
/// Every other file that is not a disabled copy of a server-specific file is
/// untouched.
pub proof fn lemma_switch_contents(s: Set<Seq<char>>, target: Seq<char>, p: Seq<char>)
    ensures
        target_set(target).contains(p) && s.contains(p)
            ==> checkout_result(s, target).dom().contains(p) && checkout_result(s, target)[p] == p,
        target_set(target).contains(p) && !s.contains(p) && s.contains(bak_of(p))
            ==> checkout_result(s, target).dom().contains(p) && checkout_result(s, target)[p] == bak_of(p),
        target_set(target).contains(p) && !s.contains(p) && !s.contains(bak_of(p))
            ==> !checkout_result(s, target).dom().contains(p),
        diff_set().contains(p) && !target_set(target).contains(p) ==> !checkout_result(s, target).dom().contains(p),
        diff_set().contains(p) && !target_set(target).contains(p) && s.contains(p)
            ==> checkout_result(s, target).dom().contains(bak_of(p)) && checkout_result(s, target)[bak_of(p)] == p,
        !diff_set().contains(p) && !(is_bak(p) && diff_set().contains(unbak(p))) ==> {
            &&& checkout_result(s, target).dom().contains(p) == s.contains(p)
            &&& s.contains(p) ==> checkout_result(s, target)[p] == p
        },
{
    lemma_diff_files_facts();
    lemma_bak_facts(p);
}

/// One rename of a switch, with the name whose MD5 cache entry it invalidates.
#[derive(Debug)]
pub struct Rename {
    pub from: String,
    pub to: String,
    /// The enabled name of the file: its MD5 cache entry is dropped.
    pub live: String,
}

/// The renames of a switch, in order, and whether a target file is missing.
#[derive(Debug)]
pub struct CheckoutPlan {
    pub renames: Vec<Rename>,
    pub missing: bool,
}

pub open spec fn rename_views(v: Seq<Rename>) -> Seq<(Seq<char>, Seq<char>)> {
    v.map_values(|r: Rename| (r.from@, r.to@))
}

proof fn lemma_bak_facts(f: Seq<char>)
    ensures
        is_bak(bak_of(f)),
        unbak(bak_of(f)) =~= f,
        bak_of(f) != f,
{
    reveal_strlit(".bak");
    assert(bak_of(f).subrange(bak_of(f).len() - 4, bak_of(f).len() as int) =~= ".bak"@);
    assert(bak_of(f).len() != f.len());
}

proof fn lemma_unbak(p: Seq<char>)
    requires
        is_bak(p),
    ensures
        bak_of(unbak(p)) =~= p,
{
    reveal_strlit(".bak");
    assert(p =~= p.subrange(0, p.len() - 4) + p.subrange(p.len() - 4, p.len() as int));
}

/// Facts about the server-specific files that the switch relies on.
proof fn lemma_diff_files_facts()
    ensures
        forall|f: Seq<char>| #[trigger] diff_set().contains(f) ==> !is_bak(f),
        forall|k: Seq<char>, f: Seq<char>| #[trigger] target_set(k).contains(f) ==> diff_set().contains(f),
{
    reveal_strlit(".bak");
    reveal_strlit("Client/Binaries/Win64/kuro_login.dll");
    reveal_strlit("Client/Content/Paks/pakchunk1-Kuro-Win64-Shipping.pak");
    reveal_strlit("Client/Binaries/Win64/bilibili_sdk.dll");
    reveal_strlit("Client/Content/Paks/pakchunk1-Bilibili-Win64-Shipping.pak");
    let a = KURO_LOGIN_DLL@;
    let b = KURO_PAK@;
    let c = BILIBILI_SDK_DLL@;
    let d = BILIBILI_PAK@;
    assert(a.subrange(a.len() - 4, a.len() as int)[1] != ".bak"@[1]);
    assert(b.subrange(b.len() - 4, b.len() as int)[1] != ".bak"@[1]);
    assert(c.subrange(c.len() - 4, c.len() as int)[1] != ".bak"@[1]);
    assert(d.subrange(d.len() - 4, d.len() as int)[1] != ".bak"@[1]);
    assert forall|k: Seq<char>, f: Seq<char>| #[trigger] target_set(k).contains(f) implies diff_set().contains(f) by {
        match server_diff_entry(k) {
            Some(fs) => {
                assert(fs.contains(f));
            },
            None => {},
        }
    }
}

/// Every server-specific file ends with its file name, in either path style.
proof fn lemma_diff_files_named(style: PathStyle)
    ensures
        forall|f: Seq<char>| #[trigger] diff_set().contains(f) ==> ends_with_file_name(style, f),
{
    reveal_strlit("Client/Binaries/Win64/kuro_login.dll");
    reveal_strlit("Client/Content/Paks/pakchunk1-Kuro-Win64-Shipping.pak");
    reveal_strlit("Client/Binaries/Win64/bilibili_sdk.dll");
    reveal_strlit("Client/Content/Paks/pakchunk1-Bilibili-Win64-Shipping.pak");
    lemma_has_file_name(style, KURO_LOGIN_DLL@);
    lemma_has_file_name(style, KURO_PAK@);
    lemma_has_file_name(style, BILIBILI_SDK_DLL@);
    lemma_has_file_name(style, BILIBILI_PAK@);
}

/// Whether `p` is present once the files `done` have been disabled, starting
/// from the files `s`.
spec fn phase_disabled(s: Set<Seq<char>>, done: Set<Seq<char>>, p: Seq<char>) -> bool {
    if done.contains(p) {
        false
    } else if is_bak(p) && done.contains(unbak(p)) {
        s.contains(p) || s.contains(unbak(p))
    } else {
        s.contains(p)
    }
}

/// Whose content `p` holds once the files `done` have been disabled.
spec fn disabled_origin(s: Set<Seq<char>>, done: Set<Seq<char>>, p: Seq<char>) -> Seq<char> {
    if is_bak(p) && done.contains(unbak(p)) && s.contains(unbak(p)) {
        unbak(p)
    } else {
        p
    }
}

/// Whether `p` is present once the files `done` have been enabled again,
/// starting from the files `m`.
spec fn phase_enabled(m: Set<Seq<char>>, done: Set<Seq<char>>, p: Seq<char>) -> bool {
    if done.contains(p) {
        m.contains(bak_of(p))
    } else if is_bak(p) && done.contains(unbak(p)) {
        false
    } else {
        m.contains(p)
    }
}

spec fn disabled_map(s: Set<Seq<char>>, done: Set<Seq<char>>) -> Map<Seq<char>, Seq<char>> {
    Map::new(|p: Seq<char>| phase_disabled(s, done, p), |p: Seq<char>| disabled_origin(s, done, p))
}

spec fn enabled_map(m: Map<Seq<char>, Seq<char>>, done: Set<Seq<char>>) -> Map<Seq<char>, Seq<char>> {
    Map::new(
        |p: Seq<char>| phase_enabled(m.dom(), done, p),
        |p: Seq<char>| if done.contains(p) { m[bak_of(p)] } else { m[p] },
    )
}

/// Whether every rename of `v` invalidates the enabled name of its file.
pub open spec fn lives_ok(v: Seq<Rename>) -> bool {
    forall|i: int| 0 <= i < v.len() ==> {
        &&& !is_bak((#[trigger] v[i]).live@)
        &&& (v[i].live@ == v[i].from@ || v[i].live@ == v[i].to@)
    }
}

proof fn lemma_disable_step(
    s0: Set<Seq<char>>,
    done: Set<Seq<char>>,
    f: Seq<char>,
    before: Map<Seq<char>, Seq<char>>,
)
    requires
        done.subset_of(diff_set()),
        diff_set().contains(f),
        before == disabled_map(s0, done),
    ensures
        before.dom().contains(f) ==> before.remove(f).insert(bak_of(f), before[f]) =~= disabled_map(s0, done.insert(f)),
        !before.dom().contains(f) ==> before =~= disabled_map(s0, done.insert(f)),
{
    lemma_diff_files_facts();
    lemma_bak_facts(f);
    let nd = done.insert(f);
    let after = disabled_map(s0, nd);
    let mv = if before.dom().contains(f) { before.remove(f).insert(bak_of(f), before[f]) } else { before };
    assert forall|p: Seq<char>| #[trigger] after.dom().contains(p) == mv.dom().contains(p)
        && (after.dom().contains(p) ==> after[p] == mv[p]) by {
        if p == f {
        } else if p == bak_of(f) {
            assert(!diff_set().contains(p));
            assert(!done.contains(p));
        } else {
            if is_bak(p) && unbak(p) == f {
                lemma_unbak(p);
            }
        }
    }
    assert(after =~= mv);
}

proof fn lemma_enable_step(
    m: Map<Seq<char>, Seq<char>>,
    done: Set<Seq<char>>,
    t: Seq<char>,
    before: Map<Seq<char>, Seq<char>>,
)
    requires
        done.subset_of(diff_set()),
        diff_set().contains(t),
        forall|d: Seq<char>| #[trigger] diff_set().contains(d) ==> !m.dom().contains(d),
        before == enabled_map(m, done),
    ensures
        before.dom().contains(bak_of(t)) ==> before.remove(bak_of(t)).insert(t, before[bak_of(t)]) =~= enabled_map(m, done.insert(t)),
        !before.dom().contains(bak_of(t)) ==> before =~= enabled_map(m, done.insert(t)),
        !before.dom().contains(bak_of(t)) ==> (before.dom().contains(t) <==> done.contains(t) && m.dom().contains(bak_of(t))),
        !done.contains(t) ==> (before.dom().contains(bak_of(t)) == m.dom().contains(bak_of(t))),
        before.dom().contains(bak_of(t)) ==> m.dom().contains(bak_of(t)),
{
    lemma_diff_files_facts();
    lemma_bak_facts(t);
    let nd = done.insert(t);
    let after = enabled_map(m, nd);
    let mv = if before.dom().contains(bak_of(t)) {
        before.remove(bak_of(t)).insert(t, before[bak_of(t)])
    } else {
        before
    };
    assert forall|p: Seq<char>| #[trigger] after.dom().contains(p) == mv.dom().contains(p)
        && (after.dom().contains(p) ==> after[p] == mv[p]) by {
        if p == t {
        } else if p == bak_of(t) {
            assert(!diff_set().contains(p));
            assert(!done.contains(p));
        } else {
            if is_bak(p) && unbak(p) == t {
                lemma_unbak(p);
            }
        }
    }
    assert(after =~= mv);
}

proof fn lemma_rename_push(
    m0: Map<Seq<char>, Seq<char>>,
    ops: Seq<(Seq<char>, Seq<char>)>,
    op: (Seq<char>, Seq<char>),
)
    requires
        renames_valid(m0, ops),
        apply_moves(m0, ops).dom().contains(op.0),
    ensures
        renames_valid(m0, ops.push(op)),
        apply_moves(m0, ops.push(op)) == apply_moves(m0, ops).remove(op.0).insert(op.1, apply_moves(m0, ops)[op.0]),
{
    let n = ops.push(op);
    assert(n.drop_last() =~= ops);
    assert forall|i: int| 0 <= i < n.len() implies #[trigger] apply_moves(m0, n.take(i)).dom().contains(n[i].0) by {
        if i < ops.len() {
            assert(n.take(i) =~= ops.take(i));
            assert(apply_moves(m0, ops.take(i)).dom().contains(ops[i].0));
        } else {
            assert(n.take(i) =~= ops);
        }
    }
}

/// Whether `x` is among the names held in `v`.
fn holds(v: &Vec<String>, x: &str) -> (r: bool)
    ensures
        r == names(v@).contains(x@),
{
    let mut i: usize = 0;
    while i < v.len()
        invariant
            i <= v@.len(),
            forall|j: int| 0 <= j < i ==> v@[j]@ != x@,
        decreases v@.len() - i,
    {
        if str_eq(v[i].as_str(), x) {
            proof {
                assert(v@[i as int]@ == x@);
            }
            return true;
        }
        i = i + 1;
    }
    false
}

/// The names of `v` after `from` is renamed to `to`.
fn rename_entry(v: &Vec<String>, from: &str, to: &str) -> (r: Vec<String>)
    ensures
        names(r@) =~= names(v@).remove(from@).insert(to@),
{
    let mut r: Vec<String> = Vec::new();
    let mut i: usize = 0;
    while i < v.len()
        invariant
            i <= v@.len(),
            forall|k: int| 0 <= k < r@.len() ==> (#[trigger] r@[k])@ != from@
                && exists|j: int| 0 <= j < i && (#[trigger] v@[j])@ == r@[k]@,
            forall|j: int| 0 <= j < i && (#[trigger] v@[j])@ != from@
                ==> exists|k: int| 0 <= k < r@.len() && (#[trigger] r@[k])@ == v@[j]@,
        decreases v@.len() - i,
    {
        if !str_eq(v[i].as_str(), from) {
            let ghost before = r@;
            r.push(v[i].clone());
            proof {
                assert(r@[before.len() as int]@ == v@[i as int]@);
                assert forall|k: int| 0 <= k < r@.len() implies (#[trigger] r@[k])@ != from@
                    && exists|j: int| 0 <= j < i + 1 && (#[trigger] v@[j])@ == r@[k]@ by {
                    if k < before.len() {
                        assert(r@[k] == before[k]);
                    } else {
                        assert(v@[i as int]@ == r@[k]@);
                    }
                }
                assert forall|j: int| 0 <= j < i + 1 && (#[trigger] v@[j])@ != from@
                    implies exists|k: int| 0 <= k < r@.len() && (#[trigger] r@[k])@ == v@[j]@ by {
                    if j < i {
                        let k = choose|k: int| 0 <= k < before.len() && (#[trigger] before[k])@ == v@[j]@;
                        assert(r@[k] == before[k]);
                    } else {
                        assert(r@[before.len() as int]@ == v@[j]@);
                    }
                }
            }
        }
        i = i + 1;
    }
    let ghost before = r@;
    r.push(to.to_owned());
    proof {
        assert forall|p: Seq<char>| #[trigger] names(r@).contains(p) <==> names(v@).remove(from@).insert(to@).contains(p) by {
            if names(r@).contains(p) && p != to@ {
                let k = choose|k: int| 0 <= k < r@.len() && (#[trigger] r@[k])@ == p;
                assert(k < before.len());
                assert(r@[k] == before[k]);
                let j = choose|j: int| 0 <= j < i && (#[trigger] v@[j])@ == before[k]@;
                assert(names(v@).contains(p));
            }
            if names(v@).remove(from@).insert(to@).contains(p) {
                if p == to@ {
                    assert(r@[before.len() as int]@ == p);
                } else {
                    let j = choose|j: int| 0 <= j < v@.len() && (#[trigger] v@[j])@ == p;
                    let k = choose|k: int| 0 <= k < before.len() && (#[trigger] before[k])@ == v@[j]@;
                    assert(r@[k] == before[k]);
                }
            }
        }
    }
    r
}

fn copy_names(v: &Vec<String>) -> (r: Vec<String>)
    ensures
        names(r@) =~= names(v@),
{
    let mut r: Vec<String> = Vec::new();
    let mut i: usize = 0;
    while i < v.len()
        invariant
            i <= v@.len(),
            r@.len() == i,
            forall|k: int| 0 <= k < i ==> (#[trigger] r@[k])@ == v@[k]@,
        decreases v@.len() - i,
    {
        r.push(v[i].clone());
        i = i + 1;
    }
    proof {
        assert forall|p: Seq<char>| #[trigger] names(r@).contains(p) <==> names(v@).contains(p) by {
            if names(r@).contains(p) {
                let k = choose|k: int| 0 <= k < r@.len() && (#[trigger] r@[k])@ == p;
                assert(v@[k]@ == p);
            }
            if names(v@).contains(p) {
                let k = choose|k: int| 0 <= k < v@.len() && (#[trigger] v@[k])@ == p;
                assert(r@[k]@ == p);
            }
        }
    }
    r
}

/// The renames that switch the installed client to `target`, given the
/// server-specific files and disabled copies `present` (paths relative to the
/// game folder), and whether a file of the target is missing. Made in order,
/// every rename moves a present file, and afterwards each name holds the
/// content that `checkout_result` gives it.
pub fn plan_checkout(style: PathStyle, present: &Vec<String>, target: &str) -> (r: CheckoutPlan)
    ensures
        renames_valid(start_map(names(present@)), rename_views(r.renames@)),
        apply_moves(start_map(names(present@)), rename_views(r.renames@))
            == checkout_result(names(present@), target@),
        r.missing == checkout_missing(names(present@), target@),
        lives_ok(r.renames@),
{
    let ghost s0 = names(present@);
    let ghost m0 = start_map(s0);
    let mut state = copy_names(present);
    let mut ops: Vec<Rename> = Vec::new();
    let ghost mut done: Set<Seq<char>> = Set::empty();
    let table = server_diff_files();
    proof {
        lemma_diff_files_facts();
        assert(disabled_map(s0, done) =~= m0);
        assert(rename_views(ops@) =~= Seq::<(Seq<char>, Seq<char>)>::empty());
    }
    let mut i: usize = 0;
    while i < table.len()
        invariant
            table@.len() == 3,
            forall|k: int| 0 <= k < 3 ==> #[trigger] table@[k].0@ == crate::config::server_keys()[k]
                && server_diff_entry(crate::config::server_keys()[k]) == Some(table@[k].1@.map_values(|s: String| s@)),
            i <= 3,
            done.subset_of(diff_set()),
            forall|k: int, f: Seq<char>| 0 <= k < i && #[trigger] target_set(crate::config::server_keys()[k]).contains(f)
                ==> done.contains(f),
            names(state@) == disabled_map(s0, done).dom(),
            apply_moves(m0, rename_views(ops@)) == disabled_map(s0, done),
            renames_valid(m0, rename_views(ops@)),
            lives_ok(ops@),
        decreases 3 - i,
    {
        let files = &table[i].1;
        let ghost fv = files@.map_values(|s: String| s@);
        let ghost key = crate::config::server_keys()[i as int];
        proof {
            assert(table@[i as int].0@ == key);
            assert(target_set(key) == fv.to_set());
        }
        let mut j: usize = 0;
        while j < files.len()
            invariant
                table@.len() == 3,
                forall|k: int| 0 <= k < 3 ==> #[trigger] table@[k].0@ == crate::config::server_keys()[k]
                    && server_diff_entry(crate::config::server_keys()[k]) == Some(table@[k].1@.map_values(|s: String| s@)),
                i < 3,
                *files == table@[i as int].1,
                fv == files@.map_values(|s: String| s@),
                key == crate::config::server_keys()[i as int],
                target_set(key) == fv.to_set(),
                j <= files@.len(),
                done.subset_of(diff_set()),
                forall|k: int, f: Seq<char>| 0 <= k < i && #[trigger] target_set(crate::config::server_keys()[k]).contains(f)
                    ==> done.contains(f),
                forall|jj: int| 0 <= jj < j ==> done.contains(#[trigger] fv[jj]),
                names(state@) == disabled_map(s0, done).dom(),
                apply_moves(m0, rename_views(ops@)) == disabled_map(s0, done),
                renames_valid(m0, rename_views(ops@)),
                lives_ok(ops@),
            decreases files@.len() - j,
        {
            let f = &files[j];
            proof {
                assert(fv[j as int] == f@);
                assert(fv.to_set().contains(f@));
                assert(target_set(key).contains(f@));
                assert(diff_set().contains(f@));
                lemma_diff_files_facts();
                lemma_diff_files_named(style);
                lemma_bak_appends(style, f@);
                lemma_disable_step(s0, done, f@, disabled_map(s0, done));
            }
            let b = with_bak_extension(style, f.as_str());
            if holds(&state, f.as_str()) {
                state = rename_entry(&state, f.as_str(), b.as_str());
                let op = Rename { from: f.clone(), to: b, live: f.clone() };
                proof {
                    lemma_rename_push(m0, rename_views(ops@), (op.from@, op.to@));
                    lemma_diff_files_facts();
                }
                let ghost before = ops@;
                ops.push(op);
                proof {
                    assert(rename_views(ops@) =~= rename_views(before).push((op.from@, op.to@)));
                    assert(!is_bak(f@));
                    assert forall|q: int| 0 <= q < ops@.len() implies {
                        &&& !is_bak((#[trigger] ops@[q]).live@)
                        &&& (ops@[q].live@ == ops@[q].from@ || ops@[q].live@ == ops@[q].to@)
                    } by {
                        if q < before.len() {
                            assert(ops@[q] == before[q]);
                        }
                    }
                }
            }
            proof {
                done = done.insert(f@);
            }
            j = j + 1;
        }
        proof {
            assert forall|k: int, f: Seq<char>| 0 <= k < i + 1 && #[trigger] target_set(crate::config::server_keys()[k]).contains(f)
                implies done.contains(f) by {
                if k == i {
                    assert(fv.to_set().contains(f));
                    let jj = choose|jj: int| 0 <= jj < fv.len() && fv[jj] == f;
                    assert(done.contains(fv[jj]));
                }
            }
        }
        i = i + 1;
    }
    proof {
        reveal_strlit("cn");
        reveal_strlit("bilibili");
        crate::config::lemma_literals_distinct();
        let k0 = crate::config::server_keys()[0];
        let k2 = crate::config::server_keys()[2];
        assert(target_set(k0).contains(KURO_LOGIN_DLL@)) by {
            assert(seq![KURO_LOGIN_DLL@, KURO_PAK@][0] == KURO_LOGIN_DLL@);
        }
        assert(target_set(k0).contains(KURO_PAK@)) by {
            assert(seq![KURO_LOGIN_DLL@, KURO_PAK@][1] == KURO_PAK@);
        }
        assert(target_set(k2).contains(BILIBILI_SDK_DLL@)) by {
            assert(seq![BILIBILI_SDK_DLL@, BILIBILI_PAK@][0] == BILIBILI_SDK_DLL@);
        }
        assert(target_set(k2).contains(BILIBILI_PAK@)) by {
            assert(seq![BILIBILI_SDK_DLL@, BILIBILI_PAK@][1] == BILIBILI_PAK@);
        }
        assert(done =~= diff_set());
    }
    let ghost m = disabled_map(s0, diff_set());
    let ghost mut done2: Set<Seq<char>> = Set::empty();
    let mut missing = false;
    proof {
        assert(enabled_map(m, done2) =~= m);
        assert forall|d: Seq<char>| #[trigger] diff_set().contains(d) implies !m.dom().contains(d) by {}
    }
    match diff_files_for(target) {
        Some(files) => {
            let ghost fv = files@.map_values(|s: String| s@);
            let mut j: usize = 0;
            while j < files.len()
                invariant
                    fv == files@.map_values(|s: String| s@),
                    target_set(target@) == fv.to_set(),
                    j <= files@.len(),
                    m == disabled_map(s0, diff_set()),
                    m0 == start_map(s0),
                    forall|d: Seq<char>| #[trigger] diff_set().contains(d) ==> !m.dom().contains(d),
                    done2.subset_of(target_set(target@)),
                    forall|jj: int| 0 <= jj < j ==> done2.contains(#[trigger] fv[jj]),
                    names(state@) == enabled_map(m, done2).dom(),
                    apply_moves(m0, rename_views(ops@)) == enabled_map(m, done2),
                    renames_valid(m0, rename_views(ops@)),
                    lives_ok(ops@),
                    missing == exists|t: Seq<char>| #[trigger] done2.contains(t) && !m.dom().contains(bak_of(t)),
                decreases files@.len() - j,
            {
                let t = &files[j];
                proof {
                    lemma_diff_files_facts();
                    assert(fv[j as int] == t@);
                    assert(fv.to_set().contains(t@));
                    assert(target_set(target@).contains(t@));
                    assert(diff_set().contains(t@));
                    lemma_diff_files_named(style);
                    lemma_bak_appends(style, t@);
                    lemma_enable_step(m, done2, t@, enabled_map(m, done2));
                }
                let b = with_bak_extension(style, t.as_str());
                let has_bak = holds(&state, b.as_str());
                let has_t = holds(&state, t.as_str());
                let ghost old_missing = missing;
                if has_bak {
                    state = rename_entry(&state, b.as_str(), t.as_str());
                    let op = Rename { from: b, to: t.clone(), live: t.clone() };
                    proof {
                        lemma_rename_push(m0, rename_views(ops@), (op.from@, op.to@));
                    }
                    let ghost before = ops@;
                    ops.push(op);
                    proof {
                        assert(rename_views(ops@) =~= rename_views(before).push((op.from@, op.to@)));
                        assert forall|q: int| 0 <= q < ops@.len() implies {
                            &&& !is_bak((#[trigger] ops@[q]).live@)
                            &&& (ops@[q].live@ == ops@[q].from@ || ops@[q].live@ == ops@[q].to@)
                        } by {
                            if q < before.len() {
                                assert(ops@[q] == before[q]);
                            }
                        }
                    }
                } else if !has_t {
                    missing = true;
                }
                proof {
                    let od = done2;
                    done2 = done2.insert(t@);
                    assert(done2.contains(t@));
                    if m.dom().contains(bak_of(t@)) {
                        assert(missing == old_missing);
                        if exists|u: Seq<char>| #[trigger] done2.contains(u) && !m.dom().contains(bak_of(u)) {
                            let u = choose|u: Seq<char>| #[trigger] done2.contains(u) && !m.dom().contains(bak_of(u));
                            assert(od.contains(u));
                        }
                        if old_missing {
                            let u = choose|u: Seq<char>| #[trigger] od.contains(u) && !m.dom().contains(bak_of(u));
                            assert(done2.contains(u));
                        }
                    } else {
                        assert(!has_bak);
                        assert(!has_t);
                        assert(missing);
                    }
                }
                j = j + 1;
            }
            proof {
                assert forall|t: Seq<char>| #[trigger] target_set(target@).contains(t) implies done2.contains(t) by {
                    let jj = choose|jj: int| 0 <= jj < fv.len() && fv[jj] == t;
                    assert(done2.contains(fv[jj]));
                }
                assert(done2 =~= target_set(target@));
            }
        },
        None => {
            proof {
                assert(done2 =~= target_set(target@));
            }
        },
    }
    proof {
        lemma_diff_files_facts();
        let fin = enabled_map(m, done2);
        let want = checkout_result(s0, target@);
        assert forall|p: Seq<char>| #[trigger] fin.dom().contains(p) == want.dom().contains(p)
            && (fin.dom().contains(p) ==> fin[p] == want[p]) by {
            lemma_bak_facts(p);
            if is_bak(p) {
                lemma_unbak(p);
            }
        }
        assert(fin =~= want);
        assert(missing == checkout_missing(s0, target@)) by {
            if missing {
                let t = choose|t: Seq<char>| #[trigger] done2.contains(t) && !m.dom().contains(bak_of(t));
                lemma_bak_facts(t);
                assert(target_set(target@).contains(t) && !s0.contains(t) && !s0.contains(bak_of(t)));
            }
            if checkout_missing(s0, target@) {
                let t = choose|t: Seq<char>| #[trigger] target_set(target@).contains(t) && !s0.contains(t) && !s0.contains(bak_of(t));
                lemma_bak_facts(t);
                assert(done2.contains(t) && !m.dom().contains(bak_of(t)));
            }
        }
    }
    CheckoutPlan { renames: ops, missing }
}

/// The paths whose presence a switch depends on: every server-specific file
/// and its disabled copy.
pub fn checkout_candidates(style: PathStyle) -> (r: Vec<String>)
    ensures
        forall|p: Seq<char>| #[trigger] names(r@).contains(p) <==> (diff_set().contains(p)
            || (is_bak(p) && diff_set().contains(unbak(p)))),
{
    proof {
        lemma_diff_files_facts();
        lemma_diff_files_named(style);
        assert(diff_set().contains(KURO_LOGIN_DLL@));
        assert(diff_set().contains(KURO_PAK@));
        assert(diff_set().contains(BILIBILI_SDK_DLL@));
        assert(diff_set().contains(BILIBILI_PAK@));
        lemma_bak_appends(style, KURO_LOGIN_DLL@);
        lemma_bak_appends(style, KURO_PAK@);
        lemma_bak_appends(style, BILIBILI_SDK_DLL@);
        lemma_bak_appends(style, BILIBILI_PAK@);
    }
    let r = vec![
        KURO_LOGIN_DLL.to_owned(),
        KURO_PAK.to_owned(),
        BILIBILI_SDK_DLL.to_owned(),
        BILIBILI_PAK.to_owned(),
        with_bak_extension(style, KURO_LOGIN_DLL),
        with_bak_extension(style, KURO_PAK),
        with_bak_extension(style, BILIBILI_SDK_DLL),
        with_bak_extension(style, BILIBILI_PAK),
    ];
    proof {
        let fs = seq![KURO_LOGIN_DLL@, KURO_PAK@, BILIBILI_SDK_DLL@, BILIBILI_PAK@];
        assert forall|k: int| 0 <= k < 4 implies (#[trigger] r@[k])@ == fs[k] && r@[k + 4]@ == bak_of(fs[k]) by {}
        assert forall|p: Seq<char>| #[trigger] names(r@).contains(p) <==> (diff_set().contains(p)
            || (is_bak(p) && diff_set().contains(unbak(p)))) by {
            if names(r@).contains(p) {
                let j = choose|j: int| 0 <= j < r@.len() && (#[trigger] r@[j])@ == p;
                if j >= 4 {
                    assert(r@[j - 4]@ == fs[j - 4]);
                    lemma_bak_facts(fs[j - 4]);
                } else {
                    assert(r@[j]@ == fs[j]);
                }
            }
            if diff_set().contains(p) {
                let k: int = if p == fs[0] { 0 } else if p == fs[1] { 1 } else if p == fs[2] { 2 } else { 3 };
                assert(r@[k]@ == p);
            } else if is_bak(p) && diff_set().contains(unbak(p)) {
                let u = unbak(p);
                lemma_unbak(p);
                let k: int = if u == fs[0] { 0 } else if u == fs[1] { 1 } else if u == fs[2] { 2 } else { 3 };
                assert(r@[k]@ == fs[k]);
                assert(r@[k + 4]@ == p);
            }
        }
    }
    r
}

} // verus!
