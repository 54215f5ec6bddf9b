//! Paths as strings, following the rules of `std::path` on the platform whose
//! style is given. On Unix only `/` separates components; on Windows `\`
//! does too, a path may start with a drive prefix such as `C:`, and joining
//! inserts `\`. The file name is the last component, where trailing
//! separators and `.` components do not count, and it is neither `.` nor
//! `..`; its extension is the text after its last `.` when that `.` is not its
//! first character.
//!
//! The style is an argument rather than a property of the machine, so that
//! every result is stated once for both platforms; the program passes the
//! style of the machine it runs on. Windows prefixes other than a drive
//! letter (`\\server\share`, `\\?\`) are not recognised, and `strip_prefix`
//! compares characters, not normalised components.

use vstd::prelude::*;
use vstd::string::*;
use crate::text::{concat2, str_eq};

verus! {

/// The path rules of a platform.
#[derive(PartialEq, Eq, Structural, Clone, Copy, Debug)]
pub enum PathStyle {
    Unix,
    Windows,
}

/// Whether `c` separates path components.
pub open spec fn is_sep(style: PathStyle, c: char) -> bool {
    c == '/' || (style == PathStyle::Windows && c == '\\')
}

/// The separator that joining inserts.
pub open spec fn main_sep(style: PathStyle) -> Seq<char> {
    if style == PathStyle::Windows {
        "\\"@
    } else {
        "/"@
    }
}

pub open spec fn is_ascii_letter(c: char) -> bool {
    ('a' <= c && c <= 'z') || ('A' <= c && c <= 'Z')
}

/// Whether `p` starts with a drive prefix such as `C:` (Windows only).
pub open spec fn has_drive(style: PathStyle, p: Seq<char>) -> bool {
    style == PathStyle::Windows && p.len() >= 2 && p[1] == ':' && is_ascii_letter(p[0])
}

/// Index of the last separator below `n`, or -1.
pub open spec fn last_sep_below(style: PathStyle, p: Seq<char>, n: int) -> int
    decreases n,
{
    if n <= 0 {
        -1
    } else if is_sep(style, p[n - 1]) {
        n - 1
    } else {
        last_sep_below(style, p, n - 1)
    }
}

/// Index of the last `.` below `n`, or -1.
pub open spec fn last_dot_below(p: Seq<char>, n: int) -> int
    decreases n,
{
    if n <= 0 {
        -1
    } else if p[n - 1] == '.' {
        n - 1
    } else {
        last_dot_below(p, n - 1)
    }
}

/// The end of the first `n` characters of `p` once trailing separators and
/// trailing `.` components are dropped.
pub open spec fn trim_end(style: PathStyle, p: Seq<char>, n: int) -> int
    decreases n,
{
    if n > 0 && is_sep(style, p[n - 1]) {
        trim_end(style, p, n - 1)
    } else if n >= 2 && p[n - 1] == '.' && is_sep(style, p[n - 2]) {
        trim_end(style, p, n - 2)
    } else {
        n
    }
}

/// Where the last component of `p` ends.
pub open spec fn name_end(style: PathStyle, p: Seq<char>) -> int {
    trim_end(style, p, p.len() as int)
}

/// Where the last component of `p` starts: after the last separator before
/// its end, or after the drive prefix.
pub open spec fn name_start(style: PathStyle, p: Seq<char>) -> int {
    let k = last_sep_below(style, p, name_end(style, p)) + 1;
    if k == 0 && has_drive(style, p) {
        2
    } else {
        k
    }
}

/// Everything before the last component.
pub open spec fn dir_part(style: PathStyle, p: Seq<char>) -> Seq<char> {
    p.subrange(0, name_start(style, p))
}

/// The last component.
pub open spec fn name_part(style: PathStyle, p: Seq<char>) -> Seq<char> {
    p.subrange(name_start(style, p), name_end(style, p))
}

/// The file name of `p`: its last component, unless that is empty, `.` or `..`.
pub open spec fn file_name_spec(style: PathStyle, p: Seq<char>) -> Option<Seq<char>> {
    let n = name_part(style, p);
    if n.len() == 0 || n == "."@ || n == ".."@ {
        None
    } else {
        Some(n)
    }
}

/// The extension of the file name `name`.
pub open spec fn name_extension(name: Seq<char>) -> Option<Seq<char>> {
    let d = last_dot_below(name, name.len() as int);
    if d > 0 {
        Some(name.subrange(d + 1, name.len() as int))
    } else {
        None
    }
}

/// The file name `name` without its extension.
pub open spec fn name_stem(name: Seq<char>) -> Seq<char> {
    let d = last_dot_below(name, name.len() as int);
    if d > 0 {
        name.subrange(0, d)
    } else {
        name
    }
}

/// The extension of the file name of `p`.
pub open spec fn extension_spec(style: PathStyle, p: Seq<char>) -> Option<Seq<char>> {
    match file_name_spec(style, p) {
        Some(name) => name_extension(name),
        None => None,
    }
}

/// `p` up to the stem of its file name, followed by `.` and `ext` when `ext`
/// is not empty (what follows the file name is dropped); `p` itself when it
/// has no file name.
pub open spec fn with_extension_spec(style: PathStyle, p: Seq<char>, ext: Seq<char>) -> Seq<char> {
    match file_name_spec(style, p) {
        None => p,
        Some(name) => if ext.len() == 0 {
            dir_part(style, p) + name_stem(name)
        } else {
            dir_part(style, p) + name_stem(name) + "."@ + ext
        },
    }
}

/// `rel` appended to `base`: `rel` when it has a drive prefix; when it starts
/// with a separator, `rel` after the drive prefix of `base`, if any; `rel` when
/// `base` is empty; else the two, with the main separator between them unless
/// `base` ends with a separator or is a bare drive prefix.
pub open spec fn join_spec(style: PathStyle, base: Seq<char>, rel: Seq<char>) -> Seq<char> {
    if has_drive(style, rel) {
        rel
    } else if rel.len() > 0 && is_sep(style, rel[0]) {
        if has_drive(style, base) {
            base.subrange(0, 2) + rel
        } else {
            rel
        }
    } else if base.len() == 0 {
        rel
    } else if is_sep(style, base[base.len() - 1]) || (has_drive(style, base) && base.len() == 2) {
        base + rel
    } else {
        base + main_sep(style) + rel
    }
}

/// `p` relative to `root`, when `root` is a leading run of whole components
/// of `p`, compared character by character.
pub open spec fn strip_prefix_spec(style: PathStyle, p: Seq<char>, root: Seq<char>) -> Option<Seq<char>> {
    if root.len() == 0 {
        Some(p)
    } else if root.len() > p.len() || p.subrange(0, root.len() as int) != root {
        None
    } else if root.len() == p.len() {
        Some(Seq::empty())
    } else if is_sep(style, root[root.len() - 1]) {
        Some(p.subrange(root.len() as int, p.len() as int))
    } else if is_sep(style, p[root.len() as int]) {
        Some(p.subrange(root.len() as int + 1, p.len() as int))
    } else {
        None
    }
}

proof fn lemma_last_sep_bounds(style: PathStyle, p: Seq<char>, n: int)
    requires
        0 <= n <= p.len(),
    ensures
        -1 <= last_sep_below(style, p, n) < n,
        last_sep_below(style, p, n) >= 0 ==> is_sep(style, p[last_sep_below(style, p, n)]),
        forall|j: int| last_sep_below(style, p, n) < j < n ==> !is_sep(style, #[trigger] p[j]),
    decreases n,
{
    if n > 0 {
        lemma_last_sep_bounds(style, p, n - 1);
    }
}

proof fn lemma_last_dot_bounds(p: Seq<char>, n: int)
    requires
        0 <= n <= p.len(),
    ensures
        -1 <= last_dot_below(p, n) < n,
        last_dot_below(p, n) >= 0 ==> p[last_dot_below(p, n)] == '.',
        forall|j: int| last_dot_below(p, n) < j < n ==> #[trigger] p[j] != '.',
    decreases n,
{
    if n > 0 {
        lemma_last_dot_bounds(p, n - 1);
    }
}

proof fn lemma_trim_bounds(style: PathStyle, p: Seq<char>, n: int)
    requires
        0 <= n <= p.len(),
    ensures
        0 <= trim_end(style, p, n) <= n,
        has_drive(style, p) && n >= 2 ==> trim_end(style, p, n) >= 2,
    decreases n,
{
    if n > 0 && is_sep(style, p[n - 1]) {
        lemma_trim_bounds(style, p, n - 1);
    } else if n >= 2 && p[n - 1] == '.' && is_sep(style, p[n - 2]) {
        lemma_trim_bounds(style, p, n - 2);
    }
}

proof fn lemma_name_bounds(style: PathStyle, p: Seq<char>)
    ensures
        0 <= name_start(style, p) <= name_end(style, p) <= p.len(),
        forall|j: int| name_start(style, p) <= j < name_end(style, p) ==> !is_sep(style, #[trigger] p[j]),
{
    lemma_trim_bounds(style, p, p.len() as int);
    lemma_last_sep_bounds(style, p, name_end(style, p));
}

fn sep_char(style: PathStyle, c: char) -> (r: bool)
    ensures
        r == is_sep(style, c),
{
    match style {
        PathStyle::Unix => c == '/',
        PathStyle::Windows => c == '/' || c == '\\',
    }
}

fn drive_prefix(style: PathStyle, p: &str) -> (r: bool)
    ensures
        r == has_drive(style, p@),
{
    match style {
        PathStyle::Unix => false,
        PathStyle::Windows => {
            if p.unicode_len() < 2 {
                return false;
            }
            let c = p.get_char(0);
            p.get_char(1) == ':' && (('a' <= c && c <= 'z') || ('A' <= c && c <= 'Z'))
        },
    }
}

/// Whether `trim_end` drops something at `n`.
fn trims_at(style: PathStyle, p: &str, n: usize) -> (r: bool)
    requires
        n <= p@.len(),
    ensures
        r == ((n > 0 && is_sep(style, p@[n - 1])) || (n >= 2 && p@[n - 1] == '.' && is_sep(style, p@[n - 2]))),
{
    if n == 0 {
        return false;
    }
    if sep_char(style, p.get_char(n - 1)) {
        return true;
    }
    n >= 2 && p.get_char(n - 1) == '.' && sep_char(style, p.get_char(n - 2))
}

/// The bounds of the last component of `p`.
fn name_bounds(style: PathStyle, p: &str) -> (r: (usize, usize))
    ensures
        r.0 == name_start(style, p@),
        r.1 == name_end(style, p@),
{
    let mut e: usize = p.unicode_len();
    while trims_at(style, p, e)
        invariant
            e <= p@.len(),
            trim_end(style, p@, e as int) == name_end(style, p@),
        decreases e,
    {
        if sep_char(style, p.get_char(e - 1)) {
            e = e - 1;
        } else {
            e = e - 2;
        }
    }
    proof {
        lemma_last_sep_bounds(style, p@, e as int);
        lemma_trim_bounds(style, p@, p@.len() as int);
    }
    let mut i: usize = e;
    while i > 0
        invariant
            i <= e,
            e == name_end(style, p@),
            e <= p@.len(),
            last_sep_below(style, p@, e as int) == last_sep_below(style, p@, i as int),
        decreases i,
    {
        if sep_char(style, p.get_char(i - 1)) {
            return (i, e);
        }
        i = i - 1;
    }
    if drive_prefix(style, p) {
        (2, e)
    } else {
        (0, e)
    }
}

/// Position of the last `.` of `p`, if any.
fn last_dot(p: &str) -> (r: Option<usize>)
    ensures
        match r {
            Some(d) => d as int == last_dot_below(p@, p@.len() as int) && d < p@.len(),
            None => last_dot_below(p@, p@.len() as int) == -1,
        },
{
    let mut i: usize = p.unicode_len();
    while i > 0
        invariant
            i <= p@.len(),
            last_dot_below(p@, p@.len() as int) == last_dot_below(p@, i as int),
        decreases i,
    {
        if p.get_char(i - 1) == '.' {
            return Some(i - 1);
        }
        i = i - 1;
    }
    None
}

/// Whether the component `n` is a file name: not empty, `.` or `..`.
fn is_name(n: &str) -> (r: bool)
    ensures
        r == !(n@.len() == 0 || n@ == "."@ || n@ == ".."@),
{
    !(n.unicode_len() == 0 || str_eq(n, ".") || str_eq(n, ".."))
}

/// The file name of `p`.
pub fn file_name(style: PathStyle, p: &str) -> (r: Option<String>)
    ensures
        match r {
            Some(s) => file_name_spec(style, p@) == Some(s@),
            None => file_name_spec(style, p@) is None,
        },
{
    let (s, e) = name_bounds(style, p);
    proof { lemma_name_bounds(style, p@); }
    let n = p.substring_char(s, e);
    if is_name(n) {
        Some(n.to_owned())
    } else {
        None
    }
}

/// The extension of the file name of `p`.
pub fn extension(style: PathStyle, p: &str) -> (r: Option<String>)
    ensures
        match r {
            Some(s) => extension_spec(style, p@) == Some(s@),
            None => extension_spec(style, p@) is None,
        },
{
    match file_name(style, p) {
        None => None,
        Some(name) => {
            let n = name.as_str();
            match last_dot(n) {
                Some(d) => {
                    if d > 0 {
                        let len: usize = n.unicode_len();
                        Some(n.substring_char(d + 1, len).to_owned())
                    } else {
                        None
                    }
                },
                None => None,
            }
        },
    }
}

/// `p` with the extension of its file name replaced by `ext`.
pub fn with_extension(style: PathStyle, p: &str, ext: &str) -> (r: String)
    ensures
        r@ == with_extension_spec(style, p@, ext@),
{
    let (s, e) = name_bounds(style, p);
    proof { lemma_name_bounds(style, p@); }
    let name = p.substring_char(s, e);
    if !is_name(name) {
        return p.to_owned();
    }
    let dir = p.substring_char(0, s);
    let stem_end: usize = match last_dot(name) {
        Some(d) => if d > 0 { d } else { name.unicode_len() },
        None => name.unicode_len(),
    };
    let stem = name.substring_char(0, stem_end);
    let mut r = concat2(dir, stem);
    if ext.unicode_len() > 0 {
        r.append(".");
        r.append(ext);
    }
    proof {
        assert(name@ =~= name_part(style, p@));
        assert(dir@ =~= dir_part(style, p@));
        if last_dot_below(name@, name@.len() as int) <= 0 {
            assert(stem@ =~= name@);
        }
    }
    r
}

/// `rel` appended to `base`.
pub fn join(style: PathStyle, base: &str, rel: &str) -> (r: String)
    ensures
        r@ == join_spec(style, base@, rel@),
{
    if drive_prefix(style, rel) {
        return rel.to_owned();
    }
    let rl: usize = rel.unicode_len();
    let base_drive = drive_prefix(style, base);
    if rl > 0 && sep_char(style, rel.get_char(0)) {
        if base_drive {
            return concat2(base.substring_char(0, 2), rel);
        }
        return rel.to_owned();
    }
    let bl: usize = base.unicode_len();
    if bl == 0 {
        return rel.to_owned();
    }
    if sep_char(style, base.get_char(bl - 1)) || (base_drive && bl == 2) {
        concat2(base, rel)
    } else {
        match style {
            PathStyle::Unix => crate::text::concat3(base, "/", rel),
            PathStyle::Windows => crate::text::concat3(base, "\\", rel),
        }
    }
}

/// Whether `a` starts with `b`.
fn starts_with(a: &str, b: &str) -> (r: bool)
    ensures
        r == (b@.len() <= a@.len() && a@.subrange(0, b@.len() as int) == b@),
{
    let al: usize = a.unicode_len();
    let bl: usize = b.unicode_len();
    if bl > al {
        return false;
    }
    let mut i: usize = 0;
    while i < bl
        invariant
            bl == b@.len(),
            al == a@.len(),
            bl <= al,
            i <= bl,
            forall|j: int| 0 <= j < i ==> a@[j] == b@[j],
        decreases bl - i,
    {
        if a.get_char(i) != b.get_char(i) {
            assert(a@.subrange(0, bl as int)[i as int] != b@[i as int]);
            return false;
        }
        i = i + 1;
    }
    assert(a@.subrange(0, bl as int) =~= b@);
    true
}

/// `p` relative to `root`.
pub fn strip_prefix(style: PathStyle, p: &str, root: &str) -> (r: Option<String>)
    ensures
        match r {
            Some(s) => strip_prefix_spec(style, p@, root@) == Some(s@),
            None => strip_prefix_spec(style, p@, root@) is None,
        },
{
    let rl: usize = root.unicode_len();
    let pl: usize = p.unicode_len();
    if rl == 0 {
        return Some(p.to_owned());
    }
    if !starts_with(p, root) {
        return None;
    }
    if rl == pl {
        return Some(String::new());
    }
    if sep_char(style, root.get_char(rl - 1)) {
        Some(p.substring_char(rl, pl).to_owned())
    } else if sep_char(style, p.get_char(rl)) {
        Some(p.substring_char(rl + 1, pl).to_owned())
    } else {
        None
    }
}

/// The name under which a disabled server file is kept: its extension
/// followed by `.bak`, or `bak` as extension when it has none.
pub open spec fn bak_spec(style: PathStyle, p: Seq<char>) -> Seq<char> {
    match extension_spec(style, p) {
        Some(ext) => with_extension_spec(style, p, ext + ".bak"@),
        None => with_extension_spec(style, p, "bak"@),
    }
}

/// The name under which a disabled server file is kept.
pub fn with_bak_extension(style: PathStyle, p: &str) -> (r: String)
    ensures
        r@ == bak_spec(style, p@),
{
    match extension(style, p) {
        Some(ext) => {
            let e = concat2(ext.as_str(), ".bak");
            with_extension(style, p, e.as_str())
        },
        None => with_extension(style, p, "bak"),
    }
}

/// The temporary file a download of `dest` is written to: the extension of
/// `dest` (or `tmp`) followed by `.temp`.
pub open spec fn temp_spec(style: PathStyle, dest: Seq<char>) -> Seq<char> {
    match extension_spec(style, dest) {
        Some(ext) => with_extension_spec(style, dest, ext + ".temp"@),
        None => with_extension_spec(style, dest, "tmp.temp"@),
    }
}

/// The temporary file a download of `dest` is written to.
pub fn temp_path_for(style: PathStyle, dest: &str) -> (r: String)
    ensures
        r@ == temp_spec(style, dest@),
{
    match extension(style, dest) {
        Some(ext) => {
            let e = concat2(ext.as_str(), ".temp");
            with_extension(style, dest, e.as_str())
        },
        None => {
            let e = concat2("tmp", ".temp");
            proof {
                reveal_strlit("tmp");
                reveal_strlit(".temp");
                reveal_strlit("tmp.temp");
                assert(e@ =~= "tmp.temp"@);
            }
            with_extension(style, dest, e.as_str())
        },
    }
}

/// The file that holds chunk `i` of the temporary file `temp`.
pub fn chunk_path(style: PathStyle, temp: &str, i: u64) -> (r: String)
    ensures
        r@ == with_extension_spec(style, temp@, "chunk_"@ + crate::text::decimal(i as nat)),
{
    let n = crate::text::to_decimal(i);
    let e = concat2("chunk_", n.as_str());
    with_extension(style, temp, e.as_str())
}

/// Whether `p` ends with its file name: it has one, and nothing follows it.
pub open spec fn ends_with_file_name(style: PathStyle, p: Seq<char>) -> bool {
    file_name_spec(style, p) is Some && name_end(style, p) == p.len()
}

proof fn lemma_name_split(style: PathStyle, p: Seq<char>)
    requires
        name_end(style, p) == p.len(),
    ensures
        dir_part(style, p) + name_part(style, p) =~= p,
{
    lemma_name_bounds(style, p);
}

/// Replacing the extension of a path that ends with its file name by its own
/// extension followed by `suffix` appends `suffix` to the path.
proof fn lemma_extend_extension(style: PathStyle, p: Seq<char>, suffix: Seq<char>)
    requires
        ends_with_file_name(style, p),
        suffix.len() > 0,
    ensures
        extension_spec(style, p) matches Some(ext) ==> with_extension_spec(style, p, ext + suffix) =~= p + suffix,
{
    lemma_name_split(style, p);
    let name = name_part(style, p);
    lemma_last_dot_bounds(name, name.len() as int);
    let d = last_dot_below(name, name.len() as int);
    if d > 0 {
        let ext = name.subrange(d + 1, name.len() as int);
        assert(name_stem(name) + "."@ + (ext + suffix) =~= name + suffix) by {
            reveal_strlit(".");
            assert(name.subrange(0, d) + seq![name[d]] + ext =~= name);
        }
        assert(ext + suffix != Seq::<char>::empty()) by {
            assert((ext + suffix).len() > 0);
        }
        assert(dir_part(style, p) + name_stem(name) + "."@ + (ext + suffix) =~= dir_part(style, p) + (name_stem(name) + "."@ + (ext + suffix)));
        assert(dir_part(style, p) + (name + suffix) =~= (dir_part(style, p) + name) + suffix);
    }
}

/// A path whose last character is not a separator, `.` or `:` ends with its
/// file name, in either style.
pub proof fn lemma_has_file_name(style: PathStyle, p: Seq<char>)
    requires
        p.len() > 0,
        p[p.len() - 1] != '/',
        p[p.len() - 1] != '\\',
        p[p.len() - 1] != '.',
        p[p.len() - 1] != ':',
    ensures
        ends_with_file_name(style, p),
{
    let n = p.len() as int;
    assert(trim_end(style, p, n) == n);
    lemma_last_sep_bounds(style, p, n - 1);
    assert(last_sep_below(style, p, n) == last_sep_below(style, p, n - 1));
    lemma_name_bounds(style, p);
    let name = name_part(style, p);
    assert(name.len() > 0);
    assert(name[name.len() - 1] == p[n - 1]);
    reveal_strlit(".");
    reveal_strlit("..");
    assert(name != "."@) by {
        if name == "."@ {
            assert("."@[0] == '.');
        }
    }
    assert(name != ".."@) by {
        if name == ".."@ {
            assert(".."@[1] == '.');
        }
    }
}

/// A path that ends with its file name is disabled by appending `.bak` to it.
pub proof fn lemma_bak_appends(style: PathStyle, p: Seq<char>)
    requires
        ends_with_file_name(style, p),
    ensures
        bak_spec(style, p) =~= p + ".bak"@,
{
    lemma_name_split(style, p);
    let name = name_part(style, p);
    lemma_last_dot_bounds(name, name.len() as int);
    let d = last_dot_below(name, name.len() as int);
    reveal_strlit(".bak");
    reveal_strlit("bak");
    reveal_strlit(".");
    if d > 0 {
        lemma_extend_extension(style, p, ".bak"@);
    } else {
        assert("."@ + "bak"@ =~= ".bak"@);
        assert(name_stem(name) == name);
    }
}

/// The temporary file of a download that ends with its file name is the
/// destination with a suffix appended, so it is never the destination itself.
pub proof fn lemma_temp_differs(style: PathStyle, dest: Seq<char>)
    requires
        ends_with_file_name(style, dest),
    ensures
        exists|suffix: Seq<char>| suffix.len() > 0 && temp_spec(style, dest) =~= dest + suffix,
        temp_spec(style, dest) != dest,
{
    lemma_name_split(style, dest);
    let name = name_part(style, dest);
    lemma_last_dot_bounds(name, name.len() as int);
    reveal_strlit(".temp");
    reveal_strlit("tmp.temp");
    reveal_strlit(".");
    let d = last_dot_below(name, name.len() as int);
    if d > 0 {
        lemma_extend_extension(style, dest, ".temp"@);
        assert(temp_spec(style, dest) =~= dest + ".temp"@);
        assert((dest + ".temp"@).len() != dest.len());
    } else {
        assert(name_stem(name) == name);
        assert(temp_spec(style, dest) =~= dir_part(style, dest) + name + "."@ + "tmp.temp"@);
        assert(dir_part(style, dest) + name + "."@ + "tmp.temp"@ =~= dest + ("."@ + "tmp.temp"@));
        assert(temp_spec(style, dest).len() != dest.len());
    }
}

} // verus!
