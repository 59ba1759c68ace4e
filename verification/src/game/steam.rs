//! Steam's text formats: the quoted key-value lines of `appmanifest_*.acf`
//! and `libraryfolders.vdf`, where a game's title and the library folders
//! are read from, and the places a game's manifest is looked for.

use vstd::prelude::*;

use crate::text::{
    chars_eq, chars_of, contains, contains_chars, decimal, decimal_chars, first_match,
    is_ascii_digit, is_digit, join_path, join_path_chars, lines, lines_of, starts_with,
    starts_with_chars, string_of, trim, trim_chars,
};

verus! {

// ---------------------------------------------------------------------------
// Quoted values
// ---------------------------------------------------------------------------

/// The quoted values from position `i` on, outside quotes: anything up to
/// the next `"` is skipped.
pub open spec fn values_outside(s: Seq<char>, i: int) -> Seq<Seq<char>>
    decreases s.len() - i, 0int,
{
    if i >= s.len() {
        seq![]
    } else if s[i] == '"' {
        values_inside(s, i + 1, seq![])
    } else {
        values_outside(s, i + 1)
    }
}

/// The quoted values from position `i` on, inside a value read so far as
/// `cur`: a backslash takes the next character as it is, a `"` ends the
/// value, and the end of the line ends it too.
pub open spec fn values_inside(s: Seq<char>, i: int, cur: Seq<char>) -> Seq<Seq<char>>
    decreases s.len() - i, 1int,
{
    if i >= s.len() {
        seq![cur]
    } else if s[i] == '\\' {
        if i + 1 < s.len() {
            values_inside(s, i + 2, cur.push(s[i + 1]))
        } else {
            seq![cur]
        }
    } else if s[i] == '"' {
        seq![cur] + values_outside(s, i + 1)
    } else {
        values_inside(s, i + 1, cur.push(s[i]))
    }
}

/// The quoted values of a line, in order.
pub open spec fn quoted_values_spec(line: Seq<char>) -> Seq<Seq<char>> {
    values_outside(line, 0)
}

/// The quoted values of a line, in order.
pub fn quoted_values(line: &[char]) -> (r: Vec<Vec<char>>)
    ensures
        r@.len() == quoted_values_spec(line@).len(),
        forall|k: int| 0 <= k < r@.len() ==> (#[trigger] r@[k])@ == quoted_values_spec(line@)[k],
{
    let mut values: Vec<Vec<char>> = Vec::new();
    let ghost done: Seq<Seq<char>> = seq![];
    let n = line.len();
    let mut i: usize = 0;
    let mut inside = false;
    let mut cur: Vec<char> = Vec::new();
    while i < n
        invariant
            0 <= i <= n == line@.len(),
            values@.len() == done.len(),
            forall|k: int| 0 <= k < values@.len() ==> (#[trigger] values@[k])@ == done[k],
            quoted_values_spec(line@) == done + (if inside {
                values_inside(line@, i as int, cur@)
            } else {
                values_outside(line@, i as int)
            }),
        decreases n - i, if inside {
            1int
        } else {
            0int
        },
    {
        let c = line[i];
        if !inside {
            if c == '"' {
                inside = true;
                cur = Vec::new();
                assert(cur@ =~= Seq::<char>::empty());
            }
            i += 1;
        } else if c == '\\' {
            if i + 1 < n {
                cur.push(line[i + 1]);
                i += 2;
            } else {
                proof {
                    done = done.push(cur@);
                }
                values.push(cur);
                cur = Vec::new();
                inside = false;
                i = n;
            }
        } else if c == '"' {
            proof {
                assert(seq![cur@] + values_outside(line@, i + 1) == seq![cur@].add(
                    values_outside(line@, i + 1),
                ));
                assert(done + (seq![cur@] + values_outside(line@, i + 1)) =~= done.push(cur@)
                    + values_outside(line@, i + 1));
                done = done.push(cur@);
            }
            values.push(cur);
            cur = Vec::new();
            inside = false;
            i += 1;
        } else {
            cur.push(c);
            i += 1;
        }
    }
    if inside {
        proof {
            done = done.push(cur@);
        }
        values.push(cur);
    }
    assert(quoted_values_spec(line@) =~= done);
    values
}

// ---------------------------------------------------------------------------
// Manifest fields and library folders
// ---------------------------------------------------------------------------

/// The line's values when it holds at least two and the first is `field`.
pub open spec fn field_line(line: Seq<char>, field: Seq<char>) -> bool {
    let v = quoted_values_spec(line);
    v.len() >= 2 && v[0] == field
}

/// The second value of the first line whose first value is `field`.
pub open spec fn acf_field_spec(text: Seq<char>, field: Seq<char>) -> Option<Seq<char>> {
    let ls = lines(text);
    match first_match(ls.len() as int, |i: int| field_line(ls[i], field)) {
        Some(i) => Some(quoted_values_spec(ls[i])[1]),
        None => None,
    }
}

/// A string field of an ACF (Valve KeyValues) text, as `"key" "value"`.
pub fn parse_acf_string_field(text: &str, field: &str) -> (r: Option<String>)
    ensures
        match r {
            Some(s) => acf_field_spec(text@, field@) == Some(s@),
            None => acf_field_spec(text@, field@) is None,
        },
{
    let chars = chars_of(text);
    let wanted = chars_of(field);
    let ls = lines_of(&chars);
    let ghost spec_ls = lines(text@);
    let ghost p = |i: int| field_line(spec_ls[i], field@);
    let mut i: usize = 0;
    while i < ls.len()
        invariant
            0 <= i <= ls@.len() == spec_ls.len(),
            spec_ls == lines(text@),
            chars@ == text@,
            wanted@ == field@,
            forall|k: int| 0 <= k < ls@.len() ==> (#[trigger] ls@[k])@ == spec_ls[k],
            p == (|i: int| field_line(spec_ls[i], field@)),
            forall|j: int| 0 <= j < i ==> !#[trigger] p(j),
        decreases ls.len() - i,
    {
        let values = quoted_values(&ls[i]);
        assert(ls@[i as int]@ == spec_ls[i as int]);
        if values.len() >= 2 && chars_eq(&values[0], &wanted) {
            proof {
                assert(p(i as int));
                crate::text::lemma_first_match_from(0, spec_ls.len() as int, p, i as int);
            }
            return Some(string_of(&values[1]));
        }
        assert(!p(i as int));
        i += 1;
    }
    proof {
        crate::text::lemma_first_match_from(0, spec_ls.len() as int, p, i as int);
    }
    None
}

/// A value that looks like a path: absolute, a Windows drive path, or one
/// holding `/Steam`.
pub open spec fn looks_like_path_spec(v: Seq<char>) -> bool {
    starts_with(v, seq!['/']) || contains(v, seq![':', '\\']) || contains(v, "/Steam"@)
}

pub fn looks_like_path(value: &[char]) -> (r: bool)
    ensures
        r == looks_like_path_spec(value@),
{
    let slash = vec!['/'];
    let drive = vec![':', '\\'];
    let steam = chars_of("/Steam");
    assert(slash@ =~= seq!['/']);
    assert(drive@ =~= seq![':', '\\']);
    starts_with_chars(value, &slash) || contains_chars(value, &drive) || contains_chars(
        value,
        &steam,
    )
}

/// Whether every character is an ASCII digit (true of the empty text).
pub open spec fn all_digits(v: Seq<char>) -> bool {
    forall|i: int| 0 <= i < v.len() ==> is_digit(#[trigger] v[i])
}

pub fn all_ascii_digits(v: &[char]) -> (r: bool)
    ensures
        r == all_digits(v@),
{
    let mut i: usize = 0;
    while i < v.len()
        invariant
            0 <= i <= v.len(),
            forall|k: int| 0 <= k < i ==> is_digit(#[trigger] v@[k]),
        decreases v.len() - i,
    {
        if !is_ascii_digit(v[i]) {
            return false;
        }
        i += 1;
    }
    true
}

/// The library folder a line of `libraryfolders.vdf` names: the value of a
/// `"path"` key, or (in the older format) a value that looks like a path
/// under a numeric key.
pub open spec fn library_path_of_line(line: Seq<char>) -> Option<Seq<char>> {
    let v = quoted_values_spec(line);
    if v.len() < 2 {
        None
    } else if v[0] == "path"@ || (all_digits(v[0]) && looks_like_path_spec(v[1])) {
        Some(v[1])
    } else {
        None
    }
}

/// The library folders named in the lines `ls`, in order.
pub open spec fn library_paths(ls: Seq<Seq<char>>) -> Seq<Seq<char>>
    decreases ls.len(),
{
    if ls.len() == 0 {
        seq![]
    } else {
        let rest = library_paths(ls.drop_last());
        match library_path_of_line(ls.last()) {
            Some(p) => rest.push(p),
            None => rest,
        }
    }
}

/// The library folders that `libraryfolders.vdf` lists, in order.
pub fn parse_library_folder_paths(text: &str) -> (r: Vec<String>)
    ensures
        r@.len() == library_paths(lines(text@)).len(),
        forall|k: int| 0 <= k < r@.len() ==> (#[trigger] r@[k])@ == library_paths(lines(text@))[k],
{
    let chars = chars_of(text);
    let ls = lines_of(&chars);
    let ghost spec_ls = lines(text@);
    let path_key = chars_of("path");
    let mut out: Vec<String> = Vec::new();
    let mut i: usize = 0;
    while i < ls.len()
        invariant
            0 <= i <= ls@.len() == spec_ls.len(),
            spec_ls == lines(text@),
            path_key@ == "path"@,
            forall|k: int| 0 <= k < ls@.len() ==> (#[trigger] ls@[k])@ == spec_ls[k],
            out@.len() == library_paths(spec_ls.take(i as int)).len(),
            forall|k: int|
                0 <= k < out@.len() ==> (#[trigger] out@[k])@ == library_paths(
                    spec_ls.take(i as int),
                )[k],
        decreases ls.len() - i,
    {
        let values = quoted_values(&ls[i]);
        assert(spec_ls.take(i + 1).drop_last() =~= spec_ls.take(i as int));
        assert(ls@[i as int]@ == spec_ls[i as int]);
        if values.len() >= 2 {
            let is_path_field = chars_eq(&values[0], &path_key);
            let is_legacy = all_ascii_digits(&values[0]) && looks_like_path(&values[1]);
            if is_path_field || is_legacy {
                out.push(string_of(&values[1]));
            }
        }
        i += 1;
    }
    assert(spec_ls.take(ls.len() as int) =~= spec_ls);
    out
}

// ---------------------------------------------------------------------------
// Manifests
// ---------------------------------------------------------------------------

/// `appmanifest_<app_id>.acf`.
pub open spec fn manifest_file_name(app_id: u32) -> Seq<char> {
    "appmanifest_"@ + decimal(app_id as nat) + ".acf"@
}

/// The places a manifest is looked for, in order: for each root, its
/// `steamapps` folder and then the root itself.
pub open spec fn manifest_paths_spec(roots: Seq<Seq<char>>, app_id: u32) -> Seq<Seq<char>>
    decreases roots.len(),
{
    if roots.len() == 0 {
        seq![]
    } else {
        let root = roots.last();
        manifest_paths_spec(roots.drop_last(), app_id).push(
            join_path(join_path(root, "steamapps"@), manifest_file_name(app_id)),
        ).push(join_path(root, manifest_file_name(app_id)))
    }
}

pub fn manifest_file_name_chars(app_id: u32) -> (r: Vec<char>)
    ensures
        r@ == manifest_file_name(app_id),
{
    let prefix = chars_of("appmanifest_");
    let digits = decimal_chars(app_id as u64);
    let suffix = chars_of(".acf");
    let a = crate::text::concat(&prefix, &digits);
    crate::text::concat(&a, &suffix)
}

pub fn manifest_paths(roots: &[String], app_id: u32) -> (r: Vec<String>)
    ensures
        r@.len() == manifest_paths_spec(roots@.map_values(|s: String| s@), app_id).len(),
        forall|k: int|
            0 <= k < r@.len() ==> (#[trigger] r@[k])@ == manifest_paths_spec(
                roots@.map_values(|s: String| s@),
                app_id,
            )[k],
{
    let ghost views = roots@.map_values(|s: String| s@);
    let file = manifest_file_name_chars(app_id);
    let steamapps = chars_of("steamapps");
    let mut paths: Vec<String> = Vec::new();
    let mut i: usize = 0;
    while i < roots.len()
        invariant
            0 <= i <= roots@.len(),
            views == roots@.map_values(|s: String| s@),
            file@ == manifest_file_name(app_id),
            steamapps@ == "steamapps"@,
            paths@.len() == manifest_paths_spec(views.take(i as int), app_id).len(),
            forall|k: int|
                0 <= k < paths@.len() ==> (#[trigger] paths@[k])@ == manifest_paths_spec(
                    views.take(i as int),
                    app_id,
                )[k],
        decreases roots.len() - i,
    {
        let root = chars_of(roots[i].as_str());
        assert(views.take(i + 1).drop_last() =~= views.take(i as int));
        assert(views.take(i + 1).last() == roots@[i as int]@);
        let dir = join_path_chars(&root, &steamapps);
        let in_steamapps = join_path_chars(&dir, &file);
        let in_root = join_path_chars(&root, &file);
        paths.push(string_of(&in_steamapps));
        paths.push(string_of(&in_root));
        i += 1;
    }
    assert(views.take(roots.len() as int) =~= views);
    paths
}

/// Where Steam keeps its libraries by default: under the home directory
/// (when there is one) in `.local/share/Steam` and `.steam/steam`, and the
/// Steam Deck's own folder.
pub open spec fn default_steam_roots_spec(home: Option<Seq<char>>) -> Seq<Seq<char>> {
    match home {
        Some(h) => seq![
            join_path(h, ".local/share/Steam"@),
            join_path(h, ".steam/steam"@),
            "/home/deck/.local/share/Steam"@,
        ],
        None => seq!["/home/deck/.local/share/Steam"@],
    }
}

pub fn default_steam_roots(home: Option<&str>) -> (r: Vec<String>)
    ensures
        r@.len() == default_steam_roots_spec(
            match home {
                Some(h) => Some(h@),
                None => None,
            },
        ).len(),
        forall|k: int|
            0 <= k < r@.len() ==> (#[trigger] r@[k])@ == default_steam_roots_spec(
                match home {
                    Some(h) => Some(h@),
                    None => None,
                },
            )[k],
{
    let mut roots: Vec<String> = Vec::new();
    match home {
        Some(h) => {
            let hc = chars_of(h);
            let a = chars_of(".local/share/Steam");
            let b = chars_of(".steam/steam");
            roots.push(string_of(&join_path_chars(&hc, &a)));
            roots.push(string_of(&join_path_chars(&hc, &b)));
        },
        None => {},
    }
    roots.push(string_of(&chars_of("/home/deck/.local/share/Steam")));
    roots
}

/// A game's title from the text of its manifest: the `name` field, when
/// it is not blank.
pub open spec fn name_from_manifest_spec(text: Seq<char>) -> Option<Seq<char>> {
    match acf_field_spec(text, "name"@) {
        Some(n) => if trim(n).len() > 0 {
            Some(n)
        } else {
            None
        },
        None => None,
    }
}

pub fn name_from_manifest(text: &str) -> (r: Option<String>)
    ensures
        match r {
            Some(s) => name_from_manifest_spec(text@) == Some(s@),
            None => name_from_manifest_spec(text@) is None,
        },
{
    match parse_acf_string_field(text, "name") {
        Some(name) => {
            let chars = chars_of(name.as_str());
            let trimmed = trim_chars(&chars);
            if trimmed.len() > 0 {
                Some(name)
            } else {
                None
            }
        },
        None => None,
    }
}

/// A game as far as Steam knows it: its app id, its title when a manifest
/// gave one, and where that came from.
#[derive(Debug, Clone, PartialEq, Eq)]
pub struct SteamGameIdentity {
    pub app_id: u32,
    pub name: Option<String>,
    pub source: &'static str,
}

/// The library folders that games' manifests are looked for in.
#[derive(Debug, Clone)]
pub struct SteamGameTitleResolver {
    pub library_roots: Vec<String>,
}

impl SteamGameTitleResolver {
    /// A resolver over the discovered library folders.
    pub fn new(library_roots: Vec<String>) -> (r: Self)
        ensures
            r.library_roots@ == library_roots@,
    {
        SteamGameTitleResolver { library_roots }
    }

    /// The manifests to read for `app_id`, in order; the first that names
    /// the game gives its title.
    pub fn manifest_paths(&self, app_id: u32) -> (r: Vec<String>)
        ensures
            r@.len() == manifest_paths_spec(
                self.library_roots@.map_values(|s: String| s@),
                app_id,
            ).len(),
            forall|k: int|
                0 <= k < r@.len() ==> (#[trigger] r@[k])@ == manifest_paths_spec(
                    self.library_roots@.map_values(|s: String| s@),
                    app_id,
                )[k],
    {
        manifest_paths(self.library_roots.as_slice(), app_id)
    }

    /// The identity of `app_id`. `manifest_texts` holds, for each path of
    /// `manifest_paths(app_id)` in order, the manifest's text where it could
    /// be read; the first that names the game gives the title.
    pub fn resolve(&self, app_id: u32, manifest_texts: &[Option<String>]) -> (r: SteamGameIdentity)
        ensures
            r.app_id == app_id,
            (match r.name {
                Some(n) => Some(n@),
                None => None,
            }) == first_manifest_name(manifest_texts@, 0),
            r.source@ == "steam_appmanifest"@,
    {
        let mut i: usize = 0;
        while i < manifest_texts.len()
            invariant
                0 <= i <= manifest_texts@.len(),
                first_manifest_name(manifest_texts@, 0) == first_manifest_name(manifest_texts@, i as int),
            decreases manifest_texts.len() - i,
        {
            match &manifest_texts[i] {
                Some(text) => match name_from_manifest(text.as_str()) {
                    Some(n) => {
                        return SteamGameIdentity { app_id, name: Some(n), source: "steam_appmanifest" };
                    },
                    None => {},
                },
                None => {},
            }
            i += 1;
        }
        SteamGameIdentity { app_id, name: None, source: "steam_appmanifest" }
    }
}

/// The title given by the first readable manifest, from index `i`, that
/// names the game.
pub open spec fn first_manifest_name(texts: Seq<Option<String>>, i: int) -> Option<Seq<char>>
    decreases texts.len() - i,
{
    if i < 0 || i >= texts.len() {
        None
    } else {
        match texts[i] {
            Some(t) => match name_from_manifest_spec(t@) {
                Some(n) => Some(n),
                None => first_manifest_name(texts, i + 1),
            },
            None => first_manifest_name(texts, i + 1),
        }
    }
}

} // verus!
