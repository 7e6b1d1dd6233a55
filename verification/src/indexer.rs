//! The indexing run: which paths are skipped, how a visited entry becomes a
//! record, how records are grouped into batches for the database, and what
//! the progress status shows.
use vstd::prelude::*;
use crate::db::{FileRecord, RecordView};
use crate::text::{
    ascii_lower_char, ascii_lowercase, occurs_at, chars_of, has_prefix, has_substring, lowercase, starts_with_chars, str_equal,
    strip_trailing_separators, to_lowercase, trim_trailing_separators, contains_chars,
};

verus! {

/// The views of a sequence of strings.
pub open spec fn string_views(v: Seq<String>) -> Seq<Seq<char>> {
    v.map_values(|s: String| s@)
}

/// A folder as an exclusion entry: trailing separators dropped, lowercased,
/// and ending in a single backslash.
pub open spec fn normalised(path: Seq<char>) -> Seq<char> {
    lowercase(trim_trailing_separators(path)) + seq!['\\']
}

/// Turns a folder into an exclusion entry: without trailing `\` or `/`,
/// lowercased, with one `\` appended.
pub fn normalise(path: &str) -> (r: String)
    ensures
        r@ == normalised(path@),
{
    let trimmed = strip_trailing_separators(path);
    let mut r = to_lowercase(trimmed);
    r.append("\\");
    proof {
        reveal_strlit("\\");
    }
    r
}

/// Whether an exclusion entry is anchored at a drive (holds `:\`): such an
/// entry matches as a path prefix, any other as a substring.
pub open spec fn drive_anchored(ex: Seq<char>) -> bool {
    has_substring(ex, ":\\"@)
}

/// Whether the exclusion entry `ex` covers the lowercased path `lower`.
pub open spec fn excludes(ex: Seq<char>, lower: Seq<char>) -> bool {
    if drive_anchored(ex) {
        has_prefix(lower, ex) || lower + "\\"@ == ex
    } else {
        has_substring(lower, ex)
    }
}

/// Whether some entry of `excluded` covers `path` (compared in lowercase).
pub open spec fn path_excluded(path: Seq<char>, excluded: Seq<Seq<char>>) -> bool {
    exists|i: int| 0 <= i < excluded.len() && #[trigger] excludes(excluded[i], lowercase(path))
}

/// Whether a path is excluded from indexing: entries holding `:\` must be a
/// prefix of the lowercased path (or equal it with a `\` appended); other
/// entries must occur anywhere in it.
pub fn is_excluded(path: &str, excluded: &[String]) -> (r: bool)
    ensures
        r == path_excluded(path@, string_views(excluded@)),
{
    let lower = to_lowercase(path);
    let lc = chars_of(lower.as_str());
    let mut lower_slash = lower.clone();
    lower_slash.append("\\");
    let anchor = chars_of(":\\");
    let ghost exs = string_views(excluded@);
    let mut i: usize = 0;
    while i < excluded.len()
        invariant
            exs == string_views(excluded@),
            lc@ == lowercase(path@),
            lower_slash@ == lowercase(path@) + "\\"@,
            anchor@ == ":\\"@,
            i <= excluded@.len(),
            forall|j: int| 0 <= j < i ==> !excludes(#[trigger] exs[j], lowercase(path@)),
        decreases excluded@.len() - i,
    {
        let ex = excluded[i].as_str();
        let exc = chars_of(ex);
        assert(exc@ == exs[i as int]);
        let hit = if contains_chars(&exc, &anchor) {
            starts_with_chars(&lc, &exc) || str_equal(lower_slash.as_str(), ex)
        } else {
            contains_chars(&lc, &exc)
        };
        if hit {
            assert(excludes(exs[i as int], lowercase(path@)));
            return true;
        }
        i = i + 1;
    }
    false
}

/// Exclusion ignores case: two paths with the same lowercase form are
/// excluded alike.
pub proof fn lemma_exclusion_ignores_case(p: Seq<char>, q: Seq<char>, excluded: Seq<Seq<char>>)
    requires
        lowercase(p) == lowercase(q),
    ensures
        path_excluded(p, excluded) == path_excluded(q, excluded),
{
}

/// An excluded folder on a drive (its entry holds `:\`) excludes the folder
/// itself, when written without a trailing separator, and every path below
/// it.
pub proof fn lemma_drive_folder_excludes_itself_and_below(
    folder: Seq<char>,
    path: Seq<char>,
    excluded: Seq<Seq<char>>,
    i: int,
)
    requires
        0 <= i < excluded.len(),
        excluded[i] == normalised(folder),
        drive_anchored(normalised(folder)),
    ensures
        folder.len() > 0 && !crate::text::is_separator(folder.last()) ==> path_excluded(
            folder,
            excluded,
        ),
        has_prefix(lowercase(path), normalised(folder)) ==> path_excluded(path, excluded),
{
    if folder.len() > 0 && !crate::text::is_separator(folder.last()) {
        assert(trim_trailing_separators(folder) == folder);
        reveal_strlit("\\");
        assert(lowercase(folder) + "\\"@ =~= normalised(folder));
        assert(excludes(excluded[i], lowercase(folder)));
    }
    if has_prefix(lowercase(path), normalised(folder)) {
        assert(excludes(excluded[i], lowercase(path)));
    }
}

proof fn lemma_ascii_concat(a: Seq<char>, b: Seq<char>)
    ensures
        vstd::utf8::is_ascii_chars(a + b) <==> (vstd::utf8::is_ascii_chars(a)
            && vstd::utf8::is_ascii_chars(b)),
        ascii_lowercase(a + b) == ascii_lowercase(a) + ascii_lowercase(b),
{
    assert(ascii_lowercase(a + b) =~= ascii_lowercase(a) + ascii_lowercase(b));
    if vstd::utf8::is_ascii_chars(a + b) {
        assert forall|i: int| 0 <= i < a.len() implies '\0' <= #[trigger] a[i] <= '\u{7f}' by {
            assert((a + b)[i] == a[i]);
        }
        assert forall|i: int| 0 <= i < b.len() implies '\0' <= #[trigger] b[i] <= '\u{7f}' by {
            assert((a + b)[a.len() + i] == b[i]);
        }
    }
}

proof fn lemma_ascii_lowercase_facts(s: Seq<char>)
    requires
        vstd::utf8::is_ascii_chars(s),
    ensures
        vstd::utf8::is_ascii_chars(ascii_lowercase(s)),
        ascii_lowercase(ascii_lowercase(s)) == ascii_lowercase(s),
        lowercase(s) == ascii_lowercase(s),
{
    let l = ascii_lowercase(s);
    assert forall|i: int| 0 <= i < l.len() implies '\0' <= #[trigger] l[i] <= '\u{7f}' by {
        assert(s[i] <= '\u{7f}');
    }
    assert(ascii_lowercase(l) =~= l);
}

proof fn lemma_strip_ascii(s: Seq<char>)
    ensures
        vstd::utf8::is_ascii_chars(s) ==> vstd::utf8::is_ascii_chars(trim_trailing_separators(s)),
        trim_trailing_separators(s).len() > 0 ==> !crate::text::is_separator(
            trim_trailing_separators(s).last(),
        ),
        ascii_lowercase(trim_trailing_separators(s)) == trim_trailing_separators(
            ascii_lowercase(s),
        ),
    decreases s.len(),
{
    let l = ascii_lowercase(s);
    if s.len() > 0 {
        assert(l.drop_last() =~= ascii_lowercase(s.drop_last()));
        assert(l.last() == ascii_lower_char(s.last()));
        lemma_strip_ascii(s.drop_last());
        if vstd::utf8::is_ascii_chars(s) {
            let d = s.drop_last();
            assert forall|i: int| 0 <= i < d.len() implies '\0' <= #[trigger] d[i] <= '\u{7f}' by {
                assert(s[i] == d[i]);
            }
        }
    } else {
        assert(l =~= s);
    }
}

/// Normalising twice changes nothing, and the result ends in one `\` with no
/// other separator just before it (for ASCII folder names).
pub proof fn lemma_normalise_idempotent(p: Seq<char>)
    requires
        vstd::utf8::is_ascii_chars(p),
    ensures
        normalised(normalised(p)) == normalised(p),
        normalised(p).last() == '\\',
        normalised(p).len() >= 2 ==> !crate::text::is_separator(
            normalised(p)[normalised(p).len() - 2],
        ),
{
    let t = trim_trailing_separators(p);
    lemma_strip_ascii(p);
    lemma_ascii_lowercase_facts(t);
    let l = ascii_lowercase(t);
    lemma_strip_ascii(t);
    let n = l + seq!['\\'];
    assert(n.drop_last() =~= l);
    assert(trim_trailing_separators(n) == trim_trailing_separators(l));
    assert(trim_trailing_separators(t) == t);
    assert(trim_trailing_separators(l) == l);
    lemma_ascii_lowercase_facts(l);
    if l.len() > 0 {
        assert(l.last() == ascii_lower_char(t.last()));
        assert(n[n.len() - 2] == l.last());
    }
}

/// Normalising ignores case: ASCII folder names that differ only in the
/// case of their letters give the same entry.
pub proof fn lemma_normalise_ignores_case(p: Seq<char>, q: Seq<char>)
    requires
        vstd::utf8::is_ascii_chars(p),
        vstd::utf8::is_ascii_chars(q),
        ascii_lowercase(p) == ascii_lowercase(q),
    ensures
        normalised(p) == normalised(q),
{
    lemma_strip_ascii(p);
    lemma_strip_ascii(q);
    lemma_ascii_lowercase_facts(trim_trailing_separators(p));
    lemma_ascii_lowercase_facts(trim_trailing_separators(q));
}

/// Exclusion carries down: when an ASCII path is excluded, so is every path
/// below it (the path, a `\`, and an ASCII child name).
pub proof fn lemma_exclusion_inherited(d: Seq<char>, c: Seq<char>, excluded: Seq<Seq<char>>)
    requires
        vstd::utf8::is_ascii_chars(d),
        vstd::utf8::is_ascii_chars(c),
        path_excluded(d, excluded),
    ensures
        path_excluded(d + seq!['\\'] + c, excluded),
{
    let child = d + seq!['\\'] + c;
    let sl = seq!['\\'];
    assert(vstd::utf8::is_ascii_chars(sl));
    lemma_ascii_concat(d, sl);
    lemma_ascii_concat(d + sl, c);
    let ld = ascii_lowercase(d);
    let lc = ascii_lowercase(child);
    assert(ascii_lowercase(sl) =~= sl);
    assert(lc == ld + sl + ascii_lowercase(c));
    assert(lowercase(d) == ld);
    assert(lowercase(child) == lc);
    let i = choose|i: int| 0 <= i < excluded.len() && #[trigger] excludes(excluded[i], lowercase(d));
    let e = excluded[i];
    reveal_strlit("\\");
    if drive_anchored(e) {
        if has_prefix(ld, e) {
            assert(lc.take(e.len() as int) =~= ld.take(e.len() as int));
        } else {
            assert(ld + "\\"@ == e);
            assert(lc.take(e.len() as int) =~= e);
        }
        assert(excludes(e, lc));
    } else {
        let j = choose|j: int| occurs_at(ld, e, j);
        assert(lc.subrange(j, j + e.len()) =~= ld.subrange(j, j + e.len()));
        assert(occurs_at(lc, e, j));
        assert(excludes(e, lc));
    }
}

/// The folders an indexing run always skips, whatever the settings say
/// (temporary and cache folders, browser and Office data, development and
/// Windows-update noise), as written.
pub open spec fn always_skipped() -> Seq<Seq<char>> {
    seq![
        "appdata\\local\\temp"@,
        "appdata\\locallow"@,
        "appdata\\local\\google\\chrome"@,
        "appdata\\local\\microsoft\\edge"@,
        "appdata\\local\\brave software"@,
        "appdata\\roaming\\mozilla"@,
        "appdata\\local\\microsoft\\teams"@,
        "appdata\\local\\microsoft\\onedrive"@,
        "appdata\\local\\microsoft\\windows"@,
        "appdata\\roaming\\microsoft"@,
        "appdata\\local\\packages"@,
        "\\cache\\"@,
        "\\caches\\"@,
        "\\node_modules\\"@,
        "\\.git\\"@,
        "\\__pycache__\\"@,
        "\\target\\debug\\"@,
        "\\target\\release\\"@,
        "\\.next\\"@,
        "\\$windows.~ws\\"@,
        "\\$windows.~bt\\"@,
    ]
}

fn always_skipped_list() -> (r: Vec<&'static str>)
    ensures
        crate::text::views_of(r@) == always_skipped(),
{
    let r = vec![
        "appdata\\local\\temp",
        "appdata\\locallow",
        "appdata\\local\\google\\chrome",
        "appdata\\local\\microsoft\\edge",
        "appdata\\local\\brave software",
        "appdata\\roaming\\mozilla",
        "appdata\\local\\microsoft\\teams",
        "appdata\\local\\microsoft\\onedrive",
        "appdata\\local\\microsoft\\windows",
        "appdata\\roaming\\microsoft",
        "appdata\\local\\packages",
        "\\cache\\",
        "\\caches\\",
        "\\node_modules\\",
        "\\.git\\",
        "\\__pycache__\\",
        "\\target\\debug\\",
        "\\target\\release\\",
        "\\.next\\",
        "\\$windows.~ws\\",
        "\\$windows.~bt\\",
    ];
    assert(crate::text::views_of(r@) =~= always_skipped());
    r
}

/// Exclusion entries: the user's excluded folders, normalised, followed by
/// the given fixed entries, lowercased.
pub open spec fn exclusion_entries(user: Seq<Seq<char>>, fixed: Seq<Seq<char>>) -> Seq<Seq<char>> {
    user.map_values(|p: Seq<char>| normalised(p)) + fixed.map_values(|p: Seq<char>| lowercase(p))
}

/// Builds exclusion entries from the user's folders and fixed entries.
pub(crate) fn build_exclusion_entries(user: &[String], fixed: &Vec<&'static str>) -> (r: Vec<String>)
    ensures
        string_views(r@) == exclusion_entries(string_views(user@), crate::text::views_of(fixed@)),
{
    let ghost fixed_v = crate::text::views_of(fixed@);
    let mut out: Vec<String> = Vec::new();
    let mut i: usize = 0;
    while i < user.len()
        invariant
            i <= user@.len(),
            string_views(out@) == string_views(user@).take(i as int).map_values(
                |p: Seq<char>| normalised(p),
            ),
        decreases user@.len() - i,
    {
        let ghost before = out@;
        out.push(normalise(user[i].as_str()));
        proof {
            assert(string_views(user@).take(i + 1) =~= string_views(user@).take(i as int).push(
                user@[i as int]@,
            ));
            assert(string_views(out@) =~= string_views(before).push(normalised(user@[i as int]@)));
        }
        i = i + 1;
    }
    assert(string_views(user@).take(user@.len() as int) =~= string_views(user@));
    let ghost base = string_views(out@);
    let mut k: usize = 0;
    while k < fixed.len()
        invariant
            fixed_v == crate::text::views_of(fixed@),
            k <= fixed@.len(),
            base == string_views(user@).map_values(|p: Seq<char>| normalised(p)),
            string_views(out@) == base + fixed_v.take(k as int).map_values(
                |p: Seq<char>| lowercase(p),
            ),
        decreases fixed@.len() - k,
    {
        let ghost before = out@;
        out.push(to_lowercase(fixed[k]));
        proof {
            assert(fixed_v[k as int] == fixed@[k as int]@);
            assert(fixed_v.take(k + 1) =~= fixed_v.take(k as int).push(fixed_v[k as int]));
            let x = lowercase(fixed_v[k as int]);
            assert(string_views(out@) =~= string_views(before).push(x));
            assert(fixed_v.take(k + 1).map_values(|p: Seq<char>| lowercase(p))
                =~= fixed_v.take(k as int).map_values(|p: Seq<char>| lowercase(p)).push(x));
            assert(string_views(out@) =~= base + fixed_v.take(k + 1).map_values(
                |p: Seq<char>| lowercase(p),
            ));
        }
        k = k + 1;
    }
    assert(fixed_v.take(fixed@.len() as int) =~= fixed_v);
    out
}

/// An exclusion pattern written in lowercase ASCII with no `:` in it: it
/// is its own lowercase form and matches anywhere in a path.
pub open spec fn plain_pattern(e: Seq<char>) -> bool {
    forall|i: int|
        0 <= i < e.len() ==> '\0' <= #[trigger] e[i] <= '\u{7f}' && !('A' <= e[i] <= 'Z') && e[i]
            != ':'
}

/// A fixed entry that is a plain pattern excludes every path whose
/// lowercase form contains it, whatever the user's folders.
pub proof fn lemma_plain_entry_matches_anywhere(
    user: Seq<Seq<char>>,
    fixed: Seq<Seq<char>>,
    k: int,
    p: Seq<char>,
)
    requires
        0 <= k < fixed.len(),
        plain_pattern(fixed[k]),
        has_substring(lowercase(p), fixed[k]),
    ensures
        path_excluded(p, exclusion_entries(user, fixed)),
{
    let e = fixed[k];
    assert forall|i: int| 0 <= i < e.len() implies '\0' <= #[trigger] e[i] <= '\u{7f}' by {
        assert(plain_pattern(e));
    }
    assert(vstd::utf8::is_ascii_chars(e));
    assert(ascii_lowercase(e) =~= e);
    reveal_strlit(":\\");
    if drive_anchored(e) {
        let j = choose|j: int| occurs_at(e, ":\\"@, j);
        assert(e.subrange(j, j + 2)[0] == ':');
        assert(e[j] == ':');
    }
    let ex = exclusion_entries(user, fixed);
    assert(ex[user.len() + k] == e);
    assert(excludes(ex[user.len() + k], lowercase(p)));
}

/// The folders an indexing run always skips are 21 different folders:
/// temporary and low-integrity AppData, Chrome, Edge, Brave and Firefox
/// data, Teams, OneDrive and Windows data, roaming Microsoft data, Store
/// app packages, `cache` and `caches` folders, `node_modules`, `.git`,
/// `__pycache__`, Rust `target\debug` and `target\release`, `.next`, and
/// the Windows update staging folders. Whatever the user's folders, a
/// path whose lowercase form contains any of them is skipped.
pub proof fn lemma_always_skipped_folders(user: Seq<Seq<char>>, p: Seq<char>, k: int)
    ensures
        always_skipped().len() == 21,
        always_skipped().no_duplicates(),
        always_skipped().contains("appdata\\local\\temp"@),
        always_skipped().contains("appdata\\locallow"@),
        always_skipped().contains("appdata\\local\\google\\chrome"@),
        always_skipped().contains("appdata\\local\\microsoft\\edge"@),
        always_skipped().contains("appdata\\local\\brave software"@),
        always_skipped().contains("appdata\\roaming\\mozilla"@),
        always_skipped().contains("appdata\\local\\microsoft\\teams"@),
        always_skipped().contains("appdata\\local\\microsoft\\onedrive"@),
        always_skipped().contains("appdata\\local\\microsoft\\windows"@),
        always_skipped().contains("appdata\\roaming\\microsoft"@),
        always_skipped().contains("appdata\\local\\packages"@),
        always_skipped().contains("\\cache\\"@),
        always_skipped().contains("\\caches\\"@),
        always_skipped().contains("\\node_modules\\"@),
        always_skipped().contains("\\.git\\"@),
        always_skipped().contains("\\__pycache__\\"@),
        always_skipped().contains("\\target\\debug\\"@),
        always_skipped().contains("\\target\\release\\"@),
        always_skipped().contains("\\.next\\"@),
        always_skipped().contains("\\$windows.~ws\\"@),
        always_skipped().contains("\\$windows.~bt\\"@),
        forall|j: int| 0 <= j < 21 ==> plain_pattern(#[trigger] always_skipped()[j]),
        0 <= k < 21 && has_substring(lowercase(p), always_skipped()[k]) ==> path_excluded(
            p,
            exclusion_entries(user, always_skipped()),
        ),
{
    reveal_strlit("appdata\\local\\temp");
    reveal_strlit("appdata\\locallow");
    reveal_strlit("appdata\\local\\google\\chrome");
    reveal_strlit("appdata\\local\\microsoft\\edge");
    reveal_strlit("appdata\\local\\brave software");
    reveal_strlit("appdata\\roaming\\mozilla");
    reveal_strlit("appdata\\local\\microsoft\\teams");
    reveal_strlit("appdata\\local\\microsoft\\onedrive");
    reveal_strlit("appdata\\local\\microsoft\\windows");
    reveal_strlit("appdata\\roaming\\microsoft");
    reveal_strlit("appdata\\local\\packages");
    reveal_strlit("\\cache\\");
    reveal_strlit("\\caches\\");
    reveal_strlit("\\node_modules\\");
    reveal_strlit("\\.git\\");
    reveal_strlit("\\__pycache__\\");
    reveal_strlit("\\target\\debug\\");
    reveal_strlit("\\target\\release\\");
    reveal_strlit("\\.next\\");
    reveal_strlit("\\$windows.~ws\\");
    reveal_strlit("\\$windows.~bt\\");
    assert("appdata\\local\\temp"@ =~= seq!['a', 'p', 'p', 'd', 'a', 't', 'a', '\\', 'l', 'o', 'c', 'a', 'l', '\\', 't', 'e', 'm', 'p']);
    assert("appdata\\locallow"@ =~= seq!['a', 'p', 'p', 'd', 'a', 't', 'a', '\\', 'l', 'o', 'c', 'a', 'l', 'l', 'o', 'w']);
    assert("appdata\\local\\google\\chrome"@ =~= seq!['a', 'p', 'p', 'd', 'a', 't', 'a', '\\', 'l', 'o', 'c', 'a', 'l', '\\', 'g', 'o', 'o', 'g', 'l', 'e', '\\', 'c', 'h', 'r', 'o', 'm', 'e']);
    assert("appdata\\local\\microsoft\\edge"@ =~= seq!['a', 'p', 'p', 'd', 'a', 't', 'a', '\\', 'l', 'o', 'c', 'a', 'l', '\\', 'm', 'i', 'c', 'r', 'o', 's', 'o', 'f', 't', '\\', 'e', 'd', 'g', 'e']);
    assert("appdata\\local\\brave software"@ =~= seq!['a', 'p', 'p', 'd', 'a', 't', 'a', '\\', 'l', 'o', 'c', 'a', 'l', '\\', 'b', 'r', 'a', 'v', 'e', ' ', 's', 'o', 'f', 't', 'w', 'a', 'r', 'e']);
    assert("appdata\\roaming\\mozilla"@ =~= seq!['a', 'p', 'p', 'd', 'a', 't', 'a', '\\', 'r', 'o', 'a', 'm', 'i', 'n', 'g', '\\', 'm', 'o', 'z', 'i', 'l', 'l', 'a']);
    assert("appdata\\local\\microsoft\\teams"@ =~= seq!['a', 'p', 'p', 'd', 'a', 't', 'a', '\\', 'l', 'o', 'c', 'a', 'l', '\\', 'm', 'i', 'c', 'r', 'o', 's', 'o', 'f', 't', '\\', 't', 'e', 'a', 'm', 's']);
    assert("appdata\\local\\microsoft\\onedrive"@ =~= seq!['a', 'p', 'p', 'd', 'a', 't', 'a', '\\', 'l', 'o', 'c', 'a', 'l', '\\', 'm', 'i', 'c', 'r', 'o', 's', 'o', 'f', 't', '\\', 'o', 'n', 'e', 'd', 'r', 'i', 'v', 'e']);
    assert("appdata\\local\\microsoft\\windows"@ =~= seq!['a', 'p', 'p', 'd', 'a', 't', 'a', '\\', 'l', 'o', 'c', 'a', 'l', '\\', 'm', 'i', 'c', 'r', 'o', 's', 'o', 'f', 't', '\\', 'w', 'i', 'n', 'd', 'o', 'w', 's']);
    assert("appdata\\roaming\\microsoft"@ =~= seq!['a', 'p', 'p', 'd', 'a', 't', 'a', '\\', 'r', 'o', 'a', 'm', 'i', 'n', 'g', '\\', 'm', 'i', 'c', 'r', 'o', 's', 'o', 'f', 't']);
    assert("appdata\\local\\packages"@ =~= seq!['a', 'p', 'p', 'd', 'a', 't', 'a', '\\', 'l', 'o', 'c', 'a', 'l', '\\', 'p', 'a', 'c', 'k', 'a', 'g', 'e', 's']);
    assert("\\cache\\"@ =~= seq!['\\', 'c', 'a', 'c', 'h', 'e', '\\']);
    assert("\\caches\\"@ =~= seq!['\\', 'c', 'a', 'c', 'h', 'e', 's', '\\']);
    assert("\\node_modules\\"@ =~= seq!['\\', 'n', 'o', 'd', 'e', '_', 'm', 'o', 'd', 'u', 'l', 'e', 's', '\\']);
    assert("\\.git\\"@ =~= seq!['\\', '.', 'g', 'i', 't', '\\']);
    assert("\\__pycache__\\"@ =~= seq!['\\', '_', '_', 'p', 'y', 'c', 'a', 'c', 'h', 'e', '_', '_', '\\']);
    assert("\\target\\debug\\"@ =~= seq!['\\', 't', 'a', 'r', 'g', 'e', 't', '\\', 'd', 'e', 'b', 'u', 'g', '\\']);
    assert("\\target\\release\\"@ =~= seq!['\\', 't', 'a', 'r', 'g', 'e', 't', '\\', 'r', 'e', 'l', 'e', 'a', 's', 'e', '\\']);
    assert("\\.next\\"@ =~= seq!['\\', '.', 'n', 'e', 'x', 't', '\\']);
    assert("\\$windows.~ws\\"@ =~= seq!['\\', '$', 'w', 'i', 'n', 'd', 'o', 'w', 's', '.', '~', 'w', 's', '\\']);
    assert("\\$windows.~bt\\"@ =~= seq!['\\', '$', 'w', 'i', 'n', 'd', 'o', 'w', 's', '.', '~', 'b', 't', '\\']);
    let fixed = always_skipped();
    assert(plain_pattern(fixed[0]));
    assert(plain_pattern(fixed[1]));
    assert(plain_pattern(fixed[2]));
    assert(plain_pattern(fixed[3]));
    assert(plain_pattern(fixed[4]));
    assert(plain_pattern(fixed[5]));
    assert(plain_pattern(fixed[6]));
    assert(plain_pattern(fixed[7]));
    assert(plain_pattern(fixed[8]));
    assert(plain_pattern(fixed[9]));
    assert(plain_pattern(fixed[10]));
    assert(plain_pattern(fixed[11]));
    assert(plain_pattern(fixed[12]));
    assert(plain_pattern(fixed[13]));
    assert(plain_pattern(fixed[14]));
    assert(plain_pattern(fixed[15]));
    assert(plain_pattern(fixed[16]));
    assert(plain_pattern(fixed[17]));
    assert(plain_pattern(fixed[18]));
    assert(plain_pattern(fixed[19]));
    assert(plain_pattern(fixed[20]));
    if 0 <= k < 21 && has_substring(lowercase(p), fixed[k]) {
        lemma_plain_entry_matches_anywhere(user, fixed, k, p);
    }
}

/// The exclusion entries of an indexing run: the user's excluded folders,
/// normalised, followed by the always-skipped folders, lowercased.
pub fn index_exclusions(user: &[String]) -> (r: Vec<String>)
    ensures
        string_views(r@) == exclusion_entries(string_views(user@), always_skipped()),
{
    let always = always_skipped_list();
    build_exclusion_entries(user, &always)
}

/// Size and modification time of a file system entry, as its metadata gives
/// them (the time in whole seconds since the Unix epoch, when known).
#[derive(Debug, Clone, Copy)]
pub struct FsMeta {
    pub len: u64,
    pub modified_secs: Option<u64>,
}

/// The record of a visited entry, from its path, name, kind, raw extension
/// and metadata. A folder keeps no extension and no size; a file keeps its
/// extension lowercased and its length; the modification time is kept for
/// both when the metadata has it. Numbers are converted to `i64` as `as`
/// does.
pub open spec fn fs_record(
    path: Seq<char>,
    filename: Seq<char>,
    is_dir: bool,
    raw_extension: Option<Seq<char>>,
    meta: Option<FsMeta>,
) -> RecordView {
    RecordView {
        id: 0,
        path,
        filename,
        extension: if is_dir {
            None
        } else {
            match raw_extension {
                Some(e) => Some(lowercase(e)),
                None => None,
            }
        },
        size: match meta {
            Some(m) => if is_dir {
                None
            } else {
                Some(m.len as i64)
            },
            None => None,
        },
        modified_time: match meta {
            Some(m) => match m.modified_secs {
                Some(t) => Some(t as i64),
                None => None,
            },
            None => None,
        },
        is_dir,
    }
}

/// The characters of an optional string.
pub open spec fn opt_view(s: Option<String>) -> Option<Seq<char>> {
    match s {
        Some(e) => Some(e@),
        None => None,
    }
}

/// What a visited entry records: its path and name, its folder flag, id 0;
/// a folder has no extension and no size; a file has its extension
/// lowercased and, with metadata, its length as `i64`; both have the
/// modification time the metadata gives.
pub proof fn lemma_fs_record_fields(
    path: Seq<char>,
    filename: Seq<char>,
    is_dir: bool,
    raw_extension: Option<Seq<char>>,
    meta: Option<FsMeta>,
)
    ensures
        ({
            let rv = fs_record(path, filename, is_dir, raw_extension, meta);
            &&& rv.path == path
            &&& rv.filename == filename
            &&& rv.is_dir == is_dir
            &&& rv.id == 0
            &&& is_dir ==> rv.extension is None && rv.size is None
            &&& !is_dir ==> rv.extension == match raw_extension {
                Some(e) => Some(lowercase(e)),
                None => None,
            }
            &&& !is_dir ==> rv.size == match meta {
                Some(m) => Some(m.len as i64),
                None => None,
            }
            &&& rv.modified_time == match meta {
                Some(m) => match m.modified_secs {
                    Some(t) => Some(t as i64),
                    None => None,
                },
                None => None,
            }
        }),
{
}

/// Builds the record of a visited entry.
pub fn entry_record(
    path: String,
    filename: String,
    is_dir: bool,
    raw_extension: Option<String>,
    meta: Option<FsMeta>,
) -> (r: FileRecord)
    ensures
        r@ == fs_record(path@, filename@, is_dir, opt_view(raw_extension), meta),
{
    let extension = if is_dir {
        None
    } else {
        match raw_extension {
            Some(e) => Some(to_lowercase(e.as_str())),
            None => None,
        }
    };
    let (size, modified_time) = match meta {
        Some(m) => {
            let size = if is_dir {
                None
            } else {
                Some(m.len as i64)
            };
            let modified = match m.modified_secs {
                Some(t) => Some(t as i64),
                None => None,
            };
            (size, modified)
        },
        None => (None, None),
    };
    FileRecord { id: 0, path, filename, extension, size, modified_time, is_dir }
}

/// Progress of the current or last indexing run.
#[derive(Debug, Clone)]
pub struct IndexStatus {
    pub is_indexing: bool,
    pub files_indexed: u64,
    pub current_path: String,
    pub last_indexed_at: Option<i64>,
    pub error: Option<String>,
}

impl Default for IndexStatus {
    /// No run yet: not indexing, nothing counted, no path, no time, no error.
    fn default() -> (s: Self)
        ensures
            !s.is_indexing,
            s.files_indexed == 0,
            s.current_path@ == Seq::<char>::empty(),
            s.last_indexed_at is None,
            s.error is None,
    {
        IndexStatus {
            is_indexing: false,
            files_indexed: 0,
            current_path: String::new(),
            last_indexed_at: None,
            error: None,
        }
    }
}

/// The status by the characters of its strings.
pub ghost struct StatusView {
    pub is_indexing: bool,
    pub files_indexed: u64,
    pub current_path: Seq<char>,
    pub last_indexed_at: Option<i64>,
    pub error: Option<Seq<char>>,
}

impl View for IndexStatus {
    type V = StatusView;

    open spec fn view(&self) -> StatusView {
        StatusView {
            is_indexing: self.is_indexing,
            files_indexed: self.files_indexed,
            current_path: self.current_path@,
            last_indexed_at: self.last_indexed_at,
            error: opt_view(self.error),
        }
    }
}

/// The status once a run begins.
pub open spec fn run_begun(s: StatusView) -> StatusView {
    StatusView { is_indexing: true, files_indexed: 0, error: None, ..s }
}

/// The status once an entry at `path` is visited.
pub open spec fn entry_visited(s: StatusView, path: Seq<char>) -> StatusView {
    StatusView { current_path: path, files_indexed: (s.files_indexed + 1) as u64, ..s }
}

/// The status once writing a batch failed with `message`.
pub open spec fn write_failed(s: StatusView, message: Seq<char>) -> StatusView {
    StatusView { error: Some(message), ..s }
}

/// The status once the run ended at `now`.
pub open spec fn run_finished(s: StatusView, now: i64) -> StatusView {
    StatusView { is_indexing: false, last_indexed_at: Some(now), current_path: seq![], ..s }
}

impl IndexStatus {
    /// A run begins: indexing, the count back to zero, the error cleared;
    /// the path and the time of the last run stay.
    pub fn begin_run(&mut self)
        ensures
            final(self)@ == run_begun(old(self)@),
            final(self).is_indexing,
            final(self).files_indexed == 0,
            final(self).error is None,
            final(self).current_path == old(self).current_path,
            final(self).last_indexed_at == old(self).last_indexed_at,
    {
        self.is_indexing = true;
        self.files_indexed = 0;
        self.error = None;
    }

    /// An entry was visited: it becomes the current path and is counted.
    pub fn record_visit(&mut self, path: String)
        requires
            old(self).files_indexed < u64::MAX,
        ensures
            final(self)@ == entry_visited(old(self)@, path@),
            final(self).current_path == path,
            final(self).files_indexed == old(self).files_indexed + 1,
            final(self).is_indexing == old(self).is_indexing,
            final(self).last_indexed_at == old(self).last_indexed_at,
            final(self).error == old(self).error,
    {
        self.current_path = path;
        self.files_indexed = self.files_indexed + 1;
    }

    /// Writing a batch failed: the message is kept as the run's error.
    pub fn record_error(&mut self, message: String)
        ensures
            final(self)@ == write_failed(old(self)@, message@),
            final(self).error == Some(message),
            final(self).is_indexing == old(self).is_indexing,
            final(self).files_indexed == old(self).files_indexed,
            final(self).current_path == old(self).current_path,
            final(self).last_indexed_at == old(self).last_indexed_at,
    {
        self.error = Some(message);
    }

    /// The run ended at `now` (seconds since the Unix epoch): no longer
    /// indexing, the time kept, the current path cleared; the count and the
    /// error stay.
    pub fn finish_run(&mut self, now: i64)
        ensures
            final(self)@ == run_finished(old(self)@, now),
            !final(self).is_indexing,
            final(self).last_indexed_at == Some(now),
            final(self).current_path@ == Seq::<char>::empty(),
            final(self).files_indexed == old(self).files_indexed,
            final(self).error == old(self).error,
    {
        self.is_indexing = false;
        self.last_indexed_at = Some(now);
        self.current_path = String::new();
    }
}

/// Number of records written to the database at once.
pub const BATCH_SIZE: usize = 500;

/// What one record does to the records waiting for the database: it joins
/// them, and once they number `BATCH_SIZE` they all leave as one batch.
/// Gives the batch that leaves, if any, and the records left waiting.
pub open spec fn batch_step(waiting: Seq<FileRecord>, r: FileRecord) -> (Option<Seq<FileRecord>>, Seq<FileRecord>) {
    let joined = waiting.push(r);
    if joined.len() >= BATCH_SIZE {
        (Some(joined), seq![])
    } else {
        (None, joined)
    }
}

/// Collects visited records into batches of `BATCH_SIZE` for the database.
pub struct Batcher {
    batch: Vec<FileRecord>,
}

impl Batcher {
    /// The records waiting, in the order they came.
    pub closed spec fn waiting(&self) -> Seq<FileRecord> {
        self.batch@
    }

    /// Fewer than `BATCH_SIZE` records ever wait.
    #[verifier::type_invariant]
    spec fn below_batch_size(&self) -> bool {
        self.batch@.len() < BATCH_SIZE
    }

    /// Nothing waiting.
    pub fn new() -> (b: Self)
        ensures
            b.waiting() == Seq::<FileRecord>::empty(),
    {
        Batcher { batch: Vec::new() }
    }

    /// Adds a record; when `BATCH_SIZE` records wait they are handed out as
    /// one batch and none waits any more.
    pub fn push(&mut self, r: FileRecord) -> (full: Option<Vec<FileRecord>>)
        ensures
            ({
                let (out, rest) = batch_step(old(self).waiting(), r);
                &&& final(self).waiting() == rest
                &&& match full {
                    Some(b) => out == Some(b@),
                    None => out is None,
                }
            }),
            final(self).waiting().len() < BATCH_SIZE,
    {
        proof {
            use_type_invariant(&*self);
        }
        let mut batch: Vec<FileRecord> = Vec::new();
        std::mem::swap(&mut batch, &mut self.batch);
        batch.push(r);
        if batch.len() >= BATCH_SIZE {
            proof {
                use_type_invariant(&*self);
            }
            Some(batch)
        } else {
            self.batch = batch;
            None
        }
    }

    /// Ends the run: the records still waiting, if there are any.
    pub fn finish(self) -> (rest: Option<Vec<FileRecord>>)
        ensures
            rest is None <==> self.waiting().len() == 0,
            rest matches Some(v) ==> v@ == self.waiting() && v@.len() < BATCH_SIZE,
    {
        proof {
            use_type_invariant(&self);
        }
        if self.batch.len() > 0 {
            Some(self.batch)
        } else {
            None
        }
    }
}

/// The batches handed out, and the records left waiting, once `records` have
/// been pushed in order into a new `Batcher` (each push as `batch_step`).
pub open spec fn run_batches(records: Seq<FileRecord>) -> (Seq<Seq<FileRecord>>, Seq<FileRecord>)
    decreases records.len(),
{
    if records.len() == 0 {
        (seq![], seq![])
    } else {
        let (batches, waiting) = run_batches(records.drop_last());
        let (out, rest) = batch_step(waiting, records.last());
        (
            match out {
                Some(b) => batches.push(b),
                None => batches,
            },
            rest,
        )
    }
}

/// The batches one after another.
pub open spec fn concat_batches(bs: Seq<Seq<FileRecord>>) -> Seq<FileRecord>
    decreases bs.len(),
{
    if bs.len() == 0 {
        seq![]
    } else {
        concat_batches(bs.drop_last()) + bs.last()
    }
}

/// Batching loses, repeats and reorders no record: the batches handed out
/// during a run, followed by what is left for the final write, are exactly
/// the records visited, in visiting order; every batch handed out holds
/// `BATCH_SIZE` records and fewer than that are left.
pub proof fn lemma_batches_keep_every_record(records: Seq<FileRecord>)
    ensures
        concat_batches(run_batches(records).0) + run_batches(records).1 == records,
        forall|i: int|
            0 <= i < run_batches(records).0.len() ==> #[trigger] run_batches(records).0[i].len()
                == BATCH_SIZE,
        run_batches(records).1.len() < BATCH_SIZE,
    decreases records.len(),
{
    if records.len() == 0 {
        assert(concat_batches(seq![]) + seq![] =~= records);
    } else {
        let prev = records.drop_last();
        lemma_batches_keep_every_record(prev);
        let (batches, waiting) = run_batches(prev);
        let joined = waiting.push(records.last());
        assert(prev.push(records.last()) =~= records);
        if joined.len() >= BATCH_SIZE {
            let nb = batches.push(joined);
            assert(nb.drop_last() =~= batches);
            assert(concat_batches(nb) + seq![] =~= records);
            assert forall|i: int| 0 <= i < nb.len() implies #[trigger] nb[i].len() == BATCH_SIZE by {
                if i < batches.len() {
                    assert(nb[i] == batches[i]);
                }
            }
        } else {
            assert(concat_batches(batches) + joined =~= records);
        }
    }
}

/// What happens during an indexing run, in order: an entry is visited and
/// its record made, or writing a batch fails.
pub ghost enum IndexEvent {
    Visit(FileRecord),
    WriteFailed(Seq<char>),
}

/// The status, the batches handed out and the records still waiting after
/// the events of a run, starting from status `s` and nothing waiting (each
/// visit as `IndexStatus::record_visit` and `Batcher::push`, each failure
/// as `IndexStatus::record_error`).
pub open spec fn run_state(s: StatusView, events: Seq<IndexEvent>) -> (
    StatusView,
    Seq<Seq<FileRecord>>,
    Seq<FileRecord>,
)
    decreases events.len(),
{
    if events.len() == 0 {
        (s, seq![], seq![])
    } else {
        let (st, batches, waiting) = run_state(s, events.drop_last());
        match events.last() {
            IndexEvent::Visit(r) => {
                let (out, rest) = batch_step(waiting, r);
                (
                    entry_visited(st, r.path@),
                    match out {
                        Some(b) => batches.push(b),
                        None => batches,
                    },
                    rest,
                )
            },
            IndexEvent::WriteFailed(m) => (write_failed(st, m), batches, waiting),
        }
    }
}

/// The records visited, in order.
pub open spec fn visits(events: Seq<IndexEvent>) -> Seq<FileRecord>
    decreases events.len(),
{
    if events.len() == 0 {
        seq![]
    } else {
        match events.last() {
            IndexEvent::Visit(r) => visits(events.drop_last()).push(r),
            IndexEvent::WriteFailed(_) => visits(events.drop_last()),
        }
    }
}

/// The message of the last failed write, if any.
pub open spec fn last_failure(events: Seq<IndexEvent>) -> Option<Seq<char>>
    decreases events.len(),
{
    if events.len() == 0 {
        None
    } else {
        match events.last() {
            IndexEvent::WriteFailed(m) => Some(m),
            IndexEvent::Visit(_) => last_failure(events.drop_last()),
        }
    }
}

proof fn lemma_run_state(s: StatusView, events: Seq<IndexEvent>)
    requires
        visits(events).len() < u64::MAX,
    ensures
        run_state(run_begun(s), events).0.files_indexed == visits(events).len(),
        run_state(run_begun(s), events).0.is_indexing,
        run_state(run_begun(s), events).0.last_indexed_at == s.last_indexed_at,
        run_state(run_begun(s), events).0.error == last_failure(events),
        run_state(run_begun(s), events).1 == run_batches(visits(events)).0,
        run_state(run_begun(s), events).2 == run_batches(visits(events)).1,
    decreases events.len(),
{
    if events.len() > 0 {
        let prev = events.drop_last();
        match events.last() {
            IndexEvent::Visit(r) => {
                assert(visits(events).drop_last() =~= visits(prev));
                assert(visits(events).last() == r);
            },
            IndexEvent::WriteFailed(_) => {},
        }
        lemma_run_state(s, prev);
    }
}

/// A whole indexing run: once it ends, the count is the number of entries
/// visited, the error is that of the last failed write (none if no write
/// failed), the run is no longer under way and carries its end time; and
/// the batches handed out during the run followed by the records left for
/// the final write are every visited record, in visiting order, in batches
/// of `BATCH_SIZE` with fewer than that left.
pub proof fn lemma_index_run(s: StatusView, events: Seq<IndexEvent>, now: i64)
    requires
        visits(events).len() < u64::MAX,
    ensures
        ({
            let (st, batches, waiting) = run_state(run_begun(s), events);
            let end = run_finished(st, now);
            &&& end.files_indexed == visits(events).len()
            &&& end.error == last_failure(events)
            &&& !end.is_indexing
            &&& end.last_indexed_at == Some(now)
            &&& end.current_path == Seq::<char>::empty()
            &&& concat_batches(batches) + waiting == visits(events)
            &&& forall|i: int| 0 <= i < batches.len() ==> #[trigger] batches[i].len() == BATCH_SIZE
            &&& waiting.len() < BATCH_SIZE
        }),
{
    lemma_run_state(s, events);
    lemma_batches_keep_every_record(visits(events));
}

} // verus!
