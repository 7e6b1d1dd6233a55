//! User settings: their defaults, the folders excluded out of the box, and
//! the drive roots offered for indexing on a first run.
use vstd::prelude::*;
use crate::indexer::{always_skipped, exclusion_entries, normalised, path_excluded};
use crate::text::{has_prefix, lowercase, push_char, select, select_by};

verus! {

/// The user's settings.
#[derive(Debug, Clone)]
pub struct Settings {
    pub indexed_folders: Vec<String>,
    pub excluded_folders: Vec<String>,
    pub max_results: usize,
    pub theme: String,
    pub launch_at_startup: bool,
    pub start_minimized: bool,
    pub minimize_to_tray: bool,
    pub hotkey: String,
    pub reindex_interval_hours: u32,
}

/// The theme when none is set: `dark`.
pub fn default_theme() -> (r: String)
    ensures
        r@ == "dark"@,
{
    String::from_str("dark")
}

/// Launching at startup when nothing is set: on.
pub fn default_autostart() -> (r: bool)
    ensures
        r,
{
    true
}

/// The default of the settings that are on unless set otherwise.
pub fn default_true() -> (r: bool)
    ensures
        r,
{
    true
}

/// The hotkey when none is set: `ctrl+space`.
pub fn default_hotkey() -> (r: String)
    ensures
        r@ == "ctrl+space"@,
{
    String::from_str("ctrl+space")
}

/// The folders excluded out of the box: Windows system folders, program
/// files and system-wide application data on drive C.
pub open spec fn default_exclusion_list() -> Seq<Seq<char>> {
    seq![
        "C:\\Windows"@,
        "C:\\Recovery"@,
        "C:\\PerfLogs"@,
        "C:\\$Recycle.Bin"@,
        "C:\\$RECYCLE.BIN"@,
        "C:\\System Volume Information"@,
        "C:\\Program Files"@,
        "C:\\Program Files (x86)"@,
        "C:\\ProgramData"@,
    ]
}

/// The folders excluded out of the box.
pub fn default_exclusions() -> (r: Vec<String>)
    ensures
        crate::indexer::string_views(r@) == default_exclusion_list(),
{
    let r = vec![
        String::from_str("C:\\Windows"),
        String::from_str("C:\\Recovery"),
        String::from_str("C:\\PerfLogs"),
        String::from_str("C:\\$Recycle.Bin"),
        String::from_str("C:\\$RECYCLE.BIN"),
        String::from_str("C:\\System Volume Information"),
        String::from_str("C:\\Program Files"),
        String::from_str("C:\\Program Files (x86)"),
        String::from_str("C:\\ProgramData"),
    ];
    assert(crate::indexer::string_views(r@) =~= default_exclusion_list());
    r
}

/// A folder written as `X:\...`, in ASCII and without a trailing
/// separator, gives a drive-anchored exclusion entry.
proof fn lemma_drive_folder_anchored(f: Seq<char>)
    requires
        vstd::utf8::is_ascii_chars(f),
        f.len() >= 3,
        f[1] == ':',
        f[2] == '\\',
        !crate::text::is_separator(f.last()),
    ensures
        crate::indexer::drive_anchored(crate::indexer::normalised(f)),
{
    let n = crate::indexer::normalised(f);
    assert(crate::text::trim_trailing_separators(f) == f);
    reveal_strlit(":\\");
    assert(n.subrange(1, 3) =~= ":\\"@);
    assert(crate::text::occurs_at(n, ":\\"@, 1));
}

/// The folders excluded out of the box are nine different folders: the
/// Windows folder, Recovery, PerfLogs, the recycle bin (in both spellings),
/// System Volume Information, both Program Files folders and ProgramData,
/// all on drive C. Each excludes, in an indexing run with the default
/// settings, itself and every path below it.
pub proof fn lemma_default_exclusions(p: Seq<char>, k: int)
    ensures
        default_exclusion_list().len() == 9,
        default_exclusion_list().no_duplicates(),
        default_exclusion_list().contains("C:\\Windows"@),
        default_exclusion_list().contains("C:\\Recovery"@),
        default_exclusion_list().contains("C:\\PerfLogs"@),
        default_exclusion_list().contains("C:\\$Recycle.Bin"@),
        default_exclusion_list().contains("C:\\$RECYCLE.BIN"@),
        default_exclusion_list().contains("C:\\System Volume Information"@),
        default_exclusion_list().contains("C:\\Program Files"@),
        default_exclusion_list().contains("C:\\Program Files (x86)"@),
        default_exclusion_list().contains("C:\\ProgramData"@),
        0 <= k < 9 && (has_prefix(lowercase(p), normalised(default_exclusion_list()[k]))
            || p == default_exclusion_list()[k]) ==> path_excluded(
            p,
            exclusion_entries(default_exclusion_list(), always_skipped()),
        ),
{
    reveal_strlit("C:\\Windows");
    reveal_strlit("C:\\Recovery");
    reveal_strlit("C:\\PerfLogs");
    reveal_strlit("C:\\$Recycle.Bin");
    reveal_strlit("C:\\$RECYCLE.BIN");
    reveal_strlit("C:\\System Volume Information");
    reveal_strlit("C:\\Program Files");
    reveal_strlit("C:\\Program Files (x86)");
    reveal_strlit("C:\\ProgramData");
    assert("C:\\Windows"@ =~= seq!['C', ':', '\\', 'W', 'i', 'n', 'd', 'o', 'w', 's']);
    assert("C:\\Recovery"@ =~= seq!['C', ':', '\\', 'R', 'e', 'c', 'o', 'v', 'e', 'r', 'y']);
    assert("C:\\PerfLogs"@ =~= seq!['C', ':', '\\', 'P', 'e', 'r', 'f', 'L', 'o', 'g', 's']);
    assert("C:\\$Recycle.Bin"@ =~= seq!['C', ':', '\\', '$', 'R', 'e', 'c', 'y', 'c', 'l', 'e', '.', 'B', 'i', 'n']);
    assert("C:\\$RECYCLE.BIN"@ =~= seq!['C', ':', '\\', '$', 'R', 'E', 'C', 'Y', 'C', 'L', 'E', '.', 'B', 'I', 'N']);
    assert("C:\\System Volume Information"@ =~= seq!['C', ':', '\\', 'S', 'y', 's', 't', 'e', 'm', ' ', 'V', 'o', 'l', 'u', 'm', 'e', ' ', 'I', 'n', 'f', 'o', 'r', 'm', 'a', 't', 'i', 'o', 'n']);
    assert("C:\\Program Files"@ =~= seq!['C', ':', '\\', 'P', 'r', 'o', 'g', 'r', 'a', 'm', ' ', 'F', 'i', 'l', 'e', 's']);
    assert("C:\\Program Files (x86)"@ =~= seq!['C', ':', '\\', 'P', 'r', 'o', 'g', 'r', 'a', 'm', ' ', 'F', 'i', 'l', 'e', 's', ' ', '(', 'x', '8', '6', ')']);
    assert("C:\\ProgramData"@ =~= seq!['C', ':', '\\', 'P', 'r', 'o', 'g', 'r', 'a', 'm', 'D', 'a', 't', 'a']);
    let l = default_exclusion_list();
    lemma_drive_folder_anchored(l[0]);
    lemma_drive_folder_anchored(l[1]);
    lemma_drive_folder_anchored(l[2]);
    lemma_drive_folder_anchored(l[3]);
    lemma_drive_folder_anchored(l[4]);
    lemma_drive_folder_anchored(l[5]);
    lemma_drive_folder_anchored(l[6]);
    lemma_drive_folder_anchored(l[7]);
    lemma_drive_folder_anchored(l[8]);
    if 0 <= k < 9 {
        let ex = exclusion_entries(l, always_skipped());
        assert(ex[k] == normalised(l[k]));
        crate::indexer::lemma_drive_folder_excludes_itself_and_below(l[k], p, ex, k);
    }
}

/// Whether `s` holds the default settings, whatever its indexed folders.
pub open spec fn has_default_choices(s: Settings) -> bool {
    &&& crate::indexer::string_views(s.excluded_folders@) == default_exclusion_list()
    &&& s.max_results == 50
    &&& s.theme@ == "dark"@
    &&& s.launch_at_startup
    &&& s.start_minimized
    &&& s.minimize_to_tray
    &&& s.hotkey@ == "ctrl+space"@
    &&& s.reindex_interval_hours == 0
}

impl Default for Settings {
    /// No indexed folder, the default exclusions, 50 results, dark theme,
    /// launched at startup, started minimised, closed to the tray, hotkey
    /// `ctrl+space`, no periodic re-indexing.
    fn default() -> (s: Self)
        ensures
            s.indexed_folders@.len() == 0,
            has_default_choices(s),
    {
        Settings {
            indexed_folders: Vec::new(),
            excluded_folders: default_exclusions(),
            max_results: 50,
            theme: default_theme(),
            launch_at_startup: default_autostart(),
            start_minimized: default_true(),
            minimize_to_tray: default_true(),
            hotkey: default_hotkey(),
            reindex_interval_hours: 0,
        }
    }
}

/// The root of the drive with letter number `i` counted from C (`C:\` for
/// 0, up to `Z:\` for 23).
pub open spec fn drive_root(i: int) -> Seq<char> {
    seq![(67 + i) as char, ':', '\\']
}

/// The roots of the drives C to Z, in order.
pub fn drive_roots() -> (r: Vec<String>)
    ensures
        r@.len() == 24,
        forall|i: int| 0 <= i < 24 ==> #[trigger] r@[i]@ == drive_root(i),
{
    let mut out: Vec<String> = Vec::new();
    let mut k: u8 = 0;
    while k < 24
        invariant
            k <= 24,
            out@.len() == k,
            forall|i: int| 0 <= i < k ==> #[trigger] out@[i]@ == drive_root(i),
        decreases 24 - k,
    {
        let letter = (67u8 + k) as char;
        let mut root = String::new();
        push_char(&mut root, letter);
        push_char(&mut root, ':');
        push_char(&mut root, '\\');
        assert(root@ =~= drive_root(k as int));
        out.push(root);
        k = k + 1;
    }
    out
}

/// The drive roots, C to Z, whose flag in `present` is set (the flags say
/// which roots exist), in order.
pub fn detect_drives(present: &[bool]) -> (r: Vec<String>)
    requires
        present@.len() == 24,
    ensures
        crate::indexer::string_views(r@) == select(
            Seq::new(24, |k: int| drive_root(k)),
            present@,
        ),
{
    let roots = drive_roots();
    let ghost all = roots@;
    let r = select_by(roots, present);
    proof {
        lemma_select_views(all, present@);
        assert(crate::indexer::string_views(all) =~= Seq::new(24, |k: int| drive_root(k)));
    }
    r
}

proof fn lemma_select_views(xs: Seq<String>, keep: Seq<bool>)
    ensures
        crate::indexer::string_views(select(xs, keep)) == select(
            crate::indexer::string_views(xs),
            keep,
        ),
    decreases xs.len(),
{
    if xs.len() > 0 {
        lemma_select_views(xs.drop_last(), keep);
        assert(crate::indexer::string_views(xs.drop_last()) =~= crate::indexer::string_views(
            xs,
        ).drop_last());
        if keep[xs.len() - 1] {
            assert(crate::indexer::string_views(select(xs.drop_last(), keep).push(xs.last()))
                =~= crate::indexer::string_views(select(xs.drop_last(), keep)).push(xs.last()@));
        }
    } else {
        assert(crate::indexer::string_views(select(xs, keep)) =~= Seq::<Seq<char>>::empty());
    }
}

/// The settings a first run starts with and saves: the defaults, indexing
/// the drives found.
pub fn first_run_settings(drives: Vec<String>) -> (s: Settings)
    ensures
        s.indexed_folders == drives,
        has_default_choices(s),
{
    let mut s = Settings::default();
    s.indexed_folders = drives;
    s
}

} // verus!
