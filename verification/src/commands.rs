//! Decisions behind the application's commands and start-up: which search
//! results are kept, when indexing may start, how an invalid hotkey is
//! reported, and what happens when the application starts or a window
//! closes.
use vstd::prelude::*;
use crate::db::FileRecord;
use crate::hotkey::{hotkey_of, parse_hotkey, Hotkey};
use crate::settings::Settings;
use crate::text::{select, select_by};

verus! {

/// Number of rows a search asks the index for.
pub const SEARCH_LIMIT: usize = 50;

/// The paths of the results whose flag is not set, in order.
pub open spec fn missing_paths(results: Seq<FileRecord>, exists: Seq<bool>) -> Seq<Seq<char>>
    decreases results.len(),
{
    if results.len() == 0 {
        seq![]
    } else if exists[results.len() - 1] {
        missing_paths(results.drop_last(), exists)
    } else {
        missing_paths(results.drop_last(), exists).push(results.last().path@)
    }
}

/// Splits search results by whether their path still exists on disk: the
/// results kept, in order, and the paths of the others (to be dropped from
/// the index), in order.
pub fn partition_existing(results: Vec<FileRecord>, exists: &[bool]) -> (out: (
    Vec<FileRecord>,
    Vec<String>,
))
    requires
        results@.len() == exists@.len(),
    ensures
        out.0@ == select(results@, exists@),
        crate::indexer::string_views(out.1@) == missing_paths(results@, exists@),
{
    let mut deleted: Vec<String> = Vec::new();
    let mut i: usize = 0;
    assert(results@.take(0) =~= Seq::<FileRecord>::empty());
    while i < results.len()
        invariant
            i <= results@.len(),
            results@.len() == exists@.len(),
            crate::indexer::string_views(deleted@) == missing_paths(
                results@.take(i as int),
                exists@,
            ),
        decreases results@.len() - i,
    {
        assert(results@.take(i + 1).drop_last() =~= results@.take(i as int));
        if !exists[i] {
            let ghost before = deleted@;
            deleted.push(results[i].path.clone());
            assert(crate::indexer::string_views(deleted@) =~= crate::indexer::string_views(
                before,
            ).push(results@[i as int].path@));
        }
        i = i + 1;
    }
    assert(results@.take(results@.len() as int) =~= results@);
    let kept = select_by(results, exists);
    (kept, deleted)
}

/// Refuses to start indexing while a run is under way.
pub fn indexing_guard(is_indexing: bool) -> (r: Result<(), String>)
    ensures
        r is Ok <==> !is_indexing,
        r matches Err(e) ==> e@ == "Already indexing"@,
{
    if is_indexing {
        Err(String::from_str("Already indexing"))
    } else {
        Ok(())
    }
}

/// The combination a hotkey string stands for, or the message that names
/// the string as invalid.
pub fn hotkey_or_error(hotkey: &str) -> (r: Result<Hotkey, String>)
    ensures
        match r {
            Ok(h) => hotkey_of(hotkey@) == Some(h),
            Err(e) => hotkey_of(hotkey@) is None && e@ == "Invalid hotkey: '"@ + hotkey@ + "'"@,
        },
{
    match parse_hotkey(hotkey) {
        Some(h) => Ok(h),
        None => {
            let mut msg = String::from_str("Invalid hotkey: '");
            msg.append(hotkey);
            msg.append("'");
            Err(msg)
        },
    }
}

/// Whether closing the window hides it to the tray (else the application
/// exits): the saved setting, or yes when the settings cannot be read.
pub fn close_hides_window(minimize_to_tray: Option<bool>) -> (r: bool)
    ensures
        r == match minimize_to_tray {
            Some(b) => b,
            None => true,
        },
{
    match minimize_to_tray {
        Some(b) => b,
        None => true,
    }
}

/// What the application does as it starts.
pub struct StartupPlan {
    /// Index the configured folders now (on the first run only).
    pub index_now: bool,
    /// Re-index periodically, every so many seconds.
    pub reindex_every_secs: Option<u64>,
    /// Show the window instead of starting minimised.
    pub show_window: bool,
}

/// The start-up plan for the loaded settings: index at once on a first run,
/// re-index every `reindex_interval_hours` hours when that is set, and show
/// the window unless set to start minimised.
pub fn startup_plan(first_run: bool, settings: &Settings) -> (p: StartupPlan)
    ensures
        p.index_now == first_run,
        p.reindex_every_secs == if settings.reindex_interval_hours > 0 {
            Some((settings.reindex_interval_hours * 3600) as u64)
        } else {
            None
        },
        p.show_window == !settings.start_minimized,
{
    let reindex_every_secs = if settings.reindex_interval_hours > 0 {
        Some(settings.reindex_interval_hours as u64 * 3600)
    } else {
        None
    };
    StartupPlan { index_now: first_run, reindex_every_secs, show_window: !settings.start_minimized }
}

/// Whether a periodic re-index runs with the settings loaded at that time:
/// only while periodic re-indexing is still set.
pub fn periodic_reindex_enabled(settings: &Settings) -> (r: bool)
    ensures
        r == (settings.reindex_interval_hours > 0),
{
    settings.reindex_interval_hours > 0
}

} // verus!
