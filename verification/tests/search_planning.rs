use locafetch::db::{
    build_fts_query, filter_sql_fts, filter_sql_like, record_from_columns, search_after_fts,
    search_start, FileRecord, SearchStep, FTS_SQL_HEAD, FTS_SQL_TAIL, LIKE_SQL_HEAD,
    LIKE_SQL_TAIL,
};

fn record(path: &str) -> FileRecord {
    record_from_columns(1, path.to_string(), "f".to_string(), None, None, None, 0)
}

#[test]
fn fts_filter_clauses() {
    assert_eq!(filter_sql_fts("folder"), "AND f.is_dir = 1");
    assert_eq!(
        filter_sql_fts("archive"),
        "AND lower(f.extension) IN ('zip','rar','7z','tar','gz','bz2','xz')"
    );
    assert_eq!(filter_sql_fts("all"), "");
    assert_eq!(filter_sql_fts("Folder"), "");
}

#[test]
fn like_filter_clauses() {
    assert_eq!(filter_sql_like("folder"), "AND is_dir = 1");
    assert_eq!(
        filter_sql_like("audio"),
        "AND lower(extension) IN ('mp3','wav','flac','aac','ogg','m4a','wma','opus')"
    );
    assert_eq!(filter_sql_like(""), "");
}

#[test]
fn fts_query_quotes_each_word() {
    assert_eq!(build_fts_query("foo bar baz"), "\"foo\" \"bar\" \"baz\"");
    assert_eq!(build_fts_query("  report\t2024  "), "\"report\" \"2024\"");
}

#[test]
fn fts_query_drops_short_words() {
    assert_eq!(build_fts_query("a bc defg"), "\"defg\"");
    assert_eq!(build_fts_query("ab cd"), "");
    assert_eq!(build_fts_query(""), "");
}

#[test]
fn fts_query_counts_bytes_not_chars() {
    // "éa" is two characters but three bytes.
    assert_eq!(build_fts_query("éa xy"), "\"éa\"");
}

#[test]
fn fts_query_doubles_quotes() {
    assert_eq!(
        build_fts_query("say \"hi\" now"),
        "\"say\" \"\"\"hi\"\"\" \"now\""
    );
}

#[test]
fn distinct_words_give_distinct_literals() {
    assert_eq!(build_fts_query("ab\"c"), "\"ab\"\"c\"");
    assert_eq!(build_fts_query("ab\"\"c"), "\"ab\"\"\"\"c\"");
    assert_ne!(build_fts_query("ab\"c"), build_fts_query("ab\"\"c"));
}

#[test]
fn blank_query_finishes_without_rows() {
    match search_start("   ", 50, "") {
        SearchStep::Finished(rows) => assert!(rows.is_empty()),
        _ => panic!("a blank query must not reach the index"),
    }
    assert!(matches!(search_start("", 50, "doc"), SearchStep::Finished(_)));
}

#[test]
fn short_query_uses_like() {
    match search_start(" ab ", 50, "doc") {
        SearchStep::RunLike { sql, pattern, limit } => {
            assert_eq!(
                sql,
                format!("{}{}{}", LIKE_SQL_HEAD, filter_sql_like("doc"), LIKE_SQL_TAIL)
            );
            assert_eq!(pattern, "%ab%");
            assert_eq!(limit, 50);
        }
        _ => panic!("expected the substring query"),
    }
}

#[test]
fn long_query_without_long_word_uses_like() {
    match search_start("ab cd ef", 7, "") {
        SearchStep::RunLike { pattern, limit, .. } => {
            assert_eq!(pattern, "%ab cd ef%");
            assert_eq!(limit, 7);
        }
        _ => panic!("expected the substring query"),
    }
}

#[test]
fn long_query_uses_fts() {
    match search_start("  quarterly report ", 10, "folder") {
        SearchStep::RunFts { sql, match_expr, limit } => {
            assert_eq!(match_expr, "\"quarterly\" \"report\"");
            assert_eq!(
                sql,
                format!("{}AND f.is_dir = 1{}", FTS_SQL_HEAD, FTS_SQL_TAIL)
            );
            assert!(sql.contains("WHERE files_fts MATCH ?1"));
            assert_eq!(limit, 10);
        }
        _ => panic!("expected the full-text query"),
    }
}

#[test]
fn empty_fts_result_falls_back_to_like() {
    match search_after_fts(" invoice ", 50, "image", Vec::new()) {
        SearchStep::RunLike { sql, pattern, limit } => {
            assert_eq!(pattern, "%invoice%");
            assert!(sql.contains("lower(extension) IN ('jpg'"));
            assert_eq!(limit, 50);
        }
        _ => panic!("expected the substring fallback"),
    }
}

#[test]
fn fts_rows_are_returned_unchanged() {
    let rows = vec![record("C:\\a.txt"), record("C:\\b.txt")];
    match search_after_fts("invoice", 50, "", rows) {
        SearchStep::Finished(out) => {
            assert_eq!(out.len(), 2);
            assert_eq!(out[0].path, "C:\\a.txt");
            assert_eq!(out[1].path, "C:\\b.txt");
        }
        _ => panic!("rows must be returned"),
    }
}

#[test]
fn row_columns_make_a_record() {
    let r = record_from_columns(
        9,
        "C:\\x\\song.mp3".to_string(),
        "song.mp3".to_string(),
        Some("mp3".to_string()),
        Some(1234),
        Some(1700000000),
        0,
    );
    assert_eq!(r.id, 9);
    assert_eq!(r.extension.as_deref(), Some("mp3"));
    assert_eq!(r.size, Some(1234));
    assert_eq!(r.modified_time, Some(1700000000));
    assert!(!r.is_dir);
    assert!(record_from_columns(1, String::new(), String::new(), None, None, None, 1).is_dir);
    assert!(record_from_columns(1, String::new(), String::new(), None, None, None, -3).is_dir);
}

#[test]
fn like_clause_is_fts_clause_unqualified() {
    for f in ["folder", "video", "audio", "image", "doc", "archive", "other", ""] {
        assert_eq!(filter_sql_like(f), filter_sql_fts(f).replace("f.", ""));
    }
}

#[test]
fn fts_query_of_joined_text() {
    let cases = [("report q3", "final draft"), ("ab", "invoice"), ("annual", "x y"), ("a", "b")];
    for (a, b) in cases {
        let joined = build_fts_query(&format!("{} {}", a, b));
        let (fa, fb) = (build_fts_query(a), build_fts_query(b));
        let expected = match (fa.is_empty(), fb.is_empty()) {
            (true, _) => fb,
            (_, true) => fa,
            _ => format!("{} {}", fa, fb),
        };
        assert_eq!(joined, expected);
    }
    assert_eq!(build_fts_query("  alpha\tbeta "), build_fts_query("alpha beta"));
}
