//! File records and the planning of searches over the SQLite index: which
//! query runs, with which SQL text and parameters, and when the substring
//! (`LIKE`) search stands in for the full-text (FTS5 trigram) one.
use vstd::prelude::*;
use vstd::utf8::encode_utf8;
use crate::text::{split_whitespace, str_equal, trim, trim_ws, views_of, white_space, word_len, words};

verus! {

/// One indexed file or folder.
#[derive(Debug, Clone)]
pub struct FileRecord {
    pub id: i64,
    pub path: String,
    pub filename: String,
    pub extension: Option<String>,
    pub size: Option<i64>,
    pub modified_time: Option<i64>,
    pub is_dir: bool,
}

/// A record by the characters of its strings.
pub ghost struct RecordView {
    pub id: i64,
    pub path: Seq<char>,
    pub filename: Seq<char>,
    pub extension: Option<Seq<char>>,
    pub size: Option<i64>,
    pub modified_time: Option<i64>,
    pub is_dir: bool,
}

impl View for FileRecord {
    type V = RecordView;

    open spec fn view(&self) -> RecordView {
        RecordView {
            id: self.id,
            path: self.path@,
            filename: self.filename@,
            extension: match self.extension {
                Some(e) => Some(e@),
                None => None,
            },
            size: self.size,
            modified_time: self.modified_time,
            is_dir: self.is_dir,
        }
    }
}

/// Builds a record from the columns of a result row; the `is_dir` column is
/// an integer and any non-zero value means a folder.
pub fn record_from_columns(
    id: i64,
    path: String,
    filename: String,
    extension: Option<String>,
    size: Option<i64>,
    modified_time: Option<i64>,
    is_dir_flag: i32,
) -> (r: FileRecord)
    ensures
        r.id == id,
        r.path == path,
        r.filename == filename,
        r.extension == extension,
        r.size == size,
        r.modified_time == modified_time,
        r.is_dir == (is_dir_flag != 0),
{
    FileRecord { id, path, filename, extension, size, modified_time, is_dir: is_dir_flag != 0 }
}

/// Number of bytes of the UTF-8 encoding of `s` (what `str::len` counts).
pub open spec fn byte_len(s: Seq<char>) -> nat {
    encode_utf8(s).len()
}

/// Size in bytes of a string's UTF-8 encoding.
fn utf8_len(s: &str) -> (n: usize)
    ensures
        n == byte_len(s@),
{
    broadcast use vstd::slice::group_slice_axioms;
    s.as_bytes().len()
}

/// The SQL condition that restricts a full-text search to one kind of file.
pub open spec fn filter_clause_fts(filter: Seq<char>) -> Seq<char> {
    if filter == "folder"@ {
        "AND f.is_dir = 1"@
    } else if filter == "video"@ {
        "AND lower(f.extension) IN ('mp4','mov','avi','mkv','webm','wmv','m4v','flv','ts','m2ts')"@
    } else if filter == "audio"@ {
        "AND lower(f.extension) IN ('mp3','wav','flac','aac','ogg','m4a','wma','opus')"@
    } else if filter == "image"@ {
        "AND lower(f.extension) IN ('jpg','jpeg','png','gif','webp','svg','bmp','ico','tiff','heic','raw')"@
    } else if filter == "doc"@ {
        "AND lower(f.extension) IN ('pdf','doc','docx','xls','xlsx','ppt','pptx','txt','md','csv','rtf')"@
    } else if filter == "archive"@ {
        "AND lower(f.extension) IN ('zip','rar','7z','tar','gz','bz2','xz')"@
    } else {
        ""@
    }
}

/// The SQL condition that restricts a substring search to one kind of file.
pub open spec fn filter_clause_like(filter: Seq<char>) -> Seq<char> {
    if filter == "folder"@ {
        "AND is_dir = 1"@
    } else if filter == "video"@ {
        "AND lower(extension) IN ('mp4','mov','avi','mkv','webm','wmv','m4v','flv','ts','m2ts')"@
    } else if filter == "audio"@ {
        "AND lower(extension) IN ('mp3','wav','flac','aac','ogg','m4a','wma','opus')"@
    } else if filter == "image"@ {
        "AND lower(extension) IN ('jpg','jpeg','png','gif','webp','svg','bmp','ico','tiff','heic','raw')"@
    } else if filter == "doc"@ {
        "AND lower(extension) IN ('pdf','doc','docx','xls','xlsx','ppt','pptx','txt','md','csv','rtf')"@
    } else if filter == "archive"@ {
        "AND lower(extension) IN ('zip','rar','7z','tar','gz','bz2','xz')"@
    } else {
        ""@
    }
}

/// The extensions a file-kind filter admits, as an SQL list; none for
/// `folder` and for unknown names.
pub open spec fn extension_list(filter: Seq<char>) -> Option<Seq<char>> {
    if filter == "video"@ {
        Some("('mp4','mov','avi','mkv','webm','wmv','m4v','flv','ts','m2ts')"@)
    } else if filter == "audio"@ {
        Some("('mp3','wav','flac','aac','ogg','m4a','wma','opus')"@)
    } else if filter == "image"@ {
        Some("('jpg','jpeg','png','gif','webp','svg','bmp','ico','tiff','heic','raw')"@)
    } else if filter == "doc"@ {
        Some("('pdf','doc','docx','xls','xlsx','ppt','pptx','txt','md','csv','rtf')"@)
    } else if filter == "archive"@ {
        Some("('zip','rar','7z','tar','gz','bz2','xz')"@)
    } else {
        None
    }
}

/// A file-kind condition with the columns qualified by `q` (`f.` in the
/// full-text query, nothing in the substring one).
pub open spec fn filter_clause_with(filter: Seq<char>, q: Seq<char>) -> Seq<char> {
    if filter == "folder"@ {
        "AND "@ + q + "is_dir = 1"@
    } else {
        match extension_list(filter) {
            Some(list) => "AND lower("@ + q + "extension) IN "@ + list,
            None => ""@,
        }
    }
}

/// Both searches restrict by the same file kinds with the same extension
/// lists: the substring query's condition is the full-text one without the
/// `f.` qualifier on its columns.
pub proof fn lemma_filter_clauses_agree(filter: Seq<char>)
    ensures
        filter_clause_fts(filter) == filter_clause_with(filter, "f."@),
        filter_clause_like(filter) == filter_clause_with(filter, ""@),
{
    reveal_strlit("f.");
    reveal_strlit("");
    reveal_strlit("AND ");
    reveal_strlit("is_dir = 1");
    reveal_strlit("AND lower(");
    reveal_strlit("extension) IN ");
    reveal_strlit("('mp4','mov','avi','mkv','webm','wmv','m4v','flv','ts','m2ts')");
    reveal_strlit("('mp3','wav','flac','aac','ogg','m4a','wma','opus')");
    reveal_strlit("('jpg','jpeg','png','gif','webp','svg','bmp','ico','tiff','heic','raw')");
    reveal_strlit("('pdf','doc','docx','xls','xlsx','ppt','pptx','txt','md','csv','rtf')");
    reveal_strlit("('zip','rar','7z','tar','gz','bz2','xz')");
    reveal_strlit("AND f.is_dir = 1");
    reveal_strlit("AND lower(f.extension) IN ('mp4','mov','avi','mkv','webm','wmv','m4v','flv','ts','m2ts')");
    reveal_strlit("AND lower(f.extension) IN ('mp3','wav','flac','aac','ogg','m4a','wma','opus')");
    reveal_strlit("AND lower(f.extension) IN ('jpg','jpeg','png','gif','webp','svg','bmp','ico','tiff','heic','raw')");
    reveal_strlit("AND lower(f.extension) IN ('pdf','doc','docx','xls','xlsx','ppt','pptx','txt','md','csv','rtf')");
    reveal_strlit("AND lower(f.extension) IN ('zip','rar','7z','tar','gz','bz2','xz')");
    reveal_strlit("AND is_dir = 1");
    reveal_strlit("AND lower(extension) IN ('mp4','mov','avi','mkv','webm','wmv','m4v','flv','ts','m2ts')");
    reveal_strlit("AND lower(extension) IN ('mp3','wav','flac','aac','ogg','m4a','wma','opus')");
    reveal_strlit("AND lower(extension) IN ('jpg','jpeg','png','gif','webp','svg','bmp','ico','tiff','heic','raw')");
    reveal_strlit("AND lower(extension) IN ('pdf','doc','docx','xls','xlsx','ppt','pptx','txt','md','csv','rtf')");
    reveal_strlit("AND lower(extension) IN ('zip','rar','7z','tar','gz','bz2','xz')");
    if filter == "folder"@ {
        assert(filter_clause_fts(filter) =~= filter_clause_with(filter, "f."@));
        assert(filter_clause_like(filter) =~= filter_clause_with(filter, ""@));
    } else if extension_list(filter) is Some {
        assert(filter_clause_fts(filter) =~= filter_clause_with(filter, "f."@));
        assert(filter_clause_like(filter) =~= filter_clause_with(filter, ""@));
    } else {
        assert(filter_clause_fts(filter) =~= filter_clause_with(filter, "f."@));
        assert(filter_clause_like(filter) =~= filter_clause_with(filter, ""@));
    }
}

/// The file-kind condition of the full-text query for a filter name; an
/// unknown name gives no condition.
pub fn filter_sql_fts(filter: &str) -> (r: &'static str)
    ensures
        r@ == filter_clause_fts(filter@),
{
    if str_equal(filter, "folder") {
        "AND f.is_dir = 1"
    } else if str_equal(filter, "video") {
        "AND lower(f.extension) IN ('mp4','mov','avi','mkv','webm','wmv','m4v','flv','ts','m2ts')"
    } else if str_equal(filter, "audio") {
        "AND lower(f.extension) IN ('mp3','wav','flac','aac','ogg','m4a','wma','opus')"
    } else if str_equal(filter, "image") {
        "AND lower(f.extension) IN ('jpg','jpeg','png','gif','webp','svg','bmp','ico','tiff','heic','raw')"
    } else if str_equal(filter, "doc") {
        "AND lower(f.extension) IN ('pdf','doc','docx','xls','xlsx','ppt','pptx','txt','md','csv','rtf')"
    } else if str_equal(filter, "archive") {
        "AND lower(f.extension) IN ('zip','rar','7z','tar','gz','bz2','xz')"
    } else {
        ""
    }
}

/// The file-kind condition of the substring query for a filter name; an
/// unknown name gives no condition.
pub fn filter_sql_like(filter: &str) -> (r: &'static str)
    ensures
        r@ == filter_clause_like(filter@),
{
    if str_equal(filter, "folder") {
        "AND is_dir = 1"
    } else if str_equal(filter, "video") {
        "AND lower(extension) IN ('mp4','mov','avi','mkv','webm','wmv','m4v','flv','ts','m2ts')"
    } else if str_equal(filter, "audio") {
        "AND lower(extension) IN ('mp3','wav','flac','aac','ogg','m4a','wma','opus')"
    } else if str_equal(filter, "image") {
        "AND lower(extension) IN ('jpg','jpeg','png','gif','webp','svg','bmp','ico','tiff','heic','raw')"
    } else if str_equal(filter, "doc") {
        "AND lower(extension) IN ('pdf','doc','docx','xls','xlsx','ppt','pptx','txt','md','csv','rtf')"
    } else if str_equal(filter, "archive") {
        "AND lower(extension) IN ('zip','rar','7z','tar','gz','bz2','xz')"
    } else {
        ""
    }
}

/// `w` with every double quote doubled, the escape FTS5 uses inside a
/// quoted string.
pub open spec fn escape_quotes(w: Seq<char>) -> Seq<char>
    decreases w.len(),
{
    if w.len() == 0 {
        seq![]
    } else {
        escape_quotes(w.drop_last()) + if w.last() == '"' {
            seq!['"', '"']
        } else {
            seq![w.last()]
        }
    }
}

/// `w` as an FTS5 string literal: escaped and wrapped in double quotes.
pub open spec fn quote_token(w: Seq<char>) -> Seq<char> {
    seq!['"'] + escape_quotes(w) + seq!['"']
}

proof fn lemma_escape_len(w: Seq<char>)
    ensures
        escape_quotes(w).len() >= w.len(),
        w.len() > 0 ==> escape_quotes(w).len() > 0,
    decreases w.len(),
{
    if w.len() > 0 {
        lemma_escape_len(w.drop_last());
    }
}

/// Escaping loses nothing: different words give different escaped forms,
/// so each quoted literal stands for exactly one word.
pub proof fn lemma_escape_injective(a: Seq<char>, b: Seq<char>)
    requires
        escape_quotes(a) == escape_quotes(b),
    ensures
        a == b,
    decreases a.len() + b.len(),
{
    lemma_escape_len(a);
    lemma_escape_len(b);
    if a.len() == 0 || b.len() == 0 {
        assert(a.len() == 0 && b.len() == 0);
        assert(a =~= b);
    } else {
        let ea = escape_quotes(a.drop_last());
        let eb = escape_quotes(b.drop_last());
        let ta = if a.last() == '"' { seq!['"', '"'] } else { seq![a.last()] };
        let tb = if b.last() == '"' { seq!['"', '"'] } else { seq![b.last()] };
        let e = escape_quotes(a);
        assert(e == ea + ta);
        assert(e == eb + tb);
        assert(e.last() == ta.last());
        assert(e.last() == tb.last());
        if a.last() == '"' {
            assert(b.last() == '"');
        } else {
            assert(b.last() != '"');
        }
        assert(ta == tb);
        assert(ea =~= e.subrange(0, e.len() - ta.len()));
        assert(eb =~= e.subrange(0, e.len() - tb.len()));
        lemma_escape_injective(a.drop_last(), b.drop_last());
        assert(a =~= a.drop_last().push(a.last()));
        assert(b =~= b.drop_last().push(b.last()));
    }
}

/// The quoted forms of the words of at least three bytes, in order.
pub open spec fn quoted_long_words(ws: Seq<Seq<char>>) -> Seq<Seq<char>>
    decreases ws.len(),
{
    if ws.len() == 0 {
        seq![]
    } else if byte_len(ws.last()) >= 3 {
        quoted_long_words(ws.drop_last()).push(quote_token(ws.last()))
    } else {
        quoted_long_words(ws.drop_last())
    }
}

/// The pieces joined with single spaces between them.
pub open spec fn join_spaced(ts: Seq<Seq<char>>) -> Seq<char>
    decreases ts.len(),
{
    if ts.len() == 0 {
        seq![]
    } else if ts.len() == 1 {
        ts[0]
    } else {
        join_spaced(ts.drop_last()) + seq![' '] + ts.last()
    }
}

/// The FTS5 match expression for a query: every whitespace-separated word
/// of at least three bytes (the trigram tokenizer's minimum), as a quoted
/// literal, the literals separated by spaces.
pub open spec fn fts_match_expr(query: Seq<char>) -> Seq<char> {
    join_spaced(quoted_long_words(words(query)))
}

proof fn lemma_word_len_before_space(a: Seq<char>, b: Seq<char>)
    ensures
        word_len(a + seq![' '] + b) == word_len(a),
    decreases a.len(),
{
    let s = a + seq![' '] + b;
    if a.len() == 0 {
        assert(s[0] == ' ');
    } else {
        assert(s[0] == a[0]);
        if !white_space(a[0]) {
            assert(s.drop_first() =~= a.drop_first() + seq![' '] + b);
            lemma_word_len_before_space(a.drop_first(), b);
        }
    }
}

/// The words of two texts joined by a space are the words of the first
/// followed by those of the second.
pub proof fn lemma_words_concat(a: Seq<char>, b: Seq<char>)
    ensures
        words(a + seq![' '] + b) == words(a) + words(b),
    decreases a.len(),
{
    let s = a + seq![' '] + b;
    if a.len() == 0 {
        assert(s[0] == ' ');
        assert(s.drop_first() =~= b);
        assert(words(a) =~= Seq::<Seq<char>>::empty());
        assert(words(s) =~= words(a) + words(b));
    } else if white_space(a[0]) {
        assert(s[0] == a[0]);
        assert(s.drop_first() =~= a.drop_first() + seq![' '] + b);
        lemma_words_concat(a.drop_first(), b);
    } else {
        assert(s[0] == a[0]);
        lemma_word_len_before_space(a, b);
        crate::text::lemma_word_len_bound(a);
        let n = word_len(a) as int;
        assert(s.take(n) =~= a.take(n));
        assert(s.skip(n) =~= a.skip(n) + seq![' '] + b);
        lemma_words_concat(a.skip(n), b);
        assert(words(s) =~= words(a) + words(b));
    }
}

proof fn lemma_quoted_concat(x: Seq<Seq<char>>, y: Seq<Seq<char>>)
    ensures
        quoted_long_words(x + y) == quoted_long_words(x) + quoted_long_words(y),
    decreases y.len(),
{
    if y.len() == 0 {
        assert(x + y =~= x);
        assert(quoted_long_words(x) + quoted_long_words(y) =~= quoted_long_words(x));
    } else {
        assert((x + y).drop_last() =~= x + y.drop_last());
        assert((x + y).last() == y.last());
        lemma_quoted_concat(x, y.drop_last());
        assert(quoted_long_words(x + y) =~= quoted_long_words(x) + quoted_long_words(y));
    }
}

/// Two texts joined by a space: empty pieces are left out, others are
/// joined with a space.
pub open spec fn join_nonempty(x: Seq<char>, y: Seq<char>) -> Seq<char> {
    if x.len() == 0 {
        y
    } else if y.len() == 0 {
        x
    } else {
        x + seq![' '] + y
    }
}

proof fn lemma_join_concat(t1: Seq<Seq<char>>, t2: Seq<Seq<char>>)
    ensures
        join_spaced(t1 + t2) == if t1.len() == 0 {
            join_spaced(t2)
        } else if t2.len() == 0 {
            join_spaced(t1)
        } else {
            join_spaced(t1) + seq![' '] + join_spaced(t2)
        },
    decreases t2.len(),
{
    if t2.len() == 0 {
        assert(t1 + t2 =~= t1);
    } else if t1.len() == 0 {
        assert(t1 + t2 =~= t2);
    } else {
        let t = t1 + t2;
        assert(t.drop_last() =~= t1 + t2.drop_last());
        assert(t.last() == t2.last());
        if t2.len() == 1 {
            assert(t2.drop_last() =~= Seq::<Seq<char>>::empty());
            assert(t1 + t2.drop_last() =~= t1);
        } else {
            lemma_join_concat(t1, t2.drop_last());
        }
    }
}

proof fn lemma_quoted_nonempty(ws: Seq<Seq<char>>)
    ensures
        forall|i: int| 0 <= i < quoted_long_words(ws).len() ==> #[trigger] quoted_long_words(ws)[i].len() >= 2,
    decreases ws.len(),
{
    if ws.len() > 0 {
        lemma_quoted_nonempty(ws.drop_last());
        let prev = quoted_long_words(ws.drop_last());
        let cur = quoted_long_words(ws);
        if byte_len(ws.last()) >= 3 {
            let qt = quote_token(ws.last());
            assert(qt.len() >= 2);
            assert forall|i: int| 0 <= i < cur.len() implies #[trigger] cur[i].len() >= 2 by {
                if i < prev.len() {
                    assert(cur[i] == prev[i]);
                } else {
                    assert(cur[i] == qt);
                }
            }
        }
    }
}

proof fn lemma_join_empty(t: Seq<Seq<char>>)
    requires
        forall|i: int| 0 <= i < t.len() ==> #[trigger] t[i].len() >= 2,
    ensures
        join_spaced(t).len() == 0 <==> t.len() == 0,
{
    if t.len() >= 2 {
        assert(t[t.len() - 1].len() >= 2);
    } else if t.len() == 1 {
        assert(t[0].len() >= 2);
    }
}

/// The match expression depends only on the words of the query; and for two
/// texts joined by a space it is the two match expressions joined by a
/// space, an empty one left out.
pub proof fn lemma_fts_query_by_words(a: Seq<char>, b: Seq<char>)
    ensures
        words(a) == words(b) ==> fts_match_expr(a) == fts_match_expr(b),
        fts_match_expr(a + seq![' '] + b) == join_nonempty(fts_match_expr(a), fts_match_expr(b)),
{
    lemma_words_concat(a, b);
    let qa = quoted_long_words(words(a));
    let qb = quoted_long_words(words(b));
    lemma_quoted_concat(words(a), words(b));
    lemma_join_concat(qa, qb);
    lemma_quoted_nonempty(words(a));
    lemma_quoted_nonempty(words(b));
    lemma_join_empty(qa);
    lemma_join_empty(qb);
}

/// Appends `w` to `out` with every double quote doubled.
fn append_escaped(out: &mut String, w: &str)
    ensures
        final(out)@ == old(out)@ + escape_quotes(w@),
{
    let cs = crate::text::chars_of(w);
    let n: usize = cs.len();
    let mut k: usize = 0;
    proof {
        reveal_strlit("\"\"");
        assert(w@.take(0) =~= Seq::<char>::empty());
        assert(out@ =~= old(out)@ + escape_quotes(w@.take(0)));
    }
    while k < n
        invariant
            cs@ == w@,
            n == w@.len(),
            k <= n,
            out@ == old(out)@ + escape_quotes(w@.take(k as int)),
        decreases n - k,
    {
        proof {
            reveal_strlit("\"\"");
            assert(w@.take(k + 1).drop_last() =~= w@.take(k as int));
            assert(w@.take(k + 1).last() == w@[k as int]);
        }
        if cs[k] == '"' {
            out.append("\"\"");
        } else {
            let one = w.substring_char(k, k + 1);
            assert(one@ =~= seq![w@[k as int]]);
            out.append(one);
        }
        k = k + 1;
        assert(out@ =~= old(out)@ + escape_quotes(w@.take(k as int)));
    }
    assert(w@.take(n as int) =~= w@);
}

/// Wraps each whitespace-separated word in double quotes (doubling the
/// quotes inside it) so that FTS5 takes it as a literal substring and not as
/// an operator; words shorter than three bytes are left out.
pub fn build_fts_query(query: &str) -> (r: String)
    ensures
        r@ == fts_match_expr(query@),
{
    let ws = split_whitespace(query);
    let ghost wv = views_of(ws@);
    let mut out = String::new();
    let mut count: usize = 0;
    let mut i: usize = 0;
    proof {
        assert(wv.take(0) =~= Seq::<Seq<char>>::empty());
    }
    while i < ws.len()
        invariant
            wv == views_of(ws@),
            wv == words(query@),
            i <= ws.len(),
            count == quoted_long_words(wv.take(i as int)).len(),
            count <= i,
            out@ == join_spaced(quoted_long_words(wv.take(i as int))),
        decreases ws.len() - i,
    {
        let w = ws[i];
        let ghost before = quoted_long_words(wv.take(i as int));
        proof {
            assert(wv.take(i + 1).drop_last() =~= wv.take(i as int));
            assert(wv.take(i + 1).last() == w@);
        }
        if utf8_len(w) >= 3 {
            let ghost base = out@;
            if count > 0 {
                out.append(" ");
            }
            out.append("\"");
            append_escaped(&mut out, w);
            out.append("\"");
            proof {
                reveal_strlit(" ");
                reveal_strlit("\"");
                let after = before.push(quote_token(w@));
                assert(after.drop_last() =~= before);
                if count > 0 {
                    assert(out@ =~= base + seq![' '] + quote_token(w@));
                } else {
                    assert(out@ =~= quote_token(w@));
                }
                assert(out@ == join_spaced(after));
            }
            count = count + 1;
        }
        i = i + 1;
    }
    proof {
        assert(wv.take(ws.len() as int) =~= wv);
    }
    out
}

/// Head of the full-text query, up to the file-kind condition.
pub const FTS_SQL_HEAD: &'static str = "SELECT f.id, f.path, f.filename, f.extension, f.size, f.modified_time, f.is_dir\n         FROM files_fts\n         JOIN files f ON files_fts.rowid = f.id\n         WHERE files_fts MATCH ?1\n         ";

/// Tail of the full-text query, after the file-kind condition.
pub const FTS_SQL_TAIL: &'static str = "\n         ORDER BY rank\n         LIMIT ?2";

/// Head of the substring query, up to the file-kind condition.
pub const LIKE_SQL_HEAD: &'static str = "SELECT id, path, filename, extension, size, modified_time, is_dir\n         FROM files WHERE filename LIKE ?1 ";

/// Tail of the substring query, after the file-kind condition.
pub const LIKE_SQL_TAIL: &'static str = " ORDER BY filename LIMIT ?2";

/// The full-text query text for a filter name.
pub open spec fn fts_sql(filter: Seq<char>) -> Seq<char> {
    FTS_SQL_HEAD@ + filter_clause_fts(filter) + FTS_SQL_TAIL@
}

/// The substring query text for a filter name.
pub open spec fn like_sql(filter: Seq<char>) -> Seq<char> {
    LIKE_SQL_HEAD@ + filter_clause_like(filter) + LIKE_SQL_TAIL@
}

/// The `LIKE` pattern that matches file names containing `q`.
pub open spec fn like_pattern(q: Seq<char>) -> Seq<char> {
    seq!['%'] + q + seq!['%']
}

/// The next thing a search does: return rows, or run one of the two queries
/// with its SQL text, first parameter and row limit.
pub enum SearchStep {
    Finished(Vec<FileRecord>),
    RunFts { sql: String, match_expr: String, limit: i64 },
    RunLike { sql: String, pattern: String, limit: i64 },
}

/// Whether `step` is the substring query for the (trimmed) query `q`.
pub open spec fn is_like_step(step: SearchStep, q: Seq<char>, limit: usize, filter: Seq<char>) -> bool {
    step matches SearchStep::RunLike { sql, pattern, limit: l } && sql@ == like_sql(filter)
        && pattern@ == like_pattern(q) && l == limit as i64
}

/// Whether `step` is the full-text query for the (trimmed) query `q`.
pub open spec fn is_fts_step(step: SearchStep, q: Seq<char>, limit: usize, filter: Seq<char>) -> bool {
    step matches SearchStep::RunFts { sql, match_expr, limit: l } && sql@ == fts_sql(filter)
        && match_expr@ == fts_match_expr(q) && l == limit as i64
}

/// Whether the full-text query is the one to try first for the trimmed query
/// `q`: it has at least three bytes and at least one word long enough.
pub open spec fn uses_fts(q: Seq<char>) -> bool {
    byte_len(q) >= 3 && fts_match_expr(q).len() > 0
}

fn like_step(q: &str, limit: usize, filter: &str) -> (r: SearchStep)
    ensures
        is_like_step(r, q@, limit, filter@),
{
    let mut sql = String::from_str(LIKE_SQL_HEAD);
    sql.append(filter_sql_like(filter));
    sql.append(LIKE_SQL_TAIL);
    let mut pattern = String::from_str("%");
    pattern.append(q);
    pattern.append("%");
    proof {
        reveal_strlit("%");
        assert(pattern@ =~= like_pattern(q@));
    }
    SearchStep::RunLike { sql, pattern, limit: limit as i64 }
}

/// Starts a search. A query that is empty once trimmed gives no rows without
/// touching the index; one under three bytes, or without a word of three
/// bytes, runs the substring query; any other runs the full-text query.
pub fn search_start(query: &str, limit: usize, filter: &str) -> (r: SearchStep)
    ensures
        ({
            let q = trim_ws(query@);
            &&& (r is Finished) <==> q.len() == 0
            &&& r matches SearchStep::Finished(rows) ==> rows@.len() == 0
            &&& q.len() > 0 && uses_fts(q) ==> is_fts_step(r, q, limit, filter@)
            &&& q.len() > 0 && !uses_fts(q) ==> is_like_step(r, q, limit, filter@)
        }),
{
    let q = trim(query);
    if q.unicode_len() == 0 {
        return SearchStep::Finished(Vec::new());
    }
    if utf8_len(q) < 3 {
        return like_step(q, limit, filter);
    }
    let match_expr = build_fts_query(q);
    if match_expr.as_str().unicode_len() == 0 {
        return like_step(q, limit, filter);
    }
    let mut sql = String::from_str(FTS_SQL_HEAD);
    sql.append(filter_sql_fts(filter));
    sql.append(FTS_SQL_TAIL);
    SearchStep::RunFts { sql, match_expr, limit: limit as i64 }
}

/// Continues a search once the full-text query has returned `rows`: rows are
/// returned as they are; no row at all makes the substring query run instead.
pub fn search_after_fts(query: &str, limit: usize, filter: &str, rows: Vec<FileRecord>) -> (r:
    SearchStep)
    ensures
        rows@.len() > 0 ==> r == SearchStep::Finished(rows),
        rows@.len() == 0 ==> is_like_step(r, trim_ws(query@), limit, filter@),
{
    if rows.len() > 0 {
        SearchStep::Finished(rows)
    } else {
        like_step(trim(query), limit, filter)
    }
}

} // verus!
