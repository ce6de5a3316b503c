//! Turning a user's search text and filters into an FTS5 query and the SQL
//! that runs it.

use vstd::prelude::*;
use crate::text::{
    chars_of, decimal, is_alphanumeric, push_char, push_decimal, split_words, string_from_range, trim, trim_bounds,
    unicode_alphanumeric, words,
};

verus! {

broadcast use vstd::string::group_string_axioms;

/// Characters kept in a search term: Unicode letters and digits and `_`,
/// the characters of an FTS5 bareword; everything else has a meaning in
/// FTS5 syntax.
pub open spec fn is_fts_term_char(c: char) -> bool {
    unicode_alphanumeric(c) || c == '_'
}

/// `s` with every character that is not a term character removed.
pub open spec fn fts_term(s: Seq<char>) -> Seq<char>
    decreases s.len(),
{
    if s.len() == 0 {
        seq![]
    } else if is_fts_term_char(s.last()) {
        fts_term(s.drop_last()).push(s.last())
    } else {
        fts_term(s.drop_last())
    }
}

/// `parts` joined with `sep` between neighbours.
pub open spec fn join_with(parts: Seq<Seq<char>>, sep: Seq<char>) -> Seq<char>
    decreases parts.len(),
{
    if parts.len() == 0 {
        seq![]
    } else if parts.len() == 1 {
        parts[0]
    } else {
        join_with(parts.drop_last(), sep) + sep + parts.last()
    }
}

/// The escaped words of a query, in order, leaving out those that escape
/// to nothing.
pub open spec fn escaped_terms(ws: Seq<Seq<char>>) -> Seq<Seq<char>>
    decreases ws.len(),
{
    if ws.len() == 0 {
        seq![]
    } else {
        let prev = escaped_terms(ws.drop_last());
        let t = fts_term(ws.last());
        if t.len() == 0 {
            prev
        } else {
            prev.push(t)
        }
    }
}

/// The terms of a query with the last one marked for prefix matching.
pub open spec fn query_terms(ts: Seq<Seq<char>>) -> Seq<Seq<char>> {
    Seq::new(
        ts.len(),
        |i: int|
            if i == ts.len() - 1 {
                ts[i].push('*')
            } else {
                ts[i]
            },
    )
}

/// The tokens of the FTS5 query for a text that holds no double quote.
pub open spec fn query_parts(t: Seq<char>) -> Seq<Seq<char>> {
    query_terms(escaped_terms(words(t)))
}

/// The FTS5 query for the user's text `q`: a trimmed text that contains a
/// double quote is passed through as a phrase search; otherwise the words,
/// escaped and without those that escape to nothing, are joined with spaces
/// (an implicit AND) and the last one gets a `*` for prefix matching; no
/// terms give the empty query.
pub open spec fn sanitized_query(q: Seq<char>) -> Seq<char> {
    let t = trim(q);
    if t.contains('"') {
        t
    } else {
        join_with(query_parts(t), seq![' '])
    }
}

/// Removes the characters that are special in FTS5 syntax from a term.
pub fn escape_fts_term(term: &str) -> (r: String)
    ensures
        r@ == fts_term(term@),
{
    let v = chars_of(term);
    let mut out = String::new();
    let mut i: usize = 0;
    while i < v.len()
        invariant
            i <= v.len(),
            out@ == fts_term(v@.take(i as int)),
        decreases v.len() - i,
    {
        let c = v[i];
        assert(v@.take(i + 1).drop_last() =~= v@.take(i as int));
        if is_alphanumeric(c) || c == '_' {
            push_char(&mut out, c);
        }
        i = i + 1;
    }
    assert(v@.take(v.len() as int) =~= v@);
    out
}

fn has_quote(v: &Vec<char>) -> (r: bool)
    ensures
        r == v@.contains('"'),
{
    let mut i: usize = 0;
    while i < v.len()
        invariant
            i <= v.len(),
            forall|k: int| 0 <= k < i ==> v@[k] != '"',
        decreases v.len() - i,
    {
        if v[i] == '"' {
            assert(v@[i as int] == '"');
            return true;
        }
        i = i + 1;
    }
    false
}

/// Sanitizes the user's search text for FTS5: a text with double quotes is
/// passed through as a phrase search; otherwise the words are escaped and
/// AND-ed, the last one with prefix matching.
pub fn sanitize_fts_query(query: &str) -> (r: String)
    ensures
        r@ == sanitized_query(query@),
{
    let v = chars_of(query);
    let (s, e) = trim_bounds(&v);
    let mut t: Vec<char> = Vec::new();
    let mut i = s;
    while i < e
        invariant
            s <= i <= e <= v.len(),
            t@ == v@.subrange(s as int, i as int),
        decreases e - i,
    {
        t.push(v[i]);
        i = i + 1;
        assert(t@ =~= v@.subrange(s as int, i as int));
    }
    if has_quote(&t) {
        return string_from_range(&v, s, e);
    }
    let ws = split_words(&t);
    let n = ws.len();
    let ghost all = words(t@);
    let mut found: Vec<String> = Vec::new();
    let mut k: usize = 0;
    while k < n
        invariant
            n == ws@.len() == all.len(),
            all == words(t@),
            k <= n,
            forall|j: int| 0 <= j < n ==> #[trigger] ws@[j]@ == all[j],
            found@.len() == escaped_terms(all.take(k as int)).len(),
            forall|j: int|
                0 <= j < found@.len() ==> #[trigger] found@[j]@ == escaped_terms(
                    all.take(k as int),
                )[j],
        decreases n - k,
    {
        let w = string_from_range(&ws[k], 0, ws[k].len());
        assert(ws@[k as int]@.subrange(0, ws@[k as int]@.len() as int) =~= ws@[k as int]@);
        let term = escape_fts_term(w.as_str());
        assert(all.take(k + 1).drop_last() =~= all.take(k as int));
        assert(all.take(k + 1).last() == all[k as int]);
        if !term.as_str().is_empty() {
            found.push(term);
        }
        k = k + 1;
    }
    assert(all.take(n as int) =~= all);
    let ghost terms = escaped_terms(all);
    let ghost parts = query_terms(terms);
    let m = found.len();
    let mut out = String::new();
    let mut k: usize = 0;
    while k < m
        invariant
            m == found@.len() == terms.len() == parts.len(),
            parts == query_terms(terms),
            k <= m,
            forall|j: int| 0 <= j < m ==> #[trigger] found@[j]@ == terms[j],
            out@ == join_with(parts.take(k as int), seq![' ']),
        decreases m - k,
    {
        let mut term = String::from_str(found[k].as_str());
        if k == m - 1 {
            push_char(&mut term, '*');
        }
        assert(parts[k as int] == (if k == m - 1 {
            terms[k as int].push('*')
        } else {
            terms[k as int]
        }));
        assert(term@ == parts[k as int]);
        assert(parts.take(k + 1).drop_last() =~= parts.take(k as int));
        if k > 0 {
            push_char(&mut out, ' ');
        }
        out.append(term.as_str());
        proof {
            if k > 0 {
                assert(out@ =~= join_with(parts.take(k as int), seq![' ']) + seq![' '] + parts[k as int]);
            } else {
                assert(out@ =~= parts.take(1)[0]);
            }
        }
        k = k + 1;
    }
    assert(parts.take(m as int) =~= parts);
    out
}

} // verus!

verus! {

/// A value bound to a `?N` parameter of a statement.
pub enum SqlValue {
    Text(String),
    Integer(i64),
}

/// Everything needed to run one search: the FTS5 query, the filter
/// parameters in placeholder order (`?1` is the query, then the extensions,
/// then the root id), the counting statement and the ranked result
/// statement, whose two last placeholders take `limit` and `offset`.
pub struct SearchPlan {
    pub fts_query: String,
    pub params: Vec<SqlValue>,
    pub count_sql: String,
    pub results_sql: String,
    pub limit: i64,
    pub offset: i64,
}

/// `?` followed by the decimal index `i`.
pub open spec fn placeholder(i: nat) -> Seq<char> {
    seq!['?'] + decimal(i)
}

/// How many extension filters apply: none for an absent or empty list.
pub open spec fn extension_count(extensions: Option<Vec<String>>) -> nat {
    match extensions {
        Some(v) => v.len() as nat,
        None => 0,
    }
}

/// How many extension filters apply: none for an absent or empty list.
pub fn extension_count_of(extensions: &Option<Vec<String>>) -> (r: usize)
    ensures
        r == extension_count(*extensions),
{
    match extensions {
        Some(v) => v.len(),
        None => 0,
    }
}

/// The `AND f.extension IN (?2, ?3, ...)` clause for `n` extensions.
pub open spec fn extension_clause(n: nat) -> Seq<char> {
    if n == 0 {
        seq![]
    } else {
        " AND f.extension IN ("@ + join_with(
            Seq::new(n, |i: int| placeholder((i + 2) as nat)),
            ", "@,
        ) + ")"@
    }
}

/// The `AND f.root_id = ?k` clause, present when a root is chosen.
pub open spec fn root_clause(root_id: Option<i64>, index: nat) -> Seq<char> {
    match root_id {
        Some(_) => " AND f.root_id = "@ + placeholder(index),
        None => seq![],
    }
}

/// The filter conditions added to both statements.
pub open spec fn filter_clause(n: nat, root_id: Option<i64>) -> Seq<char> {
    extension_clause(n) + root_clause(root_id, n + 2)
}

/// The number of filter parameters: the query, the extensions, the root.
pub open spec fn filter_param_count(n: nat, root_id: Option<i64>) -> nat {
    1 + n + if root_id is Some {
        1nat
    } else {
        0nat
    }
}

/// The statement that counts all matches.
pub open spec fn count_sql_for(filters: Seq<char>) -> Seq<char> {
    "SELECT COUNT(*)
         FROM files_fts
         JOIN files f ON f.id = files_fts.file_id
         WHERE files_fts MATCH ?1
           AND f.is_deleted = 0
           "@ + filters
}

/// The statement that returns one page of ranked matches with snippets;
/// filename matches weigh 10, path matches 5, content matches 1.
pub open spec fn results_sql_for(filters: Seq<char>, param_count: nat) -> Seq<char> {
    "SELECT
            f.id,
            f.path,
            f.filename,
            f.extension,
            f.size_bytes,
            f.modified_at_fs,
            snippet(files_fts, 2, '<mark>', '</mark>', '...', 48) as snippet,
            bm25(files_fts, 10.0, 5.0, 1.0) as rank"@ + "
        FROM files_fts
        JOIN files f ON f.id = files_fts.file_id
        WHERE files_fts MATCH ?1
            AND f.is_deleted = 0
            "@ + filters + "
        ORDER BY rank
        LIMIT "@ + placeholder(param_count + 1) + " OFFSET "@ + placeholder(param_count + 2)
}

/// Whether `v` binds the text `s`.
pub open spec fn binds_text(v: SqlValue, s: Seq<char>) -> bool {
    v matches SqlValue::Text(t) && t@ == s
}

fn push_placeholder(s: &mut String, i: usize)
    ensures
        final(s)@ == old(s)@ + placeholder(i as nat),
{
    push_char(s, '?');
    push_decimal(s, i as u64);
    assert(final(s)@ =~= old(s)@ + placeholder(i as nat));
}

fn extension_clause_text(n: usize) -> (r: String)
    requires
        n + 2 <= usize::MAX,
    ensures
        r@ == extension_clause(n as nat),
{
    if n == 0 {
        return String::new();
    }
    let ghost parts = Seq::new(n as nat, |i: int| placeholder((i + 2) as nat));
    let mut list = String::new();
    let mut i: usize = 0;
    while i < n
        invariant
            0 < n,
            n + 2 <= usize::MAX,
            i <= n,
            parts == Seq::new(n as nat, |i: int| placeholder((i + 2) as nat)),
            list@ == join_with(parts.take(i as int), ", "@),
        decreases n - i,
    {
        let ghost before = list@;
        if i > 0 {
            list.append(", ");
        }
        push_placeholder(&mut list, i + 2);
        proof {
            assert(parts.take(i + 1).drop_last() =~= parts.take(i as int));
            if i > 0 {
                assert(list@ =~= join_with(parts.take(i as int), ", "@) + ", "@ + parts[i as int]);
            } else {
                assert(list@ =~= parts.take(1)[0]);
            }
        }
        i = i + 1;
    }
    assert(parts.take(n as int) =~= parts);
    let mut r = String::from_str(" AND f.extension IN (");
    r.append(list.as_str());
    r.append(")");
    r
}

/// Builds the statements and parameters for a search, or `None` when the
/// trimmed search text is empty (the search then has no results and touches
/// no database).
pub fn plan_search(
    query: &str,
    extensions: &Option<Vec<String>>,
    root_id: &Option<i64>,
    limit: i64,
    offset: i64,
) -> (r: Option<SearchPlan>)
    requires
        extension_count(*extensions) + 4 <= usize::MAX,
    ensures
        r is None <==> trim(query@).len() == 0,
        r matches Some(p) ==> {
            let n = extension_count(*extensions);
            let filters = filter_clause(n, *root_id);
            let k = filter_param_count(n, *root_id);
            &&& p.fts_query@ == sanitized_query(query@)
            &&& p.params@.len() == k
            &&& binds_text(p.params@[0], sanitized_query(query@))
            &&& forall|i: int|
                0 <= i < n ==> binds_text(
                    #[trigger] p.params@[i + 1],
                    extensions->0@[i]@,
                )
            &&& (*root_id matches Some(id) ==> p.params@[(n + 1) as int] == SqlValue::Integer(id))
            &&& p.count_sql@ == count_sql_for(filters)
            &&& p.results_sql@ == results_sql_for(filters, k)
            &&& p.limit == limit
            &&& p.offset == offset
        },
{
    let v = chars_of(query);
    let (s, e) = trim_bounds(&v);
    if s == e {
        return None;
    }
    let fts_query = sanitize_fts_query(query);
    let mut params: Vec<SqlValue> = Vec::new();
    params.push(SqlValue::Text(String::from_str(fts_query.as_str())));
    let mut n: usize = 0;
    match extensions {
        Some(exts) => {
            n = exts.len();
            let mut i: usize = 0;
            while i < n
                invariant
                    n == exts.len(),
                    i <= n,
                    params@.len() == i + 1,
                    binds_text(params@[0], fts_query@),
                    forall|j: int|
                        0 <= j < i ==> binds_text(#[trigger] params@[j + 1], exts@[j]@),
                decreases n - i,
            {
                params.push(SqlValue::Text(String::from_str(exts[i].as_str())));
                i = i + 1;
                assert(binds_text(params@[i as int], exts@[i - 1]@));
            }
        },
        None => {},
    }
    assert(n == extension_count(*extensions));
    let mut filters = extension_clause_text(n);
    match root_id {
        Some(id) => {
            filters.append(" AND f.root_id = ");
            push_placeholder(&mut filters, n + 2);
            params.push(SqlValue::Integer(*id));
        },
        None => {},
    }
    assert(filters@ =~= filter_clause(n as nat, *root_id));
    let k = params.len();
    let mut count_sql = String::from_str(
        "SELECT COUNT(*)
         FROM files_fts
         JOIN files f ON f.id = files_fts.file_id
         WHERE files_fts MATCH ?1
           AND f.is_deleted = 0
           ",
    );
    count_sql.append(filters.as_str());
    let mut results_sql = String::from_str(
        "SELECT
            f.id,
            f.path,
            f.filename,
            f.extension,
            f.size_bytes,
            f.modified_at_fs,
            snippet(files_fts, 2, '<mark>', '</mark>', '...', 48) as snippet,
            bm25(files_fts, 10.0, 5.0, 1.0) as rank",
    );
    results_sql.append(
        "
        FROM files_fts
        JOIN files f ON f.id = files_fts.file_id
        WHERE files_fts MATCH ?1
            AND f.is_deleted = 0
            ",
    );
    results_sql.append(filters.as_str());
    results_sql.append(
        "
        ORDER BY rank
        LIMIT ",
    );
    push_placeholder(&mut results_sql, k + 1);
    results_sql.append(" OFFSET ");
    push_placeholder(&mut results_sql, k + 2);
    assert(count_sql@ =~= count_sql_for(filters@));
    assert(results_sql@ =~= results_sql_for(filters@, k as nat));
    Some(SearchPlan { fts_query, params, count_sql, results_sql, limit, offset })
}

/// The page size and offset of a search: 50 results from the first one
/// unless the caller asks otherwise.
pub fn search_paging(limit: Option<i64>, offset: Option<i64>) -> (r: (i64, i64))
    ensures
        r.0 == (match limit {
            Some(l) => l,
            None => 50,
        }),
        r.1 == (match offset {
            Some(o) => o,
            None => 0,
        }),
{
    let l = match limit {
        Some(l) => l,
        None => 50,
    };
    let o = match offset {
        Some(o) => o,
        None => 0,
    };
    (l, o)
}

} // verus!

verus! {

proof fn lemma_fts_term_chars(s: Seq<char>)
    ensures
        forall|i: int| 0 <= i < fts_term(s).len() ==> is_fts_term_char(#[trigger] fts_term(s)[i]),
    decreases s.len(),
{
    if s.len() > 0 {
        let init = s.drop_last();
        lemma_fts_term_chars(init);
        let t = fts_term(s);
        if is_fts_term_char(s.last()) {
            assert forall|i: int| 0 <= i < t.len() implies is_fts_term_char(#[trigger] t[i]) by {
                if i < fts_term(init).len() {
                    assert(t[i] == fts_term(init)[i]);
                }
            }
        }
    }
}

proof fn lemma_join_last(parts: Seq<Seq<char>>, sep: Seq<char>)
    requires
        parts.len() > 0,
        parts.last().len() > 0,
    ensures
        join_with(parts, sep).len() > 0,
        join_with(parts, sep).last() == parts.last().last(),
{
}

proof fn lemma_escaped_terms(ws: Seq<Seq<char>>)
    ensures
        forall|k: int|
            0 <= k < escaped_terms(ws).len() ==> #[trigger] escaped_terms(ws)[k].len() > 0
                && forall|i: int|
                0 <= i < escaped_terms(ws)[k].len() ==> is_fts_term_char(escaped_terms(ws)[k][i]),
    decreases ws.len(),
{
    if ws.len() > 0 {
        let prev = escaped_terms(ws.drop_last());
        lemma_escaped_terms(ws.drop_last());
        lemma_fts_term_chars(ws.last());
        let e = escaped_terms(ws);
        assert forall|k: int| 0 <= k < e.len() implies #[trigger] e[k].len() > 0 && forall|i: int|
            0 <= i < e[k].len() ==> is_fts_term_char(e[k][i]) by {
            if k < prev.len() {
                assert(e[k] == prev[k]);
            }
        }
    }
}

/// The tokens of a query without double quotes are well-formed FTS5
/// terms: each is a non-empty run of term characters (letters, digits,
/// `_`), the last one followed by `*`; the query is these tokens joined
/// by single spaces. No lone `*`, no punctuation and no quote reaches FTS5;
/// an upper-case word such as `AND`, `OR`, `NOT` or `NEAR` is kept as it is.
pub proof fn sanitized_query_is_well_formed(q: Seq<char>)
    requires
        !trim(q).contains('"'),
    ensures
        sanitized_query(q) == join_with(query_parts(trim(q)), seq![' ']),
        forall|k: int|
            0 <= k < query_parts(trim(q)).len() ==> {
                let part = #[trigger] query_parts(trim(q))[k];
                let body = if k == query_parts(trim(q)).len() - 1 {
                    part.drop_last()
                } else {
                    part
                };
                &&& body.len() > 0
                &&& forall|i: int| 0 <= i < body.len() ==> is_fts_term_char(body[i])
                &&& k == query_parts(trim(q)).len() - 1 ==> part.last() == '*'
            },
{
    let ts = escaped_terms(words(trim(q)));
    lemma_escaped_terms(words(trim(q)));
    let parts = query_parts(trim(q));
    assert forall|k: int| 0 <= k < parts.len() implies {
        let part = #[trigger] parts[k];
        let body = if k == parts.len() - 1 {
            part.drop_last()
        } else {
            part
        };
        &&& body.len() > 0
        &&& forall|i: int| 0 <= i < body.len() ==> is_fts_term_char(body[i])
        &&& k == parts.len() - 1 ==> part.last() == '*'
    } by {
        assert(ts[k].len() > 0);
        if k == parts.len() - 1 {
            assert(parts[k] == ts[k].push('*'));
            assert(parts[k].drop_last() =~= ts[k]);
        } else {
            assert(parts[k] == ts[k]);
        }
    }
}

/// A query of words without double quotes whose words leave some term
/// after escaping ends with `*`: its last term is matched as a prefix, for
/// a type-ahead feel.
pub proof fn last_term_is_prefix(q: Seq<char>)
    requires
        !trim(q).contains('"'),
        escaped_terms(words(trim(q))).len() > 0,
    ensures
        sanitized_query(q).len() > 0,
        sanitized_query(q).last() == '*',
{
    let parts = query_parts(trim(q));
    assert(parts.last() == escaped_terms(words(trim(q))).last().push('*'));
    lemma_join_last(parts, seq![' ']);
}

/// A query that contains a double quote is searched as written, without its
/// surrounding white space, as a phrase search.
pub proof fn phrase_passes_through(q: Seq<char>)
    requires
        trim(q).contains('"'),
    ensures
        sanitized_query(q) == trim(q),
{
}

proof fn lemma_escaped_terms_are_kept_words(ws: Seq<Seq<char>>, keep: spec_fn(Seq<char>) -> bool)
    requires
        forall|w: Seq<char>| #[trigger] keep(w) == (fts_term(w).len() > 0),
    ensures
        escaped_terms(ws).len() == ws.filter(keep).len(),
        forall|k: int|
            0 <= k < escaped_terms(ws).len() ==> #[trigger] escaped_terms(ws)[k] == fts_term(
                ws.filter(keep)[k],
            ),
    decreases ws.len(),
{
    reveal_with_fuel(Seq::filter, 1);
    if ws.len() > 0 {
        lemma_escaped_terms_are_kept_words(ws.drop_last(), keep);
        let prev = escaped_terms(ws.drop_last());
        let kept = ws.drop_last().filter(keep);
        assert(keep(ws.last()) == (fts_term(ws.last()).len() > 0));
        if keep(ws.last()) {
            assert(ws.filter(keep) == kept.push(ws.last()));
            assert forall|k: int| 0 <= k < escaped_terms(ws).len() implies #[trigger] escaped_terms(
                ws,
            )[k] == fts_term(ws.filter(keep)[k]) by {
                if k < prev.len() {
                    assert(ws.filter(keep)[k] == kept[k]);
                }
            }
        } else {
            assert(ws.filter(keep) == kept);
        }
    }
}

/// Every word of a query without double quotes is searched: the terms are
/// exactly the escapes of its words that escape to something, in order and
/// none left out, the last of them marked with `*` for prefix matching.
pub proof fn every_word_becomes_a_term(q: Seq<char>)
    requires
        !trim(q).contains('"'),
    ensures
        ({
            let kept = words(trim(q)).filter(|w: Seq<char>| fts_term(w).len() > 0);
            let parts = query_parts(trim(q));
            &&& parts.len() == kept.len()
            &&& forall|k: int| 0 <= k < kept.len() - 1 ==> #[trigger] parts[k] == fts_term(kept[k])
            &&& kept.len() > 0 ==> parts[kept.len() - 1] == fts_term(kept[kept.len() - 1]).push('*')
        }),
{
    let keep = |w: Seq<char>| fts_term(w).len() > 0;
    lemma_escaped_terms_are_kept_words(words(trim(q)), keep);
}

/// The ranked result statement selects, in this order, the file's id, its
/// path, its file name, its extension, its size, its modification time, the
/// highlighted snippet of its content and its BM25 rank (name 10, path 5,
/// content 1), the order in which each result row is read back.
pub proof fn result_columns_in_order(filters: Seq<char>, param_count: nat)
    ensures
        results_sql_for(filters, param_count).take(
            "SELECT
            f.id,
            f.path,
            f.filename,
            f.extension,
            f.size_bytes,
            f.modified_at_fs,
            snippet(files_fts, 2, '<mark>', '</mark>', '...', 48) as snippet,
            bm25(files_fts, 10.0, 5.0, 1.0) as rank"@.len() as int,
        ) == "SELECT
            f.id,
            f.path,
            f.filename,
            f.extension,
            f.size_bytes,
            f.modified_at_fs,
            snippet(files_fts, 2, '<mark>', '</mark>', '...', 48) as snippet,
            bm25(files_fts, 10.0, 5.0, 1.0) as rank"@,
{
}

} // verus!
