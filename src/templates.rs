//! Placeholder substitution in query templates, and the queries built from them.
use vstd::prelude::*;
use crate::value::same_text;

verus! {

/// `s` with every occurrence of `pattern`, from left to right and without
/// overlap, replaced by `with`. An empty pattern occurs before every
/// character and at the end.
pub open spec fn replaced(s: Seq<char>, pattern: Seq<char>, with: Seq<char>) -> Seq<char>
    decreases s.len(),
{
    if pattern.len() == 0 {
        if s.len() == 0 {
            with
        } else {
            with + seq![s[0]] + replaced(s.drop_first(), pattern, with)
        }
    } else if s.len() < pattern.len() {
        s
    } else if s.subrange(0, pattern.len() as int) == pattern {
        with + replaced(s.subrange(pattern.len() as int, s.len() as int), pattern, with)
    } else {
        seq![s[0]] + replaced(s.drop_first(), pattern, with)
    }
}

fn insert_everywhere(s: &str, pattern: &str, with: &str) -> (r: String)
    requires
        pattern@.len() == 0,
    ensures
        r@ == replaced(s@, pattern@, with@),
{
    let n = s.unicode_len();
    let mut out = String::new();
    let mut i: usize = 0;
    assert(s@.subrange(0, n as int) =~= s@);
    while i < n
        invariant
            n == s@.len(),
            pattern@.len() == 0,
            i <= n,
            out@ + replaced(s@.subrange(i as int, n as int), pattern@, with@) == replaced(s@, pattern@, with@),
        decreases n - i,
    {
        let ghost rest = s@.subrange(i as int, n as int);
        let c = s.substring_char(i, i + 1);
        assert(c@ =~= seq![rest[0]]);
        assert(rest.drop_first() =~= s@.subrange(i + 1, n as int));
        let ghost before = out@;
        out.append(with);
        out.append(c);
        assert(out@ + replaced(s@.subrange(i + 1, n as int), pattern@, with@) =~= before
            + replaced(rest, pattern@, with@));
        i = i + 1;
    }
    assert(s@.subrange(n as int, n as int) =~= Seq::<char>::empty());
    out.append(with);
    out
}

/// Replaces every occurrence of `pattern` in `s` by `with`, from left to
/// right and without overlap; an empty pattern occurs before every character
/// and at the end.
pub fn replace_all(s: &str, pattern: &str, with: &str) -> (r: String)
    ensures
        r@ == replaced(s@, pattern@, with@),
{
    let n = s.unicode_len();
    let m = pattern.unicode_len();
    if m == 0 {
        return insert_everywhere(s, pattern, with);
    }
    let mut out = String::new();
    let mut i: usize = 0;
    assert(s@.subrange(0, n as int) =~= s@);
    while i < n
        invariant
            n == s@.len(),
            m == pattern@.len(),
            m > 0,
            i <= n,
            out@ + replaced(s@.subrange(i as int, n as int), pattern@, with@) == replaced(s@, pattern@, with@),
        decreases n - i,
    {
        let ghost rest = s@.subrange(i as int, n as int);
        if n - i < m {
            assert(replaced(rest, pattern@, with@) == rest);
            out.append(s.substring_char(i, n));
            assert(out@ == replaced(s@, pattern@, with@));
            return out;
        }
        let window = s.substring_char(i, i + m);
        assert(rest.subrange(0, m as int) =~= window@);
        if same_text(window, pattern) {
            assert(rest.subrange(m as int, rest.len() as int) =~= s@.subrange(i + m, n as int));
            let ghost before = out@;
            out.append(with);
            assert(out@ + replaced(s@.subrange(i + m, n as int), pattern@, with@) =~= before
                + replaced(rest, pattern@, with@));
            i = i + m;
        } else {
            let c = s.substring_char(i, i + 1);
            assert(c@ =~= seq![rest[0]]);
            assert(rest.drop_first() =~= s@.subrange(i + 1, n as int));
            let ghost before = out@;
            out.append(c);
            assert(out@ + replaced(s@.subrange(i + 1, n as int), pattern@, with@) =~= before
                + replaced(rest, pattern@, with@));
            i = i + 1;
        }
    }
    assert(replaced(s@.subrange(n as int, n as int), pattern@, with@) =~= Seq::<char>::empty());
    assert(out@ =~= out@ + Seq::<char>::empty());
    out
}

/// The filter that keeps the rows loaded on the execution date.
pub open spec fn load_filter(execution_date: Seq<char>) -> Seq<char> {
    "where date(loaded_at, \"Asia/Singapore\") = \""@ + execution_date + "\""@
}

/// Fills a warehouse source template: the project, the dataset, and the
/// filter on the execution date.
pub fn source_query(template: &str, project: &str, dataset: &str, execution_date: &str) -> (r: String)
    ensures
        r@ == replaced(
            replaced(replaced(template@, "{EMARSYS_GOOGLE_PROJECT}"@, project@), "{SRC_DATASET}"@, dataset@),
            "{SQL_FILTER}"@,
            load_filter(execution_date@),
        ),
{
    let mut filter = String::from_str("where date(loaded_at, \"Asia/Singapore\") = \"");
    filter.append(execution_date);
    filter.append("\"");
    let a = replace_all(template, "{EMARSYS_GOOGLE_PROJECT}", project);
    let b = replace_all(a.as_str(), "{SRC_DATASET}", dataset);
    replace_all(b.as_str(), "{SQL_FILTER}", filter.as_str())
}

/// The query that copies `columns` of a warehouse table.
pub fn select_query(columns: &str, source_table: &str) -> (r: String)
    ensures
        r@ == "SELECT "@ + columns@ + " FROM "@ + source_table@,
{
    let mut q = String::from_str("SELECT ");
    q.append(columns);
    q.append(" FROM ");
    q.append(source_table);
    q
}

/// Fills a report query template: the sub-account, the account and the report.
pub fn report_query(template: &str, sub_account: &str, auth_sid: &str, report: &str) -> (r: String)
    ensures
        r@ == replaced(
            replaced(replaced(template@, "{sub_account_name}"@, sub_account@), "{auth_sid}"@, auth_sid@),
            "{report}"@,
            report@,
        ),
{
    let a = replace_all(template, "{sub_account_name}", sub_account);
    let b = replace_all(a.as_str(), "{auth_sid}", auth_sid);
    replace_all(b.as_str(), "{report}", report)
}

/// The number of occurrences of `c` in `s`.
pub open spec fn count_char(s: Seq<char>, c: char) -> nat
    decreases s.len(),
{
    if s.len() == 0 {
        0
    } else {
        count_char(s.drop_last(), c) + if s.last() == c {
            1nat
        } else {
            0nat
        }
    }
}

/// The number of columns a comma-separated column list names.
pub fn column_count(columns: &str) -> (r: usize)
    requires
        columns@.len() < usize::MAX,
    ensures
        r == count_char(columns@, ',') + 1,
{
    let n = columns.unicode_len();
    let mut count: usize = 1;
    let mut i: usize = 0;
    assert(columns@.subrange(0, 0) =~= Seq::<char>::empty());
    while i < n
        invariant
            n == columns@.len(),
            n < usize::MAX,
            i <= n,
            count == count_char(columns@.subrange(0, i as int), ',') + 1,
            count <= i + 1,
        decreases n - i,
    {
        let ghost prefix = columns@.subrange(0, i + 1);
        assert(prefix.drop_last() =~= columns@.subrange(0, i as int));
        if columns.get_char(i) == ',' {
            count = count + 1;
        }
        i = i + 1;
    }
    assert(columns@.subrange(0, n as int) =~= columns@);
    count
}

/// The text of one warehouse cell: its value, or `None` when it has none.
pub fn cell_text(cell: Option<String>) -> (r: String)
    ensures
        match cell {
            Some(t) => r@ == t@,
            None => r@ == "None"@,
        },
{
    match cell {
        Some(t) => t,
        None => String::from_str("None"),
    }
}


/// The query of one warehouse table, and how many columns it selects.
pub struct TableQuery {
    pub table: String,
    pub query: String,
    pub columns: usize,
}

/// The model of a [`TableQuery`].
pub open spec fn table_query_model(q: TableQuery) -> (Seq<char>, Seq<char>, int) {
    (q.table@, q.query@, q.columns as int)
}

/// The first column list configured for table `name`.
pub open spec fn column_list(columns: Seq<(String, String)>, name: Seq<char>) -> Option<Seq<char>>
    decreases columns.len(),
{
    if columns.len() == 0 {
        None
    } else if columns[0].0@ == name {
        Some(columns[0].1@)
    } else {
        column_list(columns.drop_first(), name)
    }
}

/// The queries of the source tables that have a column list, in the order of
/// the sources: each selects its columns from its source.
pub open spec fn planned_queries(
    sources: Seq<(String, String)>,
    columns: Seq<(String, String)>,
) -> Seq<(Seq<char>, Seq<char>, int)>
    decreases sources.len(),
{
    if sources.len() == 0 {
        Seq::empty()
    } else {
        let last = sources.last();
        planned_queries(sources.drop_last(), columns) + match column_list(columns, last.0@) {
            Some(c) => seq![(last.0@, "SELECT "@ + c + " FROM "@ + last.1@, (count_char(c, ',') + 1) as int)],
            None => Seq::empty(),
        }
    }
}

fn find_columns<'a>(columns: &'a Vec<(String, String)>, name: &String) -> (r: Option<&'a String>)
    ensures
        match r {
            Some(c) => column_list(columns@, name@) == Some(c@),
            None => column_list(columns@, name@) is None,
        },
{
    let ghost cs = columns@;
    assert(cs.subrange(0, cs.len() as int) =~= cs);
    let mut i: usize = 0;
    while i < columns.len()
        invariant
            cs == columns@,
            i <= cs.len(),
            column_list(cs, name@) == column_list(cs.subrange(i as int, cs.len() as int), name@),
        decreases cs.len() - i,
    {
        let ghost rest = cs.subrange(i as int, cs.len() as int);
        assert(rest[0] == cs[i as int]);
        if columns[i].0 == *name {
            return Some(&columns[i].1);
        }
        assert(rest.drop_first() =~= cs.subrange(i + 1, cs.len() as int));
        i = i + 1;
    }
    None
}

/// Pairs each source table's query with its configured column list, and
/// builds the query that copies those columns; a table without a column list
/// is left out.
pub fn table_queries(sources: &Vec<(String, String)>, columns: &Vec<(String, String)>) -> (r: Vec<TableQuery>)
    requires
        forall|k: int| 0 <= k < columns@.len() ==> (#[trigger] columns@[k]).1@.len() < usize::MAX,
    ensures
        r@.map_values(|q: TableQuery| table_query_model(q)) == planned_queries(sources@, columns@),
{
    let mut out: Vec<TableQuery> = Vec::new();
    let mut i: usize = 0;
    assert(sources@.subrange(0, 0) =~= Seq::<(String, String)>::empty());
    assert(out@.map_values(|q: TableQuery| table_query_model(q)) =~= Seq::<(Seq<char>, Seq<char>, int)>::empty());
    while i < sources.len()
        invariant
            forall|k: int| 0 <= k < columns@.len() ==> (#[trigger] columns@[k]).1@.len() < usize::MAX,
            i <= sources@.len(),
            out@.map_values(|q: TableQuery| table_query_model(q)) == planned_queries(
                sources@.subrange(0, i as int),
                columns@,
            ),
        decreases sources@.len() - i,
    {
        let ghost prefix = sources@.subrange(0, i + 1);
        assert(prefix.drop_last() =~= sources@.subrange(0, i as int));
        assert(prefix.last() == sources@[i as int]);
        let ghost before = out@;
        match find_columns(columns, &sources[i].0) {
            Some(cols) => {
                proof {
                    column_list_bounded(columns@, sources@[i as int].0@);
                }
                let q = TableQuery {
                    table: sources[i].0.clone(),
                    query: select_query(cols.as_str(), sources[i].1.as_str()),
                    columns: column_count(cols.as_str()),
                };
                out.push(q);
                assert(out@.map_values(|q: TableQuery| table_query_model(q)) =~= before.map_values(
                    |q: TableQuery| table_query_model(q),
                ) + seq![table_query_model(q)]);
            },
            None => {
                assert(planned_queries(prefix, columns@) =~= planned_queries(
                    sources@.subrange(0, i as int),
                    columns@,
                ));
            },
        }
        i = i + 1;
    }
    assert(sources@.subrange(0, sources@.len() as int) =~= sources@);
    out
}

proof fn column_list_bounded(columns: Seq<(String, String)>, name: Seq<char>)
    requires
        forall|k: int| 0 <= k < columns.len() ==> (#[trigger] columns[k]).1@.len() < usize::MAX,
    ensures
        column_list(columns, name) matches Some(c) ==> c.len() < usize::MAX,
    decreases columns.len(),
{
    if columns.len() > 0 {
        assert forall|k: int| 0 <= k < columns.drop_first().len() implies (#[trigger] columns.drop_first()[k]).1@.len() < usize::MAX by {
            assert(columns.drop_first()[k] == columns[k + 1]);
        }
        column_list_bounded(columns.drop_first(), name);
    }
}

} // verus!
