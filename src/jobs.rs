//! Job descriptors of the three source kinds, and the expansion of job
//! dimensions into descriptors.
use vstd::prelude::*;

verus! {

/// What the fan-out asks of a job of any source kind: the key that names it
/// among its siblings and the files it writes, all derived from the job's
/// dimension values, so that no two jobs of a run share an artifact.
pub trait Tasks {
    /// The job's dimension values, joined.
    fn job_key(&self) -> String;

    /// The file that extraction writes, one decoded record per line.
    fn extract_file(&self) -> String;

    /// The file that holds the job's final table.
    fn result_file(&self) -> String;
}

/// One record-store job: a table type, an endpoint of it, and a year, with the
/// address, credentials and offset that running it resolves.
#[derive(Clone, Debug)]
pub struct AtJobDetail {
    pub airtables_type: String,
    pub airtable_endpoint: String,
    pub year: String,
    pub api_endpoint: String,
    pub airtable_url: String,
    pub auth_token: String,
    pub offset_value: String,
}

/// The model of an [`AtJobDetail`].
pub struct JobModel {
    pub airtables_type: Seq<char>,
    pub airtable_endpoint: Seq<char>,
    pub year: Seq<char>,
    pub api_endpoint: Seq<char>,
    pub airtable_url: Seq<char>,
    pub auth_token: Seq<char>,
    pub offset_value: Seq<char>,
}

impl View for AtJobDetail {
    type V = JobModel;

    open spec fn view(&self) -> JobModel {
        JobModel {
            airtables_type: self.airtables_type@,
            airtable_endpoint: self.airtable_endpoint@,
            year: self.year@,
            api_endpoint: self.api_endpoint@,
            airtable_url: self.airtable_url@,
            auth_token: self.auth_token@,
            offset_value: self.offset_value@,
        }
    }
}

/// A job of the given dimensions, with nothing resolved yet.
pub open spec fn fresh_job(kind: Seq<char>, endpoint: Seq<char>, year: Seq<char>) -> JobModel {
    JobModel {
        airtables_type: kind,
        airtable_endpoint: endpoint,
        year: year,
        api_endpoint: Seq::empty(),
        airtable_url: Seq::empty(),
        auth_token: Seq::empty(),
        offset_value: Seq::empty(),
    }
}

impl AtJobDetail {
    /// A job with every field empty.
    pub fn new() -> (r: AtJobDetail)
        ensures
            r@ == fresh_job(Seq::empty(), Seq::empty(), Seq::empty()),
    {
        AtJobDetail {
            airtables_type: String::new(),
            airtable_endpoint: String::new(),
            year: String::new(),
            api_endpoint: String::new(),
            airtable_url: String::new(),
            auth_token: String::new(),
            offset_value: String::new(),
        }
    }
}

/// The record-store source: the job it runs.
#[derive(Clone, Debug)]
pub struct Airtable {
    pub job_details: AtJobDetail,
}

/// The warehouse source: the table a job copies.
#[derive(Clone, Debug)]
pub struct EmarsysBq {
    pub table_name: String,
}

/// The reporting source: one campaign key, and the request a report of it makes.
#[derive(Clone, Debug)]
pub struct Impact {
    pub execution_date: String,
    pub api_url: String,
    pub report: String,
    pub parameters: String,
    pub auth_sid: String,
    pub auth_token: String,
    pub sub_account_name: String,
    pub key: String,
}

impl Tasks for Airtable {
    fn job_key(&self) -> (r: String)
        ensures
            r@ == self.job_details.airtables_type@ + "/"@ + self.job_details.airtable_endpoint@ + "/"@
                + self.job_details.year@,
    {
        let mut key = self.job_details.airtables_type.clone();
        key.append("/");
        key.append(self.job_details.airtable_endpoint.as_str());
        key.append("/");
        key.append(self.job_details.year.as_str());
        key
    }

    fn extract_file(&self) -> (r: String)
        ensures
            r@ == self.job_details.airtable_endpoint@ + "_output_"@ + self.job_details.year@
                + ".json"@,
    {
        let mut name = self.job_details.airtable_endpoint.clone();
        name.append("_output_");
        name.append(self.job_details.year.as_str());
        name.append(".json");
        name
    }

    fn result_file(&self) -> (r: String)
        ensures
            r@ == "result_"@ + self.job_details.airtable_endpoint@ + "_"@ + self.job_details.year@
                + ".csv"@,
    {
        let mut name = String::from_str("result_");
        name.append(self.job_details.airtable_endpoint.as_str());
        name.append("_");
        name.append(self.job_details.year.as_str());
        name.append(".csv");
        name
    }
}

impl Tasks for Impact {
    fn job_key(&self) -> (r: String)
        ensures
            r@ == self.key@ + "/"@ + self.report@,
    {
        let mut key = self.key.clone();
        key.append("/");
        key.append(self.report.as_str());
        key
    }

    fn extract_file(&self) -> (r: String)
        ensures
            r@ == self.report@ + "_"@ + self.auth_sid@ + "_impact.json"@,
    {
        let mut name = self.report.clone();
        name.append("_");
        name.append(self.auth_sid.as_str());
        name.append("_impact.json");
        name
    }

    fn result_file(&self) -> (r: String)
        ensures
            r@ == "result_"@ + self.report@ + "_"@ + self.auth_sid@ + "_impact.csv"@,
    {
        let mut name = String::from_str("result_");
        name.append(self.report.as_str());
        name.append("_");
        name.append(self.auth_sid.as_str());
        name.append("_impact.csv");
        name
    }
}

impl Tasks for EmarsysBq {
    fn job_key(&self) -> (r: String)
        ensures
            r@ == self.table_name@,
    {
        self.table_name.clone()
    }

    fn extract_file(&self) -> (r: String)
        ensures
            r@ == self.table_name@ + ".csv"@,
    {
        let mut name = self.table_name.clone();
        name.append(".csv");
        name
    }

    fn result_file(&self) -> (r: String)
        ensures
            r@ == self.table_name@ + ".csv"@,
    {
        self.extract_file()
    }
}

/// The models of a sequence of texts.
pub open spec fn texts_model(ts: Seq<String>) -> Seq<Seq<char>> {
    ts.map_values(|t: String| t@)
}

/// The models of endpoint groups: a table type and the endpoints valid for it.
pub open spec fn groups_model(gs: Seq<(String, Vec<String>)>) -> Seq<(Seq<char>, Seq<Seq<char>>)> {
    gs.map_values(|g: (String, Vec<String>)| (g.0@, texts_model(g.1@)))
}

/// The models of a sequence of jobs.
pub open spec fn jobs_model(js: Seq<AtJobDetail>) -> Seq<JobModel> {
    js.map_values(|j: AtJobDetail| j@)
}

/// The jobs of one endpoint group, for a year and a table type.
pub open spec fn group_jobs(year: Seq<char>, kind: Seq<char>, names: Seq<Seq<char>>) -> Seq<JobModel> {
    Seq::new(names.len(), |n: int| fresh_job(kind, names[n], year))
}

/// The jobs of a year and a table type: one per endpoint of each group of
/// that type, groups in order.
pub open spec fn type_jobs(
    year: Seq<char>,
    kind: Seq<char>,
    groups: Seq<(Seq<char>, Seq<Seq<char>>)>,
) -> Seq<JobModel>
    decreases groups.len(),
{
    if groups.len() == 0 {
        Seq::empty()
    } else {
        type_jobs(year, kind, groups.drop_last()) + if groups.last().0 == kind {
            group_jobs(year, kind, groups.last().1)
        } else {
            Seq::empty()
        }
    }
}

/// The jobs of a year: those of each table type, types in order.
pub open spec fn year_jobs(
    year: Seq<char>,
    kinds: Seq<Seq<char>>,
    groups: Seq<(Seq<char>, Seq<Seq<char>>)>,
) -> Seq<JobModel>
    decreases kinds.len(),
{
    if kinds.len() == 0 {
        Seq::empty()
    } else {
        year_jobs(year, kinds.drop_last(), groups) + type_jobs(year, kinds.last(), groups)
    }
}

/// All jobs: those of each year, years in order.
pub open spec fn all_jobs(
    years: Seq<Seq<char>>,
    kinds: Seq<Seq<char>>,
    groups: Seq<(Seq<char>, Seq<Seq<char>>)>,
) -> Seq<JobModel>
    decreases years.len(),
{
    if years.len() == 0 {
        Seq::empty()
    } else {
        all_jobs(years.drop_last(), kinds, groups) + year_jobs(years.last(), kinds, groups)
    }
}

/// The dimensions of the record-store jobs: the years, the table types, and
/// the endpoints valid for each type.
pub fn record_store_dimensions() -> (r: (Vec<String>, Vec<String>, Vec<(String, Vec<String>)>))
    ensures
        texts_model(r.0@) == seq!["2024"@, "2023"@, "2022"@],
        texts_model(r.1@) == seq!["product"@, "launch"@],
        groups_model(r.2@) == seq![("launch"@, seq!["order_sheet"@]), ("product"@, seq!["child_product"@])],
{
    let mut years: Vec<String> = Vec::new();
    years.push(String::from_str("2024"));
    years.push(String::from_str("2023"));
    years.push(String::from_str("2022"));
    let mut kinds: Vec<String> = Vec::new();
    kinds.push(String::from_str("product"));
    kinds.push(String::from_str("launch"));
    let mut launch: Vec<String> = Vec::new();
    launch.push(String::from_str("order_sheet"));
    let mut product: Vec<String> = Vec::new();
    product.push(String::from_str("child_product"));
    let mut groups: Vec<(String, Vec<String>)> = Vec::new();
    groups.push((String::from_str("launch"), launch));
    groups.push((String::from_str("product"), product));
    proof {
        assert(texts_model(years@) =~= seq!["2024"@, "2023"@, "2022"@]);
        assert(texts_model(kinds@) =~= seq!["product"@, "launch"@]);
        assert(texts_model(groups@[0].1@) =~= seq!["order_sheet"@]);
        assert(texts_model(groups@[1].1@) =~= seq!["child_product"@]);
        assert(groups_model(groups@) =~= seq![("launch"@, seq!["order_sheet"@]), ("product"@, seq!["child_product"@])]);
    }
    (years, kinds, groups)
}

fn push_group(out: &mut Vec<AtJobDetail>, year: &String, kind: &String, names: &Vec<String>)
    ensures
        jobs_model(final(out)@) == jobs_model(old(out)@) + group_jobs(year@, kind@, texts_model(names@)),
{
    let ghost start = jobs_model(out@);
    let mut n: usize = 0;
    while n < names.len()
        invariant
            n <= names@.len(),
            jobs_model(out@) == start + group_jobs(year@, kind@, texts_model(names@.subrange(0, n as int))),
        decreases names@.len() - n,
    {
        let job = AtJobDetail {
            airtables_type: kind.clone(),
            airtable_endpoint: names[n].clone(),
            year: year.clone(),
            api_endpoint: String::new(),
            airtable_url: String::new(),
            auth_token: String::new(),
            offset_value: String::new(),
        };
        let ghost before = out@;
        out.push(job);
        proof {
            assert(jobs_model(out@) =~= jobs_model(before) + seq![job@]);
            assert(group_jobs(year@, kind@, texts_model(names@.subrange(0, n + 1)))
                =~= group_jobs(year@, kind@, texts_model(names@.subrange(0, n as int))) + seq![job@]);
            assert(jobs_model(out@) =~= start + group_jobs(year@, kind@, texts_model(names@.subrange(0, n + 1))));
        }
        n = n + 1;
    }
    assert(names@.subrange(0, names@.len() as int) =~= names@);
}

fn push_type(
    out: &mut Vec<AtJobDetail>,
    year: &String,
    kind: &String,
    groups: &Vec<(String, Vec<String>)>,
)
    ensures
        jobs_model(final(out)@) == jobs_model(old(out)@) + type_jobs(year@, kind@, groups_model(groups@)),
{
    let ghost start = jobs_model(out@);
    let mut g: usize = 0;
    assert(groups_model(groups@.subrange(0, 0)) =~= Seq::empty());
    while g < groups.len()
        invariant
            g <= groups@.len(),
            jobs_model(out@) == start + type_jobs(year@, kind@, groups_model(groups@.subrange(0, g as int))),
        decreases groups@.len() - g,
    {
        let ghost prefix = groups_model(groups@.subrange(0, g + 1));
        assert(prefix.drop_last() =~= groups_model(groups@.subrange(0, g as int)));
        assert(prefix.last() == groups_model(groups@)[g as int]);
        if groups[g].0 == *kind {
            push_group(out, year, kind, &groups[g].1);
        }
        proof {
            assert(jobs_model(out@) =~= start + type_jobs(year@, kind@, prefix));
        }
        g = g + 1;
    }
    assert(groups@.subrange(0, groups@.len() as int) =~= groups@);
}

fn push_year(
    out: &mut Vec<AtJobDetail>,
    year: &String,
    kinds: &Vec<String>,
    groups: &Vec<(String, Vec<String>)>,
)
    ensures
        jobs_model(final(out)@) == jobs_model(old(out)@) + year_jobs(year@, texts_model(kinds@), groups_model(groups@)),
{
    let ghost start = jobs_model(out@);
    let mut t: usize = 0;
    assert(texts_model(kinds@.subrange(0, 0)) =~= Seq::empty());
    assert(start + Seq::<JobModel>::empty() =~= start);
    while t < kinds.len()
        invariant
            t <= kinds@.len(),
            jobs_model(out@) == start + year_jobs(year@, texts_model(kinds@.subrange(0, t as int)), groups_model(groups@)),
        decreases kinds@.len() - t,
    {
        let ghost prefix = texts_model(kinds@.subrange(0, t + 1));
        assert(prefix.drop_last() =~= texts_model(kinds@.subrange(0, t as int)));
        push_type(out, year, &kinds[t], groups);
        proof {
            assert(jobs_model(out@) =~= start + year_jobs(year@, prefix, groups_model(groups@)));
        }
        t = t + 1;
    }
    assert(kinds@.subrange(0, kinds@.len() as int) =~= kinds@);
}

/// Expands the job dimensions into record-store jobs: for each year, each
/// table type and each endpoint group of that type, one job per endpoint of
/// the group, in that order.
pub fn expand_record_store_jobs(
    years: &Vec<String>,
    kinds: &Vec<String>,
    groups: &Vec<(String, Vec<String>)>,
) -> (r: Vec<AtJobDetail>)
    ensures
        jobs_model(r@) == all_jobs(texts_model(years@), texts_model(kinds@), groups_model(groups@)),
{
    let mut out: Vec<AtJobDetail> = Vec::new();
    let mut y: usize = 0;
    assert(texts_model(years@.subrange(0, 0)) =~= Seq::empty());
    assert(jobs_model(out@) =~= Seq::empty());
    while y < years.len()
        invariant
            y <= years@.len(),
            jobs_model(out@) == all_jobs(texts_model(years@.subrange(0, y as int)), texts_model(kinds@), groups_model(groups@)),
        decreases years@.len() - y,
    {
        let ghost prefix = texts_model(years@.subrange(0, y + 1));
        assert(prefix.drop_last() =~= texts_model(years@.subrange(0, y as int)));
        push_year(&mut out, &years[y], kinds, groups);
        y = y + 1;
    }
    assert(years@.subrange(0, years@.len() as int) =~= years@);
    out
}

proof fn lemma_contains_concat<A>(a: Seq<A>, b: Seq<A>, x: A)
    ensures
        (a + b).contains(x) <==> a.contains(x) || b.contains(x),
{
    if a.contains(x) {
        let i = choose|i: int| 0 <= i < a.len() && a[i] == x;
        assert((a + b)[i] == x);
    }
    if b.contains(x) {
        let i = choose|i: int| 0 <= i < b.len() && b[i] == x;
        assert((a + b)[a.len() + i] == x);
    }
    if (a + b).contains(x) {
        let i = choose|i: int| 0 <= i < (a + b).len() && (a + b)[i] == x;
        if i < a.len() {
            assert(a[i] == x);
        } else {
            assert(b[i - a.len()] == x);
        }
    }
}

/// Whether `job` is the job of one endpoint of a group of one type, for a year.
pub open spec fn in_type(
    year: Seq<char>,
    kind: Seq<char>,
    groups: Seq<(Seq<char>, Seq<Seq<char>>)>,
    job: JobModel,
) -> bool {
    exists|g: int, n: int|
        0 <= g < groups.len() && groups[g].0 == kind && 0 <= n < groups[g].1.len() && job
            == fresh_job(kind, #[trigger] groups[g].1[n], year)
}

proof fn lemma_type_jobs_members(
    year: Seq<char>,
    kind: Seq<char>,
    groups: Seq<(Seq<char>, Seq<Seq<char>>)>,
    job: JobModel,
)
    ensures
        type_jobs(year, kind, groups).contains(job) <==> in_type(year, kind, groups, job),
    decreases groups.len(),
{
    if groups.len() > 0 {
        let init = groups.drop_last();
        let last = groups.last();
        let tail = if last.0 == kind {
            group_jobs(year, kind, last.1)
        } else {
            Seq::empty()
        };
        lemma_type_jobs_members(year, kind, init, job);
        lemma_contains_concat(type_jobs(year, kind, init), tail, job);
        if tail.contains(job) {
            let n = choose|n: int| 0 <= n < tail.len() && tail[n] == job;
            assert(groups[groups.len() - 1].1[n] == last.1[n]);
        }
        if in_type(year, kind, init, job) {
            let (g, n) = choose|g: int, n: int|
                0 <= g < init.len() && init[g].0 == kind && 0 <= n < init[g].1.len() && job
                    == fresh_job(kind, #[trigger] init[g].1[n], year);
            assert(groups[g] == init[g]);
        }
        if in_type(year, kind, groups, job) {
            let (g, n) = choose|g: int, n: int|
                0 <= g < groups.len() && groups[g].0 == kind && 0 <= n < groups[g].1.len() && job
                    == fresh_job(kind, #[trigger] groups[g].1[n], year);
            if g < groups.len() - 1 {
                assert(init[g] == groups[g]);
                assert(init[g].1[n] == groups[g].1[n]);
            } else {
                assert(tail[n] == job);
            }
        }
    }
}

/// Whether `job` is the job of one endpoint of a group of one of `kinds`, for a year.
pub open spec fn in_year(
    year: Seq<char>,
    kinds: Seq<Seq<char>>,
    groups: Seq<(Seq<char>, Seq<Seq<char>>)>,
    job: JobModel,
) -> bool {
    exists|t: int| 0 <= t < kinds.len() && in_type(year, #[trigger] kinds[t], groups, job)
}

proof fn lemma_year_jobs_members(
    year: Seq<char>,
    kinds: Seq<Seq<char>>,
    groups: Seq<(Seq<char>, Seq<Seq<char>>)>,
    job: JobModel,
)
    ensures
        year_jobs(year, kinds, groups).contains(job) <==> in_year(year, kinds, groups, job),
    decreases kinds.len(),
{
    if kinds.len() > 0 {
        let init = kinds.drop_last();
        lemma_year_jobs_members(year, init, groups, job);
        lemma_type_jobs_members(year, kinds.last(), groups, job);
        lemma_contains_concat(year_jobs(year, init, groups), type_jobs(year, kinds.last(), groups), job);
        if in_year(year, init, groups, job) {
            let t = choose|t: int| 0 <= t < init.len() && in_type(year, #[trigger] init[t], groups, job);
            assert(kinds[t] == init[t]);
        }
        if in_year(year, kinds, groups, job) {
            let t = choose|t: int| 0 <= t < kinds.len() && in_type(year, #[trigger] kinds[t], groups, job);
            if t < kinds.len() - 1 {
                assert(init[t] == kinds[t]);
            }
        }
    }
}

/// Whether `job` is the job of an endpoint valid for one of `kinds`, for one of `years`.
pub open spec fn is_combination(
    years: Seq<Seq<char>>,
    kinds: Seq<Seq<char>>,
    groups: Seq<(Seq<char>, Seq<Seq<char>>)>,
    job: JobModel,
) -> bool {
    exists|y: int| 0 <= y < years.len() && in_year(#[trigger] years[y], kinds, groups, job)
}

/// The expansion is exact: a job is among the expanded jobs exactly when it
/// is the job of some year, some table type, and an endpoint of a group of
/// that type.
pub proof fn lemma_jobs_are_combinations(
    years: Seq<Seq<char>>,
    kinds: Seq<Seq<char>>,
    groups: Seq<(Seq<char>, Seq<Seq<char>>)>,
    job: JobModel,
)
    ensures
        all_jobs(years, kinds, groups).contains(job) <==> is_combination(years, kinds, groups, job),
    decreases years.len(),
{
    if years.len() > 0 {
        let init = years.drop_last();
        lemma_jobs_are_combinations(init, kinds, groups, job);
        lemma_year_jobs_members(years.last(), kinds, groups, job);
        lemma_contains_concat(all_jobs(init, kinds, groups), year_jobs(years.last(), kinds, groups), job);
        if is_combination(init, kinds, groups, job) {
            let y = choose|y: int| 0 <= y < init.len() && in_year(#[trigger] init[y], kinds, groups, job);
            assert(years[y] == init[y]);
        }
        if is_combination(years, kinds, groups, job) {
            let y = choose|y: int| 0 <= y < years.len() && in_year(#[trigger] years[y], kinds, groups, job);
            if y < years.len() - 1 {
                assert(init[y] == years[y]);
            }
        }
    }
}

/// The model of an [`Impact`] job.
pub open spec fn impact_model(i: Impact) -> Seq<Seq<char>> {
    seq![
        i.execution_date@,
        i.api_url@,
        i.report@,
        i.parameters@,
        i.auth_sid@,
        i.auth_token@,
        i.sub_account_name@,
        i.key@,
    ]
}

/// `base` with its campaign key replaced by `key`.
pub open spec fn with_key(base: Impact, key: Seq<char>) -> Seq<Seq<char>> {
    impact_model(base).update(7, key)
}

/// Expands campaign keys into reporting jobs: one per key, in order, each a
/// copy of `base` with that key.
pub fn expand_report_jobs(base: &Impact, keys: &Vec<String>) -> (r: Vec<Impact>)
    ensures
        r@.len() == keys@.len(),
        forall|k: int| 0 <= k < keys@.len() ==> impact_model(#[trigger] r@[k]) == with_key(*base, keys@[k]@),
{
    let mut out: Vec<Impact> = Vec::new();
    let mut k: usize = 0;
    while k < keys.len()
        invariant
            k <= keys@.len(),
            out@.len() == k,
            forall|q: int| 0 <= q < k ==> impact_model(#[trigger] out@[q]) == with_key(*base, keys@[q]@),
        decreases keys@.len() - k,
    {
        let job = Impact {
            execution_date: base.execution_date.clone(),
            api_url: base.api_url.clone(),
            report: base.report.clone(),
            parameters: base.parameters.clone(),
            auth_sid: base.auth_sid.clone(),
            auth_token: base.auth_token.clone(),
            sub_account_name: base.sub_account_name.clone(),
            key: keys[k].clone(),
        };
        assert(impact_model(job) =~= with_key(*base, keys@[k as int]@));
        out.push(job);
        k = k + 1;
    }
    out
}

/// Expands table names into warehouse jobs: one per table, in order.
pub fn expand_table_jobs(tables: &Vec<String>) -> (r: Vec<EmarsysBq>)
    ensures
        r@.len() == tables@.len(),
        forall|k: int| 0 <= k < tables@.len() ==> (#[trigger] r@[k]).table_name@ == tables@[k]@,
{
    let mut out: Vec<EmarsysBq> = Vec::new();
    let mut k: usize = 0;
    while k < tables.len()
        invariant
            k <= tables@.len(),
            out@.len() == k,
            forall|q: int| 0 <= q < k ==> (#[trigger] out@[q]).table_name@ == tables@[q]@,
        decreases tables@.len() - k,
    {
        out.push(EmarsysBq { table_name: tables[k].clone() });
        k = k + 1;
    }
    out
}

} // verus!
