//! Reading the CZSO wage dataset: its package metadata and its CSV table.
use vstd::prelude::*;
use vstd::string::*;

use crate::regions::{czso_regions, lookup, lookup_slug, pair_views, region_slug_map};
use crate::text::{chars_of, contains_seq, find_chars, str_eq, string_of, trim, trim_chars};

verus! {

/// `csv::Error`, the error the `csv` crate reports, carried through opaquely.
#[verifier::external_type_specification]
#[verifier::external_body]
pub struct ExCsvError(csv::Error);

/// The character sequences held by a vector of strings.
pub open spec fn str_views(v: Seq<String>) -> Seq<Seq<char>> {
    v.map_values(|s: String| s@)
}

/// What the `csv` crate reads as the header row of a text, or `None` when
/// it reports an error.
pub uninterp spec fn csv_header_row(text: Seq<char>) -> Option<Seq<Seq<char>>>;

/// What the `csv` crate reads as the data records of a text with a header
/// row, in order; `None` for each record it reports an error for.
pub uninterp spec fn csv_data_rows(text: Seq<char>) -> Seq<Option<Seq<Seq<char>>>>;

/// `csv::Reader::headers` on a reader over `text` that has headers: the
/// fields of the header row. Its result is taken to depend on `text` alone.
#[verifier::external_body]
fn read_csv_headers(text: &str) -> (r: Result<Vec<String>, csv::Error>)
    ensures
        match r {
            Ok(h) => csv_header_row(text@) == Some(str_views(h@)),
            Err(_) => csv_header_row(text@) is None,
        },
{
    let mut rdr = csv::ReaderBuilder::new().has_headers(true).from_reader(text.as_bytes());
    let headers = rdr.headers()?;
    Ok(headers.iter().map(|h| h.to_string()).collect())
}

/// The fields of each data record, `None` where a record is in error.
pub open spec fn row_views(v: Seq<Option<Vec<String>>>) -> Seq<Option<Seq<Seq<char>>>> {
    v.map_values(
        |r: Option<Vec<String>>|
            match r {
                Some(f) => Some(str_views(f@)),
                None => None,
            },
    )
}

/// `csv::Reader::records` on a reader over `text` that has headers: the
/// fields of each data record, with `None` where the crate reports an
/// error for a record. Its result is taken to depend on `text` alone.
#[verifier::external_body]
fn read_csv_records(text: &str) -> (rows: Vec<Option<Vec<String>>>)
    ensures
        row_views(rows@) == csv_data_rows(text@),
{
    let mut rdr = csv::ReaderBuilder::new().has_headers(true).from_reader(text.as_bytes());
    rdr.records().map(|r| r.ok().map(|rec| rec.iter().map(|f| f.to_string()).collect())).collect()
}

/// Why the wage CSV could not be read.
#[derive(Debug, Clone, PartialEq, Eq)]
pub enum WageCsvError {
    /// The header row could not be read.
    Headers,
    /// A required column is missing from the header row.
    MissingColumn(String),
}

/// `i` is the first position of `name` among the headers.
pub open spec fn first_column(headers: Seq<Seq<char>>, name: Seq<char>, i: int) -> bool {
    0 <= i < headers.len() && headers[i] == name && forall|j: int|
        0 <= j < i ==> #[trigger] headers[j] != name
}

/// Find column index by exact header name.
pub fn col_index(headers: &Vec<String>, name: &str) -> (r: Result<usize, WageCsvError>)
    ensures
        match r {
            Ok(i) => first_column(str_views(headers@), name@, i as int),
            Err(e) => e == WageCsvError::MissingColumn(e->MissingColumn_0) && e->MissingColumn_0@
                == name@ && forall|j: int|
                0 <= j < headers.len() ==> #[trigger] headers@[j]@ != name@,
        },
{
    let mut i: usize = 0;
    while i < headers.len()
        invariant
            i <= headers.len(),
            forall|j: int| 0 <= j < i ==> #[trigger] headers@[j]@ != name@,
        decreases headers.len() - i,
    {
        if str_eq(headers[i].as_str(), name) {
            return Ok(i);
        }
        i = i + 1;
    }
    Err(WageCsvError::MissingColumn(String::from_str(name)))
}

/// `record.get(i).unwrap_or("").trim()`.
pub open spec fn cell(fields: Seq<Seq<char>>, i: int) -> Seq<char> {
    if 0 <= i < fields.len() {
        trim(fields[i])
    } else {
        Seq::empty()
    }
}

/// A wage observation read from one CSV record: the region slug, the date
/// of the year and the value as written.
pub struct WageRecord {
    pub region: String,
    pub date: String,
    pub value_text: String,
}

/// Positions of the columns the wage import reads.
pub struct WageColumns {
    pub hodnota: usize,
    pub spkvantil_kod: usize,
    pub pohlavi_kod: usize,
    pub rok: usize,
    pub uzemi_txt: usize,
}

/// The wage observation in a record: only the average (no quantile code)
/// for both sexes (no sex code) in a known territory counts.
pub open spec fn wage_row(fields: Seq<Seq<char>>, c: WageColumns) -> Option<
    (Seq<char>, Seq<char>, Seq<char>),
> {
    if cell(fields, c.spkvantil_kod as int).len() != 0 || cell(fields, c.pohlavi_kod as int).len()
        != 0 {
        None
    } else {
        match lookup(czso_regions(), cell(fields, c.uzemi_txt as int)) {
            Some(region) => Some(
                (region, cell(fields, c.rok as int) + "-01-01"@, cell(fields, c.hodnota as int)),
            ),
            None => None,
        }
    }
}

/// The wage observations of the records, in order; records in error and
/// records that are not a regional average are skipped.
pub open spec fn wage_rows(rows: Seq<Option<Seq<Seq<char>>>>, c: WageColumns) -> Seq<
    (Seq<char>, Seq<char>, Seq<char>),
>
    decreases rows.len(),
{
    if rows.len() == 0 {
        Seq::empty()
    } else {
        let prev = wage_rows(rows.drop_last(), c);
        match rows.last() {
            Some(fields) => match wage_row(fields, c) {
                Some(w) => prev.push(w),
                None => prev,
            },
            None => prev,
        }
    }
}

pub open spec fn record_views(v: Seq<WageRecord>) -> Seq<(Seq<char>, Seq<char>, Seq<char>)> {
    v.map_values(|r: WageRecord| (r.region@, r.date@, r.value_text@))
}

fn cell_of(fields: &Vec<String>, i: usize) -> (s: Vec<char>)
    ensures
        s@ == cell(str_views(fields@), i as int),
{
    if i < fields.len() {
        trim_chars(&chars_of(fields[i].as_str()))
    } else {
        Vec::new()
    }
}

fn wage_row_of(
    slugs: &Vec<(&'static str, &'static str)>,
    fields: &Vec<String>,
    c: &WageColumns,
) -> (r: Option<WageRecord>)
    requires
        pair_views(slugs@) == czso_regions(),
    ensures
        match r {
            Some(w) => wage_row(str_views(fields@), *c) == Some((w.region@, w.date@, w.value_text@)),
            None => wage_row(str_views(fields@), *c) is None,
        },
{
    let spkvantil = cell_of(fields, c.spkvantil_kod);
    let pohlavi = cell_of(fields, c.pohlavi_kod);
    if spkvantil.len() != 0 || pohlavi.len() != 0 {
        return None;
    }
    let uzemi = string_of(&cell_of(fields, c.uzemi_txt));
    let region = match lookup_slug(slugs, uzemi.as_str()) {
        Some(slug) => String::from_str(slug),
        None => return None,
    };
    let mut date = string_of(&cell_of(fields, c.rok));
    date.append("-01-01");
    let value_text = string_of(&cell_of(fields, c.hodnota));
    Some(WageRecord { region, date, value_text })
}

/// The columns of the wage table, in the order they are looked up.
pub open spec fn wage_columns_spec(headers: Seq<Seq<char>>) -> Option<WageColumns> {
    if exists|a: int, b: int, d: int, e: int, f: int|
        first_column(headers, "hodnota"@, a) && first_column(headers, "SPKVANTIL_kod"@, b)
            && first_column(headers, "POHLAVI_kod"@, d) && first_column(headers, "rok"@, e)
            && first_column(headers, "uzemi_txt"@, f) {
        let (a, b, d, e, f) = choose|a: int, b: int, d: int, e: int, f: int|
            first_column(headers, "hodnota"@, a) && first_column(headers, "SPKVANTIL_kod"@, b)
                && first_column(headers, "POHLAVI_kod"@, d) && first_column(headers, "rok"@, e)
                && first_column(headers, "uzemi_txt"@, f);
        Some(
            WageColumns {
                hodnota: a as usize,
                spkvantil_kod: b as usize,
                pohlavi_kod: d as usize,
                rok: e as usize,
                uzemi_txt: f as usize,
            },
        )
    } else {
        None
    }
}

/// No header is `name`.
pub open spec fn column_absent(headers: Seq<Seq<char>>, name: Seq<char>) -> bool {
    forall|j: int| 0 <= j < headers.len() ==> #[trigger] headers[j] != name
}

/// The first of the columns read, in the order they are looked up
/// (`hodnota`, `SPKVANTIL_kod`, `POHLAVI_kod`, `rok`, `uzemi_txt`), that is
/// not in the header row.
pub open spec fn first_missing_column(headers: Seq<Seq<char>>) -> Option<Seq<char>> {
    if column_absent(headers, "hodnota"@) {
        Some("hodnota"@)
    } else if column_absent(headers, "SPKVANTIL_kod"@) {
        Some("SPKVANTIL_kod"@)
    } else if column_absent(headers, "POHLAVI_kod"@) {
        Some("POHLAVI_kod"@)
    } else if column_absent(headers, "rok"@) {
        Some("rok"@)
    } else if column_absent(headers, "uzemi_txt"@) {
        Some("uzemi_txt"@)
    } else {
        None
    }
}

proof fn lemma_first_column_unique(headers: Seq<Seq<char>>, name: Seq<char>, i: int, j: int)
    requires
        first_column(headers, name, i),
        first_column(headers, name, j),
    ensures
        i == j,
{
}

/// Parse the CZSO wage CSV (dataset 110080): the average monthly wage of
/// both sexes for each known territory and year, in file order.
///
/// Columns: idhod, hodnota, stapro_kod, SPKVANTIL_cis, SPKVANTIL_kod,
/// POHLAVI_cis, POHLAVI_kod, rok, uzemi_cis, uzemi_kod, STAPRO_TXT,
/// uzemi_txt, SPKVANTIL_txt, POHLAVI_txt.
pub fn wage_records(text: &str) -> (r: Result<Vec<WageRecord>, WageCsvError>)
    ensures
        match r {
            Ok(v) => {
                &&& csv_header_row(text@) is Some
                &&& wage_columns_spec(csv_header_row(text@).unwrap()) is Some
                &&& record_views(v@) == wage_rows(
                    csv_data_rows(text@),
                    wage_columns_spec(csv_header_row(text@).unwrap()).unwrap(),
                )
            },
            Err(WageCsvError::Headers) => csv_header_row(text@) is None,
            Err(WageCsvError::MissingColumn(name)) => {
                &&& csv_header_row(text@) is Some
                &&& wage_columns_spec(csv_header_row(text@).unwrap()) is None
                &&& first_missing_column(csv_header_row(text@).unwrap()) == Some(name@)
            },
        },
{
    let headers = match read_csv_headers(text) {
        Ok(h) => h,
        Err(_) => return Err(WageCsvError::Headers),
    };
    let rows = read_csv_records(text);
    wage_records_of(&headers, &rows)
}

/// The wage observations in a CSV table given as its header fields and its
/// data records (`None` for a record in error), in record order. Fails with
/// `MissingColumn` when one of the five columns read is not in the header.
pub fn wage_records_of(headers: &Vec<String>, rows: &Vec<Option<Vec<String>>>) -> (r: Result<
    Vec<WageRecord>,
    WageCsvError,
>)
    ensures
        match r {
            Ok(v) => {
                &&& wage_columns_spec(str_views(headers@)) is Some
                &&& record_views(v@) == wage_rows(
                    row_views(rows@),
                    wage_columns_spec(str_views(headers@)).unwrap(),
                )
            },
            Err(e) => {
                &&& e is MissingColumn
                &&& wage_columns_spec(str_views(headers@)) is None
                &&& first_missing_column(str_views(headers@)) == Some(e->MissingColumn_0@)
            },
        },
{
    let ghost h = str_views(headers@);
    let hodnota = col_index(headers, "hodnota")?;
    let spkvantil_kod = col_index(headers, "SPKVANTIL_kod")?;
    let pohlavi_kod = col_index(headers, "POHLAVI_kod")?;
    let rok = col_index(headers, "rok")?;
    let uzemi_txt = col_index(headers, "uzemi_txt")?;
    let c = WageColumns { hodnota, spkvantil_kod, pohlavi_kod, rok, uzemi_txt };
    proof {
        let (a, b, d, e, f) = choose|a: int, b: int, d: int, e: int, f: int|
            first_column(h, "hodnota"@, a) && first_column(h, "SPKVANTIL_kod"@, b)
                && first_column(h, "POHLAVI_kod"@, d) && first_column(h, "rok"@, e)
                && first_column(h, "uzemi_txt"@, f);
        lemma_first_column_unique(h, "hodnota"@, a, hodnota as int);
        lemma_first_column_unique(h, "SPKVANTIL_kod"@, b, spkvantil_kod as int);
        lemma_first_column_unique(h, "POHLAVI_kod"@, d, pohlavi_kod as int);
        lemma_first_column_unique(h, "rok"@, e, rok as int);
        lemma_first_column_unique(h, "uzemi_txt"@, f, uzemi_txt as int);
        assert(wage_columns_spec(h) == Some(c));
    }
    let slugs = region_slug_map();
    let mut out: Vec<WageRecord> = Vec::new();
    let mut i: usize = 0;
    while i < rows.len()
        invariant
            i <= rows.len(),
            pair_views(slugs@) == czso_regions(),
            record_views(out@) == wage_rows(row_views(rows@).take(i as int), c),
        decreases rows.len() - i,
    {
        proof {
            let t = row_views(rows@).take(i + 1);
            assert(t.drop_last() =~= row_views(rows@).take(i as int));
        }
        match &rows[i] {
            Some(fields) => {
                match wage_row_of(&slugs, fields, &c) {
                    Some(w) => {
                        out.push(w);
                        assert(record_views(out@) =~= wage_rows(
                            row_views(rows@).take(i as int),
                            c,
                        ).push((out@.last().region@, out@.last().date@, out@.last().value_text@)));
                    },
                    None => {},
                }
            },
            None => {},
        }
        i = i + 1;
    }
    assert(row_views(rows@).take(rows.len() as int) =~= row_views(rows@));
    Ok(out)
}

/// One resource listed in a CZSO dataset's metadata.
pub struct PackageResource {
    /// The resource's `format`, when it is a string.
    pub format: Option<String>,
    /// The resource's `url`, when it is a string.
    pub url: Option<String>,
}

/// The parts of a CZSO `package_show` reply that the import reads.
pub struct PackageInfo {
    /// `success`, when it is a boolean.
    pub success: Option<bool>,
    /// `error.message`, when it is a string.
    pub error_message: Option<String>,
    /// `result.resources`, when it is an array.
    pub resources: Option<Vec<PackageResource>>,
}

/// Why no CSV download could be found in a dataset's metadata.
#[derive(Debug, Clone, PartialEq, Eq)]
pub enum PackageError {
    /// The API reported failure, with its message or `unknown`.
    Api(String),
    /// The metadata lists no resources.
    NoResources,
    /// No resource is a CSV file with a URL.
    NoCsv,
}

pub open spec fn csv_word() -> Seq<char> {
    seq!['c', 's', 'v']
}

/// A resource whose format mentions CSV.
pub open spec fn is_csv_resource(r: PackageResource) -> bool {
    r.format matches Some(f) && contains_seq(f@, csv_word())
}

/// Resource `i` is the first whose format mentions CSV.
pub open spec fn first_csv_resource(rs: Seq<PackageResource>, i: int) -> bool {
    &&& 0 <= i < rs.len()
    &&& is_csv_resource(rs[i])
    &&& forall|j: int| 0 <= j < i ==> !is_csv_resource(#[trigger] rs[j])
}

fn csv_word_chars() -> (v: Vec<char>)
    ensures
        v@ == csv_word(),
{
    let v = vec!['c', 's', 'v'];
    assert(v@ =~= csv_word());
    v
}

/// The CSV download URL of a dataset: the URL of the first resource whose
/// format mentions CSV.
pub fn csv_resource_url(info: &PackageInfo) -> (r: Result<String, PackageError>)
    ensures
        match r {
            Ok(url) => {
                &&& info.success == Some(true)
                &&& info.resources is Some
                &&& exists|i: int|
                    0 <= i < info.resources.unwrap().len() && first_csv_resource(
                        info.resources.unwrap()@,
                        i,
                    ) && info.resources.unwrap()@[i].url is Some
                        && info.resources.unwrap()@[i].url.unwrap()@ == url@
            },
            Err(PackageError::Api(m)) => info.success != Some(true) && m@ == (match info.error_message {
                Some(msg) => msg@,
                None => "unknown"@,
            }),
            Err(PackageError::NoResources) => info.success == Some(true) && info.resources is None,
            Err(PackageError::NoCsv) => {
                &&& info.success == Some(true)
                &&& info.resources is Some
                &&& forall|i: int|
                    #![trigger first_csv_resource(info.resources.unwrap()@, i)]
                    first_csv_resource(info.resources.unwrap()@, i)
                        ==> info.resources.unwrap()@[i].url is None
            },
        },
{
    let ok = match info.success {
        Some(b) => b,
        None => false,
    };
    if !ok {
        let m = match &info.error_message {
            Some(msg) => msg.clone(),
            None => String::from_str("unknown"),
        };
        return Err(PackageError::Api(m));
    }
    let rs = match &info.resources {
        Some(rs) => rs,
        None => return Err(PackageError::NoResources),
    };
    let word = csv_word_chars();
    let mut i: usize = 0;
    while i < rs.len()
        invariant
            i <= rs.len(),
            word@ == csv_word(),
            info.success == Some(true),
            info.resources == Some(*rs),
            forall|j: int| 0 <= j < i ==> !is_csv_resource(#[trigger] rs@[j]),
        decreases rs.len() - i,
    {
        let is_csv = match &rs[i].format {
            Some(f) => find_chars(&chars_of(f.as_str()), &word).is_some(),
            None => false,
        };
        if is_csv {
            proof {
                assert(is_csv_resource(rs@[i as int]));
                assert(first_csv_resource(rs@, i as int));
            }
            return match &rs[i].url {
                Some(u) => {
                    let url = u.clone();
                    proof {
                        assert(info.resources.unwrap()@ == rs@);
                        assert(info.resources.unwrap()@[i as int].url.unwrap()@ == url@);
                        assert(first_csv_resource(info.resources.unwrap()@, i as int));
                    }
                    Ok(url)
                },
                None => Err(PackageError::NoCsv),
            };
        }
        i = i + 1;
    }
    Err(PackageError::NoCsv)
}

} // verus!
