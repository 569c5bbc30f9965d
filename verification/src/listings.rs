//! Reading Sreality listings: the flat layout and area written in a
//! listing's title, detail URLs, and which estates and pages count.
use vstd::prelude::*;
use vstd::string::*;

use crate::numbers::{fmt_int, int_decimal};
use crate::text::{
    byte_len, byte_len_of, chars_of, contains_seq, occurs_at, find_chars, first_occurrence, is_digit,
    is_digit_char, replace_char, replace_char_exec, string_of, trim_end, trim_end_chars, views,
    words, words_of,
};

verus! {

/// What `str::to_lowercase` returns for a text.
pub uninterp spec fn lowercase(s: Seq<char>) -> Seq<char>;

/// `str::to_lowercase`: Unicode lowercasing of `s`. Its result is taken to
/// depend on `s` alone; what each character lowers to is not stated.
#[verifier::external_body]
pub(crate) fn to_lowercase(s: &str) -> (r: String)
    ensures
        r@ == lowercase(s@),
{
    s.to_lowercase()
}

/// A title with its non-breaking spaces turned into plain spaces.
pub open spec fn normalized(name: Seq<char>) -> Seq<char> {
    replace_char(name, '\u{a0}', ' ')
}

/// A word that reads like a layout such as `3+kk` or `2+1`: it holds a `+`,
/// is at least three bytes long and starts with an ASCII digit.
pub open spec fn is_layout_word(w: Seq<char>) -> bool {
    &&& w.contains('+')
    &&& byte_len(w) >= 3
    &&& w.len() > 0
    &&& is_digit(w[0])
}

/// Word `i` of `ws` is the first layout word.
pub open spec fn first_layout_word(ws: Seq<Seq<char>>, i: int) -> bool {
    0 <= i < ws.len() && is_layout_word(ws[i]) && forall|j: int|
        0 <= j < i ==> !is_layout_word(#[trigger] ws[j])
}

fn is_layout_word_exec(w: &Vec<char>) -> (b: bool)
    ensures
        b == is_layout_word(w@),
{
    let mut has_plus = false;
    let mut i: usize = 0;
    while i < w.len()
        invariant
            i <= w.len(),
            has_plus == (exists|k: int| 0 <= k < i && w@[k] == '+'),
        decreases w.len() - i,
    {
        if w[i] == '+' {
            has_plus = true;
        }
        i = i + 1;
    }
    proof {
        if has_plus {
            let k = choose|k: int| 0 <= k < w@.len() && w@[k] == '+';
            assert(w@.contains('+'));
        }
    }
    has_plus && byte_len_of(w) >= 3 && w.len() > 0 && is_digit_char(w[0])
}

/// The layout a title names: its first layout word, lowercased.
pub open spec fn layout_spec(name: Seq<char>) -> Option<Seq<char>> {
    let ws = words(normalized(name));
    if exists|i: int| first_layout_word(ws, i) {
        Some(lowercase(ws[choose|i: int| first_layout_word(ws, i)]))
    } else {
        None
    }
}

proof fn lemma_first_layout_word_unique(ws: Seq<Seq<char>>, i: int, j: int)
    requires
        first_layout_word(ws, i),
        first_layout_word(ws, j),
    ensures
        i == j,
{
}

/// Extract layout type from listing name (e.g. "3+kk", "2+1").
pub fn extract_layout_from_name(name: &str) -> (r: Option<String>)
    ensures
        match r {
            Some(l) => layout_spec(name@) == Some(l@),
            None => layout_spec(name@) is None,
        },
{
    let v = chars_of(name);
    let n = replace_char_exec(&v, '\u{a0}', ' ');
    let ws = words_of(&n);
    let ghost wv = words(normalized(name@));
    let mut i: usize = 0;
    while i < ws.len()
        invariant
            i <= ws.len(),
            views(ws@) == wv,
            wv == words(normalized(name@)),
            forall|j: int| 0 <= j < i ==> !is_layout_word(#[trigger] wv[j]),
        decreases ws.len() - i,
    {
        proof {
            assert(views(ws@)[i as int] == ws@[i as int]@);
        }
        if is_layout_word_exec(&ws[i]) {
            let word = string_of(&ws[i]);
            let l = to_lowercase(word.as_str());
            proof {
                assert(first_layout_word(wv, i as int));
                let c = choose|k: int| first_layout_word(wv, k);
                lemma_first_layout_word_unique(wv, i as int, c);
            }
            return Some(l);
        }
        i = i + 1;
    }
    proof {
        if exists|k: int| first_layout_word(wv, k) {
            let k = choose|k: int| first_layout_word(wv, k);
            assert(!is_layout_word(wv[k]));
        }
    }
    None
}

/// The run of digits and dots that ends `s` (what `rsplit_once` on any
/// other character leaves after the split, or all of `s` when there is no
/// such character).
pub open spec fn numeric_suffix(s: Seq<char>) -> Seq<char>
    decreases s.len(),
{
    if s.len() > 0 && (is_digit(s.last()) || s.last() == '.') {
        numeric_suffix(s.drop_last()).push(s.last())
    } else {
        Seq::empty()
    }
}

/// The number text read in front of the first occurrence of `pattern`.
pub open spec fn area_candidate(name: Seq<char>, pattern: Seq<char>) -> Seq<char> {
    let s = normalized(name);
    let i = choose|i: int| first_occurrence(s, pattern, i);
    numeric_suffix(trim_end(s.take(i)))
}

/// The area unit markers looked for, in order: `m²`, `m2` and `m `.
pub open spec fn area_patterns() -> Seq<Seq<char>> {
    seq![seq!['m', '\u{b2}'], seq!['m', '2'], seq!['m', ' ']]
}

/// The candidate area texts of a title: for each unit marker that occurs,
/// in order, the number written just before its first occurrence.
pub open spec fn area_candidates_spec(name: Seq<char>) -> Seq<Seq<char>> {
    area_patterns().filter(marker_in(name)).map_values(candidate_for(name))
}

/// The unit marker occurs in the title.
pub open spec fn marker_in(name: Seq<char>) -> spec_fn(Seq<char>) -> bool {
    |p: Seq<char>| contains_seq(normalized(name), p)
}

/// The number text in front of a unit marker of the title.
pub open spec fn candidate_for(name: Seq<char>) -> spec_fn(Seq<char>) -> Seq<char> {
    |p: Seq<char>| area_candidate(name, p)
}

fn numeric_suffix_exec(v: &Vec<char>) -> (w: Vec<char>)
    ensures
        w@ == numeric_suffix(v@),
{
    let mut start = v.len();
    assert(v@.take(start as int) =~= v@);
    while start > 0 && (is_digit_char(v[start - 1]) || v[start - 1] == '.')
        invariant
            start <= v.len(),
            numeric_suffix(v@) == numeric_suffix(v@.take(start as int)) + v@.subrange(
                start as int,
                v.len() as int,
            ),
        decreases start,
    {
        proof {
            let t = v@.take(start as int);
            assert(t.drop_last() =~= v@.take(start - 1));
            assert(t.last() == v@[start - 1]);
            assert(numeric_suffix(t) == numeric_suffix(v@.take(start - 1)).push(v@[start - 1]));
            assert(v@.subrange(start - 1, v.len() as int) =~= seq![v@[start - 1]] + v@.subrange(
                start as int,
                v.len() as int,
            ));
            assert(numeric_suffix(v@.take(start - 1)).push(v@[start - 1]) + v@.subrange(
                start as int,
                v.len() as int,
            ) =~= numeric_suffix(v@.take(start - 1)) + v@.subrange(start - 1, v.len() as int));
        }
        start = start - 1;
    }
    assert(numeric_suffix(v@.take(start as int)) =~= Seq::<char>::empty());
    let mut w: Vec<char> = Vec::new();
    let mut k = start;
    while k < v.len()
        invariant
            start <= k <= v.len(),
            w@ == v@.subrange(start as int, k as int),
        decreases v.len() - k,
    {
        w.push(v[k]);
        k = k + 1;
        assert(w@ =~= v@.subrange(start as int, k as int));
    }
    assert(numeric_suffix(v@) =~= v@.subrange(start as int, v.len() as int));
    w
}

fn area_candidate_of(s: &Vec<char>, pattern: &Vec<char>, at: usize) -> (w: Vec<char>)
    requires
        first_occurrence(s@, pattern@, at as int),
    ensures
        w@ == numeric_suffix(trim_end(s@.take(at as int))),
{
    let mut before: Vec<char> = Vec::new();
    let mut k: usize = 0;
    while k < at
        invariant
            k <= at <= s.len(),
            before@ == s@.take(k as int),
        decreases at - k,
    {
        before.push(s[k]);
        k = k + 1;
        assert(before@ =~= s@.take(k as int));
    }
    let t = trim_end_chars(&before);
    numeric_suffix_exec(&t)
}

/// Try to extract flat area in m2 from a Sreality listing name: the texts
/// in front of each unit marker, in the order the markers are tried.
/// The first of them that reads as a number from 10 to 500 is the area.
pub fn area_candidates(name: &str) -> (c: Vec<String>)
    ensures
        c@.map_values(|x: String| x@) == area_candidates_spec(name@),
{
    let v = chars_of(name);
    let s = replace_char_exec(&v, '\u{a0}', ' ');
    let mut out: Vec<String> = Vec::new();
    let mut pats: Vec<Vec<char>> = Vec::new();
    pats.push(vec!['m', '\u{b2}']);
    pats.push(vec!['m', '2']);
    pats.push(vec!['m', ' ']);
    assert(views(pats@) =~= area_patterns());
    let ghost f = marker_in(name@);
    let ghost g = candidate_for(name@);
    let mut i: usize = 0;
    while i < pats.len()
        invariant
            i <= pats.len(),
            views(pats@) == area_patterns(),
            s@ == normalized(name@),
            f == marker_in(name@),
            g == candidate_for(name@),
            out@.map_values(|x: String| x@) == area_patterns().take(i as int).filter(f).map_values(g),
        decreases pats.len() - i,
    {
        let ghost pre = area_patterns().take(i as int);
        let ghost p = area_patterns()[i as int];
        proof {
            assert(pats@[i as int]@ == p);
            assert(area_patterns().take(i + 1) =~= pre.push(p));
            reveal(Seq::filter);
            assert(area_patterns().take(i + 1).drop_last() =~= pre);
        }
        match find_chars(&s, &pats[i]) {
            Some(at) => {
                let w = area_candidate_of(&s, &pats[i], at);
                proof {
                    let j = choose|j: int| first_occurrence(s@, p, j);
                    if j < at {
                    } else if at < j {
                    }
                    assert(j == at);
                    assert(occurs_at(s@, p, at as int));
                    assert(contains_seq(normalized(name@), p));
                    assert(f(p));
                }
                out.push(string_of(&w));
                proof {
                    assert(out@.map_values(|x: String| x@) =~= pre.filter(f).map_values(g).push(g(p)));
                    assert(pre.push(p).filter(f) == pre.filter(f).push(p));
                    assert(pre.filter(f).push(p).map_values(g) =~= pre.filter(f).map_values(g).push(g(p)));
                }
            },
            None => {
                proof {
                    assert(!contains_seq(s@, pats@[i as int]@));
                    assert(!contains_seq(normalized(name@), p));
                    assert(!f(p));
                    assert(pre.push(p).filter(f) == pre.filter(f));
                }
            },
        }
        i = i + 1;
    }
    assert(area_patterns().take(3) =~= area_patterns());
    out
}

/// Sreality's code for flats.
pub const CATEGORY_FLAT: u32 = 1;

/// Sreality's code for sales.
pub const TYPE_SALE: u32 = 1;

/// Sreality's code for rentals.
pub const TYPE_RENT: u32 = 2;

pub const DETAIL_URL: &'static str = "https://www.sreality.cz/detail/";

pub const SEARCH_URL: &'static str = "https://www.sreality.cz/hledani/";

/// The URL path word for a listing type.
pub open spec fn type_slug(listing_type: u32) -> Seq<char> {
    if listing_type == TYPE_SALE {
        "prodej"@
    } else {
        "pronajem"@
    }
}

/// The detail page of a listing when Sreality gave its id, with its SEO
/// locality or else the region's slug; the region's search page otherwise.
pub open spec fn listing_url_spec(
    listing_type: u32,
    name: Seq<char>,
    hash_id: Option<i64>,
    seo_locality: Option<Seq<char>>,
    region_slug: Seq<char>,
) -> Seq<char> {
    let layout = match layout_spec(name) {
        Some(l) => l,
        None => "byt"@,
    };
    let region = replace_char(region_slug, '_', '-');
    match (hash_id, seo_locality) {
        (Some(h), Some(loc)) => DETAIL_URL@ + type_slug(listing_type) + "/byt/"@ + layout + "/"@
            + loc + "/"@ + int_decimal(h as int),
        (Some(h), None) => DETAIL_URL@ + type_slug(listing_type) + "/byt/"@ + layout + "/"@
            + region + "/"@ + int_decimal(h as int),
        (None, _) => SEARCH_URL@ + type_slug(listing_type) + "/byty/"@ + region,
    }
}

/// Build a Sreality detail URL for a listing, or fall back to search URL.
pub fn build_listing_url(
    listing_type: u32,
    name: &str,
    hash_id: Option<i64>,
    seo_locality: Option<&str>,
    region_slug: &str,
) -> (url: String)
    ensures
        url@ == listing_url_spec(
            listing_type,
            name@,
            hash_id,
            match seo_locality {
                Some(l) => Some(l@),
                None => None,
            },
            region_slug@,
        ),
{
    let ty = if listing_type == TYPE_SALE {
        "prodej"
    } else {
        "pronajem"
    };
    let layout = match extract_layout_from_name(name) {
        Some(l) => l,
        None => String::from_str("byt"),
    };
    let region = string_of(&replace_char_exec(&chars_of(region_slug), '_', '-'));
    match (hash_id, seo_locality) {
        (Some(h), Some(loc)) => {
            let mut url = String::from_str(DETAIL_URL);
            url.append(ty);
            url.append("/byt/");
            url.append(layout.as_str());
            url.append("/");
            url.append(loc);
            url.append("/");
            url.append(fmt_int(h).as_str());
            url
        },
        (Some(h), None) => {
            let mut url = String::from_str(DETAIL_URL);
            url.append(ty);
            url.append("/byt/");
            url.append(layout.as_str());
            url.append("/");
            url.append(region.as_str());
            url.append("/");
            url.append(fmt_int(h).as_str());
            url
        },
        (None, _) => {
            let mut url = String::from_str(SEARCH_URL);
            url.append(ty);
            url.append("/byty/");
            url.append(region.as_str());
            url
        },
    }
}

/// The price a listing is counted at: the raw CZK value when given, else
/// the listed price; listings without a positive price are skipped.
pub fn listing_price(price: i64, value_raw: Option<i64>) -> (r: Option<i64>)
    ensures
        r == (match value_raw {
            Some(p) => if p > 0 {
                Some(p)
            } else {
                None
            },
            None => if price > 0 {
                Some(price)
            } else {
                None
            },
        }),
{
    let p = match value_raw {
        Some(p) => p,
        None => price,
    };
    if p <= 0 {
        None
    } else {
        Some(p)
    }
}

/// All listings have been fetched once the pages read so far cover the
/// total Sreality reports.
pub fn last_page_reached(page: u64, per_page: u64, total: u64) -> (done: bool)
    requires
        page < u64::MAX,
        (page + 1) * per_page <= u64::MAX,
    ensures
        done == ((page + 1) * per_page >= total),
{
    (page + 1) * per_page >= total
}

/// Locality filter for the Sreality API.
#[derive(Debug, Clone, Copy, PartialEq, Eq, Structural)]
pub enum LocalityFilter {
    /// The `locality_region_id` parameter (Praha spans several districts).
    Region(i64),
    /// The `locality_district_id` parameter (all other cities).
    District(i64),
}

/// The query parameter and value that select a locality.
pub fn locality_query(filter: LocalityFilter) -> (q: (&'static str, String))
    ensures
        match filter {
            LocalityFilter::Region(id) => q.0@ == "locality_region_id"@ && q.1@ == int_decimal(
                id as int,
            ),
            LocalityFilter::District(id) => q.0@ == "locality_district_id"@ && q.1@
                == int_decimal(id as int),
        },
{
    match filter {
        LocalityFilter::Region(id) => ("locality_region_id", fmt_int(id)),
        LocalityFilter::District(id) => ("locality_district_id", fmt_int(id)),
    }
}

/// The regional capitals: slug, display name and Sreality locality filter.
pub open spec fn sreality_table() -> Seq<(Seq<char>, Seq<char>, LocalityFilter)> {
    seq![
        ("praha"@, "Praha"@, LocalityFilter::Region(10)),
        ("brno"@, "Brno"@, LocalityFilter::District(72)),
        ("ostrava"@, "Ostrava"@, LocalityFilter::District(65)),
        ("plzen"@, "Plzeň"@, LocalityFilter::District(12)),
        ("liberec"@, "Liberec"@, LocalityFilter::District(22)),
        ("olomouc"@, "Olomouc"@, LocalityFilter::District(42)),
        ("hradec_kralove"@, "Hradec Králové"@, LocalityFilter::District(28)),
        ("ceske_budejovice"@, "České Budějovice"@, LocalityFilter::District(1)),
        ("usti_nad_labem"@, "Ústí nad Labem"@, LocalityFilter::District(27)),
        ("pardubice"@, "Pardubice"@, LocalityFilter::District(32)),
        ("zlin"@, "Zlín"@, LocalityFilter::District(38)),
        ("karlovy_vary"@, "Karlovy Vary"@, LocalityFilter::District(10)),
        ("jihlava"@, "Jihlava"@, LocalityFilter::District(67)),
        ("stredocesky"@, "Středočeský kraj"@, LocalityFilter::Region(11)),
    ]
}

/// The entries of a region table, as character sequences.
pub open spec fn region_entry_views(
    v: Seq<(&'static str, &'static str, LocalityFilter)>,
) -> Seq<(Seq<char>, Seq<char>, LocalityFilter)> {
    v.map_values(|e: (&'static str, &'static str, LocalityFilter)| (e.0@, e.1@, e.2))
}

/// Regional capitals with their Sreality locality filters
/// (IDs from the Sreality suggest API).
pub fn sreality_regions() -> (v: Vec<(&'static str, &'static str, LocalityFilter)>)
    ensures
        region_entry_views(v@) == sreality_table(),
        v@.len() == 14,
        forall|i: int| 0 <= i < 14 ==> (#[trigger] v@[i]).0@ == crate::regions::region_slugs()[i + 1],
{
    let v = vec![
        ("praha", "Praha", LocalityFilter::Region(10)),
        ("brno", "Brno", LocalityFilter::District(72)),
        ("ostrava", "Ostrava", LocalityFilter::District(65)),
        ("plzen", "Plzeň", LocalityFilter::District(12)),
        ("liberec", "Liberec", LocalityFilter::District(22)),
        ("olomouc", "Olomouc", LocalityFilter::District(42)),
        ("hradec_kralove", "Hradec Králové", LocalityFilter::District(28)),
        ("ceske_budejovice", "České Budějovice", LocalityFilter::District(1)),
        ("usti_nad_labem", "Ústí nad Labem", LocalityFilter::District(27)),
        ("pardubice", "Pardubice", LocalityFilter::District(32)),
        ("zlin", "Zlín", LocalityFilter::District(38)),
        ("karlovy_vary", "Karlovy Vary", LocalityFilter::District(10)),
        ("jihlava", "Jihlava", LocalityFilter::District(67)),
        ("stredocesky", "Středočeský kraj", LocalityFilter::Region(11)),
    ];
    assert(region_entry_views(v@) =~= sreality_table());
    v
}

/// Query parameters for one page of flat listings of a type in a locality,
/// cheapest-first paging starting at page 1.
pub fn estate_query(listing_type: u32, filter: LocalityFilter, per_page: u32, page: u64) -> (q: Vec<
    (&'static str, String),
>)
    requires
        page < u64::MAX,
    ensures
        q@.len() == 6,
        q@[0].0@ == "category_main_cb"@ && q@[0].1@ == int_decimal(CATEGORY_FLAT as int),
        q@[1].0@ == "category_type_cb"@ && q@[1].1@ == int_decimal(listing_type as int),
        match filter {
            LocalityFilter::Region(id) => q@[2].0@ == "locality_region_id"@ && q@[2].1@
                == int_decimal(id as int),
            LocalityFilter::District(id) => q@[2].0@ == "locality_district_id"@ && q@[2].1@
                == int_decimal(id as int),
        },
        q@[3].0@ == "per_page"@ && q@[3].1@ == int_decimal(per_page as int),
        q@[4].0@ == "page"@ && q@[4].1@ == int_decimal(page + 1),
        q@[5].0@ == "sort"@ && q@[5].1@ == "0"@,
{
    let (param, value) = locality_query(filter);
    let mut q: Vec<(&'static str, String)> = Vec::new();
    q.push(("category_main_cb", fmt_int(CATEGORY_FLAT as i64)));
    q.push(("category_type_cb", fmt_int(listing_type as i64)));
    q.push((param, value));
    q.push(("per_page", fmt_int(per_page as i64)));
    let next = page + 1;
    q.push(("page", fmt_u64(next)));
    q.push(("sort", String::from_str("0")));
    assert(q@[5].1@ == "0"@);
    q
}

/// `n.to_string()` for a `u64`.
fn fmt_u64(n: u64) -> (s: String)
    ensures
        s@ == int_decimal(n as int),
{
    if n <= 9223372036854775807 {
        fmt_int(n as i64)
    } else {
        let hi = n / 10;
        let lo = n % 10;
        let mut s = fmt_int(hi as i64);
        let d: char = match lo {
            0 => '0',
            1 => '1',
            2 => '2',
            3 => '3',
            4 => '4',
            5 => '5',
            6 => '6',
            7 => '7',
            8 => '8',
            _ => '9',
        };
        proof {
            crate::numbers::lemma_digit_char(lo as int);
            assert(d == crate::numbers::digit_char(lo as int)) by {
                assert((lo + 0x30) as char as u32 == lo + 0x30);
            }
        }
        crate::text::push_char(&mut s, d);
        s
    }
}


/// Each capital is searched in its own Sreality locality: Praha in region
/// 10, Brno in district 72, Ostrava in 65, Plzeň in 12, Liberec in 22,
/// Olomouc in 42, Hradec Králové in 28, České Budějovice in 1, Ústí nad
/// Labem in 27, Pardubice in 32, Zlín in 38, Karlovy Vary in 10, Jihlava in
/// 67, and the Central Bohemian region in region 11.
pub proof fn lemma_capital_localities()
    ensures
        sreality_table().len() == 14,
        sreality_table()[0] == ("praha"@, "Praha"@, LocalityFilter::Region(10)),
        sreality_table()[1] == ("brno"@, "Brno"@, LocalityFilter::District(72)),
        sreality_table()[2] == ("ostrava"@, "Ostrava"@, LocalityFilter::District(65)),
        sreality_table()[3] == ("plzen"@, "Plzeň"@, LocalityFilter::District(12)),
        sreality_table()[4] == ("liberec"@, "Liberec"@, LocalityFilter::District(22)),
        sreality_table()[5] == ("olomouc"@, "Olomouc"@, LocalityFilter::District(42)),
        sreality_table()[6] == ("hradec_kralove"@, "Hradec Králové"@, LocalityFilter::District(28)),
        sreality_table()[7] == ("ceske_budejovice"@, "České Budějovice"@, LocalityFilter::District(1)),
        sreality_table()[8] == ("usti_nad_labem"@, "Ústí nad Labem"@, LocalityFilter::District(27)),
        sreality_table()[9] == ("pardubice"@, "Pardubice"@, LocalityFilter::District(32)),
        sreality_table()[10] == ("zlin"@, "Zlín"@, LocalityFilter::District(38)),
        sreality_table()[11] == ("karlovy_vary"@, "Karlovy Vary"@, LocalityFilter::District(10)),
        sreality_table()[12] == ("jihlava"@, "Jihlava"@, LocalityFilter::District(67)),
        sreality_table()[13] == ("stredocesky"@, "Středočeský kraj"@, LocalityFilter::Region(11)),
{
}

/// No two capitals share a locality filter, so no city's prices are taken
/// from another city's listings.
pub proof fn lemma_localities_distinct()
    ensures
        forall|i: int, j: int|
            0 <= i < j < sreality_table().len() ==> (#[trigger] sreality_table()[i]).2 != (
            #[trigger] sreality_table()[j]).2,
{
}

} // verus!
