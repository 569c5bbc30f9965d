//! Region slugs and the mappings between the data sources' names for them.
use vstd::prelude::*;
use vstd::string::*;

use crate::text::{chars_of, replace_char, replace_char_exec, str_eq, string_of};

verus! {

/// The CZSO kraj whose wages stand for a Sreality city.
pub open spec fn kraj_of(city: Seq<char>) -> Option<Seq<char>> {
    if city == "praha"@ {
        Some("praha"@)
    } else if city == "brno"@ {
        Some("jihomoravsky"@)
    } else if city == "ostrava"@ {
        Some("moravskoslezsky"@)
    } else if city == "plzen"@ {
        Some("plzensky"@)
    } else if city == "liberec"@ {
        Some("liberecky"@)
    } else if city == "olomouc"@ {
        Some("olomoucky"@)
    } else if city == "hradec_kralove"@ {
        Some("kralovehradecky"@)
    } else if city == "ceske_budejovice"@ {
        Some("jihocesky"@)
    } else if city == "usti_nad_labem"@ {
        Some("ustecky"@)
    } else if city == "pardubice"@ {
        Some("pardubicky"@)
    } else if city == "zlin"@ {
        Some("zlinsky"@)
    } else if city == "karlovy_vary"@ {
        Some("karlovarsky"@)
    } else if city == "jihlava"@ {
        Some("vysocina"@)
    } else if city == "stredocesky"@ {
        Some("stredocesky"@)
    } else {
        None
    }
}

/// Map city slugs (from Sreality) to CZSO kraj slugs (for wage lookup).
/// Praha maps to itself since CZSO uses "praha" for "Hlavní město Praha".
pub fn city_to_kraj(city: &str) -> (r: Option<&'static str>)
    ensures
        match r {
            Some(k) => kraj_of(city@) == Some(k@),
            None => kraj_of(city@) is None,
        },
{
    if str_eq(city, "praha") {
        Some("praha")
    } else if str_eq(city, "brno") {
        Some("jihomoravsky")
    } else if str_eq(city, "ostrava") {
        Some("moravskoslezsky")
    } else if str_eq(city, "plzen") {
        Some("plzensky")
    } else if str_eq(city, "liberec") {
        Some("liberecky")
    } else if str_eq(city, "olomouc") {
        Some("olomoucky")
    } else if str_eq(city, "hradec_kralove") {
        Some("kralovehradecky")
    } else if str_eq(city, "ceske_budejovice") {
        Some("jihocesky")
    } else if str_eq(city, "usti_nad_labem") {
        Some("ustecky")
    } else if str_eq(city, "pardubice") {
        Some("pardubicky")
    } else if str_eq(city, "zlin") {
        Some("zlinsky")
    } else if str_eq(city, "karlovy_vary") {
        Some("karlovarsky")
    } else if str_eq(city, "jihlava") {
        Some("vysocina")
    } else if str_eq(city, "stredocesky") {
        Some("stredocesky")
    } else {
        None
    }
}

/// The display name of a region slug: the known regions by name, any other
/// slug with its underscores turned into spaces.
pub open spec fn display_name_of(slug: Seq<char>) -> Seq<char> {
    if slug == "national"@ {
        "Czech Republic"@
    } else if slug == "praha"@ {
        "Praha"@
    } else if slug == "brno"@ {
        "Brno"@
    } else if slug == "ostrava"@ {
        "Ostrava"@
    } else if slug == "plzen"@ {
        "Plzen"@
    } else if slug == "liberec"@ {
        "Liberec"@
    } else if slug == "olomouc"@ {
        "Olomouc"@
    } else if slug == "hradec_kralove"@ {
        "Hradec Kralove"@
    } else if slug == "ceske_budejovice"@ {
        "Ceske Budejovice"@
    } else if slug == "usti_nad_labem"@ {
        "Usti nad Labem"@
    } else if slug == "pardubice"@ {
        "Pardubice"@
    } else if slug == "zlin"@ {
        "Zlin"@
    } else if slug == "karlovy_vary"@ {
        "Karlovy Vary"@
    } else if slug == "jihlava"@ {
        "Jihlava"@
    } else if slug == "stredocesky"@ {
        "Středočeský kraj"@
    } else {
        replace_char(slug, '_', ' ')
    }
}

/// Convert region slug to display name.
pub fn slug_to_display_name(slug: &str) -> (name: String)
    ensures
        name@ == display_name_of(slug@),
{
    if str_eq(slug, "national") {
        String::from_str("Czech Republic")
    } else if str_eq(slug, "praha") {
        String::from_str("Praha")
    } else if str_eq(slug, "brno") {
        String::from_str("Brno")
    } else if str_eq(slug, "ostrava") {
        String::from_str("Ostrava")
    } else if str_eq(slug, "plzen") {
        String::from_str("Plzen")
    } else if str_eq(slug, "liberec") {
        String::from_str("Liberec")
    } else if str_eq(slug, "olomouc") {
        String::from_str("Olomouc")
    } else if str_eq(slug, "hradec_kralove") {
        String::from_str("Hradec Kralove")
    } else if str_eq(slug, "ceske_budejovice") {
        String::from_str("Ceske Budejovice")
    } else if str_eq(slug, "usti_nad_labem") {
        String::from_str("Usti nad Labem")
    } else if str_eq(slug, "pardubice") {
        String::from_str("Pardubice")
    } else if str_eq(slug, "zlin") {
        String::from_str("Zlin")
    } else if str_eq(slug, "karlovy_vary") {
        String::from_str("Karlovy Vary")
    } else if str_eq(slug, "jihlava") {
        String::from_str("Jihlava")
    } else if str_eq(slug, "stredocesky") {
        String::from_str("Středočeský kraj")
    } else {
        let v = chars_of(slug);
        let w = replace_char_exec(&v, '_', ' ');
        string_of(&w)
    }
}

/// Display name of a region slug, as used by the chart endpoints.
pub fn display_name(slug: &str) -> (name: String)
    ensures
        name@ == display_name_of(slug@),
{
    slug_to_display_name(slug)
}

/// All regions affordability is computed for: the national aggregate and
/// the fourteen regional capitals.
pub open spec fn region_slugs() -> Seq<Seq<char>> {
    seq![
        "national"@,
        "praha"@,
        "brno"@,
        "ostrava"@,
        "plzen"@,
        "liberec"@,
        "olomouc"@,
        "hradec_kralove"@,
        "ceske_budejovice"@,
        "usti_nad_labem"@,
        "pardubice"@,
        "zlin"@,
        "karlovy_vary"@,
        "jihlava"@,
        "stredocesky"@,
    ]
}

/// The regions affordability is computed for, in order.
pub fn compute_regions() -> (v: Vec<&'static str>)
    ensures
        v@.len() == region_slugs().len(),
        forall|i: int| 0 <= i < v@.len() ==> (#[trigger] v@[i])@ == region_slugs()[i],
{
    let v = vec![
        "national",
        "praha",
        "brno",
        "ostrava",
        "plzen",
        "liberec",
        "olomouc",
        "hradec_kralove",
        "ceske_budejovice",
        "usti_nad_labem",
        "pardubice",
        "zlin",
        "karlovy_vary",
        "jihlava",
        "stredocesky",
    ];
    v
}

/// Historical snapshot years.
pub fn snapshot_years() -> (v: Vec<i32>)
    ensures
        v@ == seq![2010i32, 2015, 2020],
{
    let v = vec![2010, 2015, 2020];
    assert(v@ =~= seq![2010i32, 2015, 2020]);
    v
}

/// CZSO `uzemi_txt` values and the region slugs they stand for.
pub open spec fn czso_regions() -> Seq<(Seq<char>, Seq<char>)> {
    seq![
        ("Česká republika"@, "national"@),
        ("Hlavní město Praha"@, "praha"@),
        ("Středočeský kraj"@, "stredocesky"@),
        ("Jihočeský kraj"@, "jihocesky"@),
        ("Plzeňský kraj"@, "plzensky"@),
        ("Karlovarský kraj"@, "karlovarsky"@),
        ("Ústecký kraj"@, "ustecky"@),
        ("Liberecký kraj"@, "liberecky"@),
        ("Královéhradecký kraj"@, "kralovehradecky"@),
        ("Pardubický kraj"@, "pardubicky"@),
        ("Kraj Vysočina"@, "vysocina"@),
        ("Jihomoravský kraj"@, "jihomoravsky"@),
        ("Olomoucký kraj"@, "olomoucky"@),
        ("Zlínský kraj"@, "zlinsky"@),
        ("Moravskoslezský kraj"@, "moravskoslezsky"@),
    ]
}

/// The pairs of a name table, as character sequences.
pub open spec fn pair_views(v: Seq<(&'static str, &'static str)>) -> Seq<(Seq<char>, Seq<char>)> {
    v.map_values(|p: (&'static str, &'static str)| (p.0@, p.1@))
}

/// Map of CZSO uzemi_txt values to our region slugs.
pub fn region_slug_map() -> (m: Vec<(&'static str, &'static str)>)
    ensures
        pair_views(m@) == czso_regions(),
{
    let m = vec![
        ("Česká republika", "national"),
        ("Hlavní město Praha", "praha"),
        ("Středočeský kraj", "stredocesky"),
        ("Jihočeský kraj", "jihocesky"),
        ("Plzeňský kraj", "plzensky"),
        ("Karlovarský kraj", "karlovarsky"),
        ("Ústecký kraj", "ustecky"),
        ("Liberecký kraj", "liberecky"),
        ("Královéhradecký kraj", "kralovehradecky"),
        ("Pardubický kraj", "pardubicky"),
        ("Kraj Vysočina", "vysocina"),
        ("Jihomoravský kraj", "jihomoravsky"),
        ("Olomoucký kraj", "olomoucky"),
        ("Zlínský kraj", "zlinsky"),
        ("Moravskoslezský kraj", "moravskoslezsky"),
    ];
    assert(pair_views(m@) =~= czso_regions());
    m
}

/// What a map built from the pairs `t` holds for `key`: the value of the
/// last pair with that key.
pub open spec fn lookup(t: Seq<(Seq<char>, Seq<char>)>, key: Seq<char>) -> Option<Seq<char>>
    decreases t.len(),
{
    if t.len() == 0 {
        None
    } else if t.last().0 == key {
        Some(t.last().1)
    } else {
        lookup(t.drop_last(), key)
    }
}

/// `map.get(key)` on the map built from the pairs `m`.
pub fn lookup_slug(m: &Vec<(&'static str, &'static str)>, key: &str) -> (r: Option<&'static str>)
    ensures
        match r {
            Some(v) => lookup(pair_views(m@), key@) == Some(v@),
            None => lookup(pair_views(m@), key@) is None,
        },
{
    let mut i = m.len();
    assert(m@.take(i as int) =~= m@);
    while i > 0
        invariant
            i <= m.len(),
            lookup(pair_views(m@), key@) == lookup(pair_views(m@.take(i as int)), key@),
        decreases i,
    {
        let (k, v) = m[i - 1];
        proof {
            assert(pair_views(m@.take(i as int)).drop_last() =~= pair_views(m@.take(i - 1)));
            assert(pair_views(m@.take(i as int)).last() == (k@, v@));
        }
        if str_eq(k, key) {
            return Some(v);
        }
        i = i - 1;
    }
    assert(pair_views(m@.take(0)) =~= Seq::<(Seq<char>, Seq<char>)>::empty());
    None
}

/// Every regional capital the dashboard computes has a kraj to take its
/// wages from; only the national aggregate has none.
pub proof fn lemma_regions_have_kraj()
    ensures
        forall|i: int| 1 <= i < region_slugs().len() ==> (#[trigger] kraj_of(region_slugs()[i])) is Some,
{
}

/// Every kraj a city maps to is a slug that the CZSO wage import produces.
pub proof fn lemma_kraj_in_czso(city: Seq<char>)
    requires
        kraj_of(city) is Some,
    ensures
        exists|i: int| 0 <= i < czso_regions().len() && (#[trigger] czso_regions()[i]).1 == kraj_of(city).unwrap(),
{
    let k = kraj_of(city).unwrap();
    let t = czso_regions();
    if k == t[1].1 {
        assert(t[1].1 == k);
    } else if k == t[2].1 {
        assert(t[2].1 == k);
    } else if k == t[3].1 {
        assert(t[3].1 == k);
    } else if k == t[4].1 {
        assert(t[4].1 == k);
    } else if k == t[5].1 {
        assert(t[5].1 == k);
    } else if k == t[6].1 {
        assert(t[6].1 == k);
    } else if k == t[7].1 {
        assert(t[7].1 == k);
    } else if k == t[8].1 {
        assert(t[8].1 == k);
    } else if k == t[9].1 {
        assert(t[9].1 == k);
    } else if k == t[10].1 {
        assert(t[10].1 == k);
    } else if k == t[11].1 {
        assert(t[11].1 == k);
    } else if k == t[12].1 {
        assert(t[12].1 == k);
    } else if k == t[13].1 {
        assert(t[13].1 == k);
    } else {
        assert(t[14].1 == k);
    }
}



/// Each regional capital takes its wages from the kraj it lies in: Praha
/// from Praha, Brno from Jihomoravský, Ostrava from Moravskoslezský, Plzeň
/// from Plzeňský, Liberec from Liberecký, Olomouc from Olomoucký, Hradec
/// Králové from Královéhradecký, České Budějovice from Jihočeský, Ústí nad
/// Labem from Ústecký, Pardubice from Pardubický, Zlín from Zlínský,
/// Karlovy Vary from Karlovarský, Jihlava from Vysočina, and the Central
/// Bohemian region from itself.
pub proof fn lemma_capital_kraje()
    ensures
        kraj_of("praha"@) == Some("praha"@),
        kraj_of("brno"@) == Some("jihomoravsky"@),
        kraj_of("ostrava"@) == Some("moravskoslezsky"@),
        kraj_of("plzen"@) == Some("plzensky"@),
        kraj_of("liberec"@) == Some("liberecky"@),
        kraj_of("olomouc"@) == Some("olomoucky"@),
        kraj_of("hradec_kralove"@) == Some("kralovehradecky"@),
        kraj_of("ceske_budejovice"@) == Some("jihocesky"@),
        kraj_of("usti_nad_labem"@) == Some("ustecky"@),
        kraj_of("pardubice"@) == Some("pardubicky"@),
        kraj_of("zlin"@) == Some("zlinsky"@),
        kraj_of("karlovy_vary"@) == Some("karlovarsky"@),
        kraj_of("jihlava"@) == Some("vysocina"@),
        kraj_of("stredocesky"@) == Some("stredocesky"@),
{
    reveal_strlit("brno");
    assert("brno"@.len() == 4);
    reveal_strlit("ceske_budejovice");
    assert("ceske_budejovice"@.len() == 16);
    reveal_strlit("hradec_kralove");
    assert("hradec_kralove"@.len() == 14);
    reveal_strlit("jihlava");
    assert("jihlava"@.len() == 7);
    reveal_strlit("karlovy_vary");
    assert("karlovy_vary"@.len() == 12);
    reveal_strlit("liberec");
    assert("liberec"@.len() == 7);
    reveal_strlit("olomouc");
    assert("olomouc"@.len() == 7);
    reveal_strlit("ostrava");
    assert("ostrava"@.len() == 7);
    reveal_strlit("pardubice");
    assert("pardubice"@.len() == 9);
    reveal_strlit("plzen");
    assert("plzen"@.len() == 5);
    reveal_strlit("praha");
    assert("praha"@.len() == 5);
    reveal_strlit("stredocesky");
    assert("stredocesky"@.len() == 11);
    reveal_strlit("usti_nad_labem");
    assert("usti_nad_labem"@.len() == 14);
    reveal_strlit("zlin");
    assert("zlin"@.len() == 4);
    assert("brno"@[0] == 'b');
    assert("zlin"@[0] == 'z');
    assert("plzen"@[1] == 'l');
    assert("praha"@[1] == 'r');
    assert("liberec"@[0] == 'l');
    assert("ostrava"@[0] == 'o');
    assert("liberec"@[0] == 'l');
    assert("olomouc"@[0] == 'o');
    assert("olomouc"@[1] == 'l');
    assert("ostrava"@[1] == 's');
    assert("hradec_kralove"@[0] == 'h');
    assert("usti_nad_labem"@[0] == 'u');
    assert("jihlava"@[0] == 'j');
    assert("ostrava"@[0] == 'o');
    assert("jihlava"@[0] == 'j');
    assert("liberec"@[0] == 'l');
    assert("jihlava"@[0] == 'j');
    assert("olomouc"@[0] == 'o');
}

/// No two capitals share a kraj: the city-to-kraj map is one-to-one where
/// it is defined.
pub proof fn lemma_kraj_of_injective(a: Seq<char>, b: Seq<char>)
    requires
        kraj_of(a) is Some,
        kraj_of(a) == kraj_of(b),
    ensures
        a == b,
{
    reveal_strlit("brno");
    assert("brno"@.len() == 4);
    reveal_strlit("ceske_budejovice");
    assert("ceske_budejovice"@.len() == 16);
    reveal_strlit("hradec_kralove");
    assert("hradec_kralove"@.len() == 14);
    reveal_strlit("jihlava");
    assert("jihlava"@.len() == 7);
    reveal_strlit("jihocesky");
    assert("jihocesky"@.len() == 9);
    reveal_strlit("jihomoravsky");
    assert("jihomoravsky"@.len() == 12);
    reveal_strlit("karlovarsky");
    assert("karlovarsky"@.len() == 11);
    reveal_strlit("karlovy_vary");
    assert("karlovy_vary"@.len() == 12);
    reveal_strlit("kralovehradecky");
    assert("kralovehradecky"@.len() == 15);
    reveal_strlit("liberec");
    assert("liberec"@.len() == 7);
    reveal_strlit("liberecky");
    assert("liberecky"@.len() == 9);
    reveal_strlit("moravskoslezsky");
    assert("moravskoslezsky"@.len() == 15);
    reveal_strlit("olomouc");
    assert("olomouc"@.len() == 7);
    reveal_strlit("olomoucky");
    assert("olomoucky"@.len() == 9);
    reveal_strlit("ostrava");
    assert("ostrava"@.len() == 7);
    reveal_strlit("pardubice");
    assert("pardubice"@.len() == 9);
    reveal_strlit("pardubicky");
    assert("pardubicky"@.len() == 10);
    reveal_strlit("plzen");
    assert("plzen"@.len() == 5);
    reveal_strlit("plzensky");
    assert("plzensky"@.len() == 8);
    reveal_strlit("praha");
    assert("praha"@.len() == 5);
    reveal_strlit("stredocesky");
    assert("stredocesky"@.len() == 11);
    reveal_strlit("ustecky");
    assert("ustecky"@.len() == 7);
    reveal_strlit("usti_nad_labem");
    assert("usti_nad_labem"@.len() == 14);
    reveal_strlit("vysocina");
    assert("vysocina"@.len() == 8);
    reveal_strlit("zlin");
    assert("zlin"@.len() == 4);
    reveal_strlit("zlinsky");
    assert("zlinsky"@.len() == 7);
    assert("brno"@[0] == 'b');
    assert("zlin"@[0] == 'z');
    assert("plzen"@[1] == 'l');
    assert("praha"@[1] == 'r');
    assert("liberec"@[0] == 'l');
    assert("ostrava"@[0] == 'o');
    assert("liberec"@[0] == 'l');
    assert("olomouc"@[0] == 'o');
    assert("olomouc"@[1] == 'l');
    assert("ostrava"@[1] == 's');
    assert("hradec_kralove"@[0] == 'h');
    assert("usti_nad_labem"@[0] == 'u');
    assert("jihlava"@[0] == 'j');
    assert("ostrava"@[0] == 'o');
    assert("jihlava"@[0] == 'j');
    assert("liberec"@[0] == 'l');
    assert("jihlava"@[0] == 'j');
    assert("olomouc"@[0] == 'o');
    assert("plzensky"@[0] == 'p');
    assert("vysocina"@[0] == 'v');
    assert("liberecky"@[0] == 'l');
    assert("olomoucky"@[0] == 'o');
    assert("kralovehradecky"@[0] == 'k');
    assert("moravskoslezsky"@[0] == 'm');
    assert("jihocesky"@[0] == 'j');
    assert("liberecky"@[0] == 'l');
    assert("jihocesky"@[0] == 'j');
    assert("olomoucky"@[0] == 'o');
    assert("ustecky"@[0] == 'u');
    assert("zlinsky"@[0] == 'z');
    assert("karlovarsky"@[0] == 'k');
    assert("stredocesky"@[0] == 's');
}

/// The CZSO territory names name the kraje whose slugs they stand for:
/// each name looks up its own slug (Olomoucký kraj is `olomoucky`, Zlínský
/// kraj is `zlinsky`, and so on for all fifteen territories).
pub proof fn lemma_czso_names()
    ensures
        lookup(czso_regions(), "Česká republika"@) == Some("national"@),
        lookup(czso_regions(), "Hlavní město Praha"@) == Some("praha"@),
        lookup(czso_regions(), "Středočeský kraj"@) == Some("stredocesky"@),
        lookup(czso_regions(), "Jihočeský kraj"@) == Some("jihocesky"@),
        lookup(czso_regions(), "Plzeňský kraj"@) == Some("plzensky"@),
        lookup(czso_regions(), "Karlovarský kraj"@) == Some("karlovarsky"@),
        lookup(czso_regions(), "Ústecký kraj"@) == Some("ustecky"@),
        lookup(czso_regions(), "Liberecký kraj"@) == Some("liberecky"@),
        lookup(czso_regions(), "Královéhradecký kraj"@) == Some("kralovehradecky"@),
        lookup(czso_regions(), "Pardubický kraj"@) == Some("pardubicky"@),
        lookup(czso_regions(), "Kraj Vysočina"@) == Some("vysocina"@),
        lookup(czso_regions(), "Jihomoravský kraj"@) == Some("jihomoravsky"@),
        lookup(czso_regions(), "Olomoucký kraj"@) == Some("olomoucky"@),
        lookup(czso_regions(), "Zlínský kraj"@) == Some("zlinsky"@),
        lookup(czso_regions(), "Moravskoslezský kraj"@) == Some("moravskoslezsky"@),
{
    reveal_strlit("Hlavní město Praha");
    assert("Hlavní město Praha"@.len() == 18);
    reveal_strlit("Jihomoravský kraj");
    assert("Jihomoravský kraj"@.len() == 17);
    reveal_strlit("Jihočeský kraj");
    assert("Jihočeský kraj"@.len() == 14);
    reveal_strlit("Karlovarský kraj");
    assert("Karlovarský kraj"@.len() == 16);
    reveal_strlit("Kraj Vysočina");
    assert("Kraj Vysočina"@.len() == 13);
    reveal_strlit("Královéhradecký kraj");
    assert("Královéhradecký kraj"@.len() == 20);
    reveal_strlit("Liberecký kraj");
    assert("Liberecký kraj"@.len() == 14);
    reveal_strlit("Moravskoslezský kraj");
    assert("Moravskoslezský kraj"@.len() == 20);
    reveal_strlit("Olomoucký kraj");
    assert("Olomoucký kraj"@.len() == 14);
    reveal_strlit("Pardubický kraj");
    assert("Pardubický kraj"@.len() == 15);
    reveal_strlit("Plzeňský kraj");
    assert("Plzeňský kraj"@.len() == 13);
    reveal_strlit("Středočeský kraj");
    assert("Středočeský kraj"@.len() == 16);
    reveal_strlit("Zlínský kraj");
    assert("Zlínský kraj"@.len() == 12);
    reveal_strlit("Ústecký kraj");
    assert("Ústecký kraj"@.len() == 12);
    reveal_strlit("Česká republika");
    assert("Česká republika"@.len() == 15);
    assert("Jihočeský kraj"@[0] == 'J');
    assert("Liberecký kraj"@[0] == 'L');
    assert("Jihočeský kraj"@[0] == 'J');
    assert("Olomoucký kraj"@[0] == 'O');
    assert("Karlovarský kraj"@[0] == 'K');
    assert("Středočeský kraj"@[0] == 'S');
    assert("Liberecký kraj"@[0] == 'L');
    assert("Olomoucký kraj"@[0] == 'O');
    assert("Královéhradecký kraj"@[0] == 'K');
    assert("Moravskoslezský kraj"@[0] == 'M');
    assert("Pardubický kraj"@[0] == 'P');
    assert("Česká republika"@[0] == 'Č');
    assert("Kraj Vysočina"@[0] == 'K');
    assert("Plzeňský kraj"@[0] == 'P');
    assert("Zlínský kraj"@[0] == 'Z');
    assert("Ústecký kraj"@[0] == 'Ú');
    reveal_with_fuel(lookup, 16);
}

/// Distinct CZSO territories stand for distinct slugs, and no territory
/// name is listed twice.
pub proof fn lemma_czso_one_to_one()
    ensures
        forall|i: int, j: int|
            0 <= i < j < czso_regions().len() ==> (#[trigger] czso_regions()[i]).0 != (
            #[trigger] czso_regions()[j]).0 && czso_regions()[i].1 != czso_regions()[j].1,
{
    reveal_strlit("Hlavní město Praha");
    assert("Hlavní město Praha"@.len() == 18);
    reveal_strlit("Jihomoravský kraj");
    assert("Jihomoravský kraj"@.len() == 17);
    reveal_strlit("Jihočeský kraj");
    assert("Jihočeský kraj"@.len() == 14);
    reveal_strlit("Karlovarský kraj");
    assert("Karlovarský kraj"@.len() == 16);
    reveal_strlit("Kraj Vysočina");
    assert("Kraj Vysočina"@.len() == 13);
    reveal_strlit("Královéhradecký kraj");
    assert("Královéhradecký kraj"@.len() == 20);
    reveal_strlit("Liberecký kraj");
    assert("Liberecký kraj"@.len() == 14);
    reveal_strlit("Moravskoslezský kraj");
    assert("Moravskoslezský kraj"@.len() == 20);
    reveal_strlit("Olomoucký kraj");
    assert("Olomoucký kraj"@.len() == 14);
    reveal_strlit("Pardubický kraj");
    assert("Pardubický kraj"@.len() == 15);
    reveal_strlit("Plzeňský kraj");
    assert("Plzeňský kraj"@.len() == 13);
    reveal_strlit("Středočeský kraj");
    assert("Středočeský kraj"@.len() == 16);
    reveal_strlit("Zlínský kraj");
    assert("Zlínský kraj"@.len() == 12);
    reveal_strlit("jihocesky");
    assert("jihocesky"@.len() == 9);
    reveal_strlit("jihomoravsky");
    assert("jihomoravsky"@.len() == 12);
    reveal_strlit("karlovarsky");
    assert("karlovarsky"@.len() == 11);
    reveal_strlit("kralovehradecky");
    assert("kralovehradecky"@.len() == 15);
    reveal_strlit("liberecky");
    assert("liberecky"@.len() == 9);
    reveal_strlit("moravskoslezsky");
    assert("moravskoslezsky"@.len() == 15);
    reveal_strlit("national");
    assert("national"@.len() == 8);
    reveal_strlit("olomoucky");
    assert("olomoucky"@.len() == 9);
    reveal_strlit("pardubicky");
    assert("pardubicky"@.len() == 10);
    reveal_strlit("plzensky");
    assert("plzensky"@.len() == 8);
    reveal_strlit("praha");
    assert("praha"@.len() == 5);
    reveal_strlit("stredocesky");
    assert("stredocesky"@.len() == 11);
    reveal_strlit("ustecky");
    assert("ustecky"@.len() == 7);
    reveal_strlit("vysocina");
    assert("vysocina"@.len() == 8);
    reveal_strlit("zlinsky");
    assert("zlinsky"@.len() == 7);
    reveal_strlit("Ústecký kraj");
    assert("Ústecký kraj"@.len() == 12);
    reveal_strlit("Česká republika");
    assert("Česká republika"@.len() == 15);
    assert("Jihočeský kraj"@[0] == 'J');
    assert("Liberecký kraj"@[0] == 'L');
    assert("Jihočeský kraj"@[0] == 'J');
    assert("Olomoucký kraj"@[0] == 'O');
    assert("Karlovarský kraj"@[0] == 'K');
    assert("Středočeský kraj"@[0] == 'S');
    assert("Liberecký kraj"@[0] == 'L');
    assert("Olomoucký kraj"@[0] == 'O');
    assert("Královéhradecký kraj"@[0] == 'K');
    assert("Moravskoslezský kraj"@[0] == 'M');
    assert("Pardubický kraj"@[0] == 'P');
    assert("Česká republika"@[0] == 'Č');
    assert("Kraj Vysočina"@[0] == 'K');
    assert("Plzeňský kraj"@[0] == 'P');
    assert("Zlínský kraj"@[0] == 'Z');
    assert("Ústecký kraj"@[0] == 'Ú');
    assert("national"@[0] == 'n');
    assert("plzensky"@[0] == 'p');
    assert("national"@[0] == 'n');
    assert("vysocina"@[0] == 'v');
    assert("jihocesky"@[0] == 'j');
    assert("liberecky"@[0] == 'l');
    assert("jihocesky"@[0] == 'j');
    assert("olomoucky"@[0] == 'o');
    assert("plzensky"@[0] == 'p');
    assert("vysocina"@[0] == 'v');
    assert("karlovarsky"@[0] == 'k');
    assert("stredocesky"@[0] == 's');
    assert("ustecky"@[0] == 'u');
    assert("zlinsky"@[0] == 'z');
    assert("liberecky"@[0] == 'l');
    assert("olomoucky"@[0] == 'o');
    assert("kralovehradecky"@[0] == 'k');
    assert("moravskoslezsky"@[0] == 'm');
}


/// Each region slug shows as its own place name: `national` as Czech
/// Republic, `hradec_kralove` as Hradec Kralove, `stredocesky` as
/// Středočeský kraj, and so on for all fifteen computed regions.
pub proof fn lemma_region_display_names()
    ensures
        display_name_of("national"@) == "Czech Republic"@,
        display_name_of("praha"@) == "Praha"@,
        display_name_of("brno"@) == "Brno"@,
        display_name_of("ostrava"@) == "Ostrava"@,
        display_name_of("plzen"@) == "Plzen"@,
        display_name_of("liberec"@) == "Liberec"@,
        display_name_of("olomouc"@) == "Olomouc"@,
        display_name_of("hradec_kralove"@) == "Hradec Kralove"@,
        display_name_of("ceske_budejovice"@) == "Ceske Budejovice"@,
        display_name_of("usti_nad_labem"@) == "Usti nad Labem"@,
        display_name_of("pardubice"@) == "Pardubice"@,
        display_name_of("zlin"@) == "Zlin"@,
        display_name_of("karlovy_vary"@) == "Karlovy Vary"@,
        display_name_of("jihlava"@) == "Jihlava"@,
        display_name_of("stredocesky"@) == "Středočeský kraj"@,
{
    reveal_strlit("brno");
    assert("brno"@.len() == 4);
    reveal_strlit("ceske_budejovice");
    assert("ceske_budejovice"@.len() == 16);
    reveal_strlit("hradec_kralove");
    assert("hradec_kralove"@.len() == 14);
    reveal_strlit("jihlava");
    assert("jihlava"@.len() == 7);
    reveal_strlit("karlovy_vary");
    assert("karlovy_vary"@.len() == 12);
    reveal_strlit("liberec");
    assert("liberec"@.len() == 7);
    reveal_strlit("national");
    assert("national"@.len() == 8);
    reveal_strlit("olomouc");
    assert("olomouc"@.len() == 7);
    reveal_strlit("ostrava");
    assert("ostrava"@.len() == 7);
    reveal_strlit("pardubice");
    assert("pardubice"@.len() == 9);
    reveal_strlit("plzen");
    assert("plzen"@.len() == 5);
    reveal_strlit("praha");
    assert("praha"@.len() == 5);
    reveal_strlit("stredocesky");
    assert("stredocesky"@.len() == 11);
    reveal_strlit("usti_nad_labem");
    assert("usti_nad_labem"@.len() == 14);
    reveal_strlit("zlin");
    assert("zlin"@.len() == 4);
    assert("brno"@[0] == 'b');
    assert("zlin"@[0] == 'z');
    assert("plzen"@[1] == 'l');
    assert("praha"@[1] == 'r');
    assert("liberec"@[0] == 'l');
    assert("ostrava"@[0] == 'o');
    assert("liberec"@[0] == 'l');
    assert("olomouc"@[0] == 'o');
    assert("olomouc"@[1] == 'l');
    assert("ostrava"@[1] == 's');
    assert("hradec_kralove"@[0] == 'h');
    assert("usti_nad_labem"@[0] == 'u');
    assert("jihlava"@[0] == 'j');
    assert("ostrava"@[0] == 'o');
    assert("jihlava"@[0] == 'j');
    assert("liberec"@[0] == 'l');
    assert("jihlava"@[0] == 'j');
    assert("olomouc"@[0] == 'o');
}

} // verus!
