//! Wallhaven: building search requests, and checking image URLs and formats.
use crate::db::WallpaperMetadata;
use crate::text;
use crate::weburl::{self, WebUrl};
use vstd::prelude::*;

verus! {

pub const WALLHAVEN_SOURCE_NAME: &'static str = "wallhaven";

/// Largest image that is downloaded: 80 MiB.
pub const MAX_DOWNLOAD_BYTES: u64 = 83886080;

/// A search as the user interface asks for it.
#[derive(Debug, Clone)]
pub struct WallhavenSearchRequest {
    pub query: Option<String>,
    pub categories: Option<String>,
    pub purity: Option<String>,
    pub sorting: Option<String>,
    pub order: Option<String>,
    pub atleast: Option<String>,
    pub ratios: Option<String>,
    pub page: Option<u32>,
}

#[derive(Debug, Clone)]
pub struct WallhavenThumbs {
    pub large: String,
    pub original: String,
    pub small: String,
}

#[derive(Debug, Clone)]
pub struct WallhavenWallpaper {
    pub id: String,
    pub url: String,
    pub short_url: String,
    pub views: i64,
    pub favorites: i64,
    pub purity: String,
    pub category: String,
    pub dimension_x: i32,
    pub dimension_y: i32,
    pub resolution: String,
    pub ratio: String,
    pub file_size: i64,
    pub file_type: String,
    pub created_at: String,
    pub colors: Vec<String>,
    pub path: String,
    pub thumbs: WallhavenThumbs,
}

#[derive(Debug, Clone)]
pub struct WallhavenMeta {
    pub current_page: u32,
    pub last_page: u32,
    pub per_page: u32,
    pub total: u32,
    pub seed: Option<String>,
}

#[derive(Debug, Clone)]
pub struct WallhavenSearchResponse {
    pub data: Vec<WallhavenWallpaper>,
    pub meta: WallhavenMeta,
}

/// A downloaded image and the file extension it is kept under.
#[derive(Debug)]
pub struct DownloadedImage {
    pub bytes: Vec<u8>,
    pub extension: &'static str,
}

// ---------------------------------------------------------------------------
// Search parameters
// ---------------------------------------------------------------------------

/// A value kept when it is one of `allowed`, else `default`.
pub open spec fn one_of(value: Option<Seq<char>>, allowed: Seq<Seq<char>>, default: Seq<char>) -> Seq<char> {
    match value {
        Some(v) => if allowed.contains(v) {
            v
        } else {
            default
        },
        None => default,
    }
}

pub open spec fn category_values() -> Seq<Seq<char>> {
    seq!["100"@, "010"@, "001"@, "110"@, "101"@, "011"@, "111"@]
}

pub open spec fn purity_values() -> Seq<Seq<char>> {
    seq!["100"@, "010"@, "110"@]
}

pub open spec fn sorting_values() -> Seq<Seq<char>> {
    seq!["relevance"@, "random"@, "date_added"@, "views"@, "favorites"@, "toplist"@, "hot"@]
}

pub open spec fn order_values() -> Seq<Seq<char>> {
    seq!["asc"@, "desc"@]
}

fn keep_if_listed(value: Option<String>, allowed: &Vec<&str>, default: &str) -> (r: String)
    ensures
        r@ == one_of(text::opt_string_view(value), crate::html::strs_view(allowed@), default@),
{
    let ghost av = crate::html::strs_view(allowed@);
    let ghost orig = text::opt_string_view(value);
    match value {
        Some(v) => {
            let vc = text::chars_of(v.as_str());
            let mut i: usize = 0;
            while i < allowed.len()
                invariant
                    i <= allowed@.len(),
                    av == crate::html::strs_view(allowed@),
                    vc@ == v@,
                    orig == Some(v@),
                    orig == text::opt_string_view(value),
                    forall|k: int| 0 <= k < i ==> av[k] != v@,
                decreases allowed@.len() - i,
            {
                if text::chars_eq_str(vc.as_slice(), allowed[i]) {
                    assert(av[i as int] == v@);
                    assert(av.contains(v@));
                    return v;
                }
                i = i + 1;
            }
            assert(!av.contains(v@));
            text::owned(default)
        },
        None => text::owned(default),
    }
}

pub fn sanitize_categories(value: Option<String>) -> (r: String)
    ensures
        r@ == one_of(text::opt_string_view(value), category_values(), "111"@),
{
    let allowed = vec!["100", "010", "001", "110", "101", "011", "111"];
    assert(crate::html::strs_view(allowed@) =~= category_values());
    keep_if_listed(value, &allowed, "111")
}

pub fn sanitize_purity(value: Option<String>) -> (r: String)
    ensures
        r@ == one_of(text::opt_string_view(value), purity_values(), "100"@),
{
    let allowed = vec!["100", "010", "110"];
    assert(crate::html::strs_view(allowed@) =~= purity_values());
    keep_if_listed(value, &allowed, "100")
}

pub fn sanitize_sorting(value: Option<String>) -> (r: String)
    ensures
        r@ == one_of(text::opt_string_view(value), sorting_values(), "date_added"@),
{
    let allowed = vec!["relevance", "random", "date_added", "views", "favorites", "toplist", "hot"];
    assert(crate::html::strs_view(allowed@) =~= sorting_values());
    keep_if_listed(value, &allowed, "date_added")
}

/// `asc` is kept; anything else orders descending.
pub fn sanitize_order(value: Option<String>) -> (r: String)
    ensures
        r@ == (if text::opt_string_view(value) == Some("asc"@) {
            "asc"@
        } else {
            "desc"@
        }),
{
    match value {
        Some(v) => if text::chars_eq_str(text::chars_of(v.as_str()).as_slice(), "asc") {
            text::owned("asc")
        } else {
            text::owned("desc")
        },
        None => text::owned("desc"),
    }
}

/// Sanitizing gives a listed value, and a sanitized value sanitizes to itself.
pub proof fn lemma_sanitize_settles(value: Option<Seq<char>>, allowed: Seq<Seq<char>>, default: Seq<char>)
    requires
        allowed.contains(default),
    ensures
        allowed.contains(one_of(value, allowed, default)),
        one_of(Some(one_of(value, allowed, default)), allowed, default) == one_of(value, allowed, default),
{
}

/// Each search parameter is sanitized to one of the values Wallhaven accepts, and
/// sanitizing twice changes nothing.
pub proof fn lemma_search_parameters_settle(value: Option<Seq<char>>)
    ensures
        category_values().contains(one_of(value, category_values(), "111"@)),
        purity_values().contains(one_of(value, purity_values(), "100"@)),
        sorting_values().contains(one_of(value, sorting_values(), "date_added"@)),
        one_of(Some(one_of(value, category_values(), "111"@)), category_values(), "111"@) == one_of(
            value,
            category_values(),
            "111"@,
        ),
        one_of(Some(one_of(value, purity_values(), "100"@)), purity_values(), "100"@) == one_of(
            value,
            purity_values(),
            "100"@,
        ),
        one_of(Some(one_of(value, sorting_values(), "date_added"@)), sorting_values(), "date_added"@)
            == one_of(value, sorting_values(), "date_added"@),
{
    assert(category_values()[6] == "111"@);
    assert(purity_values()[0] == "100"@);
    assert(sorting_values()[2] == "date_added"@);
    lemma_sanitize_settles(value, category_values(), "111"@);
    lemma_sanitize_settles(value, purity_values(), "100"@);
    lemma_sanitize_settles(value, sorting_values(), "date_added"@);
}

/// A number from 1 to 16384, as `str::parse::<u32>` reads it.
pub open spec fn valid_dimension_text(s: Seq<char>) -> bool {
    match text::parse_unsigned(s, u32::MAX as nat) {
        Some(n) => 1 <= n <= 16384,
        None => false,
    }
}

pub fn valid_dimension(value: &[char]) -> (r: bool)
    ensures
        r == valid_dimension_text(value@),
{
    match text::parse_u32(value) {
        Some(n) => 1 <= n && n <= 16384,
        None => false,
    }
}

/// A minimum resolution `WxH` (trimmed) with both sides valid dimensions.
pub open spec fn resolution_of(value: Option<Seq<char>>) -> Option<Seq<char>> {
    match text::cleaned_value(value) {
        Some(v) => match text::index_of(v, 'x') {
            Some(i) => if valid_dimension_text(v.take(i)) && valid_dimension_text(v.skip(i + 1)) {
                Some(v)
            } else {
                None
            },
            None => None,
        },
        None => None,
    }
}

pub fn clean_resolution(value: Option<String>) -> (r: Option<String>)
    ensures
        text::opt_string_view(r) == resolution_of(text::opt_string_view(value)),
{
    let v = match text::clean_query_value(value) {
        Some(v) => v,
        None => return None,
    };
    let c = text::chars_of(v.as_str());
    proof {
        text::lemma_index_of(c@, 'x');
    }
    match text::find_char(c.as_slice(), 'x') {
        Some(i) => {
            let n = c.len();
            assert(i < n);
            let w = text::slice_to_vec(c.as_slice(), 0, i);
            let h = text::slice_to_vec(c.as_slice(), i + 1, n);
            assert(w@ == c@.take(i as int));
            assert(h@ == c@.skip(i + 1));
            if valid_dimension(w.as_slice()) && valid_dimension(h.as_slice()) {
                Some(v)
            } else {
                None
            }
        },
        None => None,
    }
}

pub open spec fn ratio_values() -> Seq<Seq<char>> {
    seq!["16x9"@, "16x10"@, "21x9"@, "32x9"@, "48x9"@]
}

/// A comma-separated list of aspect ratios (trimmed), each one Wallhaven knows.
pub open spec fn ratios_of(value: Option<Seq<char>>) -> Option<Seq<char>> {
    match text::cleaned_value(value) {
        Some(v) => if forall|i: int|
            0 <= i < text::split_seq(v, ',').len() ==> ratio_values().contains(
                #[trigger] text::split_seq(v, ',')[i],
            ) {
            Some(v)
        } else {
            None
        },
        None => None,
    }
}

pub fn clean_ratios(value: Option<String>) -> (r: Option<String>)
    ensures
        text::opt_string_view(r) == ratios_of(text::opt_string_view(value)),
{
    let ghost original = text::opt_string_view(value);
    let v = match text::clean_query_value(value) {
        Some(v) => v,
        None => return None,
    };
    let parts = text::split_char(text::chars_of(v.as_str()).as_slice(), ',');
    let ghost pv = text::views(parts@);
    let allowed = vec!["16x9", "16x10", "21x9", "32x9", "48x9"];
    assert(crate::html::strs_view(allowed@) =~= ratio_values());
    let mut i: usize = 0;
    while i < parts.len()
        invariant
            i <= parts@.len(),
            pv == text::views(parts@),
            pv == text::split_seq(v@, ','),
            text::cleaned_value(original) == Some(v@),
            original == text::opt_string_view(value),
            crate::html::strs_view(allowed@) == ratio_values(),
            forall|k: int| 0 <= k < i ==> ratio_values().contains(#[trigger] pv[k]),
        decreases parts@.len() - i,
    {
        let mut found = false;
        let mut j: usize = 0;
        while j < allowed.len()
            invariant
                j <= allowed@.len(),
                crate::html::strs_view(allowed@) == ratio_values(),
                i < parts@.len(),
                found ==> ratio_values().contains(parts@[i as int]@),
                !found ==> forall|k: int| 0 <= k < j ==> ratio_values()[k] != parts@[i as int]@,
            decreases allowed@.len() - j,
        {
            if !found && text::chars_eq_str(parts[i].as_slice(), allowed[j]) {
                assert(ratio_values()[j as int] == parts@[i as int]@);
                found = true;
            }
            j = j + 1;
        }
        assert(pv[i as int] == parts@[i as int]@);
        if !found {
            assert(!ratio_values().contains(pv[i as int]));
            assert(!ratio_values().contains(text::split_seq(v@, ',')[i as int]));
            return None;
        }
        i = i + 1;
    }
    Some(v)
}

/// The query pairs of a search, in the order they are sent.
pub open spec fn search_pairs(
    query: Option<Seq<char>>,
    categories: Option<Seq<char>>,
    purity: Option<Seq<char>>,
    sorting: Option<Seq<char>>,
    order: Option<Seq<char>>,
    atleast: Option<Seq<char>>,
    ratios: Option<Seq<char>>,
    page: Option<u32>,
) -> Seq<(Seq<char>, Seq<char>)> {
    let term = text::cleaned_value(query);
    let sort = one_of(sorting, sorting_values(), "date_added"@);
    let sort = if sort == "relevance"@ && term is None {
        "date_added"@
    } else {
        sort
    };
    let ord = if order == Some("asc"@) {
        "asc"@
    } else {
        "desc"@
    };
    seq![
        ("categories"@, one_of(categories, category_values(), "111"@)),
        ("purity"@, one_of(purity, purity_values(), "100"@)),
        ("sorting"@, sort),
        ("order"@, ord),
        ("page"@, text::decimal(crate::motionbgs::clamped_page(page) as nat)),
    ] + match term {
        Some(q) => seq![("q"@, q)],
        None => Seq::empty(),
    } + match resolution_of(atleast) {
        Some(a) => seq![("atleast"@, a)],
        None => Seq::empty(),
    } + match ratios_of(ratios) {
        Some(r) => seq![("ratios"@, r)],
        None => Seq::empty(),
    }
}

/// What a search sends: first the categories, purity, sorting, order and page
/// parameters, each a value Wallhaven accepts; a requested value that Wallhaven
/// accepts is sent as it is (the relevance sorting only with a search term); the
/// order is ascending exactly when ascending was asked for; the term, when there is
/// one, follows as `q`.
pub proof fn lemma_search_pairs_carry_request(
    query: Option<Seq<char>>,
    categories: Option<Seq<char>>,
    purity: Option<Seq<char>>,
    sorting: Option<Seq<char>>,
    order: Option<Seq<char>>,
    atleast: Option<Seq<char>>,
    ratios: Option<Seq<char>>,
    page: Option<u32>,
)
    ensures
        ({
            let p = search_pairs(query, categories, purity, sorting, order, atleast, ratios, page);
            &&& p.len() >= 5
            &&& p[0].0 == "categories"@ && category_values().contains(p[0].1)
            &&& categories matches Some(c) ==> (category_values().contains(c) ==> p[0].1 == c)
            &&& p[1].0 == "purity"@ && purity_values().contains(p[1].1)
            &&& purity matches Some(c) ==> (purity_values().contains(c) ==> p[1].1 == c)
            &&& p[2].0 == "sorting"@ && sorting_values().contains(p[2].1)
            &&& sorting matches Some(c) ==> ((sorting_values().contains(c) && (c != "relevance"@
                || text::cleaned_value(query) is Some)) ==> p[2].1 == c)
            &&& p[3].0 == "order"@ && order_values().contains(p[3].1)
            &&& (p[3].1 == "asc"@ <==> order == Some("asc"@))
            &&& p[4].0 == "page"@
            &&& (text::cleaned_value(query) matches Some(q) ==> p[5] == ("q"@, q))
        }),
{
    let term = text::cleaned_value(query);
    lemma_search_parameters_settle(categories);
    lemma_search_parameters_settle(purity);
    lemma_search_parameters_settle(sorting);
    reveal_strlit("asc");
    reveal_strlit("desc");
    assert("asc"@ != "desc"@) by {
        assert("asc"@[0] != "desc"@[0]);
    }
    assert(order_values().contains("asc"@)) by {
        assert(order_values()[0] == "asc"@);
    }
    assert(order_values().contains("desc"@)) by {
        assert(order_values()[1] == "desc"@);
    }
    assert(sorting_values().contains("date_added"@)) by {
        assert(sorting_values()[2] == "date_added"@);
    }
    assert(category_values().contains("111"@)) by {
        assert(category_values()[6] == "111"@);
    }
    assert(purity_values().contains("100"@)) by {
        assert(purity_values()[0] == "100"@);
    }
}

/// A URL with the pairs appended to its query, in order.
pub open spec fn with_pairs(u: weburl::UrlParts, pairs: Seq<(Seq<char>, Seq<char>)>) -> weburl::UrlParts
    decreases pairs.len(),
{
    if pairs.len() == 0 {
        u
    } else {
        with_pairs(weburl::url_with_pair(u.3, pairs[0].0, pairs[0].1), pairs.drop_first())
    }
}

pub open spec fn request_pairs(r: WallhavenSearchRequest) -> Seq<(Seq<char>, Seq<char>)> {
    search_pairs(
        text::opt_string_view(r.query),
        text::opt_string_view(r.categories),
        text::opt_string_view(r.purity),
        text::opt_string_view(r.sorting),
        text::opt_string_view(r.order),
        text::opt_string_view(r.atleast),
        text::opt_string_view(r.ratios),
        r.page,
    )
}

/// The search endpoint with the request's parameters.
pub open spec fn search_url_of(r: WallhavenSearchRequest) -> Option<weburl::UrlParts> {
    match weburl::url_parse("https://wallhaven.cc/api/v1/search"@) {
        Some(u) => Some(with_pairs(u, request_pairs(r))),
        None => None,
    }
}

pub open spec fn pair_views(v: Seq<(String, String)>) -> Seq<(Seq<char>, Seq<char>)> {
    Seq::new(v.len(), |i: int| (v[i].0@, v[i].1@))
}

fn search_pairs_exec(request: WallhavenSearchRequest) -> (r: Vec<(String, String)>)
    ensures
        pair_views(r@) == request_pairs(request),
        r@.len() >= 5,
        r@[3].0@ == "order"@,
        r@[3].1@ == "asc"@ <==> text::opt_string_view(request.order) == Some("asc"@),
        r@[3].1@ == "asc"@ || r@[3].1@ == "desc"@,
{
    let ghost req = request;
    proof {
        lemma_search_pairs_carry_request(
            text::opt_string_view(req.query),
            text::opt_string_view(req.categories),
            text::opt_string_view(req.purity),
            text::opt_string_view(req.sorting),
            text::opt_string_view(req.order),
            text::opt_string_view(req.atleast),
            text::opt_string_view(req.ratios),
            req.page,
        );
    }
    let term = text::clean_query_value(request.query);
    let mut sorting = sanitize_sorting(request.sorting);
    if text::chars_eq_str(text::chars_of(sorting.as_str()).as_slice(), "relevance") && term.is_none() {
        sorting = text::owned("date_added");
    }
    let page = crate::motionbgs::search_page(request.page);
    let mut out: Vec<(String, String)> = Vec::new();
    out.push((text::owned("categories"), sanitize_categories(request.categories)));
    out.push((text::owned("purity"), sanitize_purity(request.purity)));
    out.push((text::owned("sorting"), sorting));
    out.push((text::owned("order"), sanitize_order(request.order)));
    out.push((text::owned("page"), text::string_from(text::u64_text(page as u64).as_slice())));
    let ghost head = pair_views(out@);
    match term {
        Some(q) => out.push((text::owned("q"), q)),
        None => {},
    }
    let ghost with_term = pair_views(out@);
    match clean_resolution(request.atleast) {
        Some(a) => out.push((text::owned("atleast"), a)),
        None => {},
    }
    let ghost with_res = pair_views(out@);
    match clean_ratios(request.ratios) {
        Some(r) => out.push((text::owned("ratios"), r)),
        None => {},
    }
    proof {
        let term_v = text::cleaned_value(text::opt_string_view(req.query));
        let tail_t: Seq<(Seq<char>, Seq<char>)> = match term_v {
            Some(q) => seq![("q"@, q)],
            None => Seq::empty(),
        };
        let tail_a: Seq<(Seq<char>, Seq<char>)> = match resolution_of(text::opt_string_view(req.atleast)) {
            Some(a) => seq![("atleast"@, a)],
            None => Seq::empty(),
        };
        let tail_r: Seq<(Seq<char>, Seq<char>)> = match ratios_of(text::opt_string_view(req.ratios)) {
            Some(r) => seq![("ratios"@, r)],
            None => Seq::empty(),
        };
        assert(with_term =~= head + tail_t);
        assert(with_res =~= head + tail_t + tail_a);
        assert(pair_views(out@) =~= head + tail_t + tail_a + tail_r);
        assert(pair_views(out@)[3] == (out@[3].0@, out@[3].1@));
        assert(order_values()[0] == "asc"@ && order_values()[1] == "desc"@);
    }
    out
}

/// The URL of a Wallhaven search: the API's search endpoint with the sanitized
/// parameters appended in order.
pub fn wallhaven_search_url(request: WallhavenSearchRequest) -> (r: Result<WebUrl, String>)
    ensures
        match search_url_of(request) {
            Some(u) => r is Ok && r->Ok_0@ == u,
            None => r is Err && r->Err_0@ == "Failed to build Wallhaven URL"@,
        },
{
    let ghost req = request;
    let mut url = match weburl::parse_url("https://wallhaven.cc/api/v1/search") {
        Some(u) => u,
        None => return Err(text::owned("Failed to build Wallhaven URL")),
    };
    let ghost start = url@;
    let pairs = search_pairs_exec(request);
    let ghost pv = pair_views(pairs@);
    let mut i: usize = 0;
    assert(pv.skip(0) == pv);
    while i < pairs.len()
        invariant
            i <= pairs@.len(),
            pv == pair_views(pairs@),
            with_pairs(start, pv) == with_pairs(url@, pv.skip(i as int)),
        decreases pairs@.len() - i,
    {
        assert(pv.skip(i as int)[0] == (pairs@[i as int].0@, pairs@[i as int].1@));
        assert(pv.skip(i as int).drop_first() == pv.skip(i + 1));
        url = weburl::append_query_pair(url, pairs[i].0.as_str(), pairs[i].1.as_str());
        i = i + 1;
    }
    Ok(url)
}

// ---------------------------------------------------------------------------
// Images
// ---------------------------------------------------------------------------

/// An https URL whose host (in any case) ends with `wallhaven.cc`.
pub open spec fn is_image_url(url: Seq<char>) -> bool {
    match weburl::url_parse(url) {
        Some(p) => match p.1 {
            Some(h) => p.0 == "https"@ && text::has_suffix(text::lower_seq(h), "wallhaven.cc"@),
            None => false,
        },
        None => false,
    }
}

pub fn is_wallhaven_image_url(url: &str) -> (r: bool)
    ensures
        r == is_image_url(url@),
{
    let u = match weburl::parse_url(url) {
        Some(u) => u,
        None => return false,
    };
    let host = match u.host() {
        Some(h) => text::lower_vec(text::chars_of(h).as_slice()),
        None => return false,
    };
    text::chars_eq_str(text::chars_of(u.scheme()).as_slice(), "https") && text::ends_with_str(
        host.as_slice(),
        "wallhaven.cc",
    )
}

/// The extension that a (lowercase) content type names: `jpg` for JPEG, `png` for PNG.
pub open spec fn content_type_extension(content_type: Seq<char>) -> Option<Seq<char>> {
    if text::contains_seq(content_type, "image/jpeg"@) {
        Some("jpg"@)
    } else if text::contains_seq(content_type, "image/png"@) {
        Some("png"@)
    } else {
        None
    }
}

pub fn extension_from_content_type(content_type: &str) -> (r: Option<&'static str>)
    ensures
        match r {
            Some(e) => content_type_extension(content_type@) == Some(e@),
            None => content_type_extension(content_type@) is None,
        },
{
    let c = text::chars_of(content_type);
    if text::contains_str(c.as_slice(), "image/jpeg") {
        Some("jpg")
    } else if text::contains_str(c.as_slice(), "image/png") {
        Some("png")
    } else {
        None
    }
}

/// The extension that a URL's path ends with (in any ASCII case).
pub open spec fn url_extension(url: Seq<char>) -> Option<Seq<char>> {
    match weburl::url_parse(url) {
        Some(p) => {
            let path = text::lower_seq(p.2);
            if text::has_suffix(path, ".jpg"@) || text::has_suffix(path, ".jpeg"@) {
                Some("jpg"@)
            } else if text::has_suffix(path, ".png"@) {
                Some("png"@)
            } else {
                None
            }
        },
        None => None,
    }
}

pub fn extension_from_url(url: &str) -> (r: Option<&'static str>)
    ensures
        match r {
            Some(e) => url_extension(url@) == Some(e@),
            None => url_extension(url@) is None,
        },
{
    let u = match weburl::parse_url(url) {
        Some(u) => u,
        None => return None,
    };
    let path = text::lower_vec(text::chars_of(u.path()).as_slice());
    if text::ends_with_str(path.as_slice(), ".jpg") || text::ends_with_str(path.as_slice(), ".jpeg") {
        Some("jpg")
    } else if text::ends_with_str(path.as_slice(), ".png") {
        Some("png")
    } else {
        None
    }
}

/// The extension a downloaded image is kept under: from its content type (any ASCII
/// case), else from its URL.
pub fn image_extension(content_type: &str, url: &str) -> (r: Result<&'static str, String>)
    ensures
        match content_type_extension(text::lower_seq(content_type@)) {
            Some(e) => r is Ok && r->Ok_0@ == e,
            None => match url_extension(url@) {
                Some(e) => r is Ok && r->Ok_0@ == e,
                None => r is Err && r->Err_0@ == "Wallhaven returned an unsupported image format"@,
            },
        },
{
    let lower = text::string_from(text::lower_vec(text::chars_of(content_type).as_slice()).as_slice());
    match extension_from_content_type(lower.as_str()) {
        Some(e) => Ok(e),
        None => match extension_from_url(url) {
            Some(e) => Ok(e),
            None => Err(text::owned("Wallhaven returned an unsupported image format")),
        },
    }
}

/// The library entry made for a downloaded Wallhaven image.
pub fn wallhaven_metadata(wallpaper: &WallhavenWallpaper) -> (r: WallpaperMetadata)
    ensures
        r.title@ == "Wallhaven "@ + wallpaper.category@ + seq![' '] + wallpaper.id@,
        r.thumbnail_path matches Some(t) && t@ == wallpaper.thumbs.large@,
        r.tags@.len() == 3,
        r.tags@[0]@ == "wallhaven"@,
        r.tags@[1]@ == wallpaper.category@,
        r.tags@[2]@ == wallpaper.purity@,
        r.width == wallpaper.dimension_x,
        r.height == wallpaper.dimension_y,
        r.fps == 0,
        r.duration_ms == 0,
        r.media_type@ == "image"@,
        r.source matches Some(s) && s@ == "wallhaven"@,
        r.source_id matches Some(s) && s@ == wallpaper.id@,
{
    let mut title = text::chars_of("Wallhaven ");
    text::push_str(&mut title, wallpaper.category.as_str());
    title.push(' ');
    text::push_str(&mut title, wallpaper.id.as_str());
    let mut tags: Vec<String> = Vec::new();
    tags.push(text::owned("wallhaven"));
    tags.push(text::owned(wallpaper.category.as_str()));
    tags.push(text::owned(wallpaper.purity.as_str()));
    WallpaperMetadata {
        title: text::string_from(title.as_slice()),
        thumbnail_path: Some(text::owned(wallpaper.thumbs.large.as_str())),
        tags,
        width: wallpaper.dimension_x,
        height: wallpaper.dimension_y,
        fps: 0,
        duration_ms: 0,
        media_type: text::owned("image"),
        source: Some(text::owned("wallhaven")),
        source_id: Some(text::owned(wallpaper.id.as_str())),
    }
}

/// A URL the app may open in the browser: https, on Wallhaven (or a subdomain) or
/// MotionBGS.
pub open spec fn external_host_allowed(host: Seq<char>) -> bool {
    host == "wallhaven.cc"@ || text::has_suffix(host, ".wallhaven.cc"@) || host == "motionbgs.com"@
}

/// Checks a URL before it is opened outside the app.
pub fn checked_external_url(url: &str) -> (r: Result<WebUrl, String>)
    ensures
        match weburl::url_parse(text::trim_seq(url@)) {
            None => r is Err && r->Err_0@ == "Invalid external URL"@,
            Some(p) => match p.1 {
                None => r is Err && r->Err_0@ == "External URL is missing a host"@,
                Some(h) => if p.0 == "https"@ && external_host_allowed(text::lower_seq(h)) {
                    r is Ok && r->Ok_0@ == p
                } else {
                    r is Err && r->Err_0@ == "Only Wallhaven or MotionBGS HTTPS URLs can be opened"@
                },
            },
        },
{
    let trimmed = text::string_from(text::trim_str(url).as_slice());
    let u = match weburl::parse_url(trimmed.as_str()) {
        Some(u) => u,
        None => return Err(text::owned("Invalid external URL")),
    };
    let host = match u.host() {
        Some(h) => text::lower_vec(text::chars_of(h).as_slice()),
        None => return Err(text::owned("External URL is missing a host")),
    };
    let allowed = text::chars_eq_str(host.as_slice(), "wallhaven.cc") || text::ends_with_str(
        host.as_slice(),
        ".wallhaven.cc",
    ) || text::chars_eq_str(host.as_slice(), "motionbgs.com");
    if !text::chars_eq_str(text::chars_of(u.scheme()).as_slice(), "https") || !allowed {
        return Err(text::owned("Only Wallhaven or MotionBGS HTTPS URLs can be opened"));
    }
    Ok(u)
}

/// The arguments of a search from the user interface.
#[derive(Debug, Clone)]
pub struct WallhavenSearchArgs {
    pub query: Option<String>,
    pub categories: Option<String>,
    pub purity: Option<String>,
    pub sorting: Option<String>,
    pub order: Option<String>,
    pub atleast: Option<String>,
    pub ratios: Option<String>,
    pub page: Option<u32>,
}

/// A wallpaper in the library after a download, with the source id it is filed under.
#[derive(Debug, Clone)]
pub struct DownloadWallhavenResult {
    pub wallpaper: crate::db::Wallpaper,
    pub source_id: String,
}

/// The search request that a search from the user interface makes: the
/// arguments as they came.
pub fn search_request_from_args(args: WallhavenSearchArgs) -> (r: WallhavenSearchRequest)
    ensures
        r.query == args.query,
        r.categories == args.categories,
        r.purity == args.purity,
        r.sorting == args.sorting,
        r.order == args.order,
        r.atleast == args.atleast,
        r.ratios == args.ratios,
        r.page == args.page,
{
    WallhavenSearchRequest {
        query: args.query,
        categories: args.categories,
        purity: args.purity,
        sorting: args.sorting,
        order: args.order,
        atleast: args.atleast,
        ratios: args.ratios,
        page: args.page,
    }
}

} // verus!
