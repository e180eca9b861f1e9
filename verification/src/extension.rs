//! The catalogue as an extension offers it: the requests it makes and the
//! series, episodes and pages it makes of the answers.

use crate::decimal::{decimal_text, render_text};
use crate::fields::{Entry, Fields};
use crate::kitsu::{
    anime_views, episode_views, text_view, AnimeData, AnimeView, EpisodeData, EpisodeView,
    EpisodesApiResponse, ImageResource, ImageView, SearchApiResponse,
};
use crate::request::{head_of, HeadView, Method, OutgoingRequest, Request, RequestView};
use crate::url::{url_parse, Url};
use vstd::prelude::*;
use vstd::string::*;

verus! {

/// How many episodes a page holds.
pub const PAGE_LIMIT: u16 = 10;

/// A series as the extension hands it out.
#[derive(Debug)]
pub struct Series {
    pub id: String,
    pub title: String,
    pub poster_resource: Option<OutgoingRequest>,
    pub synopsis: Option<String>,
    pub type_: Option<String>,
}

/// An episode as the extension hands it out.
#[derive(Debug)]
pub struct Episode {
    pub id: String,
    pub number: u16,
    pub title: Option<String>,
    pub description: Option<String>,
    pub thumbnail_resource: Option<OutgoingRequest>,
}

/// A page of series.
#[derive(Debug)]
pub struct SeriesPage {
    pub series: Vec<Series>,
    pub has_next_page: bool,
}

/// A page of episodes.
#[derive(Debug)]
pub struct EpisodesPage {
    pub episodes: Vec<Episode>,
    pub has_next_page: bool,
}

/// A series as contracts see it.
pub struct SeriesView {
    pub id: Seq<char>,
    pub title: Seq<char>,
    pub poster_resource: Option<HeadView>,
    pub synopsis: Option<Seq<char>>,
    pub type_: Option<Seq<char>>,
}

/// An episode as contracts see it.
pub struct EpisodeItemView {
    pub id: Seq<char>,
    pub number: u16,
    pub title: Option<Seq<char>>,
    pub description: Option<Seq<char>>,
    pub thumbnail_resource: Option<HeadView>,
}

/// The head of a resource that may be absent, as contracts see it.
pub open spec fn head_view(head: Option<OutgoingRequest>) -> Option<HeadView> {
    match head {
        Some(h) => Some(h@),
        None => None,
    }
}

impl View for Series {
    type V = SeriesView;

    open spec fn view(&self) -> SeriesView {
        SeriesView {
            id: self.id@,
            title: self.title@,
            poster_resource: head_view(self.poster_resource),
            synopsis: text_view(self.synopsis),
            type_: text_view(self.type_),
        }
    }
}

impl View for Episode {
    type V = EpisodeItemView;

    open spec fn view(&self) -> EpisodeItemView {
        EpisodeItemView {
            id: self.id@,
            number: self.number,
            title: text_view(self.title),
            description: text_view(self.description),
            thumbnail_resource: head_view(self.thumbnail_resource),
        }
    }
}

/// The resource that a picture stands for: a `GET` without headers for its
/// address, where it has one that is an absolute URL.
pub open spec fn resource_of(image: Option<ImageView>) -> Option<HeadView> {
    match image {
        Some(ImageView { original: Some(address) }) => match url_parse(address) {
            Some(url) => Some(head_of(url, Method::Get, Seq::<Entry>::empty())),
            None => None,
        },
        _ => None,
    }
}

/// The series that the extension makes of a series of the catalogue.
pub open spec fn series_of(anime: AnimeView) -> SeriesView {
    SeriesView {
        id: anime.id,
        title: anime.attributes.canonical_title,
        poster_resource: resource_of(anime.attributes.poster_image),
        synopsis: anime.attributes.synopsis,
        type_: Some(anime.type_),
    }
}

/// The episode that the extension makes of an episode of the catalogue.
pub open spec fn episode_item_of(episode: EpisodeView) -> EpisodeItemView {
    EpisodeItemView {
        id: episode.id,
        number: episode.attributes.number,
        title: episode.attributes.canonical_title,
        description: episode.attributes.synopsis,
        thumbnail_resource: resource_of(episode.attributes.thumbnail),
    }
}

/// The views of a list of series.
pub open spec fn series_views(items: Seq<Series>) -> Seq<SeriesView> {
    items.map_values(|s: Series| s@)
}

/// The views of a list of episodes.
pub open spec fn episode_item_views(items: Seq<Episode>) -> Seq<EpisodeItemView> {
    items.map_values(|e: Episode| e@)
}

fn copy_text(text: &Option<String>) -> (r: Option<String>)
    ensures
        text_view(r) == text_view(*text),
{
    match text {
        Some(t) => Some(t.clone()),
        None => None,
    }
}

fn resource(image: &Option<ImageResource>) -> (r: Option<OutgoingRequest>)
    ensures
        head_view(r) == resource_of(
            match *image {
                Some(i) => Some(i@),
                None => None,
            },
        ),
{
    match image {
        Some(ImageResource { original: Some(address) }) => match Url::parse(address.as_str()) {
            Some(url) => Some(OutgoingRequest::from_url(&url, &Method::Get, Fields::new())),
            None => None,
        },
        _ => None,
    }
}

fn series_from(anime: &AnimeData) -> (r: Series)
    ensures
        r@ == series_of(anime@),
{
    Series {
        id: anime.id.clone(),
        title: anime.attributes.canonical_title.clone(),
        poster_resource: resource(&anime.attributes.poster_image),
        synopsis: copy_text(&anime.attributes.synopsis),
        type_: Some(anime.type_.clone()),
    }
}

fn episode_from(episode: &EpisodeData) -> (r: Episode)
    ensures
        r@ == episode_item_of(episode@),
{
    Episode {
        id: episode.id.clone(),
        number: episode.attributes.number,
        title: copy_text(&episode.attributes.canonical_title),
        description: copy_text(&episode.attributes.synopsis),
        thumbnail_resource: resource(&episode.attributes.thumbnail),
    }
}

impl Series {
    /// The series that the extension makes of a series of the catalogue.
    pub fn from(anime: AnimeData) -> (r: Series)
        ensures
            r@ == series_of(anime@),
    {
        series_from(&anime)
    }
}

impl Episode {
    /// The episode that the extension makes of an episode of the catalogue.
    pub fn from(episode: EpisodeData) -> (r: Episode)
        ensures
            r@ == episode_item_of(episode@),
    {
        episode_from(&episode)
    }
}

/// The address of the catalogue.
pub open spec fn base_url() -> Seq<char> {
    "https://kitsu.io/api/edge"@
}

/// The address that answers a search for `query`.
pub open spec fn search_address(query: Seq<char>) -> Seq<char> {
    base_url() + "/anime?filter[text]="@ + query
}

/// The address that tells of the series `series_id`.
pub open spec fn series_address(series_id: Seq<char>) -> Seq<char> {
    base_url() + "/anime/"@ + series_id
}

/// How many episodes stand before the page with the given number. Pages
/// are counted from 1, and no number stands for the first page, as does 0.
pub open spec fn page_offset(page: Option<u16>) -> nat {
    match page {
        Some(number) => if number >= 1 {
            ((number - 1) * PAGE_LIMIT) as nat
        } else {
            0
        },
        None => 0,
    }
}

/// The address that lists one page of the episodes of `series_id`.
pub open spec fn episodes_address(series_id: Seq<char>, page: Option<u16>) -> Seq<char> {
    base_url() + "/episodes?filter[mediaId]="@ + series_id + "&page[limit]="@ + decimal_text(
        PAGE_LIMIT as nat,
    ) + "&page[offset]="@ + decimal_text(page_offset(page))
}

/// The request that asks for `address`: a `GET` without headers or body,
/// where the address is an absolute URL.
pub open spec fn query_of(address: Seq<char>) -> Option<RequestView> {
    match url_parse(address) {
        Some(url) => Some(
            RequestView { method: Method::Get, url, headers: Seq::empty(), body: None },
        ),
        None => None,
    }
}

fn query(address: &str) -> (r: Option<Request>)
    ensures
        r is Some <==> query_of(address@) is Some,
        r is Some ==> r->Some_0@ == query_of(address@)->Some_0,
{
    match Url::parse(address) {
        Some(url) => Some(Request::new(Method::Get, url)),
        None => None,
    }
}

/// The request that searches the catalogue for `query`.
pub fn search_request(text: &str) -> (r: Option<Request>)
    ensures
        r is Some <==> query_of(search_address(text@)) is Some,
        r is Some ==> r->Some_0@ == query_of(search_address(text@))->Some_0,
{
    let address = String::from_str("https://kitsu.io/api/edge").concat(
        "/anime?filter[text]=",
    ).concat(text);
    query(address.as_str())
}

/// The request that asks the catalogue about one series.
pub fn series_request(series_id: &str) -> (r: Option<Request>)
    ensures
        r is Some <==> query_of(series_address(series_id@)) is Some,
        r is Some ==> r->Some_0@ == query_of(series_address(series_id@))->Some_0,
{
    let address = String::from_str("https://kitsu.io/api/edge").concat("/anime/").concat(
        series_id,
    );
    query(address.as_str())
}

/// How many episodes stand before the page with the given number.
pub fn offset_of(page: Option<u16>) -> (r: u32)
    ensures
        r == page_offset(page),
{
    let page_number: u16 = match page {
        Some(number) => number,
        None => 1,
    };
    let page_index: u32 = if page_number >= 1 {
        (page_number - 1) as u32
    } else {
        0
    };
    page_index * (PAGE_LIMIT as u32)
}

/// The request that asks the catalogue for one page of the episodes of a
/// series.
pub fn episodes_request(series_id: &str, page: Option<u16>) -> (r: Option<Request>)
    ensures
        r is Some <==> query_of(episodes_address(series_id@, page)) is Some,
        r is Some ==> r->Some_0@ == query_of(episodes_address(series_id@, page))->Some_0,
{
    let limit = render_text(PAGE_LIMIT as u64);
    let offset = render_text(offset_of(page) as u64);
    let address = String::from_str("https://kitsu.io/api/edge").concat(
        "/episodes?filter[mediaId]=",
    ).concat(series_id).concat("&page[limit]=").concat(limit.as_str()).concat(
        "&page[offset]=",
    ).concat(offset.as_str());
    query(address.as_str())
}

/// The page that the extension makes of search results: every series in
/// order, and no word of a page that follows.
pub fn series_page(response: &SearchApiResponse) -> (r: SeriesPage)
    ensures
        !r.has_next_page,
        series_views(r.series@) == anime_views(response.data@).map_values(
            |a: AnimeView| series_of(a),
        ),
{
    let mut series: Vec<Series> = Vec::new();
    let mut i: usize = 0;
    while i < response.data.len()
        invariant
            i <= response.data.len(),
            series@.len() == i,
            forall|j: int| 0 <= j < i ==> (#[trigger] series@[j])@ == series_of(response.data@[j]@),
        decreases response.data.len() - i,
    {
        series.push(series_from(&response.data[i]));
        i = i + 1;
    }
    assert(series_views(series@) =~= anime_views(response.data@).map_values(
        |a: AnimeView| series_of(a),
    ));
    SeriesPage { series, has_next_page: false }
}

/// The page that the extension makes of a list of episodes: every episode
/// in order, and whether a page follows.
pub fn episodes_page(response: &EpisodesApiResponse, has_next_page: bool) -> (r: EpisodesPage)
    ensures
        r.has_next_page == has_next_page,
        episode_item_views(r.episodes@) == episode_views(response.data@).map_values(
            |e: EpisodeView| episode_item_of(e),
        ),
{
    let mut episodes: Vec<Episode> = Vec::new();
    let mut i: usize = 0;
    while i < response.data.len()
        invariant
            i <= response.data.len(),
            episodes@.len() == i,
            forall|j: int|
                0 <= j < i ==> (#[trigger] episodes@[j])@ == episode_item_of(response.data@[j]@),
        decreases response.data.len() - i,
    {
        episodes.push(episode_from(&response.data[i]));
        i = i + 1;
    }
    assert(episode_item_views(episodes@) =~= episode_views(response.data@).map_values(
        |e: EpisodeView| episode_item_of(e),
    ));
    EpisodesPage { episodes, has_next_page }
}

} // verus!
