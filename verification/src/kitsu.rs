//! The documents of the Kitsu catalogue: their shape, and how they are read
//! from JSON.

use crate::error::{Error, JsonError};
use crate::json::{member_of, Json};
use vstd::string::*;
use vstd::prelude::*;

verus! {

/// A document of the catalogue: what it is about stands under `data`.
#[derive(Debug)]
pub struct ApiResponse<T> {
    pub data: T,
}

/// The answer to a search.
pub type SearchApiResponse = ApiResponse<Vec<AnimeData>>;

/// The answer to a question about one series.
pub type AnimeApiResponse = ApiResponse<AnimeData>;

/// The answer to a question about the episodes of a series.
pub type EpisodesApiResponse = ApiResponse<Vec<EpisodeData>>;

/// A picture, by the address of its largest form.
#[derive(Debug)]
pub struct ImageResource {
    pub original: Option<String>,
}

/// What the catalogue says of a series.
#[derive(Debug)]
pub struct AnimeAttributes {
    pub canonical_title: String,
    pub synopsis: Option<String>,
    pub poster_image: Option<ImageResource>,
}

/// A series of the catalogue.
#[derive(Debug)]
pub struct AnimeData {
    pub id: String,
    pub type_: String,
    pub attributes: AnimeAttributes,
}

/// What the catalogue says of an episode.
#[derive(Debug)]
pub struct EpisodeAttributes {
    pub number: u16,
    pub canonical_title: Option<String>,
    pub synopsis: Option<String>,
    pub thumbnail: Option<ImageResource>,
}

/// An episode of the catalogue.
#[derive(Debug)]
pub struct EpisodeData {
    pub id: String,
    pub attributes: EpisodeAttributes,
}

/// A text that may be absent, as contracts see it.
pub open spec fn text_view(text: Option<String>) -> Option<Seq<char>> {
    match text {
        Some(t) => Some(t@),
        None => None,
    }
}

/// A picture as contracts see it.
pub struct ImageView {
    pub original: Option<Seq<char>>,
}

/// What the catalogue says of a series, as contracts see it.
pub struct AnimeAttributesView {
    pub canonical_title: Seq<char>,
    pub synopsis: Option<Seq<char>>,
    pub poster_image: Option<ImageView>,
}

/// A series of the catalogue as contracts see it.
pub struct AnimeView {
    pub id: Seq<char>,
    pub type_: Seq<char>,
    pub attributes: AnimeAttributesView,
}

/// What the catalogue says of an episode, as contracts see it.
pub struct EpisodeAttributesView {
    pub number: u16,
    pub canonical_title: Option<Seq<char>>,
    pub synopsis: Option<Seq<char>>,
    pub thumbnail: Option<ImageView>,
}

/// An episode of the catalogue as contracts see it.
pub struct EpisodeView {
    pub id: Seq<char>,
    pub attributes: EpisodeAttributesView,
}

impl View for ImageResource {
    type V = ImageView;

    open spec fn view(&self) -> ImageView {
        ImageView { original: text_view(self.original) }
    }
}

impl View for AnimeAttributes {
    type V = AnimeAttributesView;

    open spec fn view(&self) -> AnimeAttributesView {
        AnimeAttributesView {
            canonical_title: self.canonical_title@,
            synopsis: text_view(self.synopsis),
            poster_image: match self.poster_image {
                Some(image) => Some(image@),
                None => None,
            },
        }
    }
}

impl View for AnimeData {
    type V = AnimeView;

    open spec fn view(&self) -> AnimeView {
        AnimeView { id: self.id@, type_: self.type_@, attributes: self.attributes@ }
    }
}

impl View for EpisodeAttributes {
    type V = EpisodeAttributesView;

    open spec fn view(&self) -> EpisodeAttributesView {
        EpisodeAttributesView {
            number: self.number,
            canonical_title: text_view(self.canonical_title),
            synopsis: text_view(self.synopsis),
            thumbnail: match self.thumbnail {
                Some(image) => Some(image@),
                None => None,
            },
        }
    }
}

impl View for EpisodeData {
    type V = EpisodeView;

    open spec fn view(&self) -> EpisodeView {
        EpisodeView { id: self.id@, attributes: self.attributes@ }
    }
}

/// The text under `name` that a record must have: the member has to be
/// there and be a string.
pub open spec fn required_text(record: Json, name: Seq<char>) -> Option<Seq<char>> {
    match member_of(record, name) {
        Some(Json::String(text)) => Some(text@),
        _ => None,
    }
}

/// The text under `name` that a record may have: a member that is missing
/// or `null` stands for no text. The outer result is nothing where the
/// member is of another kind.
pub open spec fn optional_text(record: Json, name: Seq<char>) -> Option<Option<Seq<char>>> {
    match member_of(record, name) {
        None => Some(None),
        Some(Json::Null) => Some(None),
        Some(Json::String(text)) => Some(Some(text@)),
        Some(_) => None,
    }
}

/// The picture that an object stands for.
pub open spec fn image_of(record: Json) -> Option<ImageView> {
    match (record, optional_text(record, "original"@)) {
        (Json::Object(_), Some(original)) => Some(ImageView { original }),
        _ => None,
    }
}

/// The picture under `name` that a record may have.
pub open spec fn optional_image(record: Json, name: Seq<char>) -> Option<Option<ImageView>> {
    match member_of(record, name) {
        None => Some(None),
        Some(Json::Null) => Some(None),
        Some(member) => match image_of(member) {
            Some(image) => Some(Some(image)),
            None => None,
        },
    }
}

/// What an object says of a series: a title, and perhaps a synopsis and a
/// poster.
pub open spec fn anime_attributes_of(record: Json) -> Option<AnimeAttributesView> {
    match (
        required_text(record, "canonicalTitle"@),
        optional_text(record, "synopsis"@),
        optional_image(record, "posterImage"@),
    ) {
        (Some(canonical_title), Some(synopsis), Some(poster_image)) => Some(
            AnimeAttributesView { canonical_title, synopsis, poster_image },
        ),
        _ => None,
    }
}

/// The series that an object stands for: it has an `id`, a `type` and
/// `attributes`.
pub open spec fn anime_of(record: Json) -> Option<AnimeView> {
    match (required_text(record, "id"@), required_text(record, "type"@), member_of(
        record,
        "attributes"@,
    )) {
        (Some(id), Some(type_), Some(member)) => match anime_attributes_of(member) {
            Some(attributes) => Some(AnimeView { id, type_, attributes }),
            None => None,
        },
        _ => None,
    }
}

/// The number under `name` that a record must have: a whole number from 0
/// to 65535.
pub open spec fn required_number(record: Json, name: Seq<char>) -> Option<u16> {
    match member_of(record, name) {
        Some(Json::Number(Some(n))) => if n <= u16::MAX {
            Some(n as u16)
        } else {
            None
        },
        _ => None,
    }
}

/// What an object says of an episode: a number, and perhaps a title, a
/// synopsis and a thumbnail.
pub open spec fn episode_attributes_of(record: Json) -> Option<EpisodeAttributesView> {
    match (
        required_number(record, "number"@),
        optional_text(record, "canonicalTitle"@),
        optional_text(record, "synopsis"@),
        optional_image(record, "thumbnail"@),
    ) {
        (Some(number), Some(canonical_title), Some(synopsis), Some(thumbnail)) => Some(
            EpisodeAttributesView { number, canonical_title, synopsis, thumbnail },
        ),
        _ => None,
    }
}

/// The episode that an object stands for: it has an `id` and `attributes`.
pub open spec fn episode_of(record: Json) -> Option<EpisodeView> {
    match (required_text(record, "id"@), member_of(record, "attributes"@)) {
        (Some(id), Some(member)) => match episode_attributes_of(member) {
            Some(attributes) => Some(EpisodeView { id, attributes }),
            None => None,
        },
        _ => None,
    }
}

/// The series that a list of objects stands for: every one of them has to
/// stand for a series.
pub open spec fn animes_of(items: Seq<Json>) -> Option<Seq<AnimeView>> {
    if forall|i: int| 0 <= i < items.len() ==> anime_of(#[trigger] items[i]) is Some {
        Some(Seq::new(items.len(), |i: int| anime_of(items[i])->Some_0))
    } else {
        None
    }
}

/// The episodes that a list of objects stands for: every one of them has to
/// stand for an episode.
pub open spec fn episodes_of(items: Seq<Json>) -> Option<Seq<EpisodeView>> {
    if forall|i: int| 0 <= i < items.len() ==> episode_of(#[trigger] items[i]) is Some {
        Some(Seq::new(items.len(), |i: int| episode_of(items[i])->Some_0))
    } else {
        None
    }
}

/// The series that a document about one series is about.
pub open spec fn anime_document(document: Json) -> Option<AnimeView> {
    match member_of(document, "data"@) {
        Some(data) => anime_of(data),
        None => None,
    }
}

/// The series that a document with search results lists.
pub open spec fn search_document(document: Json) -> Option<Seq<AnimeView>> {
    match member_of(document, "data"@) {
        Some(Json::Array(items)) => animes_of(items@),
        _ => None,
    }
}

/// The episodes that a document with episodes lists.
pub open spec fn episodes_document(document: Json) -> Option<Seq<EpisodeView>> {
    match member_of(document, "data"@) {
        Some(Json::Array(items)) => episodes_of(items@),
        _ => None,
    }
}

/// Whether a document with episodes names a page that follows: its `links`
/// hold a `next` that is a string.
pub open spec fn names_next_page(document: Json) -> bool {
    match member_of(document, "links"@) {
        Some(links) => required_text(links, "next"@) is Some,
        None => false,
    }
}

/// The views of a list of series.
pub open spec fn anime_views(items: Seq<AnimeData>) -> Seq<AnimeView> {
    items.map_values(|a: AnimeData| a@)
}

/// The views of a list of episodes.
pub open spec fn episode_views(items: Seq<EpisodeData>) -> Seq<EpisodeView> {
    items.map_values(|e: EpisodeData| e@)
}

fn read_text(record: &Json, name: &str) -> (r: Option<String>)
    ensures
        text_view(r) == required_text(*record, name@),
{
    match record.get(name) {
        Some(Json::String(text)) => Some(text.clone()),
        _ => None,
    }
}

fn read_optional_text(record: &Json, name: &str) -> (r: Option<Option<String>>)
    ensures
        r is Some <==> optional_text(*record, name@) is Some,
        r is Some ==> text_view(r->Some_0) == optional_text(*record, name@)->Some_0,
{
    match record.get(name) {
        None => Some(None),
        Some(Json::Null) => Some(None),
        Some(Json::String(text)) => Some(Some(text.clone())),
        Some(_) => None,
    }
}

fn read_number(record: &Json, name: &str) -> (r: Option<u16>)
    ensures
        r == required_number(*record, name@),
{
    match record.get(name) {
        Some(Json::Number(Some(n))) => {
            if *n <= 65535 {
                Some(*n as u16)
            } else {
                None
            }
        },
        _ => None,
    }
}

fn read_optional_image(record: &Json, name: &str) -> (r: Option<Option<ImageResource>>)
    ensures
        r is Some <==> optional_image(*record, name@) is Some,
        r is Some ==> match r->Some_0 {
            Some(image) => optional_image(*record, name@)->Some_0 == Some(image@),
            None => optional_image(*record, name@)->Some_0 is None,
        },
{
    match record.get(name) {
        None => Some(None),
        Some(Json::Null) => Some(None),
        Some(member) => match ImageResource::from_json(member) {
            Some(image) => Some(Some(image)),
            None => None,
        },
    }
}

/// The description of a document that does not have the shape asked for.
pub open spec fn mismatch_text() -> Seq<char> {
    "the document does not have the expected shape"@
}

fn mismatch() -> (r: Error)
    ensures
        r matches Error::SerdeJson(e) && e.message@ == mismatch_text(),
{
    Error::SerdeJson(
        JsonError { message: String::from_str("the document does not have the expected shape") },
    )
}

impl ImageResource {
    /// Reads a picture from the object that stands for it.
    pub fn from_json(record: &Json) -> (r: Option<Self>)
        ensures
            r is Some <==> image_of(*record) is Some,
            r is Some ==> r->Some_0@ == image_of(*record)->Some_0,
    {
        match record {
            Json::Object(_) => match read_optional_text(record, "original") {
                Some(original) => Some(ImageResource { original }),
                None => None,
            },
            _ => None,
        }
    }
}

impl AnimeAttributes {
    /// Reads what an object says of a series.
    pub fn from_json(record: &Json) -> (r: Option<Self>)
        ensures
            r is Some <==> anime_attributes_of(*record) is Some,
            r is Some ==> r->Some_0@ == anime_attributes_of(*record)->Some_0,
    {
        let canonical_title = match read_text(record, "canonicalTitle") {
            Some(text) => text,
            None => {
                return None;
            },
        };
        let synopsis = match read_optional_text(record, "synopsis") {
            Some(text) => text,
            None => {
                return None;
            },
        };
        let poster_image = match read_optional_image(record, "posterImage") {
            Some(image) => image,
            None => {
                return None;
            },
        };
        Some(AnimeAttributes { canonical_title, synopsis, poster_image })
    }
}

impl AnimeData {
    /// Reads a series from the object that stands for it.
    pub fn from_json(record: &Json) -> (r: Option<Self>)
        ensures
            r is Some <==> anime_of(*record) is Some,
            r is Some ==> r->Some_0@ == anime_of(*record)->Some_0,
    {
        let id = match read_text(record, "id") {
            Some(text) => text,
            None => {
                return None;
            },
        };
        let type_ = match read_text(record, "type") {
            Some(text) => text,
            None => {
                return None;
            },
        };
        let attributes = match record.get("attributes") {
            Some(member) => match AnimeAttributes::from_json(member) {
                Some(attributes) => attributes,
                None => {
                    return None;
                },
            },
            None => {
                return None;
            },
        };
        Some(AnimeData { id, type_, attributes })
    }
}

impl EpisodeAttributes {
    /// Reads what an object says of an episode.
    pub fn from_json(record: &Json) -> (r: Option<Self>)
        ensures
            r is Some <==> episode_attributes_of(*record) is Some,
            r is Some ==> r->Some_0@ == episode_attributes_of(*record)->Some_0,
    {
        let number = match read_number(record, "number") {
            Some(n) => n,
            None => {
                return None;
            },
        };
        let canonical_title = match read_optional_text(record, "canonicalTitle") {
            Some(text) => text,
            None => {
                return None;
            },
        };
        let synopsis = match read_optional_text(record, "synopsis") {
            Some(text) => text,
            None => {
                return None;
            },
        };
        let thumbnail = match read_optional_image(record, "thumbnail") {
            Some(image) => image,
            None => {
                return None;
            },
        };
        Some(EpisodeAttributes { number, canonical_title, synopsis, thumbnail })
    }
}

impl EpisodeData {
    /// Reads an episode from the object that stands for it.
    pub fn from_json(record: &Json) -> (r: Option<Self>)
        ensures
            r is Some <==> episode_of(*record) is Some,
            r is Some ==> r->Some_0@ == episode_of(*record)->Some_0,
    {
        let id = match read_text(record, "id") {
            Some(text) => text,
            None => {
                return None;
            },
        };
        let attributes = match record.get("attributes") {
            Some(member) => match EpisodeAttributes::from_json(member) {
                Some(attributes) => attributes,
                None => {
                    return None;
                },
            },
            None => {
                return None;
            },
        };
        Some(EpisodeData { id, attributes })
    }
}

fn read_animes(items: &Vec<Json>) -> (r: Option<Vec<AnimeData>>)
    ensures
        r is Some <==> animes_of(items@) is Some,
        r is Some ==> anime_views(r->Some_0@) == animes_of(items@)->Some_0,
{
    let mut out: Vec<AnimeData> = Vec::new();
    let mut i: usize = 0;
    while i < items.len()
        invariant
            i <= items.len(),
            out@.len() == i,
            forall|j: int| 0 <= j < i ==> anime_of(#[trigger] items@[j]) == Some(out@[j]@),
        decreases items.len() - i,
    {
        match AnimeData::from_json(&items[i]) {
            Some(anime) => {
                out.push(anime);
            },
            None => {
                return None;
            },
        }
        i = i + 1;
    }
    assert(anime_views(out@) =~= animes_of(items@)->Some_0);
    Some(out)
}

fn read_episodes(items: &Vec<Json>) -> (r: Option<Vec<EpisodeData>>)
    ensures
        r is Some <==> episodes_of(items@) is Some,
        r is Some ==> episode_views(r->Some_0@) == episodes_of(items@)->Some_0,
{
    let mut out: Vec<EpisodeData> = Vec::new();
    let mut i: usize = 0;
    while i < items.len()
        invariant
            i <= items.len(),
            out@.len() == i,
            forall|j: int| 0 <= j < i ==> episode_of(#[trigger] items@[j]) == Some(out@[j]@),
        decreases items.len() - i,
    {
        match EpisodeData::from_json(&items[i]) {
            Some(episode) => {
                out.push(episode);
            },
            None => {
                return None;
            },
        }
        i = i + 1;
    }
    assert(episode_views(out@) =~= episodes_of(items@)->Some_0);
    Some(out)
}

/// Reads a document about one series. A document of another shape is an
/// error.
pub fn decode_anime(document: &Json) -> (r: Result<AnimeApiResponse, Error>)
    ensures
        match anime_document(*document) {
            Some(anime) => r is Ok && r->Ok_0.data@ == anime,
            None => r matches Err(Error::SerdeJson(e)) && e.message@ == mismatch_text(),
        },
{
    match document.get("data") {
        Some(data) => match AnimeData::from_json(data) {
            Some(anime) => Ok(ApiResponse { data: anime }),
            None => Err(mismatch()),
        },
        None => Err(mismatch()),
    }
}

/// Reads a document with search results. A document of another shape is an
/// error.
pub fn decode_search(document: &Json) -> (r: Result<SearchApiResponse, Error>)
    ensures
        match search_document(*document) {
            Some(series) => r is Ok && anime_views(r->Ok_0.data@) == series,
            None => r matches Err(Error::SerdeJson(e)) && e.message@ == mismatch_text(),
        },
{
    match document.get("data") {
        Some(Json::Array(items)) => match read_animes(items) {
            Some(series) => Ok(ApiResponse { data: series }),
            None => Err(mismatch()),
        },
        _ => Err(mismatch()),
    }
}

/// Reads a document with episodes. A document of another shape is an error.
pub fn decode_episodes(document: &Json) -> (r: Result<EpisodesApiResponse, Error>)
    ensures
        match episodes_document(*document) {
            Some(episodes) => r is Ok && episode_views(r->Ok_0.data@) == episodes,
            None => r matches Err(Error::SerdeJson(e)) && e.message@ == mismatch_text(),
        },
{
    match document.get("data") {
        Some(Json::Array(items)) => match read_episodes(items) {
            Some(episodes) => Ok(ApiResponse { data: episodes }),
            None => Err(mismatch()),
        },
        _ => Err(mismatch()),
    }
}

/// Whether a document with episodes names a page that follows.
pub fn has_next_page(document: &Json) -> (r: bool)
    ensures
        r == names_next_page(*document),
{
    match document.get("links") {
        Some(links) => match links.get("next") {
            Some(Json::String(_)) => true,
            _ => false,
        },
        None => false,
    }
}

} // verus!
