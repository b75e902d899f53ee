//! The records that `fuzzysearch.net` answers with.

use vstd::prelude::*;
use crate::error::{Error, ErrorView};
use crate::text::{signed_decimal, signed_to_string};

verus! {

/// Information about a file from `FurAffinity`.
#[derive(Debug, Clone, Copy, PartialEq, Eq, Structural)]
pub struct FurAffinityFile {
    /// The file's number as seen in the image address; not the number of
    /// the submission.
    pub file_id: i32,
}

/// Information about a file from e621.
#[derive(Debug, Clone, PartialEq, Eq)]
pub struct E621File {
    /// The sources that e621 lists.
    pub sources: Option<Vec<String>>,
}

/// Which site a result is from, with what only that site tells.
#[derive(Debug, Clone, PartialEq, Eq)]
pub enum SiteInfo {
    FurAffinity(FurAffinityFile),
    E621(E621File),
    Twitter,
    Weasyl,
}

/// A moment: seconds since the start of 1970 in universal time, and the
/// nanoseconds past that second.
#[derive(Debug, Clone, Copy, PartialEq, Eq, Structural)]
pub struct Timestamp {
    pub seconds: i64,
    pub nanoseconds: u32,
}

/// For which audience a submission is rated.
#[derive(Debug, Clone, Copy, PartialEq, Eq, Structural)]
pub enum Rating {
    General,
    Mature,
    Adult,
}

/// A matching image.
#[derive(Debug, Clone, PartialEq, Eq)]
pub struct File {
    /// The number that the site gives the submission.
    pub site_id: i64,
    /// Address of the image itself.
    pub url: String,
    /// File name of the submission.
    pub filename: String,
    /// The artists who may have made the image.
    pub artists: Option<Vec<String>>,
    /// The rating of the submission.
    pub rating: Option<Rating>,
    /// When the submission was posted.
    pub posted_at: Option<Timestamp>,
    /// The tags of the submission.
    pub tags: Option<Vec<String>>,
    /// SHA-256 of the image, where known.
    pub sha256: Option<Vec<u8>>,
    /// Perceptual hash of the image; not sent by every endpoint.
    pub hash: Option<i64>,
    /// How far the image is from what was asked about; not sent by every
    /// endpoint.
    pub distance: Option<u64>,
    /// The site and what only it tells.
    pub site_info: Option<SiteInfo>,
    /// The hash that found this result; not sent by every endpoint.
    pub searched_hash: Option<i64>,
}

/// A matching file on `FurAffinity`, in detail.
#[derive(Debug, Clone, PartialEq, Eq)]
pub struct FurAffinityFileDetail {
    pub artist: Option<String>,
    pub deleted: bool,
    pub file_id: Option<i32>,
    pub file_size: Option<i32>,
    pub filename: Option<String>,
    pub hash: Option<i64>,
    pub hash_str: Option<String>,
    pub id: i32,
    pub posted_at: Option<Timestamp>,
    pub rating: Option<Rating>,
    pub sha256: Option<Vec<u8>>,
    pub tags: Vec<String>,
    pub updated_at: Option<Timestamp>,
    pub url: Option<String>,
}

/// Several matches, with the hash of the image that was sent.
#[derive(Debug, Clone, PartialEq, Eq)]
pub struct Matches {
    /// Hash of the image that was sent.
    pub hash: i64,
    /// The matches.
    pub matches: Vec<File>,
}

/// Mathematical content of a [`SiteInfo`].
pub enum SiteInfoView {
    FurAffinity(FurAffinityFile),
    E621 { sources: Option<Seq<Seq<char>>> },
    Twitter,
    Weasyl,
}

/// Mathematical content of a [`File`].
pub struct FileView {
    pub site_id: i64,
    pub url: Seq<char>,
    pub filename: Seq<char>,
    pub artists: Option<Seq<Seq<char>>>,
    pub rating: Option<Rating>,
    pub posted_at: Option<Timestamp>,
    pub tags: Option<Seq<Seq<char>>>,
    pub sha256: Option<Seq<u8>>,
    pub hash: Option<i64>,
    pub distance: Option<u64>,
    pub site_info: Option<SiteInfoView>,
    pub searched_hash: Option<i64>,
}

impl View for SiteInfo {
    type V = SiteInfoView;

    open spec fn view(&self) -> SiteInfoView {
        match self {
            SiteInfo::FurAffinity(file) => SiteInfoView::FurAffinity(*file),
            SiteInfo::E621(file) => SiteInfoView::E621 { sources: file.sources.deep_view() },
            SiteInfo::Twitter => SiteInfoView::Twitter,
            SiteInfo::Weasyl => SiteInfoView::Weasyl,
        }
    }
}

impl View for File {
    type V = FileView;

    open spec fn view(&self) -> FileView {
        FileView {
            site_id: self.site_id,
            url: self.url@,
            filename: self.filename@,
            artists: self.artists.deep_view(),
            rating: self.rating,
            posted_at: self.posted_at,
            tags: self.tags.deep_view(),
            sha256: match self.sha256 {
                Some(bytes) => Some(bytes@),
                None => None,
            },
            hash: self.hash,
            distance: self.distance,
            site_info: match self.site_info {
                Some(info) => Some(info@),
                None => None,
            },
            searched_hash: self.searched_hash,
        }
    }
}

/// Mathematical content of a [`FurAffinityFileDetail`].
pub struct FurAffinityFileDetailView {
    pub artist: Option<Seq<char>>,
    pub deleted: bool,
    pub file_id: Option<i32>,
    pub file_size: Option<i32>,
    pub filename: Option<Seq<char>>,
    pub hash: Option<i64>,
    pub hash_str: Option<Seq<char>>,
    pub id: i32,
    pub posted_at: Option<Timestamp>,
    pub rating: Option<Rating>,
    pub sha256: Option<Seq<u8>>,
    pub tags: Seq<Seq<char>>,
    pub updated_at: Option<Timestamp>,
    pub url: Option<Seq<char>>,
}

impl View for FurAffinityFileDetail {
    type V = FurAffinityFileDetailView;

    open spec fn view(&self) -> FurAffinityFileDetailView {
        FurAffinityFileDetailView {
            artist: self.artist.deep_view(),
            deleted: self.deleted,
            file_id: self.file_id,
            file_size: self.file_size,
            filename: self.filename.deep_view(),
            hash: self.hash,
            hash_str: self.hash_str.deep_view(),
            id: self.id,
            posted_at: self.posted_at,
            rating: self.rating,
            sha256: match self.sha256 {
                Some(bytes) => Some(bytes@),
                None => None,
            },
            tags: self.tags.deep_view(),
            updated_at: self.updated_at,
            url: self.url.deep_view(),
        }
    }
}

/// Mathematical content of a [`Matches`].
pub struct MatchesView {
    pub hash: i64,
    pub matches: Seq<FileView>,
}

impl View for Matches {
    type V = MatchesView;

    open spec fn view(&self) -> MatchesView {
        MatchesView { hash: self.hash, matches: file_views(self.matches@) }
    }
}

/// The content of each record of `details`.
pub open spec fn detail_views(details: Seq<FurAffinityFileDetail>) -> Seq<
    FurAffinityFileDetailView,
> {
    Seq::new(details.len(), |i: int| details[i]@)
}

/// The content of each record of `files`.
pub open spec fn file_views(files: Seq<File>) -> Seq<FileView> {
    Seq::new(files.len(), |i: int| files[i]@)
}

/// The moment that `chrono` reads from text in the relaxed form of RFC 3339
/// that it accepts; `None` where it refuses the text.
pub uninterp spec fn timestamp_of(text: Seq<char>) -> Option<Timestamp>;

/// Reads a moment with the `FromStr` of `chrono::DateTime<chrono::Utc>`.
///
/// Not verified. The contract claims that the outcome is a function of the
/// text alone; `timestamp_of` is the name of that outcome. The moment is
/// handed on as `DateTime::timestamp` and
/// `DateTime::timestamp_subsec_nanos` give it.
#[verifier::external_body]
pub(crate) fn read_timestamp(text: &str) -> (moment: Option<Timestamp>)
    ensures
        moment == timestamp_of(text@),
{
    text.parse::<chrono::DateTime<chrono::Utc>>().ok().map(
        |moment| Timestamp {
            seconds: moment.timestamp(),
            nanoseconds: moment.timestamp_subsec_nanos(),
        },
    )
}

/// The name of the site that the record is from, for people to read.
pub open spec fn site_name_of(info: SiteInfoView) -> Seq<char> {
    match info {
        SiteInfoView::Twitter => "Twitter"@,
        SiteInfoView::FurAffinity(_) => "FurAffinity"@,
        SiteInfoView::E621 { .. } => "e621"@,
        SiteInfoView::Weasyl => "Weasyl"@,
    }
}

/// The address of the page that shows the submission, by the site's own
/// scheme; `None` where the record lacks its site, or is from Twitter and
/// names no artist.
pub open spec fn source_page(file: FileView) -> Option<Seq<char>> {
    let number = signed_decimal(file.site_id as int);
    match file.site_info {
        Some(SiteInfoView::Twitter) => match file.artists {
            Some(artists) => if artists.len() > 0 {
                Some("https://twitter.com/"@ + artists[0] + "/status/"@ + number)
            } else {
                None
            },
            None => None,
        },
        Some(SiteInfoView::FurAffinity(_)) => Some(
            "https://www.furaffinity.net/view/"@ + number + "/"@,
        ),
        Some(SiteInfoView::E621 { .. }) => Some("https://e621.net/posts/"@ + number),
        Some(SiteInfoView::Weasyl) => Some("https://www.weasyl.com/view/"@ + number + "/"@),
        None => None,
    }
}

/// The failure for a record that has no page to link to.
pub open spec fn site_failure() -> ErrorView {
    ErrorView::Generic("Search result was missing SiteInfo"@)
}

impl File {
    /// The name of the site that the record is from, for people to read.
    pub fn site_name(&self) -> (name: &'static str)
        requires
            self.site_info is Some,
        ensures
            name@ == site_name_of(self@.site_info->0),
    {
        match &self.site_info {
            Some(SiteInfo::Twitter) => "Twitter",
            Some(SiteInfo::FurAffinity(_)) => "FurAffinity",
            Some(SiteInfo::E621(_)) => "e621",
            _ => "Weasyl",
        }
    }

    /// The address of the page that shows the submission: see
    /// [`source_page`]. A record that lacks its site, or is from Twitter and
    /// names no artist, has no such page, which is a failure.
    pub fn url(&self) -> (r: Result<String, Error>)
        ensures
            match source_page(self@) {
                Some(address) => r matches Ok(found) && found@ == address,
                None => r matches Err(e) && e@ == site_failure(),
            },
    {
        let number = signed_to_string(self.site_id);
        match &self.site_info {
            Some(SiteInfo::Twitter) => match &self.artists {
                Some(artists) => if artists.len() > 0 {
                    Ok(
                        String::from_str("https://twitter.com/").concat(
                            artists[0].as_str(),
                        ).concat("/status/").concat(number.as_str()),
                    )
                } else {
                    Err(Error::Generic(String::from_str("Search result was missing SiteInfo")))
                },
                None => Err(Error::Generic(String::from_str("Search result was missing SiteInfo"))),
            },
            Some(SiteInfo::FurAffinity(_)) => Ok(
                String::from_str("https://www.furaffinity.net/view/").concat(
                    number.as_str(),
                ).concat("/"),
            ),
            Some(SiteInfo::E621(_)) => Ok(
                String::from_str("https://e621.net/posts/").concat(number.as_str()),
            ),
            Some(SiteInfo::Weasyl) => Ok(
                String::from_str("https://www.weasyl.com/view/").concat(number.as_str()).concat(
                    "/",
                ),
            ),
            None => Err(Error::Generic(String::from_str("Search result was missing SiteInfo"))),
        }
    }

    /// A name for the submission that no other submission has: the site's
    /// name, a hyphen and the submission's number.
    pub fn id(&self) -> (id: String)
        requires
            self.site_info is Some,
        ensures
            id@ == site_name_of(self@.site_info->0) + "-"@ + signed_decimal(self.site_id as int),
    {
        let number = signed_to_string(self.site_id);
        String::from_str(self.site_name()).concat("-").concat(number.as_str())
    }
}

} // verus!
