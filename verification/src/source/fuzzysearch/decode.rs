//! Reading the records out of a response.

use vstd::prelude::*;
use crate::json::{
    Json, JsonView, bool_of, every, item_list_of, lemma_every_failure, member_of, optional,
    signed_of, text_list_of, text_member, text_of, unsigned_of,
};
use crate::source::fuzzysearch::opt_hex_u8::{deserialize, hex_decoded};
use crate::source::fuzzysearch::types::{
    E621File, File, FileView, FurAffinityFile, FurAffinityFileDetail, FurAffinityFileDetailView,
    Matches, MatchesView, Rating, SiteInfo, SiteInfoView, Timestamp, detail_views, file_views,
    read_timestamp, timestamp_of,
};
use crate::text::str_eq;

verus! {

/// The rating that a document names.
pub open spec fn rating_of(json: JsonView) -> Option<Rating> {
    match text_of(json) {
        Some(word) => if word == "general"@ {
            Some(Rating::General)
        } else if word == "mature"@ {
            Some(Rating::Mature)
        } else if word == "adult"@ {
            Some(Rating::Adult)
        } else {
            None
        },
        None => None,
    }
}

/// The moment that a document writes.
pub open spec fn moment_of(json: JsonView) -> Option<Timestamp> {
    match text_of(json) {
        Some(text) => timestamp_of(text),
        None => None,
    }
}

/// The bytes of a member that has to be there and is `null` or
/// hexadecimal text.
pub open spec fn bytes_of(member: Option<JsonView>) -> Option<Option<Seq<u8>>> {
    match member {
        Some(JsonView::Null) => Some(None),
        Some(JsonView::Text(text)) => match hex_decoded(text) {
            Some(bytes) => Some(Some(bytes)),
            None => None,
        },
        _ => None,
    }
}

/// The number that a document is, if it is a whole number that fits 32 bits.
pub open spec fn small_of(json: JsonView) -> Option<i32> {
    match signed_of(json) {
        Some(n) => if i32::MIN <= n <= i32::MAX {
            Some(n as i32)
        } else {
            None
        },
        None => None,
    }
}

/// A member that is left out or `null`.
pub open spec fn is_absent(member: Option<JsonView>) -> bool {
    member is None || member == Some(JsonView::Null)
}

/// The site of a record: what its text `site` names, with what its member
/// `site_info` tells of that site. `None` where the two do not fit.
pub open spec fn site_of(json: JsonView) -> Option<SiteInfoView> {
    let info = member_of(json, "site_info"@);
    match text_member(json, "site"@) {
        Some(site) => if site == "FurAffinity"@ {
            match info {
                Some(told) => match member_of(told, "file_id"@) {
                    Some(number) => match small_of(number) {
                        Some(file_id) => Some(
                            SiteInfoView::FurAffinity(FurAffinityFile { file_id }),
                        ),
                        None => None,
                    },
                    None => None,
                },
                None => None,
            }
        } else if site == "e621"@ {
            match info {
                Some(told) => match optional(
                    member_of(told, "sources"@),
                    |list: JsonView| text_list_of(list),
                ) {
                    Some(sources) => if told is Object {
                        Some(SiteInfoView::E621 { sources })
                    } else {
                        None
                    },
                    None => None,
                },
                None => None,
            }
        } else if site == "Twitter"@ {
            if is_absent(info) {
                Some(SiteInfoView::Twitter)
            } else {
                None
            }
        } else if site == "Weasyl"@ {
            if is_absent(info) {
                Some(SiteInfoView::Weasyl)
            } else {
                None
            }
        } else {
            None
        },
        None => None,
    }
}

/// The record that a document is: an object with the number `site_id`,
/// the texts `url` and `filename` and the member `sha256`; each other
/// member may be left out, but has to be of its kind where it is there. A
/// site that cannot be read counts as no site.
pub open spec fn file_of(json: JsonView) -> Option<FileView> {
    let site_id = match member_of(json, "site_id"@) {
        Some(number) => signed_of(number),
        None => None,
    };
    let url = text_member(json, "url"@);
    let filename = text_member(json, "filename"@);
    let artists = optional(member_of(json, "artists"@), |list: JsonView| text_list_of(list));
    let rating = optional(member_of(json, "rating"@), |word: JsonView| rating_of(word));
    let posted_at = optional(member_of(json, "posted_at"@), |text: JsonView| moment_of(text));
    let tags = optional(member_of(json, "tags"@), |list: JsonView| text_list_of(list));
    let sha256 = bytes_of(member_of(json, "sha256"@));
    let hash = optional(member_of(json, "hash"@), |number: JsonView| signed_of(number));
    let distance = optional(member_of(json, "distance"@), |number: JsonView| unsigned_of(number));
    let searched_hash = optional(
        member_of(json, "searched_hash"@),
        |number: JsonView| signed_of(number),
    );
    if site_id is Some && url is Some && filename is Some && artists is Some && rating is Some
        && posted_at is Some && tags is Some && sha256 is Some && hash is Some && distance is Some
        && searched_hash is Some {
        Some(
            FileView {
                site_id: site_id->0,
                url: url->0,
                filename: filename->0,
                artists: artists->0,
                rating: rating->0,
                posted_at: posted_at->0,
                tags: tags->0,
                sha256: sha256->0,
                hash: hash->0,
                distance: distance->0,
                site_info: site_of(json),
                searched_hash: searched_hash->0,
            },
        )
    } else {
        None
    }
}

/// Reads a record.
pub open spec fn file_reader() -> spec_fn(JsonView) -> Option<FileView> {
    |json: JsonView| file_of(json)
}

/// The records that a document lists, if it is a list of records.
pub open spec fn files_of(json: JsonView) -> Option<Seq<FileView>> {
    match item_list_of(json) {
        Some(list) => every(list, file_reader()),
        None => None,
    }
}

/// A member, unless it is left out or `null`.
fn present<'a>(json: &'a Json, name: &str) -> (found: Option<&'a Json>)
    ensures
        match found {
            Some(member) => member_of(json@, name@) == Some(member@) && member@ != JsonView::Null,
            None => is_absent(member_of(json@, name@)),
        },
{
    match json.member(name) {
        Some(Json::Null) => None,
        Some(member) => Some(member),
        None => None,
    }
}

/// The rating that a document names: see [`rating_of`].
pub fn decode_rating(json: &Json) -> (rating: Option<Rating>)
    ensures
        rating == rating_of(json@),
{
    match json.as_text() {
        Some(word) => if str_eq(word.as_str(), "general") {
            Some(Rating::General)
        } else if str_eq(word.as_str(), "mature") {
            Some(Rating::Mature)
        } else if str_eq(word.as_str(), "adult") {
            Some(Rating::Adult)
        } else {
            None
        },
        None => None,
    }
}

/// The moment that a document writes: see [`moment_of`].
pub fn decode_moment(json: &Json) -> (moment: Option<Timestamp>)
    ensures
        moment == moment_of(json@),
{
    match json.as_text() {
        Some(text) => read_timestamp(text.as_str()),
        None => None,
    }
}

/// The site of a record: see [`site_of`].
pub fn decode_site(json: &Json) -> (site: Option<SiteInfo>)
    ensures
        match site {
            Some(site) => site_of(json@) == Some(site@),
            None => site_of(json@) is None,
        },
{
    let site = match json.text_member("site") {
        Some(site) => site,
        None => {
            return None;
        },
    };
    if str_eq(site.as_str(), "FurAffinity") {
        let told = match json.member("site_info") {
            Some(told) => told,
            None => {
                return None;
            },
        };
        let number = match told.member("file_id") {
            Some(number) => number,
            None => {
                return None;
            },
        };
        match decode_small(number) {
            Some(file_id) => Some(SiteInfo::FurAffinity(FurAffinityFile { file_id })),
            None => None,
        }
    } else if str_eq(site.as_str(), "e621") {
        let told = match json.member("site_info") {
            Some(told) => told,
            None => {
                return None;
            },
        };
        let sources = match present(told, "sources") {
            Some(list) => match list.as_text_list() {
                Some(sources) => Some(sources),
                None => {
                    return None;
                },
            },
            None => None,
        };
        match told {
            Json::Object(_) => Some(SiteInfo::E621(E621File { sources })),
            _ => None,
        }
    } else if str_eq(site.as_str(), "Twitter") {
        match present(json, "site_info") {
            None => Some(SiteInfo::Twitter),
            Some(_) => None,
        }
    } else if str_eq(site.as_str(), "Weasyl") {
        match present(json, "site_info") {
            None => Some(SiteInfo::Weasyl),
            Some(_) => None,
        }
    } else {
        None
    }
}

/// The record that a document is: see [`file_of`].
pub fn decode_file(json: &Json) -> (file: Option<File>)
    ensures
        match file {
            Some(file) => file_of(json@) == Some(file@),
            None => file_of(json@) is None,
        },
{
    let site_id = match json.member("site_id") {
        Some(number) => match number.as_signed() {
            Some(n) => n,
            None => {
                return None;
            },
        },
        None => {
            return None;
        },
    };
    let url = match json.text_member("url") {
        Some(url) => url,
        None => {
            return None;
        },
    };
    let filename = match json.text_member("filename") {
        Some(filename) => filename,
        None => {
            return None;
        },
    };
    let artists = match present(json, "artists") {
        Some(list) => match list.as_text_list() {
            Some(artists) => Some(artists),
            None => {
                return None;
            },
        },
        None => None,
    };
    let rating = match present(json, "rating") {
        Some(word) => match decode_rating(word) {
            Some(rating) => Some(rating),
            None => {
                return None;
            },
        },
        None => None,
    };
    let posted_at = match present(json, "posted_at") {
        Some(text) => match decode_moment(text) {
            Some(moment) => Some(moment),
            None => {
                return None;
            },
        },
        None => None,
    };
    let tags = match present(json, "tags") {
        Some(list) => match list.as_text_list() {
            Some(tags) => Some(tags),
            None => {
                return None;
            },
        },
        None => None,
    };
    let sha256 = match json.member("sha256") {
        Some(Json::Null) => None,
        Some(Json::Text(text)) => match deserialize(Some(text.clone())) {
            Ok(bytes) => bytes,
            Err(_) => {
                return None;
            },
        },
        _ => {
            return None;
        },
    };
    let hash = match present(json, "hash") {
        Some(number) => match number.as_signed() {
            Some(n) => Some(n),
            None => {
                return None;
            },
        },
        None => None,
    };
    let distance = match present(json, "distance") {
        Some(number) => match number.as_unsigned() {
            Some(n) => Some(n),
            None => {
                return None;
            },
        },
        None => None,
    };
    let searched_hash = match present(json, "searched_hash") {
        Some(number) => match number.as_signed() {
            Some(n) => Some(n),
            None => {
                return None;
            },
        },
        None => None,
    };
    let site_info = decode_site(json);
    Some(
        File {
            site_id,
            url,
            filename,
            artists,
            rating,
            posted_at,
            tags,
            sha256,
            hash,
            distance,
            site_info,
            searched_hash,
        },
    )
}

/// The records that a document lists: see [`files_of`].
pub fn decode_files(json: &Json) -> (files: Option<Vec<File>>)
    ensures
        match files {
            Some(files) => files_of(json@) == Some(file_views(files@)),
            None => files_of(json@) is None,
        },
{
    let list = match json.as_items() {
        Some(list) => list,
        None => {
            return None;
        },
    };
    let ghost all = item_list_of(json@)->0;
    let mut files: Vec<File> = Vec::new();
    let mut k: usize = 0;
    assert(all.take(0) =~= Seq::<JsonView>::empty());
    assert(file_views(files@) =~= Seq::<FileView>::empty());
    while k < list.len()
        invariant
            k <= list.len(),
            all.len() == list@.len(),
            files_of(json@) == every(all, file_reader()),
            forall|i: int| 0 <= i < all.len() ==> all[i] == list@[i]@,
            every(all.take(k as int), file_reader()) == Some(file_views(files@)),
        decreases list.len() - k,
    {
        assert(all.take(k + 1).drop_last() =~= all.take(k as int));
        match decode_file(&list[k]) {
            Some(file) => {
                let ghost before = file_views(files@);
                files.push(file);
                assert(file_views(files@) =~= before.push(file@));
            },
            None => {
                proof {
                    lemma_every_failure(all, file_reader(), k + 1);
                }
                return None;
            },
        }
        k += 1;
    }
    assert(all.take(all.len() as int) =~= all);
    Some(files)
}

/// The detailed record that a document is: an object with the truth value
/// `deleted`, the number `id`, the list of texts `tags` and the member
/// `sha256`; each other member may be left out, but has to be of its kind
/// where it is there.
pub open spec fn detail_of(json: JsonView) -> Option<FurAffinityFileDetailView> {
    let artist = optional(member_of(json, "artist"@), |text: JsonView| text_of(text));
    let deleted = match member_of(json, "deleted"@) {
        Some(value) => bool_of(value),
        None => None,
    };
    let file_id = optional(member_of(json, "file_id"@), |number: JsonView| small_of(number));
    let file_size = optional(member_of(json, "file_size"@), |number: JsonView| small_of(number));
    let filename = optional(member_of(json, "filename"@), |text: JsonView| text_of(text));
    let hash = optional(member_of(json, "hash"@), |number: JsonView| signed_of(number));
    let hash_str = optional(member_of(json, "hash_str"@), |text: JsonView| text_of(text));
    let id = match member_of(json, "id"@) {
        Some(number) => small_of(number),
        None => None,
    };
    let posted_at = optional(member_of(json, "posted_at"@), |text: JsonView| moment_of(text));
    let rating = optional(member_of(json, "rating"@), |word: JsonView| rating_of(word));
    let sha256 = bytes_of(member_of(json, "sha256"@));
    let tags = match member_of(json, "tags"@) {
        Some(list) => text_list_of(list),
        None => None,
    };
    let updated_at = optional(member_of(json, "updated_at"@), |text: JsonView| moment_of(text));
    let url = optional(member_of(json, "url"@), |text: JsonView| text_of(text));
    if artist is Some && deleted is Some && file_id is Some && file_size is Some && filename
        is Some && hash is Some && hash_str is Some && id is Some && posted_at is Some && rating
        is Some && sha256 is Some && tags is Some && updated_at is Some && url is Some {
        Some(
            FurAffinityFileDetailView {
                artist: artist->0,
                deleted: deleted->0,
                file_id: file_id->0,
                file_size: file_size->0,
                filename: filename->0,
                hash: hash->0,
                hash_str: hash_str->0,
                id: id->0,
                posted_at: posted_at->0,
                rating: rating->0,
                sha256: sha256->0,
                tags: tags->0,
                updated_at: updated_at->0,
                url: url->0,
            },
        )
    } else {
        None
    }
}

/// Reads a detailed record.
pub open spec fn detail_reader() -> spec_fn(JsonView) -> Option<FurAffinityFileDetailView> {
    |json: JsonView| detail_of(json)
}

/// The detailed records that a document lists, if it is a list of them.
pub open spec fn details_of(json: JsonView) -> Option<Seq<FurAffinityFileDetailView>> {
    match item_list_of(json) {
        Some(list) => every(list, detail_reader()),
        None => None,
    }
}

/// The matches that a document holds: an object with the number `hash`
/// and the list of records `matches`.
pub open spec fn matches_of(json: JsonView) -> Option<MatchesView> {
    match (member_of(json, "hash"@), member_of(json, "matches"@)) {
        (Some(number), Some(list)) => match (signed_of(number), files_of(list)) {
            (Some(hash), Some(matches)) => Some(MatchesView { hash, matches }),
            _ => None,
        },
        _ => None,
    }
}

/// The number that a document is, if it fits 32 bits: see [`small_of`].
pub fn decode_small(json: &Json) -> (number: Option<i32>)
    ensures
        number == small_of(json@),
{
    match json.as_signed() {
        Some(n) => if -2147483648 <= n && n <= 2147483647 {
            Some(n as i32)
        } else {
            None
        },
        None => None,
    }
}

/// The detailed record that a document is: see [`detail_of`].
pub fn decode_detail(json: &Json) -> (detail: Option<FurAffinityFileDetail>)
    ensures
        match detail {
            Some(detail) => detail_of(json@) == Some(detail@),
            None => detail_of(json@) is None,
        },
{
    let artist = match present(json, "artist") {
        Some(text) => match text.as_text() {
            Some(artist) => Some(artist),
            None => {
                return None;
            },
        },
        None => None,
    };
    let deleted = match json.member("deleted") {
        Some(value) => match value.as_bool() {
            Some(deleted) => deleted,
            None => {
                return None;
            },
        },
        None => {
            return None;
        },
    };
    let file_id = match present(json, "file_id") {
        Some(number) => match decode_small(number) {
            Some(n) => Some(n),
            None => {
                return None;
            },
        },
        None => None,
    };
    let file_size = match present(json, "file_size") {
        Some(number) => match decode_small(number) {
            Some(n) => Some(n),
            None => {
                return None;
            },
        },
        None => None,
    };
    let filename = match present(json, "filename") {
        Some(text) => match text.as_text() {
            Some(filename) => Some(filename),
            None => {
                return None;
            },
        },
        None => None,
    };
    let hash = match present(json, "hash") {
        Some(number) => match number.as_signed() {
            Some(n) => Some(n),
            None => {
                return None;
            },
        },
        None => None,
    };
    let hash_str = match present(json, "hash_str") {
        Some(text) => match text.as_text() {
            Some(hash_str) => Some(hash_str),
            None => {
                return None;
            },
        },
        None => None,
    };
    let id = match json.member("id") {
        Some(number) => match decode_small(number) {
            Some(id) => id,
            None => {
                return None;
            },
        },
        None => {
            return None;
        },
    };
    let posted_at = match present(json, "posted_at") {
        Some(text) => match decode_moment(text) {
            Some(moment) => Some(moment),
            None => {
                return None;
            },
        },
        None => None,
    };
    let rating = match present(json, "rating") {
        Some(word) => match decode_rating(word) {
            Some(rating) => Some(rating),
            None => {
                return None;
            },
        },
        None => None,
    };
    let sha256 = match json.member("sha256") {
        Some(Json::Null) => None,
        Some(Json::Text(text)) => match deserialize(Some(text.clone())) {
            Ok(bytes) => bytes,
            Err(_) => {
                return None;
            },
        },
        _ => {
            return None;
        },
    };
    let tags = match json.member("tags") {
        Some(list) => match list.as_text_list() {
            Some(tags) => tags,
            None => {
                return None;
            },
        },
        None => {
            return None;
        },
    };
    let updated_at = match present(json, "updated_at") {
        Some(text) => match decode_moment(text) {
            Some(moment) => Some(moment),
            None => {
                return None;
            },
        },
        None => None,
    };
    let url = match present(json, "url") {
        Some(text) => match text.as_text() {
            Some(url) => Some(url),
            None => {
                return None;
            },
        },
        None => None,
    };
    Some(
        FurAffinityFileDetail {
            artist,
            deleted,
            file_id,
            file_size,
            filename,
            hash,
            hash_str,
            id,
            posted_at,
            rating,
            sha256,
            tags,
            updated_at,
            url,
        },
    )
}

/// The detailed records that a document lists: see [`details_of`].
pub fn decode_details(json: &Json) -> (details: Option<Vec<FurAffinityFileDetail>>)
    ensures
        match details {
            Some(details) => details_of(json@) == Some(detail_views(details@)),
            None => details_of(json@) is None,
        },
{
    let list = match json.as_items() {
        Some(list) => list,
        None => {
            return None;
        },
    };
    let ghost all = item_list_of(json@)->0;
    let mut details: Vec<FurAffinityFileDetail> = Vec::new();
    let mut k: usize = 0;
    assert(all.take(0) =~= Seq::<JsonView>::empty());
    assert(detail_views(details@) =~= Seq::<FurAffinityFileDetailView>::empty());
    while k < list.len()
        invariant
            k <= list.len(),
            all.len() == list@.len(),
            details_of(json@) == every(all, detail_reader()),
            forall|i: int| 0 <= i < all.len() ==> all[i] == list@[i]@,
            every(all.take(k as int), detail_reader()) == Some(detail_views(details@)),
        decreases list.len() - k,
    {
        assert(all.take(k + 1).drop_last() =~= all.take(k as int));
        match decode_detail(&list[k]) {
            Some(detail) => {
                let ghost before = detail_views(details@);
                details.push(detail);
                assert(detail_views(details@) =~= before.push(detail@));
            },
            None => {
                proof {
                    lemma_every_failure(all, detail_reader(), k + 1);
                }
                return None;
            },
        }
        k += 1;
    }
    assert(all.take(all.len() as int) =~= all);
    Some(details)
}

/// The matches that a document holds: see [`matches_of`].
pub fn decode_matches(json: &Json) -> (found: Option<Matches>)
    ensures
        match found {
            Some(found) => matches_of(json@) == Some(found@),
            None => matches_of(json@) is None,
        },
{
    let number = match json.member("hash") {
        Some(number) => number,
        None => {
            return None;
        },
    };
    let list = match json.member("matches") {
        Some(list) => list,
        None => {
            return None;
        },
    };
    let hash = match number.as_signed() {
        Some(hash) => hash,
        None => {
            return None;
        },
    };
    match decode_files(list) {
        Some(matches) => Some(Matches { hash, matches }),
        None => None,
    }
}

} // verus!
