//! Planning the artwork sync: which shortcuts to search for, which images to
//! ask for, and which file each returned image is written to.
use vstd::prelude::*;
use crate::cache::CachedSearch;
use crate::images::{file_name_of, ImageType};
use crate::shortcut::{strings_view, views, Shortcut, ShortcutView};

verus! {

/// Whether artwork kind `t` of shortcut `app_id` is absent from the file
/// names `known` of the user's artwork directory.
pub open spec fn is_missing(known: Seq<Seq<char>>, t: ImageType, app_id: u32) -> bool {
    !known.contains(file_name_of(t, app_id))
}

/// Whether shortcut `app_id` lacks any of the three artwork kinds.
pub open spec fn needs_search(known: Seq<Seq<char>>, app_id: u32) -> bool {
    is_missing(known, ImageType::Hero, app_id) || is_missing(known, ImageType::Grid, app_id)
        || is_missing(known, ImageType::Logo, app_id)
}

/// The positions in `cs`, in order, of the shortcuts that need a search.
pub open spec fn search_queue_spec(cs: Seq<ShortcutView>, known: Seq<Seq<char>>) -> Seq<usize>
    decreases cs.len(),
{
    if cs.len() == 0 {
        Seq::empty()
    } else {
        let rest = search_queue_spec(cs.drop_last(), known);
        if needs_search(known, cs.last().app_id) {
            rest.push((cs.len() - 1) as usize)
        } else {
            rest
        }
    }
}

/// The positions in `cs`, in order, of the shortcuts that need a search and
/// have no cached result, so that the artwork service must be asked.
pub open spec fn pending_spec(cs: Seq<ShortcutView>, known: Seq<Seq<char>>, cached: Map<u32, Option<usize>>) -> Seq<usize>
    decreases cs.len(),
{
    if cs.len() == 0 {
        Seq::empty()
    } else {
        let rest = pending_spec(cs.drop_last(), known, cached);
        if needs_search(known, cs.last().app_id) && !cached.contains_key(cs.last().app_id) {
            rest.push((cs.len() - 1) as usize)
        } else {
            rest
        }
    }
}

/// An image to ask for: shortcut `app_id`, whose game on the artwork service
/// is `game_id`.
#[derive(Clone, Copy, Debug, PartialEq, Eq, Structural)]
pub struct ImageRequest {
    pub app_id: u32,
    pub game_id: usize,
}

/// The requests for artwork kind `t`, in the order of the shortcuts `cs`: one
/// for each shortcut that lacks that kind and whose search found a game.
pub open spec fn requests_spec(
    cs: Seq<ShortcutView>,
    found: Map<u32, Option<usize>>,
    known: Seq<Seq<char>>,
    t: ImageType,
) -> Seq<ImageRequest>
    decreases cs.len(),
{
    if cs.len() == 0 {
        Seq::empty()
    } else {
        let rest = requests_spec(cs.drop_last(), found, known, t);
        let id = cs.last().app_id;
        if found.contains_key(id) && found[id] is Some && is_missing(known, t, id) {
            rest.push(ImageRequest { app_id: id, game_id: found[id]->0 })
        } else {
            rest
        }
    }
}

/// The characters of an optional string.
pub open spec fn opt_view(o: Option<String>) -> Option<Seq<char>> {
    match o {
        Some(s) => Some(s@),
        None => None,
    }
}

/// The image url that a batched response gives for game `game_id`: that of
/// the first answer for that game, wherever it stands in the response.
pub open spec fn url_for(response: Seq<(usize, Option<String>)>, game_id: usize) -> Option<Seq<char>>
    decreases response.len(),
{
    if response.len() == 0 {
        None
    } else if response[0].0 == game_id {
        opt_view(response[0].1)
    } else {
        url_for(response.skip(1), game_id)
    }
}

/// A file to fetch: the image at `url`, to be stored as `file_name` for
/// shortcut `app_id`.
pub struct Download {
    pub app_id: u32,
    pub file_name: String,
    pub url: String,
}

/// What a download holds, with each string as its characters.
pub struct DownloadView {
    pub app_id: u32,
    pub file_name: Seq<char>,
    pub url: Seq<char>,
}

impl View for Download {
    type V = DownloadView;

    open spec fn view(&self) -> DownloadView {
        DownloadView { app_id: self.app_id, file_name: self.file_name@, url: self.url@ }
    }
}

/// The model of a list of downloads.
pub open spec fn download_views(d: Seq<Download>) -> Seq<DownloadView> {
    d.map_values(|x: Download| x@)
}

/// The downloads for artwork kind `t`, in the order of `requests`: one for
/// each request whose game the response gives an url for, matched by game id.
pub open spec fn downloads_spec(
    requests: Seq<ImageRequest>,
    response: Seq<(usize, Option<String>)>,
    t: ImageType,
) -> Seq<DownloadView>
    decreases requests.len(),
{
    if requests.len() == 0 {
        Seq::empty()
    } else {
        let rest = downloads_spec(requests.drop_last(), response, t);
        let q = requests.last();
        match url_for(response, q.game_id) {
            Some(u) => rest.push(DownloadView { app_id: q.app_id, file_name: file_name_of(t, q.app_id), url: u }),
            None => rest,
        }
    }
}

/// Whether `name` is among the file names `known`.
pub fn file_present(known: &Vec<String>, name: &String) -> (r: bool)
    ensures
        r == strings_view(known@).contains(name@),
{
    let mut i: usize = 0;
    while i < known.len()
        invariant
            i <= known@.len(),
            forall|k: int| 0 <= k < i ==> known@[k]@ != name@,
        decreases known@.len() - i,
    {
        if known[i] == *name {
            assert(strings_view(known@)[i as int] == name@);
            return true;
        }
        i = i + 1;
    }
    assert(!strings_view(known@).contains(name@)) by {
        if strings_view(known@).contains(name@) {
            let k = choose|k: int| 0 <= k < strings_view(known@).len() && strings_view(known@)[k] == name@;
            assert(known@[k]@ == name@);
        }
    }
    false
}

/// Whether artwork kind `t` of shortcut `app_id` is absent from `known`.
pub fn image_missing(known: &Vec<String>, t: ImageType, app_id: u32) -> (r: bool)
    ensures
        r == is_missing(strings_view(known@), t, app_id),
{
    let name = t.file_name(app_id);
    !file_present(known, &name)
}

/// Whether shortcut `app_id` lacks any artwork kind, so that a search is due.
pub fn shortcut_needs_search(known: &Vec<String>, app_id: u32) -> (r: bool)
    ensures
        r == needs_search(strings_view(known@), app_id),
{
    image_missing(known, ImageType::Hero, app_id) || image_missing(known, ImageType::Grid, app_id)
        || image_missing(known, ImageType::Logo, app_id)
}

/// The positions of the shortcuts that lack some artwork, in order.
pub fn search_queue(shortcuts: &Vec<Shortcut>, known: &Vec<String>) -> (r: Vec<usize>)
    ensures
        r@ == search_queue_spec(views(shortcuts@), strings_view(known@)),
{
    let ghost cs = views(shortcuts@);
    let mut r: Vec<usize> = Vec::new();
    let mut i: usize = 0;
    while i < shortcuts.len()
        invariant
            i <= shortcuts@.len(),
            cs == views(shortcuts@),
            r@ == search_queue_spec(cs.take(i as int), strings_view(known@)),
        decreases shortcuts@.len() - i,
    {
        proof {
            assert(cs.take(i as int + 1).drop_last() =~= cs.take(i as int));
        }
        if shortcut_needs_search(known, shortcuts[i].app_id) {
            r.push(i);
        }
        i = i + 1;
    }
    assert(cs.take(i as int) =~= cs);
    r
}

/// The positions of the shortcuts, in order, that lack some artwork and whose
/// search result is not cached: the searches to send to the artwork service.
pub fn pending_searches(shortcuts: &Vec<Shortcut>, known: &Vec<String>, cache: &CachedSearch) -> (r: Vec<usize>)
    ensures
        r@ == pending_spec(views(shortcuts@), strings_view(known@), cache@),
{
    let ghost cs = views(shortcuts@);
    let mut r: Vec<usize> = Vec::new();
    let mut i: usize = 0;
    while i < shortcuts.len()
        invariant
            i <= shortcuts@.len(),
            cs == views(shortcuts@),
            r@ == pending_spec(cs.take(i as int), strings_view(known@), cache@),
        decreases shortcuts@.len() - i,
    {
        proof {
            assert(cs.take(i as int + 1).drop_last() =~= cs.take(i as int));
        }
        let id = shortcuts[i].app_id;
        if shortcut_needs_search(known, id) && cache.cached(id).is_none() {
            r.push(i);
        }
        i = i + 1;
    }
    assert(cs.take(i as int) =~= cs);
    r
}

/// The requests for artwork kind `t`: the shortcuts, in order, that lack it
/// and whose cached search found a game.
pub fn requests_for_type(
    shortcuts: &Vec<Shortcut>,
    found: &CachedSearch,
    known: &Vec<String>,
    t: ImageType,
) -> (r: Vec<ImageRequest>)
    ensures
        r@ == requests_spec(views(shortcuts@), found@, strings_view(known@), t),
{
    let ghost cs = views(shortcuts@);
    let mut r: Vec<ImageRequest> = Vec::new();
    let mut i: usize = 0;
    while i < shortcuts.len()
        invariant
            i <= shortcuts@.len(),
            cs == views(shortcuts@),
            r@ == requests_spec(cs.take(i as int), found@, strings_view(known@), t),
        decreases shortcuts@.len() - i,
    {
        proof {
            assert(cs.take(i as int + 1).drop_last() =~= cs.take(i as int));
        }
        let id = shortcuts[i].app_id;
        match found.cached(id) {
            Some(Some(game_id)) => {
                if image_missing(known, t, id) {
                    r.push(ImageRequest { app_id: id, game_id });
                }
            },
            _ => {},
        }
        i = i + 1;
    }
    assert(cs.take(i as int) =~= cs);
    r
}

/// The game ids of `requests`, in order: what one batched query asks for.
pub fn game_ids(requests: &Vec<ImageRequest>) -> (r: Vec<usize>)
    ensures
        r@ == requests@.map_values(|q: ImageRequest| q.game_id),
{
    let mut r: Vec<usize> = Vec::new();
    let mut i: usize = 0;
    while i < requests.len()
        invariant
            i <= requests@.len(),
            r@ == requests@.take(i as int).map_values(|q: ImageRequest| q.game_id),
        decreases requests@.len() - i,
    {
        r.push(requests[i].game_id);
        assert(r@ =~= requests@.take(i as int + 1).map_values(|q: ImageRequest| q.game_id));
        i = i + 1;
    }
    assert(requests@.take(i as int) =~= requests@);
    r
}

/// The image url that `response` gives for `game_id`.
pub fn find_url(response: &Vec<(usize, Option<String>)>, game_id: usize) -> (r: Option<String>)
    ensures
        opt_view(r) == url_for(response@, game_id),
{
    let mut i: usize = 0;
    assert(response@.skip(0) =~= response@);
    while i < response.len()
        invariant
            i <= response@.len(),
            url_for(response@, game_id) == url_for(response@.skip(i as int), game_id),
        decreases response@.len() - i,
    {
        assert(response@.skip(i as int).skip(1) =~= response@.skip(i as int + 1));
        assert(response@.skip(i as int)[0] == response@[i as int]);
        if response[i].0 == game_id {
            return match &response[i].1 {
                Some(u) => Some(u.clone()),
                None => None,
            };
        }
        i = i + 1;
    }
    None
}

/// The downloads for artwork kind `t`: for each request whose game the
/// response answers with an url, that url and the file name of kind `t` for
/// the request's shortcut. Answers are matched to requests by game id, not by
/// their place in the response.
pub fn downloads_for_response(
    requests: &Vec<ImageRequest>,
    response: &Vec<(usize, Option<String>)>,
    t: ImageType,
) -> (r: Vec<Download>)
    ensures
        download_views(r@) == downloads_spec(requests@, response@, t),
{
    let mut r: Vec<Download> = Vec::new();
    let mut i: usize = 0;
    while i < requests.len()
        invariant
            i <= requests@.len(),
            download_views(r@) == downloads_spec(requests@.take(i as int), response@, t),
        decreases requests@.len() - i,
    {
        proof {
            assert(requests@.take(i as int + 1).drop_last() =~= requests@.take(i as int));
        }
        let q = requests[i];
        let ghost prev = r@;
        match find_url(response, q.game_id) {
            Some(url) => {
                let d = Download { app_id: q.app_id, file_name: t.file_name(q.app_id), url };
                r.push(d);
                assert(download_views(r@) =~= download_views(prev).push(d@));
            },
            None => {},
        }
        i = i + 1;
    }
    assert(requests@.take(i as int) =~= requests@);
    r
}

/// A position is in the search queue exactly when it names a shortcut that
/// lacks some artwork kind. In particular a shortcut whose three artwork
/// files are all present is never searched for.
pub proof fn lemma_search_queue_members(cs: Seq<ShortcutView>, known: Seq<Seq<char>>, j: usize)
    requires
        cs.len() <= usize::MAX,
    ensures
        search_queue_spec(cs, known).contains(j) <==> (j < cs.len() && needs_search(known, cs[j as int].app_id)),
    decreases cs.len(),
{
    if cs.len() > 0 {
        let init = cs.drop_last();
        lemma_search_queue_members(init, known, j);
        let rest = search_queue_spec(init, known);
        if j < init.len() {
            assert(init[j as int] == cs[j as int]);
        }
        if needs_search(known, cs.last().app_id) {
            let q = rest.push((cs.len() - 1) as usize);
            if q.contains(j) && j != (cs.len() - 1) as usize {
                let k = choose|k: int| 0 <= k < q.len() && q[k] == j;
                assert(rest[k] == j);
            }
            if rest.contains(j) {
                let k = choose|k: int| 0 <= k < rest.len() && rest[k] == j;
                assert(q[k] == j);
            }
            if j == (cs.len() - 1) as usize {
                assert(q[rest.len() as int] == j);
            }
        }
    }
}

/// Every request for artwork kind `t` is for a shortcut that lacks that kind
/// and whose cached search found the requested game; a cached "not found"
/// never leads to a request, so never to a download.
pub proof fn lemma_requests_are_needed(
    cs: Seq<ShortcutView>,
    found: Map<u32, Option<usize>>,
    known: Seq<Seq<char>>,
    t: ImageType,
    i: int,
)
    requires
        0 <= i < requests_spec(cs, found, known, t).len(),
    ensures
        is_missing(known, t, requests_spec(cs, found, known, t)[i].app_id),
        found.contains_key(requests_spec(cs, found, known, t)[i].app_id),
        found[requests_spec(cs, found, known, t)[i].app_id] == Some(requests_spec(cs, found, known, t)[i].game_id),
    decreases cs.len(),
{
    let rest = requests_spec(cs.drop_last(), found, known, t);
    if i < rest.len() {
        lemma_requests_are_needed(cs.drop_last(), found, known, t, i);
    }
}

/// Each download comes from a request and carries the url that the response
/// gives for that request's game id, and the file name of the request's
/// shortcut.
pub proof fn lemma_download_matches_request(
    requests: Seq<ImageRequest>,
    response: Seq<(usize, Option<String>)>,
    t: ImageType,
    i: int,
)
    requires
        0 <= i < downloads_spec(requests, response, t).len(),
    ensures
        exists|k: int|
            0 <= k < requests.len() && requests[k].app_id == #[trigger] downloads_spec(requests, response, t)[i].app_id
                && url_for(response, requests[k].game_id) == Some(downloads_spec(requests, response, t)[i].url)
                && downloads_spec(requests, response, t)[i].file_name == file_name_of(t, requests[k].app_id),
    decreases requests.len(),
{
    let rest = downloads_spec(requests.drop_last(), response, t);
    if i < rest.len() {
        lemma_download_matches_request(requests.drop_last(), response, t, i);
        let k = choose|k: int|
            0 <= k < requests.drop_last().len() && requests.drop_last()[k].app_id == #[trigger] rest[i].app_id
                && url_for(response, requests.drop_last()[k].game_id) == Some(rest[i].url)
                && rest[i].file_name == file_name_of(t, requests.drop_last()[k].app_id);
        assert(requests[k] == requests.drop_last()[k]);
    } else {
        assert(requests[requests.len() - 1] == requests.last());
    }
}

/// Two responses that give the same url for every game id give the same
/// downloads, however their answers are ordered and whatever else they hold:
/// images are attributed by game id, never by position.
pub proof fn lemma_downloads_ignore_response_order(
    requests: Seq<ImageRequest>,
    r1: Seq<(usize, Option<String>)>,
    r2: Seq<(usize, Option<String>)>,
    t: ImageType,
)
    requires
        forall|g: usize| url_for(r1, g) == url_for(r2, g),
    ensures
        downloads_spec(requests, r1, t) == downloads_spec(requests, r2, t),
    decreases requests.len(),
{
    if requests.len() > 0 {
        lemma_downloads_ignore_response_order(requests.drop_last(), r1, r2, t);
        assert(url_for(r1, requests.last().game_id) == url_for(r2, requests.last().game_id));
    }
}

/// A position is among the pending searches exactly when its shortcut lacks
/// some artwork and has no cached result: an app id with a cached result,
/// even "not found", is never searched for again, and a shortcut with all
/// three artwork files is never searched for at all.
pub proof fn lemma_pending_members(
    cs: Seq<ShortcutView>,
    known: Seq<Seq<char>>,
    cached: Map<u32, Option<usize>>,
    j: usize,
)
    requires
        cs.len() <= usize::MAX,
    ensures
        pending_spec(cs, known, cached).contains(j) <==> (j < cs.len() && needs_search(known, cs[j as int].app_id)
            && !cached.contains_key(cs[j as int].app_id)),
    decreases cs.len(),
{
    if cs.len() > 0 {
        let init = cs.drop_last();
        lemma_pending_members(init, known, cached, j);
        let rest = pending_spec(init, known, cached);
        if j < init.len() {
            assert(init[j as int] == cs[j as int]);
        }
        if needs_search(known, cs.last().app_id) && !cached.contains_key(cs.last().app_id) {
            let q = rest.push((cs.len() - 1) as usize);
            if q.contains(j) && j != (cs.len() - 1) as usize {
                let k = choose|k: int| 0 <= k < q.len() && q[k] == j;
                assert(rest[k] == j);
            }
            if rest.contains(j) {
                let k = choose|k: int| 0 <= k < rest.len() && rest[k] == j;
                assert(q[k] == j);
            }
            if j == (cs.len() - 1) as usize {
                assert(q[rest.len() as int] == j);
            }
        }
    }
}

} // verus!
