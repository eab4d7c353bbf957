//! The table of static files that the router serves on `GET`.
use vstd::prelude::*;

verus! {

/// The MIME type that `mime_guess` assigns to a path, by its extension.
pub uninterp spec fn mime_for_path(path: Seq<char>) -> Seq<char>;

/// The MIME type of a file, guessed from its path.
///
/// Trusted: calls `mime_guess::from_path(route).first_or_text_plain()` and
/// renders it. The result depends on the path alone (a lookup of its
/// extension in the crate's static table); a path with no `.` at all has no
/// extension, for which the crate answers `text/plain`.
#[verifier::external_body]
fn guess_mime(route: &str) -> (res: String)
    ensures
        res@ == mime_for_path(route@),
        !route@.contains('.') ==> res@ == "text/plain"@,
{
    mime_guess::from_path(route).first_or_text_plain().to_string()
}

/// A static file: where it is served, its MIME type and its contents.
pub struct Asset {
    pub route: String,
    pub mime: String,
    pub bytes: Vec<u8>,
}

/// What the table serves under a route: the MIME type and the contents.
pub type Served = (Seq<char>, Seq<u8>);

/// The files of a list of entries, by route; a later entry for a route
/// replaces an earlier one.
pub open spec fn assets_map(es: Seq<Asset>) -> Map<Seq<char>, Served>
    decreases es.len(),
{
    if es.len() == 0 {
        Map::empty()
    } else {
        let a = es[es.len() - 1];
        assets_map(es.drop_last()).insert(a.route@, (a.mime@, a.bytes@))
    }
}

proof fn lemma_assets_lookup(es: Seq<Asset>, key: Seq<char>, j: int)
    requires
        -1 <= j < es.len(),
        forall|k: int| j < k < es.len() ==> es[k].route@ != key,
        j >= 0 ==> es[j].route@ == key,
    ensures
        j < 0 ==> !assets_map(es).contains_key(key),
        j >= 0 ==> assets_map(es).contains_key(key) && assets_map(es)[key] == (
            es[j].mime@,
            es[j].bytes@,
        ),
    decreases es.len(),
{
    if es.len() > 0 {
        if j == es.len() - 1 {
        } else {
            lemma_assets_lookup(es.drop_last(), key, j);
        }
    }
}

/// Static files by route.
pub struct AssetTable {
    entries: Vec<Asset>,
}

impl View for AssetTable {
    type V = Map<Seq<char>, Served>;

    closed spec fn view(&self) -> Map<Seq<char>, Served> {
        assets_map(self.entries@)
    }
}

impl AssetTable {
    /// An empty table.
    pub fn new() -> (t: AssetTable)
        ensures
            t@ == Map::<Seq<char>, Served>::empty(),
    {
        AssetTable { entries: Vec::new() }
    }

    /// Serves `bytes` with MIME type `mime` under `route`, replacing what was
    /// served there before.
    pub fn insert(&mut self, route: String, mime: String, bytes: Vec<u8>)
        ensures
            final(self)@ == old(self)@.insert(route@, (mime@, bytes@)),
    {
        self.entries.push(Asset { route, mime, bytes });
        proof {
            assert(self.entries@.drop_last() =~= old(self).entries@);
        }
    }

    /// Serves the file `bytes` under `route`, with the MIME type guessed from
    /// the route.
    pub fn insert_file(&mut self, route: String, bytes: Vec<u8>)
        ensures
            final(self)@ == old(self)@.insert(route@, (mime_for_path(route@), bytes@)),
    {
        let mime = guess_mime(route.as_str());
        self.insert(route, mime, bytes);
    }

    /// The file served under `route`, if any.
    pub fn get(&self, route: &str) -> (res: Option<&Asset>)
        ensures
            match res {
                Some(a) => self@.contains_key(route@) && self@[route@] == (a.mime@, a.bytes@)
                    && a.route@ == route@,
                None => !self@.contains_key(route@),
            },
    {
        let key = String::from_str(route);
        let mut i = self.entries.len();
        while i > 0
            invariant
                i <= self.entries@.len(),
                key@ == route@,
                forall|k: int| i <= k < self.entries@.len() ==> self.entries@[k].route@ != key@,
            decreases i,
        {
            if self.entries[i - 1].route == key {
                proof {
                    lemma_assets_lookup(self.entries@, key@, i - 1);
                }
                return Some(&self.entries[i - 1]);
            }
            i = i - 1;
        }
        proof {
            lemma_assets_lookup(self.entries@, key@, -1);
        }
        None
    }
}

/// The route of the file at `entry_path` inside the asset folder `folder`:
/// the part of the path after `folder` and a slash.
pub open spec fn route_in(entry_path: Seq<char>, folder: Seq<char>) -> Option<Seq<char>> {
    let prefix = folder.push('/');
    if prefix.len() <= entry_path.len() && entry_path.subrange(0, prefix.len() as int) == prefix {
        Some(entry_path.subrange(prefix.len() as int, entry_path.len() as int))
    } else {
        None
    }
}

/// The route under which the file at `entry_path`, found in the folder
/// `folder`, is served; `None` when the path is not inside `folder/`.
pub fn asset_route(entry_path: &str, folder: &str) -> (res: Option<String>)
    ensures
        match res {
            Some(r) => route_in(entry_path@, folder@) == Some(r@),
            None => route_in(entry_path@, folder@) is None,
        },
{
    let n = entry_path.unicode_len();
    let f = folder.unicode_len();
    if f >= n {
        return None;
    }
    let ghost prefix = folder@.push('/');
    let mut i: usize = 0;
    while i < f
        invariant
            f == folder@.len(),
            n == entry_path@.len(),
            f < n,
            i <= f,
            prefix == folder@.push('/'),
            forall|k: int| 0 <= k < i ==> entry_path@[k] == folder@[k],
        decreases f - i,
    {
        if entry_path.get_char(i) != folder.get_char(i) {
            assert(entry_path@.subrange(0, prefix.len() as int)[i as int] != prefix[i as int]);
            return None;
        }
        i = i + 1;
    }
    if entry_path.get_char(f) != '/' {
        assert(entry_path@.subrange(0, prefix.len() as int)[f as int] != prefix[f as int]);
        return None;
    }
    assert(entry_path@.subrange(0, prefix.len() as int) =~= prefix);
    Some(String::from_str(entry_path.substring_char(f + 1, n)))
}

/// After a file is stored under a route, the table serves it there, and what
/// it serves under every other route is unchanged.
pub proof fn law_get_after_insert(
    before: Map<Seq<char>, Served>,
    after: Map<Seq<char>, Served>,
    route: Seq<char>,
    file: Served,
    other: Seq<char>,
)
    requires
        after == before.insert(route, file),
    ensures
        after.contains_key(route) && after[route] == file,
        other != route ==> (after.contains_key(other) == before.contains_key(other)),
        other != route && before.contains_key(other) ==> after[other] == before[other],
{
}

} // verus!
