//! What the client is configured with and what the server sends: the
//! backend and pack to follow, and the changelist of one update.

use vstd::prelude::*;

verus! {

/// The backend to ask, the pack to follow and the key to show. Loaded once
/// and never changed.
#[allow(non_snake_case)]
#[derive(Clone, Debug, PartialEq, Eq)]
pub struct Config {
    pub backendUrl: String,
    pub packId: String,
    pub apiKey: String,
}

/// The base address of a pack: `{backend}/pack/{pack}`.
pub open spec fn pack_base(backend: Seq<char>, pack: Seq<char>) -> Seq<char> {
    backend + seq!['/', 'p', 'a', 'c', 'k', '/'] + pack
}

impl Config {
    /// The address below which the pack's resources are found.
    pub fn base_url(&self) -> (url: String)
        ensures
            url@ == pack_base(self.backendUrl@, self.packId@),
    {
        proof {
            reveal_strlit("/pack/");
        }
        let mut url = self.backendUrl.clone();
        url.append("/pack/");
        url.append(self.packId.as_str());
        assert("/pack/"@ =~= seq!['/', 'p', 'a', 'c', 'k', '/']);
        url
    }
}

/// The changes that bring the local files to the server's version: files
/// to fetch, files to remove, and the fingerprint that each fetched file
/// is expected to have. In `hashes` each pair is a file and its
/// fingerprint; where a file occurs twice the first pair counts.
#[derive(Clone, Debug, PartialEq, Eq)]
pub struct UpdateInfo {
    pub download: Vec<String>,
    pub delete: Vec<String>,
    pub hashes: Vec<(String, String)>,
}

/// The fingerprint that the first pair for a file gives, if there is one.
pub open spec fn first_match(entries: Seq<(Seq<char>, Seq<char>)>, file: Seq<char>) -> Option<
    Seq<char>,
>
    decreases entries.len(),
{
    if entries.len() == 0 {
        None
    } else if entries.first().0 == file {
        Some(entries.first().1)
    } else {
        first_match(entries.drop_first(), file)
    }
}

/// The mathematical value of an `UpdateInfo`.
pub ghost struct Changes {
    pub download: Seq<Seq<char>>,
    pub delete: Seq<Seq<char>>,
    pub hashes: Seq<(Seq<char>, Seq<char>)>,
}

impl Changes {
    /// The fingerprint that the server declares for a file.
    pub open spec fn expected(self, file: Seq<char>) -> Option<Seq<char>> {
        first_match(self.hashes, file)
    }

    /// A changelist without entries.
    pub open spec fn empty() -> Changes {
        Changes { download: Seq::empty(), delete: Seq::empty(), hashes: Seq::empty() }
    }
}

impl View for UpdateInfo {
    type V = Changes;

    open spec fn view(&self) -> Changes {
        Changes {
            download: self.download.deep_view(),
            delete: self.delete.deep_view(),
            hashes: self.hashes.deep_view(),
        }
    }
}

impl UpdateInfo {
    /// A changelist without entries.
    pub fn empty() -> (info: UpdateInfo)
        ensures
            info@ == Changes::empty(),
    {
        let info = UpdateInfo { download: Vec::new(), delete: Vec::new(), hashes: Vec::new() };
        assert(info@.download =~= Seq::empty());
        assert(info@.delete =~= Seq::empty());
        assert(info@.hashes =~= Seq::empty());
        info
    }

    /// The fingerprint that the server declares for a file, if it declares
    /// one.
    pub fn expected_hash(&self, file: &String) -> (r: Option<&String>)
        ensures
            match r {
                Some(hash) => self@.expected(file@) == Some(hash@),
                None => self@.expected(file@) is None,
            },
    {
        let ghost all = self.hashes.deep_view();
        let mut i: usize = 0;
        assert(all.skip(0) =~= all);
        while i < self.hashes.len()
            invariant
                all == self.hashes.deep_view(),
                i <= self.hashes.len(),
                first_match(all, file@) == first_match(all.skip(i as int), file@),
            decreases self.hashes.len() - i,
        {
            assert(all.skip(i as int).first() == (self.hashes@[i as int].0@, self.hashes@[i as int].1@));
            assert(all.skip(i as int).drop_first() =~= all.skip(i as int + 1));
            if self.hashes[i].0 == *file {
                return Some(&self.hashes[i].1);
            }
            i = i + 1;
        }
        None
    }
}

} // verus!
