//! Caching of the contents of URL based configurations.

use crate::config::error::HandlerError;
use vstd::hash_map::StringHashMap;
use vstd::prelude::*;

verus! {

/// A system for reading and writing to a cache for URL based configurations.
pub trait Cacher {
    /// If the content was cached to the local file system, return the absolute path.
    /// A cache that keeps nothing on the file system names no file.
    fn get_file_path(&self, url: &str) -> (r: Result<Option<String>, HandlerError>)
        default_ensures
            r == Ok::<Option<String>, HandlerError>(None),
    {
        Ok(None)
    }

    /// Read content from the cache store.
    fn read(&mut self, url: &str) -> Result<Option<String>, HandlerError>;

    /// Write the provided content to the cache store.
    fn write(&mut self, url: &str, content: &str) -> Result<(), HandlerError>;
}

/// A cache held in memory for the life of the loader: one entry per URL.
pub struct MemoryCache {
    cache: StringHashMap<String>,
}

impl View for MemoryCache {
    type V = Map<Seq<char>, Seq<char>>;

    closed spec fn view(&self) -> Map<Seq<char>, Seq<char>> {
        self.cache@.map_values(|content: String| content@)
    }
}

impl MemoryCache {
    /// An empty cache.
    pub fn new() -> (r: Self)
        ensures
            r@ == Map::<Seq<char>, Seq<char>>::empty(),
    {
        let r = MemoryCache { cache: StringHashMap::new() };
        assert(r@ =~= Map::<Seq<char>, Seq<char>>::empty());
        r
    }
}

impl Default for MemoryCache {
    fn default() -> (r: Self)
        ensures
            r@ == Map::<Seq<char>, Seq<char>>::empty(),
    {
        MemoryCache::new()
    }
}

impl Cacher for MemoryCache {
    /// The content cached for `url`, if any; the cache is left as it was.
    fn read(&mut self, url: &str) -> (r: Result<Option<String>, HandlerError>)
        ensures
            final(self)@ == old(self)@,
            r matches Ok(found) && match found {
                Some(content) => old(self)@.contains_key(url@) && old(self)@[url@] == content@,
                None => !old(self)@.contains_key(url@),
            },
    {
        match self.cache.get(url) {
            Some(content) => Ok(Some(content.clone())),
            None => Ok(None),
        }
    }

    /// Cache `content` for `url`, replacing what was cached for it before.
    fn write(&mut self, url: &str, content: &str) -> (r: Result<(), HandlerError>)
        ensures
            r is Ok,
            final(self)@ == old(self)@.insert(url@, content@),
    {
        let ghost before = self.cache@;
        self.cache.insert(url.to_string(), content.to_string());
        proof {
            assert(self.cache@.map_values(|c: String| c@) =~= before.map_values(|c: String| c@).insert(
                url@,
                content@,
            ));
        }
        Ok(())
    }
}

/// Reading a URL after content was written for it gives back that content; every other
/// URL reads as it did before the write.
pub proof fn lemma_read_after_write(
    before: MemoryCache,
    after: MemoryCache,
    url: Seq<char>,
    content: Seq<char>,
    other: Seq<char>,
)
    requires
        after@ == before@.insert(url, content),
    ensures
        after@.contains_key(url),
        after@[url] == content,
        other != url ==> after@.contains_key(other) == before@.contains_key(other),
        other != url && before@.contains_key(other) ==> after@[other] == before@[other],
{
}

} // verus!
