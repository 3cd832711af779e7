//! The cache of a resource manager: textures by path, fonts by path and size.
//!
//! The cache only keeps what it is given. Loading on a miss is the host's part.

use vstd::prelude::*;

verus! {

/// What cached resources are found by.
trait Key: Sized {
    /// The key as contracts see it.
    type Id;

    spec fn id(&self) -> Self::Id;

    /// Whether the two keys are the same.
    fn same(&self, other: &Self) -> (r: bool)
        ensures
            r == (self.id() == other.id()),
    ;

    /// A key that is the same as this one.
    fn copy(&self) -> (r: Self)
        ensures
            r.id() == self.id(),
    ;
}

/// The path of a texture.
#[derive(Debug)]
struct TextureKey {
    path: String,
}

impl Key for TextureKey {
    type Id = Seq<char>;

    closed spec fn id(&self) -> Seq<char> {
        self.path@
    }

    fn same(&self, other: &Self) -> (r: bool) {
        self.path == other.path
    }

    fn copy(&self) -> (r: Self) {
        TextureKey { path: self.path.clone() }
    }
}

/// The path and the point size of a font.
#[derive(Debug)]
struct FontKey {
    path: String,
    point_size: u16,
}

impl Key for FontKey {
    type Id = (Seq<char>, u16);

    closed spec fn id(&self) -> (Seq<char>, u16) {
        (self.path@, self.point_size)
    }

    fn same(&self, other: &Self) -> (r: bool) {
        self.point_size == other.point_size && self.path == other.path
    }

    fn copy(&self) -> (r: Self) {
        FontKey { path: self.path.clone(), point_size: self.point_size }
    }
}

/// A cached resource with what it is found by.
#[derive(Debug)]
struct Entry<K, V> {
    key: K,
    value: V,
}

/// Whether the entry at `at` is the first for `id`.
spec fn first_at<K: Key, V>(entries: Seq<Entry<K, V>>, id: K::Id, at: int) -> bool {
    &&& 0 <= at < entries.len()
    &&& entries[at].key.id() == id
    &&& forall|j: int| 0 <= j < at ==> (#[trigger] entries[j]).key.id() != id
}

/// What the entries hold for `id`: the value of the first entry for it, if
/// there is one.
spec fn found<K: Key, V>(entries: Seq<Entry<K, V>>, id: K::Id) -> Option<V> {
    if exists|at: int| first_at(entries, id, at) {
        Some(entries[choose|at: int| first_at(entries, id, at)].value)
    } else {
        None
    }
}

/// What the entries are found by, in their order.
spec fn ids_of<K: Key, V>(entries: Seq<Entry<K, V>>) -> Seq<K::Id> {
    Seq::new(entries.len(), |i: int| entries[i].key.id())
}

proof fn lemma_found_at<K: Key, V>(entries: Seq<Entry<K, V>>, id: K::Id, at: int)
    requires
        first_at(entries, id, at),
    ensures
        found(entries, id) == Some(entries[at].value),
{
    let chosen = choose|at: int| first_at(entries, id, at);
    assert(chosen == at) by {
        if chosen < at {
            assert(entries[chosen].key.id() != id);
        } else if at < chosen {
            assert(entries[at].key.id() != id);
        }
    }
}

/// Where an entry for the key stands, a first one stands at or before it.
proof fn lemma_some_is_first<K: Key, V>(entries: Seq<Entry<K, V>>, id: K::Id, at: int)
    requires
        0 <= at < entries.len(),
        entries[at].key.id() == id,
    ensures
        exists|first: int| first_at(entries, id, first),
    decreases at,
{
    if forall|j: int| 0 <= j < at ==> (#[trigger] entries[j]).key.id() != id {
        assert(first_at(entries, id, at));
    } else {
        let j = choose|j: int| 0 <= j < at && (#[trigger] entries[j]).key.id() == id;
        lemma_some_is_first(entries, id, j);
    }
}

/// Something is found for a key just where the key is one of the entries'.
proof fn lemma_found_is_listed<K: Key, V>(entries: Seq<Entry<K, V>>, id: K::Id)
    ensures
        found(entries, id) is Some <==> ids_of(entries).contains(id),
{
    if ids_of(entries).contains(id) {
        let at = choose|at: int| 0 <= at < ids_of(entries).len() && ids_of(entries)[at] == id;
        lemma_some_is_first(entries, id, at);
    }
    if found(entries, id) is Some {
        let at = choose|at: int| first_at(entries, id, at);
        assert(ids_of(entries)[at] == id);
    }
}

/// The place of the first entry for `key`, if there is one.
fn position<K: Key, V>(entries: &Vec<Entry<K, V>>, key: &K) -> (place: Option<usize>)
    ensures
        match place {
            Some(at) => first_at(entries@, key.id(), at as int),
            None => !ids_of(entries@).contains(key.id()),
        },
{
    let n = entries.len();
    let mut i: usize = 0;
    while i < n
        invariant
            i <= n,
            n == entries@.len(),
            forall|j: int| 0 <= j < i ==> (#[trigger] entries@[j]).key.id() != key.id(),
        decreases n - i,
    {
        if entries[i].key.same(key) {
            return Some(i);
        }
        i += 1;
    }
    proof {
        if ids_of(entries@).contains(key.id()) {
            let at = choose|at: int|
                0 <= at < ids_of(entries@).len() && ids_of(entries@)[at] == key.id();
            assert(entries@[at].key.id() == key.id());
        }
    }
    None
}

/// The value of the first entry for `key`, if there is one.
fn lookup<'a, K: Key, V>(entries: &'a Vec<Entry<K, V>>, key: &K) -> (value: Option<&'a V>)
    ensures
        match value {
            Some(value) => found(entries@, key.id()) == Some(*value),
            None => found(entries@, key.id()) is None,
        },
{
    match position(entries, key) {
        Some(at) => {
            proof {
                lemma_found_at(entries@, key.id(), at as int);
            }
            Some(&entries[at].value)
        },
        None => {
            proof {
                lemma_found_is_listed(entries@, key.id());
            }
            None
        },
    }
}

/// Keeps `value` for `key`: in place of what was kept for it, or behind
/// everything else.
fn keep<K: Key, V>(entries: &mut Vec<Entry<K, V>>, key: K, value: V)
    ensures
        ids_of(old(entries)@).no_duplicates() ==> ids_of(final(entries)@).no_duplicates(),
        ids_of(final(entries)@) == if found(old(entries)@, key.id()) is Some {
            ids_of(old(entries)@)
        } else {
            ids_of(old(entries)@).push(key.id())
        },
        forall|other: K::Id| #[trigger]
            found(final(entries)@, other) == if other == key.id() {
                Some(value)
            } else {
                found(old(entries)@, other)
            },
{
    let place = position(entries, &key);
    let ghost before = entries@;
    let ghost id = key.id();
    let ghost at = match place {
        Some(at) => at as int,
        None => before.len() as int,
    };
    match place {
        Some(at) => {
            entries[at] = Entry { key, value };
        },
        None => {
            entries.push(Entry { key, value });
        },
    }
    proof {
        let after = entries@;
        lemma_found_is_listed(before, id);
        if place is Some {
            assert(ids_of(after) =~= ids_of(before));
        } else {
            assert(ids_of(after) =~= ids_of(before).push(id));
            assert(!ids_of(before).contains(id));
        }
        assert(first_at(after, id, at)) by {
            assert forall|j: int| 0 <= j < at implies (#[trigger] after[j]).key.id() != id by {
                assert(after[j] == before[j]);
                if place is None {
                    assert(ids_of(before)[j] == before[j].key.id());
                }
            }
        }
        lemma_found_at(after, id, at);
        assert forall|other: K::Id| other != id implies (#[trigger] found(after, other)) == found(
            before,
            other,
        ) by {
            lemma_found_is_listed(before, other);
            lemma_found_is_listed(after, other);
            if found(before, other) is Some {
                let first = choose|first: int| first_at(before, other, first);
                assert(first != at);
                assert(after[first] == before[first]);
                assert(first_at(after, other, first)) by {
                    assert forall|j: int| 0 <= j < first implies (#[trigger] after[j]).key.id()
                        != other by {
                        if j != at {
                            assert(after[j] == before[j]);
                        }
                    }
                }
                lemma_found_at(before, other, first);
                lemma_found_at(after, other, first);
            } else {
                if ids_of(after).contains(other) {
                    let j = choose|j: int| 0 <= j < ids_of(after).len() && ids_of(after)[j] == other;
                    assert(j != at);
                    assert(after[j] == before[j]);
                    assert(ids_of(before)[j] == other);
                }
            }
        }
    }
}

/// Whether `copy` is what a copy of a cache holds where the cache holds
/// `value`: a clone of it, or nothing where the cache holds nothing.
pub open spec fn copied<V: Clone>(value: Option<V>, copy: Option<V>) -> bool {
    match (value, copy) {
        (Some(value), Some(copy)) => cloned(value, copy),
        (None, None) => true,
        _ => false,
    }
}

/// What is found among copies of entries is a clone of what is found among
/// the entries.
proof fn lemma_copies_found<K: Key, V: Clone>(
    entries: Seq<Entry<K, V>>,
    copies: Seq<Entry<K, V>>,
    id: K::Id,
)
    requires
        ids_of(copies) == ids_of(entries),
        forall|i: int| 0 <= i < copies.len() ==> cloned(entries[i].value, (#[trigger] copies[i]).value),
    ensures
        copied(found(entries, id), found(copies, id)),
{
    lemma_found_is_listed(entries, id);
    lemma_found_is_listed(copies, id);
    assert(copies.len() == ids_of(copies).len());
    assert(entries.len() == ids_of(entries).len());
    if found(entries, id) is Some {
        let first = choose|first: int| first_at(entries, id, first);
        assert(first_at(copies, id, first)) by {
            assert(ids_of(copies)[first] == copies[first].key.id());
            assert(ids_of(entries)[first] == entries[first].key.id());
            assert forall|j: int| 0 <= j < first implies (#[trigger] copies[j]).key.id() != id by {
                assert(ids_of(copies)[j] == copies[j].key.id());
                assert(ids_of(entries)[j] == entries[j].key.id());
            }
        }
        lemma_found_at(entries, id, first);
        lemma_found_at(copies, id, first);
    }
}

/// A copy of the entries: the same keys in the same order, each with a clone
/// of its value.
fn copy_entries<K: Key, V: Clone>(entries: &Vec<Entry<K, V>>) -> (copies: Vec<Entry<K, V>>)
    ensures
        ids_of(copies@) == ids_of(entries@),
        forall|i: int|
            0 <= i < copies@.len() ==> cloned(entries@[i].value, (#[trigger] copies@[i]).value),
{
    let mut copies: Vec<Entry<K, V>> = Vec::new();
    let n = entries.len();
    let mut i: usize = 0;
    while i < n
        invariant
            i <= n,
            n == entries@.len(),
            copies@.len() == i,
            forall|j: int| 0 <= j < i ==> (#[trigger] copies@[j]).key.id() == entries@[j].key.id(),
            forall|j: int| 0 <= j < i ==> cloned(entries@[j].value, (#[trigger] copies@[j]).value),
        decreases n - i,
    {
        let key = entries[i].key.copy();
        let value = entries[i].value.clone();
        copies.push(Entry { key, value });
        i += 1;
    }
    proof {
        assert(ids_of(copies@) =~= ids_of(entries@));
    }
    copies
}

/// A resource manager's cache of assets: textures of type `T`, found by
/// their path, and fonts of type `F`, found by their path and point size.
///
/// No path occurs twice among the textures, and no pair of path and point size
/// twice among the fonts.
#[derive(Debug)]
pub struct ResourceManager<T, F> {
    prefix: String,
    textures: Vec<Entry<TextureKey, T>>,
    fonts: Vec<Entry<FontKey, F>>,
}

impl<T: Clone, F: Clone> Clone for ResourceManager<T, F> {
    /// A manager with the same prefix that has a clone of every texture and
    /// font cached, under the same keys in the same order.
    fn clone(&self) -> (copy: Self)
        ensures
            copy.prefix_of() == self.prefix_of(),
            copy.texture_keys() == self.texture_keys(),
            copy.font_keys_of() == self.font_keys_of(),
            forall|path: Seq<char>|
                copied(self.cached_texture(path), #[trigger] copy.cached_texture(path)),
            forall|path: Seq<char>, size: u16|
                copied(self.cached_font(path, size), #[trigger] copy.cached_font(path, size)),
    {
        proof {
            use_type_invariant(self);
        }
        let textures = copy_entries(&self.textures);
        let fonts = copy_entries(&self.fonts);
        proof {
            assert forall|path: Seq<char>|
                copied(found(self.textures@, path), #[trigger] found(textures@, path)) by {
                lemma_copies_found(self.textures@, textures@, path);
            }
            assert forall|path: Seq<char>, size: u16|
                copied(
                    found(self.fonts@, (path, size)),
                    #[trigger] found(fonts@, (path, size)),
                ) by {
                lemma_copies_found(self.fonts@, fonts@, (path, size));
            }
        }
        ResourceManager { prefix: self.prefix.clone(), textures, fonts }
    }
}

impl<T, F> ResourceManager<T, F> {
    /// Every key occurs once.
    #[verifier::type_invariant]
    spec fn keys_occur_once(self) -> bool {
        ids_of(self.textures@).no_duplicates() && ids_of(self.fonts@).no_duplicates()
    }

    /// The path that the paths of assets are relative to.
    pub closed spec fn prefix_of(self) -> Seq<char> {
        self.prefix@
    }

    /// The texture that is cached for `path`, if one is.
    pub closed spec fn cached_texture(self, path: Seq<char>) -> Option<T> {
        found(self.textures@, path)
    }

    /// The font that is cached for `path` and `point_size`, if one is.
    pub closed spec fn cached_font(self, path: Seq<char>, point_size: u16) -> Option<F> {
        found(self.fonts@, (path, point_size))
    }

    /// The paths of the textures that are cached, in the order in which they
    /// came.
    pub closed spec fn texture_keys(self) -> Seq<Seq<char>> {
        ids_of(self.textures@)
    }

    /// The paths and point sizes of the fonts that are cached, in the order
    /// in which they came.
    pub closed spec fn font_keys_of(self) -> Seq<(Seq<char>, u16)> {
        ids_of(self.fonts@)
    }

    /// The textures that are listed are the textures that are cached, and so
    /// for the fonts.
    pub proof fn lemma_listed_is_cached(self, path: Seq<char>, point_size: u16)
        ensures
            self.texture_keys().contains(path) <==> self.cached_texture(path) is Some,
            self.font_keys_of().contains((path, point_size)) <==> self.cached_font(
                path,
                point_size,
            ) is Some,
    {
        lemma_found_is_listed(self.textures@, path);
        lemma_found_is_listed(self.fonts@, (path, point_size));
    }

    /// Creates a new resource manager with nothing cached, for assets whose
    /// paths are taken as they are.
    pub fn new() -> (manager: Self)
        ensures
            manager.prefix_of() == Seq::<char>::empty(),
            manager.texture_keys() == Seq::<Seq<char>>::empty(),
            manager.font_keys_of() == Seq::<(Seq<char>, u16)>::empty(),
            forall|path: Seq<char>| #[trigger] manager.cached_texture(path) is None,
            forall|path: Seq<char>, size: u16| #[trigger] manager.cached_font(path, size) is None,
    {
        ResourceManager::with_prefix(String::new())
    }

    /// Creates a new resource manager with nothing cached, for assets whose
    /// paths are relative to `prefix`.
    pub fn with_prefix(prefix: String) -> (manager: Self)
        ensures
            manager.prefix_of() == prefix@,
            manager.texture_keys() == Seq::<Seq<char>>::empty(),
            manager.font_keys_of() == Seq::<(Seq<char>, u16)>::empty(),
            forall|path: Seq<char>| #[trigger] manager.cached_texture(path) is None,
            forall|path: Seq<char>, size: u16| #[trigger] manager.cached_font(path, size) is None,
    {
        ResourceManager { prefix, textures: Vec::new(), fonts: Vec::new() }
    }

    /// The path that the paths of assets are relative to.
    pub fn prefix(&self) -> (prefix: &String)
        ensures
            prefix@ == self.prefix_of(),
    {
        &self.prefix
    }

    /// Returns the texture that is cached for `path`, if one is.
    pub fn texture(&self, path: &str) -> (texture: Option<&T>)
        ensures
            match texture {
                Some(texture) => self.cached_texture(path@) == Some(*texture),
                None => self.cached_texture(path@) is None,
            },
    {
        let key = TextureKey { path: path.to_owned() };
        lookup(&self.textures, &key)
    }

    /// Caches `texture` for `path`: in place of what was cached for it, or
    /// behind every other texture.
    pub fn insert_texture(&mut self, path: &str, texture: T)
        ensures
            final(self).prefix_of() == old(self).prefix_of(),
            final(self).texture_keys() == if old(self).cached_texture(path@) is Some {
                old(self).texture_keys()
            } else {
                old(self).texture_keys().push(path@)
            },
            forall|other: Seq<char>| #[trigger]
                final(self).cached_texture(other) == if other == path@ {
                    Some(texture)
                } else {
                    old(self).cached_texture(other)
                },
            final(self).font_keys_of() == old(self).font_keys_of(),
            forall|other: Seq<char>, size: u16| #[trigger]
                final(self).cached_font(other, size) == old(self).cached_font(other, size),
    {
        proof {
            use_type_invariant(&*self);
        }
        let mut textures: Vec<Entry<TextureKey, T>> = Vec::new();
        core::mem::swap(&mut self.textures, &mut textures);
        keep(&mut textures, TextureKey { path: path.to_owned() }, texture);
        self.textures = textures;
    }

    /// Returns the font that is cached for `path` and `point_size`, if one is.
    pub fn font(&self, path: &str, point_size: u16) -> (font: Option<&F>)
        ensures
            match font {
                Some(font) => self.cached_font(path@, point_size) == Some(*font),
                None => self.cached_font(path@, point_size) is None,
            },
    {
        let key = FontKey { path: path.to_owned(), point_size };
        lookup(&self.fonts, &key)
    }

    /// Caches `font` for `path` and `point_size`: in place of what was cached
    /// for them, or behind every other font.
    pub fn insert_font(&mut self, path: &str, point_size: u16, font: F)
        ensures
            final(self).prefix_of() == old(self).prefix_of(),
            final(self).font_keys_of() == if old(self).cached_font(path@, point_size) is Some {
                old(self).font_keys_of()
            } else {
                old(self).font_keys_of().push((path@, point_size))
            },
            forall|other: Seq<char>, size: u16| #[trigger]
                final(self).cached_font(other, size) == if other == path@ && size == point_size {
                    Some(font)
                } else {
                    old(self).cached_font(other, size)
                },
            final(self).texture_keys() == old(self).texture_keys(),
            forall|other: Seq<char>| #[trigger]
                final(self).cached_texture(other) == old(self).cached_texture(other),
    {
        proof {
            use_type_invariant(&*self);
        }
        let mut fonts: Vec<Entry<FontKey, F>> = Vec::new();
        core::mem::swap(&mut self.fonts, &mut fonts);
        keep(&mut fonts, FontKey { path: path.to_owned(), point_size }, font);
        self.fonts = fonts;
        proof {
            assert forall|other: Seq<char>, size: u16| #[trigger]
                self.cached_font(other, size) == if other == path@ && size == point_size {
                    Some(font)
                } else {
                    old(self).cached_font(other, size)
                } by {
                assert(((other, size) == (path@, point_size)) == (other == path@ && size
                    == point_size));
            }
        }
    }

    /// Returns the paths of the textures that are cached, in the order in
    /// which they came.
    pub fn texture_paths(&self) -> (paths: Vec<String>)
        ensures
            paths@.len() == self.texture_keys().len(),
            forall|i: int| 0 <= i < paths@.len() ==> (#[trigger] paths@[i])@ == self.texture_keys()[i],
            self.texture_keys().no_duplicates(),
    {
        proof {
            use_type_invariant(self);
        }
        let mut paths: Vec<String> = Vec::new();
        let n = self.textures.len();
        let mut i: usize = 0;
        while i < n
            invariant
                i <= n,
                n == self.textures@.len(),
                paths@.len() == i,
                forall|j: int| 0 <= j < i ==> (#[trigger] paths@[j])@ == self.textures@[j].key.id(),
            decreases n - i,
        {
            paths.push(self.textures[i].key.path.clone());
            i += 1;
        }
        paths
    }

    /// Returns the paths and point sizes of the fonts that are cached, in the
    /// order in which they came.
    pub fn font_keys(&self) -> (keys: Vec<(String, u16)>)
        ensures
            keys@.len() == self.font_keys_of().len(),
            forall|i: int|
                0 <= i < keys@.len() ==> (#[trigger] keys@[i]).0@ == self.font_keys_of()[i].0
                    && keys@[i].1 == self.font_keys_of()[i].1,
            self.font_keys_of().no_duplicates(),
    {
        proof {
            use_type_invariant(self);
        }
        let mut keys: Vec<(String, u16)> = Vec::new();
        let n = self.fonts.len();
        let mut i: usize = 0;
        while i < n
            invariant
                i <= n,
                n == self.fonts@.len(),
                keys@.len() == i,
                forall|j: int|
                    0 <= j < i ==> ((#[trigger] keys@[j]).0@, keys@[j].1) == self.fonts@[j].key.id(),
            decreases n - i,
        {
            keys.push((self.fonts[i].key.path.clone(), self.fonts[i].key.point_size));
            i += 1;
        }
        keys
    }
}

} // verus!
