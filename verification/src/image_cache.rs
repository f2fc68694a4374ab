//! Reference-counted image layers shared between VMs.
//!
//! A layer is stored once on the host, under the cache directory. The cache says which layers are
//! stored and how many containers use each; creating and removing directories is left to the
//! caller.

use crate::paths;
use crate::text;
use vstd::hash_map::StringHashMap;
use vstd::prelude::*;

verus! {

/// A layer in the cache.
struct CachedLayer {
    path: String,
    refs: usize,
}

/// The image layers stored on the host.
pub struct ImageLayerCache {
    cache_dir: String,
    /// The layers by their digests.
    layers: StringHashMap<CachedLayer>,
    /// The digests of the layers, in the order in which they came.
    digests: Vec<String>,
}

/// What a layer cache holds: its directory, and for each cached digest the number of users.
pub struct LayerCacheView {
    pub dir: Seq<char>,
    pub users: Map<Seq<char>, nat>,
}

/// The digest as a directory name: each `:` becomes `_`.
pub open spec fn sanitized(digest: Seq<char>) -> Seq<char> {
    text::replaced(digest, ':', "_"@)
}

/// Where the layer with a digest is stored.
pub open spec fn layer_dir_spec(dir: Seq<char>, digest: Seq<char>) -> Seq<char> {
    paths::joined(dir, sanitized(digest))
}

impl LayerCacheView {
    /// Where a layer is stored, nothing where it is not cached.
    pub open spec fn path_of(self, digest: Seq<char>) -> Option<Seq<char>> {
        if self.users.contains_key(digest) {
            Some(layer_dir_spec(self.dir, digest))
        } else {
            None
        }
    }

    /// Whether a cached layer is stored in a directory.
    pub open spec fn stores(self, path: Seq<char>) -> bool {
        exists|k: Seq<char>| #[trigger]
            self.users.contains_key(k) && path == layer_dir_spec(self.dir, k)
    }

    /// The cache without any layer.
    pub open spec fn emptied(self) -> LayerCacheView {
        LayerCacheView { users: Map::empty(), ..self }
    }

    /// The cache after one more container uses the layer.
    pub open spec fn ensured(self, digest: Seq<char>) -> LayerCacheView {
        LayerCacheView {
            users: self.users.insert(
                digest,
                if self.users.contains_key(digest) {
                    self.users[digest] + 1
                } else {
                    1
                },
            ),
            ..self
        }
    }

    /// Whether the next release of the layer removes it.
    pub open spec fn last_user(self, digest: Seq<char>) -> bool {
        self.users.contains_key(digest) && self.users[digest] <= 1
    }

    /// The cache after one container stops using the layer.
    pub open spec fn released(self, digest: Seq<char>) -> LayerCacheView {
        if !self.users.contains_key(digest) {
            self
        } else if self.users[digest] <= 1 {
            LayerCacheView { users: self.users.remove(digest), ..self }
        } else {
            LayerCacheView {
                users: self.users.insert(digest, (self.users[digest] - 1) as nat),
                ..self
            }
        }
    }
}

spec fn users_of(layers: Map<Seq<char>, CachedLayer>) -> Map<Seq<char>, nat> {
    layers.map_values(|l: CachedLayer| l.refs as nat)
}

impl View for ImageLayerCache {
    type V = LayerCacheView;

    closed spec fn view(&self) -> LayerCacheView {
        LayerCacheView { dir: self.cache_dir@, users: users_of(self.layers@) }
    }
}

/// Whether a list holds each key of a map once, and nothing else.
spec fn lists(digests: Seq<Seq<char>>, layers: Map<Seq<char>, CachedLayer>) -> bool {
    &&& digests.no_duplicates()
    &&& digests.to_set() == layers.dom()
}

impl ImageLayerCache {
    /// Each cached layer is listed once, has a user, and is stored where its digest says.
    pub closed spec fn wf(&self) -> bool {
        &&& lists(text::strings(self.digests@), self.layers@)
        &&& forall|k: Seq<char>| #[trigger]
            self.layers@.contains_key(k) ==> {
                &&& self.layers@[k].refs >= 1
                &&& self.layers@[k].path@ == layer_dir_spec(self.cache_dir@, k)
            }
    }

    /// Finitely many layers are cached, and each has a user.
    pub proof fn lemma_wf(&self)
        requires
            self.wf(),
        ensures
            self@.users.dom().finite(),
            forall|k: Seq<char>| #[trigger]
                self@.users.contains_key(k) ==> 1 <= self@.users[k] <= usize::MAX,
    {
        assert(self@.users.dom() =~= text::strings(self.digests@).to_set());
        vstd::seq_lib::seq_to_set_is_finite(text::strings(self.digests@));
    }

    /// An empty cache in a directory.
    pub fn new(cache_dir: String) -> (res: Self)
        ensures
            res.wf(),
            res@ == (LayerCacheView { dir: cache_dir@, users: Map::empty() }),
    {
        let res: Self = ImageLayerCache {
            cache_dir,
            layers: StringHashMap::new(),
            digests: Vec::new(),
        };
        assert(text::strings(res.digests@).to_set() =~= res.layers@.dom());
        assert(res@.users =~= Map::empty());
        res
    }

    /// An empty cache in the state directory.
    pub fn default_cache() -> (res: Self)
        ensures
            res.wf(),
            res@ == (LayerCacheView {
                dir: paths::joined(crate::RUNTIME_STATE_DIR@, "layers"@),
                users: Map::empty(),
            }),
    {
        ImageLayerCache::new(paths::join(crate::RUNTIME_STATE_DIR, "layers"))
    }

    /// Where the layer with a digest is stored, or would be.
    pub fn layer_dir(&self, digest: &str) -> (res: String)
        ensures
            res@ == layer_dir_spec(self@.dir, digest@),
    {
        let name: String = sanitize_digest(digest);
        paths::join(self.cache_dir.as_str(), name.as_str())
    }

    /// Records one more user of a layer and returns where it is stored. A layer that is not
    /// cached yet needs its directory: `dir_ready` says whether that exists. Without it nothing
    /// changes, and the error is the missing directory.
    pub fn ensure_layer(&mut self, digest: &str, dir_ready: bool) -> (res: Result<String, String>)
        requires
            old(self).wf(),
            old(self)@.users.contains_key(digest@) ==> old(self)@.users[digest@] < usize::MAX,
        ensures
            final(self).wf(),
            match res {
                Ok(path) => {
                    &&& old(self)@.users.contains_key(digest@) || dir_ready
                    &&& path@ == layer_dir_spec(old(self)@.dir, digest@)
                    &&& final(self)@ == old(self)@.ensured(digest@)
                },
                Err(path) => {
                    &&& !old(self)@.users.contains_key(digest@) && !dir_ready
                    &&& path@ == layer_dir_spec(old(self)@.dir, digest@)
                    &&& final(self)@ == old(self)@
                },
            },
    {
        let ghost before = *self;
        match self.layers.get(digest) {
            Some(l) => {
                let path: String = l.path.clone();
                let refs: usize = l.refs + 1;
                self.layers.insert(digest.to_owned(), CachedLayer { path: path.clone(), refs });
                assert(self.layers@.dom() =~= before.layers@.dom());
                assert(self@.users =~= before@.ensured(digest@).users);
                Ok(path)
            },
            None => {
                let path: String = self.layer_dir(digest);
                if !dir_ready {
                    return Err(path);
                }
                self.layers.insert(
                    digest.to_owned(),
                    CachedLayer { path: path.clone(), refs: 1 },
                );
                self.digests.push(digest.to_owned());
                proof {
                    let old_list = text::strings(before.digests@);
                    let list = text::strings(self.digests@);
                    assert(list =~= old_list.push(digest@));
                    assert(!old_list.to_set().contains(digest@));
                    assert(!old_list.contains(digest@));
                    assert(list.no_duplicates());
                    assert(list.to_set() =~= self.layers@.dom()) by {
                        lemma_pushed(old_list, digest@);
                    }
                    assert(self@.users =~= before@.ensured(digest@).users);
                }
                Ok(path)
            },
        }
    }

    /// Records that one container stopped using a layer. Where that was the last one, the layer
    /// leaves the cache, and the result is the directory to remove.
    pub fn release_layer(&mut self, digest: &str) -> (res: Option<String>)
        requires
            old(self).wf(),
        ensures
            final(self).wf(),
            final(self)@ == old(self)@.released(digest@),
            match res {
                Some(path) => old(self)@.last_user(digest@) && path@ == layer_dir_spec(
                    old(self)@.dir,
                    digest@,
                ),
                None => !old(self)@.last_user(digest@),
            },
    {
        let ghost before = *self;
        match self.layers.get(digest) {
            Some(l) => {
                let path: String = l.path.clone();
                if l.refs > 1 {
                    let refs: usize = l.refs - 1;
                    self.layers.insert(digest.to_owned(), CachedLayer { path, refs });
                    assert(self.layers@.dom() =~= before.layers@.dom());
                    assert(self@.users =~= before@.released(digest@).users);
                    None
                } else {
                    self.unlist(digest);
                    self.layers.remove(digest);
                    proof {
                        assert(text::strings(self.digests@).to_set() =~= self.layers@.dom());
                        assert(self@.users =~= before@.released(digest@).users);
                    }
                    Some(path)
                }
            },
            None => None,
        }
    }

    /// Takes a digest off the list.
    fn unlist(&mut self, digest: &str)
        requires
            text::strings(old(self).digests@).no_duplicates(),
            text::strings(old(self).digests@).to_set().contains(digest@),
        ensures
            final(self).cache_dir == old(self).cache_dir,
            final(self).layers == old(self).layers,
            text::strings(final(self).digests@).no_duplicates(),
            text::strings(final(self).digests@).to_set() == text::strings(
                old(self).digests@,
            ).to_set().remove(digest@),
    {
        let ghost list = text::strings(self.digests@);
        let mut i: usize = 0;
        while i < self.digests.len() && !text::same(self.digests[i].as_str(), digest)
            invariant
                *self == *old(self),
                i <= self.digests@.len(),
                list == text::strings(self.digests@),
                forall|j: int| 0 <= j < i ==> #[trigger] list[j] != digest@,
            decreases self.digests@.len() - i,
        {
            i += 1;
        }
        proof {
            let j = list.index_of(digest@);
            assert(list.contains(digest@));
            assert(list[j] == digest@);
            assert(list[i as int] == digest@);
        }
        let _gone: String = self.digests.remove(i);
        proof {
            let after = text::strings(self.digests@);
            assert(after =~= list.remove(i as int));
            lemma_removed(list, i as int);
        }
    }

    /// Whether a layer is cached.
    pub fn is_cached(&self, digest: &str) -> (res: bool)
        ensures
            res == self@.users.contains_key(digest@),
    {
        self.layers.contains_key(digest)
    }

    /// The number of users of a layer.
    pub fn refcount(&self, digest: &str) -> (res: usize)
        ensures
            res == if self@.users.contains_key(digest@) {
                self@.users[digest@]
            } else {
                0
            },
    {
        match self.layers.get(digest) {
            Some(l) => l.refs,
            None => 0,
        }
    }

    /// Where a cached layer is stored.
    pub fn layer_path(&self, digest: &str) -> (res: Option<&str>)
        requires
            self.wf(),
        ensures
            text::opt_str(res) == self@.path_of(digest@),
    {
        match self.layers.get(digest) {
            Some(l) => Some(l.path.as_str()),
            None => None,
        }
    }

    /// Number of cached layers.
    pub fn cached_count(&self) -> (res: usize)
        requires
            self.wf(),
        ensures
            res == self@.users.len(),
    {
        proof {
            assert(self@.users.dom() =~= self.layers@.dom());
        }
        self.layers.len()
    }

    /// Forgets all layers, and returns the directories to remove: one for each layer.
    pub fn clear(&mut self) -> (res: Vec<String>)
        requires
            old(self).wf(),
        ensures
            final(self).wf(),
            final(self)@ == old(self)@.emptied(),
            res@.len() == old(self)@.users.len(),
            forall|k: Seq<char>| #[trigger]
                old(self)@.users.contains_key(k) ==> text::strings(res@).contains(
                    layer_dir_spec(old(self)@.dir, k),
                ),
            forall|i: int|
                0 <= i < res@.len() ==> old(self)@.stores((#[trigger] res@[i])@),
    {
        let ghost list = text::strings(self.digests@);
        let ghost dom = self@.users.dom();
        let mut out: Vec<String> = Vec::new();
        let mut i: usize = 0;
        while i < self.digests.len()
            invariant
                *self == *old(self),
                i <= self.digests@.len(),
                list == text::strings(self.digests@),
                out@.len() == i,
                forall|j: int|
                    0 <= j < i ==> (#[trigger] out@[j])@ == layer_dir_spec(
                        self.cache_dir@,
                        list[j],
                    ),
            decreases self.digests@.len() - i,
        {
            out.push(self.layer_dir(self.digests[i].as_str()));
            i += 1;
        }
        proof {
            assert(dom =~= self.layers@.dom());
            list.unique_seq_to_set();
            assert forall|k: Seq<char>| #[trigger] self@.users.contains_key(k) implies text::strings(
                out@,
            ).contains(layer_dir_spec(self@.dir, k)) by {
                assert(list.to_set().contains(k));
                let j = list.index_of(k);
                assert(text::strings(out@)[j] == layer_dir_spec(self@.dir, k));
            }
            assert forall|j: int| 0 <= j < out@.len() implies self@.stores(
                (#[trigger] out@[j])@,
            ) by {
                assert(list.to_set().contains(list[j]));
                assert(self@.users.contains_key(list[j]));
            }
        }
        self.layers.clear();
        self.digests = Vec::new();
        assert(text::strings(self.digests@).to_set() =~= self.layers@.dom());
        assert(self@.users =~= Map::empty());
        out
    }
}

proof fn lemma_pushed(list: Seq<Seq<char>>, x: Seq<char>)
    ensures
        list.push(x).to_set() =~= list.to_set().insert(x),
{
    let after = list.push(x);
    assert forall|y: Seq<char>| after.contains(y) == (list.contains(y) || y == x) by {
        if list.contains(y) {
            let i = list.index_of(y);
            assert(after[i] == y);
        }
        assert(after[list.len() as int] == x);
    }
}

proof fn lemma_removed(list: Seq<Seq<char>>, i: int)
    requires
        0 <= i < list.len(),
        list.no_duplicates(),
    ensures
        list.remove(i).no_duplicates(),
        list.remove(i).to_set() =~= list.to_set().remove(list[i]),
{
    let after = list.remove(i);
    assert forall|y: Seq<char>| after.contains(y) == (list.contains(y) && y != list[i]) by {
        if after.contains(y) {
            let j = after.index_of(y);
            assert(y == list[if j < i { j } else { j + 1 }]);
        }
        if list.contains(y) && y != list[i] {
            let j = list.index_of(y);
            assert(after[if j < i { j } else { j - 1 }] == y);
        }
    }
}

/// Makes a digest usable as a directory name.
pub fn sanitize_digest(digest: &str) -> (res: String)
    ensures
        res@ == sanitized(digest@),
{
    text::replace(digest, ':', "_")
}

/// Releasing a layer undoes ensuring it.
pub proof fn law_release_undoes_ensure(c: LayerCacheView, digest: Seq<char>)
    requires
        c.users.contains_key(digest) ==> c.users[digest] >= 1,
    ensures
        c.ensured(digest).released(digest) == c,
{
    assert(c.ensured(digest).released(digest).users =~= c.users);
}

/// A layer that two containers use survives the first release.
pub proof fn law_shared_layer_survives(c: LayerCacheView, digest: Seq<char>)
    requires
        c.users.contains_key(digest) ==> c.users[digest] >= 1,
    ensures
        c.ensured(digest).ensured(digest).released(digest).users.contains_key(digest),
        !c.ensured(digest).ensured(digest).last_user(digest),
{
}

/// Ensuring or releasing a layer leaves the other layers alone.
pub proof fn law_layers_independent(c: LayerCacheView, digest: Seq<char>, other: Seq<char>)
    requires
        digest != other,
    ensures
        c.ensured(digest).users.contains_key(other) == c.users.contains_key(other),
        c.released(digest).users.contains_key(other) == c.users.contains_key(other),
        c.users.contains_key(other) ==> c.ensured(digest).users[other] == c.users[other]
            && c.released(digest).users[other] == c.users[other],
{
}

/// What can happen to a layer cache.
pub enum LayerStep {
    /// One more container uses a layer whose directory can be made.
    Ensure(Seq<char>),
    /// One container stops using a layer.
    Release(Seq<char>),
    /// All layers are forgotten.
    Clear,
}

impl LayerCacheView {
    /// The cache after a step.
    pub open spec fn after(self, step: LayerStep) -> LayerCacheView {
        match step {
            LayerStep::Ensure(d) => self.ensured(d),
            LayerStep::Release(d) => self.released(d),
            LayerStep::Clear => self.emptied(),
        }
    }

    /// The cache after some steps.
    pub open spec fn after_all(self, steps: Seq<LayerStep>) -> LayerCacheView
        decreases steps.len(),
    {
        if steps.len() == 0 {
            self
        } else {
            self.after_all(steps.drop_last()).after(steps.last())
        }
    }
}

/// How many of some steps release a layer.
pub open spec fn releases(steps: Seq<LayerStep>, digest: Seq<char>) -> nat
    decreases steps.len(),
{
    if steps.len() == 0 {
        0
    } else {
        releases(steps.drop_last(), digest) + if steps.last() == LayerStep::Release(digest) {
            1nat
        } else {
            0
        }
    }
}

/// In every cache that can be reached from an empty one, a layer has a path exactly while it is
/// cached, and then it is the path that ensuring it returned, before and after.
pub proof fn law_layer_path_is_stable(
    empty: LayerCacheView,
    steps: Seq<LayerStep>,
    digest: Seq<char>,
)
    requires
        empty.users == Map::<Seq<char>, nat>::empty(),
    ensures
        ({
            let c = empty.after_all(steps);
            &&& c.path_of(digest) is Some == c.users.contains_key(digest)
            &&& c.path_of(digest) matches Some(p) ==> p == layer_dir_spec(empty.dir, digest)
            &&& c.ensured(digest).path_of(digest) == Some(layer_dir_spec(empty.dir, digest))
            &&& forall|k: Seq<char>| #[trigger] c.users.contains_key(k) ==> c.users[k] >= 1
        }),
    decreases steps.len(),
{
    if steps.len() > 0 {
        law_layer_path_is_stable(empty, steps.drop_last(), digest);
    }
}

/// A layer that is cached stays, at the same path, until its last user releases it: as long as
/// nothing clears the cache and there were fewer releases than users.
pub proof fn law_layer_stays_until_last_release(
    c: LayerCacheView,
    steps: Seq<LayerStep>,
    digest: Seq<char>,
)
    requires
        c.users.contains_key(digest),
        releases(steps, digest) < c.users[digest],
        forall|i: int| 0 <= i < steps.len() ==> !(#[trigger] steps[i] is Clear),
    ensures
        c.after_all(steps).path_of(digest) == c.path_of(digest),
        c.after_all(steps).users[digest] >= c.users[digest] - releases(steps, digest),
    decreases steps.len(),
{
    if steps.len() > 0 {
        let before = steps.drop_last();
        assert forall|i: int| 0 <= i < before.len() implies !(#[trigger] before[i] is Clear) by {
            assert(before[i] == steps[i]);
        }
        assert(steps.last() == steps[steps.len() - 1]);
        law_layer_stays_until_last_release(c, before, digest);
    }
}

/// The directory of a layer is named after its digest, with its colons as underscores: a name of the
/// same length without a colon, so it stands directly in the directory of the cache.
pub proof fn law_layer_dir(dir: Seq<char>, digest: Seq<char>)
    ensures
        sanitized(digest).len() == digest.len(),
        forall|i: int|
            0 <= i < digest.len() ==> #[trigger] sanitized(digest)[i] == if digest[i] == ':' {
                '_'
            } else {
                digest[i]
            },
        dir.len() > 0 && dir.last() != '/' && digest.len() > 0 && digest[0] != '/'
            ==> layer_dir_spec(dir, digest) == dir + seq!['/'] + sanitized(digest),
    decreases digest.len(),
{
    reveal_strlit("_");
    assert("_"@ =~= seq!['_']);
    if digest.len() > 0 {
        law_layer_dir(dir, digest.drop_last());
        let before = sanitized(digest.drop_last());
        assert forall|i: int| 0 <= i < digest.len() implies #[trigger] sanitized(digest)[i]
            == if digest[i] == ':' {
            '_'
        } else {
            digest[i]
        } by {
            if i < digest.len() - 1 {
                assert(before[i] == sanitized(digest)[i]);
                assert(digest.drop_last()[i] == digest[i]);
            }
        }
        assert(sanitized(digest)[0] == if digest[0] == ':' {
            '_'
        } else {
            digest[0]
        });
        assert(dir.push('/') + sanitized(digest) =~= dir + seq!['/'] + sanitized(digest));
    }
}

/// A layer is in the cache for as long as it has users: one more with every container that asks for
/// it and one fewer with every one that lets it go. With its last user it goes.
pub proof fn law_layer_users(c: LayerCacheView, digest: Seq<char>)
    ensures
        c.ensured(digest).users.contains_key(digest),
        c.ensured(digest).users[digest] == (if c.users.contains_key(digest) {
            c.users[digest]
        } else {
            0
        }) + 1,
        c.users.contains_key(digest) && c.users[digest] > 1 ==> c.released(
            digest,
        ).users.contains_key(digest) && c.released(digest).users[digest] == c.users[digest] - 1
            && !c.last_user(digest),
        c.users.contains_key(digest) && c.users[digest] == 1 ==> !c.released(
            digest,
        ).users.contains_key(digest) && c.last_user(digest),
        !c.users.contains_key(digest) ==> c.released(digest) == c && !c.last_user(digest),
        c.ensured(digest).dir == c.dir && c.released(digest).dir == c.dir && c.emptied().dir
            == c.dir,
        forall|k: Seq<char>| !(#[trigger] c.emptied().users.contains_key(k)),
{
}

/// A cache stores the directory of a layer that is used, and nothing once it is emptied: what it
/// stores is always the directory of one of its layers.
pub proof fn law_stored_layers(c: LayerCacheView, digest: Seq<char>, path: Seq<char>)
    ensures
        c.ensured(digest).stores(layer_dir_spec(c.dir, digest)),
        !c.emptied().stores(path),
        c.stores(path) ==> exists|k: Seq<char>|
            c.users.contains_key(k) && path == #[trigger] layer_dir_spec(c.dir, k),
{
    assert(c.ensured(digest).users.contains_key(digest));
    if c.stores(path) {
        let k = choose|k: Seq<char>| #[trigger]
            c.users.contains_key(k) && path == layer_dir_spec(c.dir, k);
        assert(path == layer_dir_spec(c.dir, k));
    }
    if c.emptied().stores(path) {
        let k = choose|k: Seq<char>| #[trigger]
            c.emptied().users.contains_key(k) && path == layer_dir_spec(c.emptied().dir, k);
        assert(c.emptied().users.contains_key(k));
    }
}

} // verus!
