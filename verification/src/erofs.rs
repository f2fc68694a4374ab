//! The erofs image of a rootfs: where images are cached, and the steps that take one from the
//! cache or build it.

use crate::paths;
use crate::text;
use vstd::prelude::*;

verus! {

/// Where erofs images are cached.
pub const EROFS_CACHE_DIR: &'static str = "/run/cloudhv/erofs-cache";

/// The cached image for a key.
pub open spec fn cached_image(key: Seq<char>) -> Seq<char> {
    paths::joined(EROFS_CACHE_DIR@, key + ".erofs"@)
}

/// The file that is locked while the image for a key is built.
pub open spec fn lock_file(key: Seq<char>) -> Seq<char> {
    paths::joined(EROFS_CACHE_DIR@, key + ".lock"@)
}

/// Where a process puts an image together before it enters the cache.
pub open spec fn temporary_image(key: Seq<char>, pid: u32) -> Seq<char> {
    cached_image(key) + ("."@ + text::dec(pid as nat) + ".tmp"@)
}

/// The arguments of `mkfs.erofs` that make an image of a directory.
pub open spec fn mkfs_arguments(image: Seq<char>, rootfs: Seq<char>) -> Seq<Seq<char>> {
    seq!["--quiet"@, image, rootfs]
}

/// Why there is no image.
#[derive(Debug, Clone, Copy, PartialEq, Eq, Structural)]
pub enum ImageError {
    /// The cache entry could not be locked.
    Lock,
    /// The cached image could be neither linked nor copied.
    TakeCached,
    /// The image could not be built.
    Build,
    /// The image could not be put into the cache.
    FillCache,
}

/// How far an image has come.
#[derive(Debug, Clone, Copy, PartialEq, Eq, Structural)]
pub enum ImagePhase {
    MakeCacheDir,
    Lock,
    CheckCached,
    LinkCached,
    CopyCached,
    Build,
    RemoveTemporary,
    LinkTemporary,
    CopyTemporary,
    Rename,
    Done,
    Failed(ImageError),
}

/// What to do next.
#[derive(Debug)]
pub enum ImageAction {
    /// Make a directory and those above it. That it fails is no matter.
    MakeDir(String),
    /// Lock this file, and hold the lock until the image is done or has failed.
    Lock(String),
    /// See whether this file exists.
    Exists(String),
    /// Make the second of these a hard link to the first.
    Link(String, String),
    /// Copy the first of these to the second.
    Copy(String, String),
    /// Run `mkfs.erofs` with these arguments.
    Build(Vec<String>),
    /// Remove this file. That it fails is no matter.
    Remove(String),
    /// Give the first of these the name of the second.
    Rename(String, String),
    /// Nothing: the image is there.
    Done,
    /// Nothing: there will be no image.
    Fail(ImageError),
}

/// An image that is taken from the cache or built.
#[derive(Debug)]
pub struct ImageBuild {
    image: String,
    rootfs: String,
    key: Option<String>,
    pid: u32,
    phase: ImagePhase,
}

/// The state of an image that is taken from the cache or built.
pub struct ImageView {
    pub image: Seq<char>,
    pub rootfs: Seq<char>,
    pub key: Option<Seq<char>>,
    pub pid: u32,
    pub phase: ImagePhase,
}

impl View for ImageBuild {
    type V = ImageView;

    closed spec fn view(&self) -> ImageView {
        ImageView {
            image: self.image@,
            rootfs: self.rootfs@,
            key: text::opt_string(self.key),
            pid: self.pid,
            phase: self.phase,
        }
    }
}

impl ImageView {
    /// Phases that concern the cache come only where there is a key.
    pub open spec fn wf(self) -> bool {
        match self.phase {
            ImagePhase::Build => true,
            ImagePhase::Done => true,
            ImagePhase::Failed(_) => true,
            _ => self.key is Some,
        }
    }

    pub open spec fn to(self, phase: ImagePhase) -> ImageView {
        ImageView { phase, ..self }
    }

    /// The cached image.
    pub open spec fn cached(self) -> Seq<char> {
        cached_image(self.key->Some_0)
    }

    /// Where the image is put together.
    pub open spec fn temporary(self) -> Seq<char> {
        temporary_image(self.key->Some_0, self.pid)
    }

    /// Whether `a` is what is asked for in the phase.
    pub open spec fn asks(self, a: ImageAction) -> bool {
        match self.phase {
            ImagePhase::MakeCacheDir => a matches ImageAction::MakeDir(d) && d@ == EROFS_CACHE_DIR@,
            ImagePhase::Lock => a matches ImageAction::Lock(f) && f@ == lock_file(
                self.key->Some_0,
            ),
            ImagePhase::CheckCached => a matches ImageAction::Exists(f) && f@ == self.cached(),
            ImagePhase::LinkCached => a matches ImageAction::Link(f, t) && f@ == self.cached()
                && t@ == self.image,
            ImagePhase::CopyCached => a matches ImageAction::Copy(f, t) && f@ == self.cached()
                && t@ == self.image,
            ImagePhase::Build => a matches ImageAction::Build(args) && text::strings(args@)
                == mkfs_arguments(self.image, self.rootfs),
            ImagePhase::RemoveTemporary => a matches ImageAction::Remove(f) && f@
                == self.temporary(),
            ImagePhase::LinkTemporary => a matches ImageAction::Link(f, t) && f@ == self.image
                && t@ == self.temporary(),
            ImagePhase::CopyTemporary => a matches ImageAction::Copy(f, t) && f@ == self.image
                && t@ == self.temporary(),
            ImagePhase::Rename => a matches ImageAction::Rename(f, t) && f@ == self.temporary()
                && t@ == self.cached(),
            ImagePhase::Done => a == ImageAction::Done,
            ImagePhase::Failed(e) => a == ImageAction::Fail(e),
        }
    }

    /// The state after an action succeeded or failed, or the file exists or not.
    pub open spec fn after(self, ok: bool) -> ImageView {
        self.to(
            match self.phase {
                ImagePhase::MakeCacheDir => ImagePhase::Lock,
                ImagePhase::Lock => if ok {
                    ImagePhase::CheckCached
                } else {
                    ImagePhase::Failed(ImageError::Lock)
                },
                ImagePhase::CheckCached => if ok {
                    ImagePhase::LinkCached
                } else {
                    ImagePhase::Build
                },
                ImagePhase::LinkCached => if ok {
                    ImagePhase::Done
                } else {
                    ImagePhase::CopyCached
                },
                ImagePhase::CopyCached => if ok {
                    ImagePhase::Done
                } else {
                    ImagePhase::Failed(ImageError::TakeCached)
                },
                ImagePhase::Build => if !ok {
                    ImagePhase::Failed(ImageError::Build)
                } else if self.key is Some {
                    ImagePhase::RemoveTemporary
                } else {
                    ImagePhase::Done
                },
                ImagePhase::RemoveTemporary => ImagePhase::LinkTemporary,
                ImagePhase::LinkTemporary => if ok {
                    ImagePhase::Rename
                } else {
                    ImagePhase::CopyTemporary
                },
                ImagePhase::CopyTemporary => if ok {
                    ImagePhase::Rename
                } else {
                    ImagePhase::Failed(ImageError::FillCache)
                },
                ImagePhase::Rename => if ok {
                    ImagePhase::Done
                } else {
                    ImagePhase::Failed(ImageError::FillCache)
                },
                ImagePhase::Done => ImagePhase::Done,
                ImagePhase::Failed(e) => ImagePhase::Failed(e),
            },
        )
    }
}

impl ImageBuild {
    /// Starts on the image of `rootfs` that is to stand at `image`. Without a key the cache is
    /// left alone.
    pub fn new(image: &str, rootfs: &str, key: Option<String>, pid: u32) -> (res: Self)
        ensures
            res@ == (ImageView {
                image: image@,
                rootfs: rootfs@,
                key: text::opt_string(key),
                pid,
                phase: if key is Some {
                    ImagePhase::MakeCacheDir
                } else {
                    ImagePhase::Build
                },
            }),
            res@.wf(),
    {
        let phase: ImagePhase = match &key {
            Some(_) => ImagePhase::MakeCacheDir,
            None => ImagePhase::Build,
        };
        ImageBuild { image: image.to_owned(), rootfs: rootfs.to_owned(), key, pid, phase }
    }

    fn entry(&self, extension: &str) -> (res: String)
        requires
            self@.key is Some,
        ensures
            res@ == paths::joined(EROFS_CACHE_DIR@, self@.key->Some_0 + extension@),
    {
        match &self.key {
            Some(k) => {
                let name: String = text::join2(k.as_str(), extension);
                paths::join(EROFS_CACHE_DIR, name.as_str())
            },
            None => vstd::pervasive::unreached(),
        }
    }

    fn temporary(&self) -> (res: String)
        requires
            self@.key is Some,
        ensures
            res@ == self@.temporary(),
    {
        let cached: String = self.entry(".erofs");
        let number: String = text::decimal(self.pid as u64);
        let ending: String = text::join3(".", number.as_str(), ".tmp");
        text::join2(cached.as_str(), ending.as_str())
    }

    /// What to do next.
    pub fn action(&self) -> (res: ImageAction)
        requires
            self@.wf(),
        ensures
            self@.asks(res),
    {
        match self.phase {
            ImagePhase::MakeCacheDir => ImageAction::MakeDir(EROFS_CACHE_DIR.to_owned()),
            ImagePhase::Lock => ImageAction::Lock(self.entry(".lock")),
            ImagePhase::CheckCached => ImageAction::Exists(self.entry(".erofs")),
            ImagePhase::LinkCached => ImageAction::Link(self.entry(".erofs"), self.image.clone()),
            ImagePhase::CopyCached => ImageAction::Copy(self.entry(".erofs"), self.image.clone()),
            ImagePhase::Build => {
                let a: [&str; 3] = ["--quiet", self.image.as_str(), self.rootfs.as_str()];
                let args: Vec<String> = text::owned(&a);
                assert(text::strs(a@) =~= mkfs_arguments(self@.image, self@.rootfs));
                ImageAction::Build(args)
            },
            ImagePhase::RemoveTemporary => ImageAction::Remove(self.temporary()),
            ImagePhase::LinkTemporary => ImageAction::Link(self.image.clone(), self.temporary()),
            ImagePhase::CopyTemporary => ImageAction::Copy(self.image.clone(), self.temporary()),
            ImagePhase::Rename => ImageAction::Rename(self.temporary(), self.entry(".erofs")),
            ImagePhase::Done => ImageAction::Done,
            ImagePhase::Failed(e) => ImageAction::Fail(e),
        }
    }

    /// Takes in whether the last action succeeded, or whether the file exists.
    pub fn step(&mut self, ok: bool)
        requires
            old(self)@.wf(),
        ensures
            final(self)@.wf(),
            final(self)@ == old(self)@.after(ok),
    {
        let cache: bool = match &self.key {
            Some(_) => true,
            None => false,
        };
        let next: ImagePhase = match self.phase {
            ImagePhase::MakeCacheDir => ImagePhase::Lock,
            ImagePhase::Lock => if ok {
                ImagePhase::CheckCached
            } else {
                ImagePhase::Failed(ImageError::Lock)
            },
            ImagePhase::CheckCached => if ok {
                ImagePhase::LinkCached
            } else {
                ImagePhase::Build
            },
            ImagePhase::LinkCached => if ok {
                ImagePhase::Done
            } else {
                ImagePhase::CopyCached
            },
            ImagePhase::CopyCached => if ok {
                ImagePhase::Done
            } else {
                ImagePhase::Failed(ImageError::TakeCached)
            },
            ImagePhase::Build => if !ok {
                ImagePhase::Failed(ImageError::Build)
            } else if cache {
                ImagePhase::RemoveTemporary
            } else {
                ImagePhase::Done
            },
            ImagePhase::RemoveTemporary => ImagePhase::LinkTemporary,
            ImagePhase::LinkTemporary => if ok {
                ImagePhase::Rename
            } else {
                ImagePhase::CopyTemporary
            },
            ImagePhase::CopyTemporary => if ok {
                ImagePhase::Rename
            } else {
                ImagePhase::Failed(ImageError::FillCache)
            },
            ImagePhase::Rename => if ok {
                ImagePhase::Done
            } else {
                ImagePhase::Failed(ImageError::FillCache)
            },
            other => other,
        };
        self.phase = next;
    }
}

/// The state after some steps.
pub open spec fn after_all(b: ImageView, outcomes: Seq<bool>) -> ImageView
    decreases outcomes.len(),
{
    if outcomes.len() == 0 {
        b
    } else {
        after_all(b.after(outcomes[0]), outcomes.skip(1))
    }
}

/// An image that is in the cache once the lock is held is not built again.
pub proof fn law_cached_image_is_not_built(b: ImageView, outcomes: Seq<bool>)
    requires
        b.phase == ImagePhase::CheckCached,
        outcomes.len() > 0,
        outcomes[0],
    ensures
        after_all(b, outcomes).phase != ImagePhase::Build,
{
    lemma_taken(b.after(true), outcomes.skip(1));
}

proof fn lemma_taken(b: ImageView, outcomes: Seq<bool>)
    requires
        b.phase == ImagePhase::LinkCached || b.phase == ImagePhase::CopyCached || b.phase
            == ImagePhase::Done || b.phase == ImagePhase::Failed(ImageError::TakeCached),
    ensures
        after_all(b, outcomes).phase != ImagePhase::Build,
    decreases outcomes.len(),
{
    if outcomes.len() > 0 {
        lemma_taken(b.after(outcomes[0]), outcomes.skip(1));
    }
}

/// An entry of the cache only ever comes into being whole, by a rename: no link or copy is made
/// under its name.
pub proof fn law_cache_is_filled_by_rename(b: ImageView, a: ImageAction)
    requires
        b.wf(),
        b.asks(a),
        b.key is Some,
        b.image != b.cached(),
    ensures
        a matches ImageAction::Link(from, to) ==> to@ != b.cached(),
        a matches ImageAction::Copy(from, to) ==> to@ != b.cached(),
        a matches ImageAction::Rename(from, to) ==> to@ == b.cached() && from@ == b.temporary(),
{
    reveal_strlit(".tmp");
    assert(b.temporary().len() > b.cached().len());
}

/// An image that is done is there: it was taken from the cache, or built and put into the cache, or
/// built without a cache.
pub proof fn law_done_means_image(b: ImageView, ok: bool)
    requires
        b.after(ok).phase == ImagePhase::Done,
        b.phase != ImagePhase::Done,
    ensures
        ok,
        b.phase == ImagePhase::LinkCached || b.phase == ImagePhase::CopyCached || b.phase
            == ImagePhase::Rename || (b.phase == ImagePhase::Build && b.key is None),
{
}

/// What the steps are about: a cached image is given the name of the image, as a link or else as a
/// copy; an image that is built is made of the rootfs and then put into the cache under the key, by
/// way of a file that no other process writes.
pub proof fn law_image_steps(b: ImageView, a: ImageAction)
    requires
        b.wf(),
        b.asks(a),
    ensures
        b.phase == ImagePhase::LinkCached ==> (a matches ImageAction::Link(from, to) && from@
            == cached_image(b.key->Some_0) && to@ == b.image),
        b.phase == ImagePhase::CopyCached ==> (a matches ImageAction::Copy(from, to) && from@
            == cached_image(b.key->Some_0) && to@ == b.image),
        b.phase == ImagePhase::Build ==> (a matches ImageAction::Build(args) && text::strings(
            args@,
        ).len() == 3 && text::strings(args@)[1] == b.image && text::strings(args@)[2] == b.rootfs),
        b.phase == ImagePhase::LinkTemporary ==> (a matches ImageAction::Link(from, to) && from@
            == b.image && to@ == temporary_image(b.key->Some_0, b.pid)),
        b.phase == ImagePhase::CopyTemporary ==> (a matches ImageAction::Copy(from, to) && from@
            == b.image && to@ == temporary_image(b.key->Some_0, b.pid)),
        b.phase == ImagePhase::Rename ==> (a matches ImageAction::Rename(from, to) && from@
            == temporary_image(b.key->Some_0, b.pid) && to@ == cached_image(b.key->Some_0)),
        b.phase == ImagePhase::CheckCached ==> (a matches ImageAction::Exists(f) && f@
            == cached_image(b.key->Some_0)),
        b.phase == ImagePhase::Lock ==> (a matches ImageAction::Lock(f) && f@ == lock_file(
            b.key->Some_0,
        )),
{
}

/// The steps in order: the cache entry is locked before it is looked at, a missing image is built
/// and put into the cache, and where a link cannot be made a copy is.
pub proof fn law_image_order(b: ImageView)
    ensures
        b.phase == ImagePhase::MakeCacheDir ==> b.after(true).phase == ImagePhase::Lock && b.after(
            false,
        ).phase == ImagePhase::Lock,
        b.phase == ImagePhase::Lock ==> b.after(true).phase == ImagePhase::CheckCached && b.after(
            false,
        ).phase == ImagePhase::Failed(ImageError::Lock),
        b.phase == ImagePhase::CheckCached ==> b.after(true).phase == ImagePhase::LinkCached
            && b.after(false).phase == ImagePhase::Build,
        b.phase == ImagePhase::LinkCached ==> b.after(true).phase == ImagePhase::Done && b.after(
            false,
        ).phase == ImagePhase::CopyCached,
        b.phase == ImagePhase::CopyCached ==> b.after(false).phase == ImagePhase::Failed(
            ImageError::TakeCached,
        ),
        b.phase == ImagePhase::Build ==> b.after(false).phase == ImagePhase::Failed(
            ImageError::Build,
        ),
        b.phase == ImagePhase::Build && b.key is Some ==> b.after(true).phase
            == ImagePhase::RemoveTemporary,
        b.phase == ImagePhase::Build && b.key is None ==> b.after(true).phase == ImagePhase::Done,
        b.phase == ImagePhase::RemoveTemporary ==> b.after(true).phase
            == ImagePhase::LinkTemporary && b.after(false).phase == ImagePhase::LinkTemporary,
        b.phase == ImagePhase::LinkTemporary ==> b.after(true).phase == ImagePhase::Rename
            && b.after(false).phase == ImagePhase::CopyTemporary,
        b.phase == ImagePhase::CopyTemporary ==> b.after(true).phase == ImagePhase::Rename
            && b.after(false).phase == ImagePhase::Failed(ImageError::FillCache),
        b.phase == ImagePhase::Rename ==> b.after(false).phase == ImagePhase::Failed(
            ImageError::FillCache,
        ),
{
}

/// Each key has files of its own in the cache: an image, a lock and, for each process, a temporary
/// file; none of these is another.
pub proof fn law_cache_files(key: Seq<char>, other: Seq<char>, pid: u32)
    requires
        key.len() == other.len(),
        key.len() > 0,
        key[0] != '/',
        other[0] != '/',
    ensures
        cached_image(key) == "/run/cloudhv/erofs-cache/"@ + key + ".erofs"@,
        lock_file(key) == "/run/cloudhv/erofs-cache/"@ + key + ".lock"@,
        key != other ==> cached_image(key) != cached_image(other) && lock_file(key) != lock_file(
            other,
        ),
        cached_image(key) != lock_file(other),
        temporary_image(key, pid) != cached_image(other),
{
    reveal_strlit("/run/cloudhv/erofs-cache");
    reveal_strlit("/run/cloudhv/erofs-cache/");
    reveal_strlit(".erofs");
    reveal_strlit(".lock");
    reveal_strlit(".");
    let d = "/run/cloudhv/erofs-cache/"@;
    assert(d =~= EROFS_CACHE_DIR@.push('/'));
    assert(EROFS_CACHE_DIR@.last() == 'e');
    assert((key + ".erofs"@)[0] == key[0] && (key + ".lock"@)[0] == key[0]);
    assert((other + ".erofs"@)[0] == other[0] && (other + ".lock"@)[0] == other[0]);
    assert(cached_image(key) =~= d + key + ".erofs"@);
    assert(lock_file(key) =~= d + key + ".lock"@);
    assert(cached_image(other) =~= d + other + ".erofs"@);
    assert(lock_file(other) =~= d + other + ".lock"@);
    let n = d.len() as int;
    let m = n + key.len();
    if cached_image(key) == cached_image(other) {
        assert((d + key + ".erofs"@).subrange(n, m) =~= key);
        assert((d + other + ".erofs"@).subrange(n, m) =~= other);
    }
    if lock_file(key) == lock_file(other) {
        assert((d + key + ".lock"@).subrange(n, m) =~= key);
        assert((d + other + ".lock"@).subrange(n, m) =~= other);
    }
    assert(cached_image(key).len() != lock_file(other).len());
    assert("."@.len() == 1);
    assert(temporary_image(key, pid).len() > cached_image(other).len());
}

/// In the other phases of making an image: the directory of the cache is made, what an earlier
/// attempt of the same process left is removed, and the end is told.
pub proof fn law_image_asks(b: ImageView, a: ImageAction)
    requires
        b.asks(a),
    ensures
        b.phase == ImagePhase::MakeCacheDir ==> (a matches ImageAction::MakeDir(d) && d@
            == "/run/cloudhv/erofs-cache"@),
        b.phase == ImagePhase::RemoveTemporary ==> (a matches ImageAction::Remove(f) && f@
            == temporary_image(b.key->Some_0, b.pid)),
        b.phase == ImagePhase::Done <==> a == ImageAction::Done,
        b.phase matches ImagePhase::Failed(e) ==> a == ImageAction::Fail(e),
{
}

} // verus!
