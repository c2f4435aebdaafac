//! Mirror selection and the fetch plan for a missing distfile.
//!
//! A fetch tries each configured mirror once, in round-robin order, and
//! then falls back to the source URIs recorded for the file.  The network
//! transfers themselves happen outside the library; a `FetchSession` hands
//! out one attempt at a time and never hands out more mirror attempts than
//! there are mirrors.

use vstd::prelude::*;

use crate::config::Config;
use crate::frontend::layout_body;
use crate::strutil::concat_str;
use crate::strutil::from_char_vec;
use crate::strutil::str_eq;
use crate::strutil::to_char_vec;
use crate::utils::filename_hash_dir_blake2b;
use crate::utils::spec_digest_dir;

verus! {

/// A mirror url with its trailing '/' characters removed.
pub open spec fn spec_sanitize_url(s: Seq<char>) -> Seq<char>
    decreases s.len(),
{
    if s.len() > 0 && s[s.len() - 1] == '/' {
        spec_sanitize_url(s.take(s.len() - 1))
    } else {
        s
    }
}

/// Strips trailing '/' characters from a mirror url.
pub fn sanitize_mirror_url(url: &str) -> (r: String)
    ensures
        r@ == spec_sanitize_url(url@),
{
    let mut v = to_char_vec(url);
    let mut end: usize = v.len();
    proof {
        assert(url@.take(end as int) =~= url@);
    }
    while end > 0 && v[end - 1] == '/'
        invariant
            end <= v@.len(),
            v@ == url@,
            spec_sanitize_url(url@) == spec_sanitize_url(url@.take(end as int)),
        decreases end,
    {
        proof {
            assert(url@.take(end as int).take(end - 1) =~= url@.take(end - 1));
        }
        end = end - 1;
    }
    proof {
        assert(spec_sanitize_url(url@.take(end as int)) == url@.take(end as int));
    }
    v.truncate(end);
    from_char_vec(&v)
}

/// The on-disk layout a mirror publishes, as discovered from its
/// layout description.
pub enum Layout {
    /// files are stored under the two-character digest directory
    FileNameHashBlake2B,
}

/// The layout described by a mirror's layout body: recognized exactly
/// when the body is character-for-character the canonical string.
pub fn parse_layout(body: &str) -> (r: Option<Layout>)
    ensures
        r is Some <==> body@ == layout_body(),
        r is Some ==> r->0 is FileNameHashBlake2B,
{
    if str_eq(body, "[structure]\n0=filename-hash BLAKE2B 8\n") {
        Some(Layout::FileNameHashBlake2B)
    } else {
        None
    }
}

/// The url of a mirror's layout description.
pub open spec fn spec_layout_url(mirror: Seq<char>) -> Seq<char> {
    mirror + "/distfiles/layout.conf"@
}

/// The url of a mirror's layout description.
pub fn layout_url(mirror: &str) -> (r: String)
    ensures
        r@ == spec_layout_url(mirror@),
{
    concat_str(mirror, "/distfiles/layout.conf")
}

/// The url a file is published under on a mirror with the digest-directory
/// layout.
pub open spec fn spec_mirror_file_url(mirror: Seq<char>, file: Seq<char>) -> Seq<char> {
    mirror + "/distfiles/"@ + spec_digest_dir(file) + "/"@ + file
}

/// The url a file is published under on a mirror with the digest-directory
/// layout.
pub fn mirror_file_url(mirror: &str, file: &str) -> (r: String)
    ensures
        r@ == spec_mirror_file_url(mirror@, file@),
{
    let digest = filename_hash_dir_blake2b(file);
    let a = concat_str(mirror, "/distfiles/");
    let b = a.concat(digest.as_str());
    let c = b.concat("/");
    c.concat(file)
}

/// Chooses download sources for missing distfiles.
pub struct Fetcher {
    /// sanitized mirror urls, in configuration order
    pub mirrors: Vec<String>,
    /// round-robin cursor: the mirror the next attempt will use
    pub next_mirror: usize,
}

/// The next round-robin cursor position.
pub open spec fn next_cursor(cur: int, len: int) -> int {
    if cur == len - 1 {
        0
    } else {
        cur + 1
    }
}

impl Fetcher {
    /// The mirror urls as character sequences.
    pub open spec fn mirrors_view(&self) -> Seq<Seq<char>> {
        self.mirrors@.map_values(|m: String| m@)
    }

    /// A fetcher is well formed when it has at least one mirror and its
    /// cursor points at one of them.
    pub open spec fn wf(&self) -> bool {
        self.mirrors.len() > 0 && self.next_mirror < self.mirrors.len()
    }

    /// Builds a fetcher from the configured mirror list, sanitizing each
    /// url.  An empty mirror list is a configuration error.
    pub fn new(config: &Config) -> (r: Result<Fetcher, String>)
        ensures
            r is Err <==> config.fetcher.mirrors@.len() == 0,
            r matches Ok(f) ==> {
                &&& f.wf()
                &&& f.next_mirror == 0
                &&& f.mirrors_view().len() == config.fetcher.mirrors@.len()
                &&& forall|i: int|
                    0 <= i < f.mirrors_view().len() ==> f.mirrors_view()[i] == spec_sanitize_url(
                        config.fetcher.mirrors@[i]@,
                    )
            },
    {
        let mut mirrors: Vec<String> = Vec::new();
        let mut i: usize = 0;
        while i < config.fetcher.mirrors.len()
            invariant
                i <= config.fetcher.mirrors@.len(),
                mirrors@.len() == i,
                forall|j: int|
                    0 <= j < i ==> mirrors@.map_values(|m: String| m@)[j] == spec_sanitize_url(
                        config.fetcher.mirrors@[j]@,
                    ),
            decreases config.fetcher.mirrors@.len() - i,
        {
            let url = sanitize_mirror_url(config.fetcher.mirrors[i].as_str());
            mirrors.push(url);
            i = i + 1;
        }
        if mirrors.len() == 0 {
            return Err("Mirror list is empty".to_owned());
        }
        Ok(Fetcher { mirrors, next_mirror: 0 })
    }

    /// Selects a mirror in round-robin fashion: returns the mirror under
    /// the cursor and advances the cursor, wrapping at the end of the
    /// list.  Every caller observes and advances the shared cursor, so no
    /// mirror is starved beyond one round.
    pub fn select_mirror(&mut self) -> (m: String)
        requires
            old(self).wf(),
        ensures
            final(self).wf(),
            m@ == old(self).mirrors_view()[old(self).next_mirror as int],
            final(self).next_mirror == next_cursor(
                old(self).next_mirror as int,
                old(self).mirrors_view().len() as int,
            ),
            final(self).mirrors == old(self).mirrors,
    {
        let m = self.mirrors[self.next_mirror].clone();
        if self.next_mirror == self.mirrors.len() - 1 {
            self.next_mirror = 0;
        } else {
            self.next_mirror = self.next_mirror + 1;
        }
        m
    }
}

/// Where a fetch session stands.
#[derive(PartialEq, Eq, Structural, Clone, Copy, Debug)]
pub enum FetchPhase {
    /// still handing out mirror attempts
    Mirrors,
    /// handing out attempts on the recorded source uris
    Uris,
    /// one attempt stored the file completely
    Done,
    /// every source was tried and none produced the file
    Failed,
}

/// One fetch of one missing file: hands out download attempts one at a
/// time, first over the mirrors, then over the recorded source uris.
pub struct FetchSession {
    /// the distfile being fetched
    pub file: String,
    /// mirror attempts this session may still hand out
    pub mirror_attempts_left: usize,
    /// recorded source uris, once the session falls back to them
    pub uris: Vec<String>,
    /// the next uri to hand out
    pub next_uri: usize,
    /// where the session stands
    pub phase: FetchPhase,
}

impl Fetcher {
    /// Opens a fetch session for a file.  The session will hand out at
    /// most one attempt per configured mirror before falling back.
    pub fn begin_fetch(&self, file: &str) -> (s: FetchSession)
        ensures
            s.file@ == file@,
            s.mirror_attempts_left == self.mirrors_view().len(),
            s.uris@.len() == 0,
            s.next_uri == 0,
            s.phase == FetchPhase::Mirrors,
    {
        FetchSession {
            file: file.to_owned(),
            mirror_attempts_left: self.mirrors.len(),
            uris: Vec::new(),
            next_uri: 0,
            phase: FetchPhase::Mirrors,
        }
    }

    /// Hands out the next mirror attempt: the mirror under the round-robin
    /// cursor, or nothing once every mirror has been tried in this
    /// session.
    pub fn next_mirror_attempt(&mut self, s: &mut FetchSession) -> (r: Option<String>)
        requires
            old(self).wf(),
            old(s).phase == FetchPhase::Mirrors,
        ensures
            final(self).wf(),
            final(self).mirrors == old(self).mirrors,
            final(s).file == old(s).file,
            final(s).uris == old(s).uris,
            final(s).next_uri == old(s).next_uri,
            final(s).phase == FetchPhase::Mirrors,
            old(s).mirror_attempts_left > 0 ==> {
                &&& r matches Some(m) && m@ == old(self).mirrors_view()[old(
                    self,
                ).next_mirror as int]
                &&& final(s).mirror_attempts_left == old(s).mirror_attempts_left - 1
                &&& final(self).next_mirror == next_cursor(
                    old(self).next_mirror as int,
                    old(self).mirrors_view().len() as int,
                )
            },
            old(s).mirror_attempts_left == 0 ==> {
                &&& r is None
                &&& final(s).mirror_attempts_left == 0
                &&& final(self).next_mirror == old(self).next_mirror
            },
    {
        if s.mirror_attempts_left == 0 {
            None
        } else {
            s.mirror_attempts_left = s.mirror_attempts_left - 1;
            Some(self.select_mirror())
        }
    }
}

impl FetchSession {
    /// Falls back to the recorded source uris, in the order the index
    /// returned them.
    pub fn begin_uri_phase(&mut self, uris: Vec<String>)
        requires
            old(self).phase == FetchPhase::Mirrors,
        ensures
            final(self).file == old(self).file,
            final(self).mirror_attempts_left == old(self).mirror_attempts_left,
            final(self).uris == uris,
            final(self).next_uri == 0,
            final(self).phase == FetchPhase::Uris,
    {
        self.uris = uris;
        self.next_uri = 0;
        self.phase = FetchPhase::Uris;
    }

    /// Hands out the next source uri attempt, or nothing once every
    /// recorded uri has been tried.
    pub fn next_uri_attempt(&mut self) -> (r: Option<String>)
        requires
            old(self).phase == FetchPhase::Uris,
        ensures
            final(self).file == old(self).file,
            final(self).mirror_attempts_left == old(self).mirror_attempts_left,
            final(self).uris == old(self).uris,
            final(self).phase == FetchPhase::Uris,
            old(self).next_uri < old(self).uris@.len() ==> {
                &&& r matches Some(u) && u@ == old(self).uris@[old(self).next_uri as int]@
                &&& final(self).next_uri == old(self).next_uri + 1
            },
            old(self).next_uri >= old(self).uris@.len() ==> {
                &&& r is None
                &&& final(self).next_uri == old(self).next_uri
            },
    {
        if self.next_uri < self.uris.len() {
            let u = self.uris[self.next_uri].clone();
            self.next_uri = self.next_uri + 1;
            Some(u)
        } else {
            None
        }
    }

    /// Records that one attempt stored the file completely: the session
    /// succeeded and hands out no further attempts.
    pub fn mark_fetched(&mut self)
        requires
            old(self).phase == FetchPhase::Mirrors || old(self).phase == FetchPhase::Uris,
        ensures
            final(self).file == old(self).file,
            final(self).phase == FetchPhase::Done,
    {
        self.phase = FetchPhase::Done;
    }

    /// Records that every source was tried and none produced a complete
    /// file: the fetch failed.
    pub fn mark_failed(&mut self)
        requires
            old(self).phase == FetchPhase::Uris,
            old(self).next_uri >= old(self).uris@.len(),
        ensures
            final(self).file == old(self).file,
            final(self).phase == FetchPhase::Failed,
    {
        self.phase = FetchPhase::Failed;
    }
}

/// What the streaming store of a downloaded body must do before writing:
/// nothing when a complete copy already exists, otherwise create the digest
/// directory first when it is missing.
#[derive(PartialEq, Eq, Structural, Clone, Copy, Debug)]
pub enum StorePlan {
    /// a complete copy already exists; another writer finished first
    AlreadyComplete,
    /// create the digest directory, then stream to a fresh file
    CreateDirAndWrite,
    /// the digest directory exists; stream to a fresh file
    Write,
}

/// Decides how a download is stored, from what is on disk at the blob
/// path: an existing file wins, a missing digest directory is created
/// before writing.  A failed write must leave no file behind.
pub fn plan_store(path_is_file: bool, dir_exists: bool) -> (r: StorePlan)
    ensures
        path_is_file ==> r == StorePlan::AlreadyComplete,
        !path_is_file && !dir_exists ==> r == StorePlan::CreateDirAndWrite,
        !path_is_file && dir_exists ==> r == StorePlan::Write,
{
    if path_is_file {
        StorePlan::AlreadyComplete
    } else if !dir_exists {
        StorePlan::CreateDirAndWrite
    } else {
        StorePlan::Write
    }
}

} // verus!
