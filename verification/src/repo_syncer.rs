//! The periodic refresh of the package trees and of the index.
//!
//! Each tick runs three phases strictly in order: the git sync of the
//! cloned trees, then the walk of their Manifest files into the index,
//! then the recipe evaluation for the changed Manifests.  The phase field
//! enforces that order — a phase can only start when the previous one has
//! finished, and the next tick only when the whole cycle has — so ticks
//! never overlap.  The git transfers, the directory walks and the
//! evaluator runs are I/O and happen outside the library; their outcomes
//! arrive here as plain values.

use vstd::prelude::*;

use crate::config::Config;
use crate::manifest_walker::ManifestEntry;
use crate::repo_db::RepoDB;
use crate::repo_db::manifest_rows;
use crate::repo_db::src_uri_rows;
use crate::strutil::concat_str;
use crate::strutil::from_char_vec;
use crate::strutil::to_char_vec;

verus! {

/// The characters after the last '/' of a url or ref; the whole text when
/// it has none.
pub open spec fn spec_last_segment(s: Seq<char>) -> Seq<char>
    decreases s.len(),
{
    if s.len() == 0 {
        Seq::empty()
    } else if s.last() == '/' {
        Seq::empty()
    } else {
        spec_last_segment(s.drop_last()).push(s.last())
    }
}

proof fn lemma_last_segment_suffix(s: Seq<char>, cut: int)
    requires
        0 <= cut <= s.len(),
        forall|j: int| cut <= j < s.len() ==> s[j] != '/',
        cut > 0 ==> s[cut - 1] == '/',
    ensures
        spec_last_segment(s) == s.skip(cut),
    decreases s.len(),
{
    if s.len() == 0 {
        assert(s.skip(0) =~= s);
    } else if cut == s.len() {
        assert(s.last() == '/');
        assert(s.skip(cut) =~= Seq::<char>::empty());
    } else {
        assert(s.last() != '/');
        lemma_last_segment_suffix(s.drop_last(), cut);
        assert(s.skip(cut) =~= s.drop_last().skip(cut).push(s.last()));
    }
}

/// The name a repository is cloned under: the last '/'-separated segment
/// of its url.
pub fn last_segment(s: &str) -> (r: String)
    ensures
        r@ == spec_last_segment(s@),
{
    let v = to_char_vec(s);
    let mut cut: usize = v.len();
    while cut > 0 && v[cut - 1] != '/'
        invariant
            cut <= v@.len(),
            v@ == s@,
            forall|j: int| cut <= j < s@.len() ==> s@[j] != '/',
        decreases cut,
    {
        cut = cut - 1;
    }
    proof {
        lemma_last_segment_suffix(s@, cut as int);
    }
    let mut out: Vec<char> = Vec::new();
    let mut i: usize = cut;
    while i < v.len()
        invariant
            cut <= i <= v@.len(),
            v@ == s@,
            out@ == s@.subrange(cut as int, i as int),
        decreases v@.len() - i,
    {
        out.push(v[i]);
        i = i + 1;
        proof {
            assert(out@ =~= s@.subrange(cut as int, i as int));
        }
    }
    proof {
        assert(s@.subrange(cut as int, s@.len() as int) =~= s@.skip(cut as int));
    }
    from_char_vec(&out)
}

/// The remote-tracking ref the sync resets a tree to, for a remote's
/// default branch: refs/remotes/origin/ followed by the branch's last
/// '/'-separated segment.
pub fn remote_tracking_ref(default_branch: &str) -> (r: String)
    ensures
        r@ == "refs/remotes/origin/"@ + spec_last_segment(default_branch@),
{
    let name = last_segment(default_branch);
    concat_str("refs/remotes/origin/", name.as_str())
}

/// A sequence of texts joined by a separator.
pub open spec fn spec_join(parts: Seq<Seq<char>>, sep: Seq<char>) -> Seq<char>
    decreases parts.len(),
{
    if parts.len() == 0 {
        Seq::empty()
    } else if parts.len() == 1 {
        parts[0]
    } else {
        spec_join(parts.drop_last(), sep) + sep + parts.last()
    }
}

/// Joins texts with a separator.
pub fn join_strings(parts: &Vec<String>, sep: &str) -> (r: String)
    ensures
        r@ == spec_join(parts@.map_values(|p: String| p@), sep@),
{
    let ghost pview = parts@.map_values(|p: String| p@);
    let mut r = String::new();
    let mut i: usize = 0;
    while i < parts.len()
        invariant
            pview == parts@.map_values(|p: String| p@),
            i <= pview.len(),
            r@ == spec_join(pview.take(i as int), sep@),
        decreases pview.len() - i,
    {
        proof {
            assert(pview.take(i + 1).drop_last() =~= pview.take(i as int));
            assert(pview.take(i + 1).last() == pview[i as int]);
        }
        if i > 0 {
            vstd::string::StringExecFns::append(&mut r, sep);
        }
        vstd::string::StringExecFns::append(&mut r, parts[i].as_str());
        proof {
            if i == 0 {
                assert(Seq::<char>::empty() + parts@[i as int]@ =~= pview[i as int]);
            }
        }
        i = i + 1;
    }
    proof {
        assert(pview.take(pview.len() as int) =~= pview);
    }
    r
}

/// The outcome of a sync pass: clean when no repository failed, otherwise
/// an error naming the failed ones.
pub fn sync_outcome(failed: &Vec<String>) -> (r: Result<(), String>)
    ensures
        r is Err <==> failed@.len() > 0,
        r matches Err(m) ==> m@ == "Failed repos: "@ + spec_join(
            failed@.map_values(|p: String| p@),
            ", "@,
        ),
{
    if failed.len() == 0 {
        Ok(())
    } else {
        let list = join_strings(failed, ", ");
        Err(concat_str("Failed repos: ", list.as_str()))
    }
}

/// Whether a text is the origin path of one of the walked entries.
pub open spec fn is_origin_of(o: Seq<char>, entries: Seq<ManifestEntry>) -> bool {
    exists|j: int| 0 <= j < entries.len() && o == (#[trigger] entries[j]).origin@
}

/// The manifest row an entry is stored as.
pub open spec fn row_of(e: ManifestEntry) -> crate::repo_db::ManifestRow {
    (e.origin@, e.size, crate::manifest_walker::opt_view(e.blake2b), crate::manifest_walker::opt_view(e.sha512))
}

/// The manifest table after upserting, in order, those entries whose
/// upsert succeeded.
pub open spec fn upsert_fold(
    m0: Map<Seq<char>, crate::repo_db::ManifestRow>,
    entries: Seq<ManifestEntry>,
    ok: Seq<bool>,
) -> Map<Seq<char>, crate::repo_db::ManifestRow>
    decreases entries.len(),
{
    if entries.len() == 0 || entries.len() != ok.len() {
        m0
    } else {
        let prev = upsert_fold(m0, entries.drop_last(), ok.drop_last());
        if ok.last() {
            prev.insert(entries.last().file@, row_of(entries.last()))
        } else {
            prev
        }
    }
}

/// The origins of the entries marked successful, in order.
pub open spec fn origins_where(entries: Seq<ManifestEntry>, ok: Seq<bool>) -> Seq<Seq<char>>
    decreases entries.len(),
{
    if entries.len() == 0 || entries.len() != ok.len() {
        Seq::empty()
    } else {
        origins_where(entries.drop_last(), ok.drop_last()) + (if ok.last() {
            seq![entries.last().origin@]
        } else {
            Seq::empty()
        })
    }
}

/// The src_uri table after recording, in order, one file's uris whose
/// insert succeeded: a duplicate uri leaves the table as it is.
pub open spec fn record_uris_fold(
    m0: Map<Seq<char>, Seq<char>>,
    file: Seq<char>,
    uris: Seq<String>,
    ok: Seq<bool>,
) -> Map<Seq<char>, Seq<char>>
    decreases uris.len(),
{
    if uris.len() == 0 || uris.len() != ok.len() {
        m0
    } else {
        let prev = record_uris_fold(m0, file, uris.drop_last(), ok.drop_last());
        if ok.last() {
            crate::repo_db::spec_src_uri_insert(prev, uris.last()@, file)
        } else {
            prev
        }
    }
}

/// The src_uri table after recording, pair by pair, the uris the recipe
/// pass produced, with one success mask per pair.
pub open spec fn record_pairs_fold(
    m0: Map<Seq<char>, Seq<char>>,
    pairs: Seq<(String, Vec<String>)>,
    ok: Seq<Seq<bool>>,
) -> Map<Seq<char>, Seq<char>>
    decreases pairs.len(),
{
    if pairs.len() == 0 || pairs.len() != ok.len() {
        m0
    } else {
        let prev = record_pairs_fold(m0, pairs.drop_last(), ok.drop_last());
        record_uris_fold(prev, pairs.last().0@, pairs.last().1@, ok.last())
    }
}

/// Where a tick stands: each phase can begin only when the previous one
/// has finished, and a new tick only when the whole cycle has.
#[derive(PartialEq, Eq, Structural, Clone, Copy, Debug)]
pub enum TickPhase {
    /// between ticks
    Idle,
    /// the git sync finished; the Manifest walk may run
    Synced,
    /// the Manifest walk finished; the recipe evaluation may run
    Parsed,
}

/// Keeps the cloned package trees and the index fresh, one tick at a
/// time.
pub struct RepoSyncer {
    /// seconds between ticks
    pub sync_interval_secs: u64,
    /// the repos directory under the configured storage location
    pub storage_root: String,
    /// where the current tick stands
    pub phase: TickPhase,
}

impl RepoSyncer {
    /// Builds the syncer from the configuration.  Creating the repos
    /// directory and cloning the configured trees is I/O and is the
    /// caller's part.
    pub fn new(config: &Config) -> (r: RepoSyncer)
        requires
            config.repo.sync_interval <= u64::MAX / 60,
        ensures
            r.sync_interval_secs == config.repo.sync_interval * 60,
            r.storage_root@ == config.storage.location@ + "/repos"@,
            r.phase == TickPhase::Idle,
    {
        RepoSyncer {
            sync_interval_secs: config.repo.sync_interval * 60,
            storage_root: concat_str(config.storage.location.as_str(), "/repos"),
            phase: TickPhase::Idle,
        }
    }

    /// The clone directory for a repository url: its last path segment
    /// under the repos directory.
    pub fn clone_path(&self, url: &str) -> (r: String)
        ensures
            r@ == self.storage_root@ + "/"@ + spec_last_segment(url@),
    {
        let name = last_segment(url);
        let base = concat_str(self.storage_root.as_str(), "/");
        base.concat(name.as_str())
    }

    /// The git sync of every cloned tree finished (with per-repo failures
    /// reported, not blocking the tick): the Manifest walk may run.
    pub fn note_synced(&mut self)
        requires
            old(self).phase == TickPhase::Idle,
        ensures
            final(self).phase == TickPhase::Synced,
            final(self).sync_interval_secs == old(self).sync_interval_secs,
            final(self).storage_root == old(self).storage_root,
    {
        self.phase = TickPhase::Synced;
    }

    /// Upserts the walked Manifest entries into the index and returns the
    /// origins of those recorded — the Manifests whose recipes the next
    /// phase evaluates.  A failed upsert is skipped and the walk
    /// continues.  Runs after the sync and before the recipe phase.
    pub fn parse_manifests(&mut self, db: &mut RepoDB, entries: &Vec<ManifestEntry>) -> (r: Vec<
        String,
    >)
        requires
            old(self).phase == TickPhase::Synced,
        ensures
            final(self).phase == TickPhase::Parsed,
            final(self).sync_interval_secs == old(self).sync_interval_secs,
            final(self).storage_root == old(self).storage_root,
            src_uri_rows(*final(db)) == src_uri_rows(*old(db)),
            r@.len() <= entries@.len(),
            forall|i: int| 0 <= i < r@.len() ==> is_origin_of((#[trigger] r@[i])@, entries@),
            exists|ok: Seq<bool>|
                {
                    &&& ok.len() == entries@.len()
                    &&& manifest_rows(*final(db)) == upsert_fold(
                        manifest_rows(*old(db)),
                        entries@,
                        ok,
                    )
                    &&& r@.map_values(|o: String| o@) == origins_where(entries@, ok)
                },
    {
        let mut changed: Vec<String> = Vec::new();
        let ghost mut witnesses: Seq<int> = Seq::empty();
        let ghost mut okv: Seq<bool> = Seq::empty();
        let mut i: usize = 0;
        proof {
            assert(entries@.take(0) =~= Seq::<ManifestEntry>::empty());
            assert(changed@.map_values(|o: String| o@) =~= origins_where(entries@.take(0), okv));
        }
        while i < entries.len()
            invariant
                i <= entries@.len(),
                changed@.len() <= i,
                src_uri_rows(*db) == src_uri_rows(*old(db)),
                witnesses.len() == changed@.len(),
                forall|k: int|
                    0 <= k < changed@.len() ==> 0 <= #[trigger] witnesses[k] < entries@.len()
                        && changed@[k]@ == entries@[witnesses[k]].origin@,
                okv.len() == i,
                manifest_rows(*db) == upsert_fold(
                    manifest_rows(*old(db)),
                    entries@.take(i as int),
                    okv,
                ),
                changed@.map_values(|o: String| o@) == origins_where(entries@.take(i as int), okv),
            decreases entries@.len() - i,
        {
            let ghost changed0 = changed@;
            proof {
                assert(entries@.take(i + 1).drop_last() =~= entries@.take(i as int));
                assert(entries@.take(i + 1).last() == entries@[i as int]);
            }
            let entry = &entries[i];
            match db.insert_manifest_entry(entry) {
                Ok(_) => {
                    let origin = entry.origin.clone();
                    proof {
                        assert(origin@ == entries@[i as int].origin@);
                        witnesses = witnesses.push(i as int);
                        let okv0 = okv;
                        okv = okv.push(true);
                        assert(okv.drop_last() =~= okv0);
                        assert(okv.last());
                    }
                    changed.push(origin);
                    proof {
                        assert(changed@.map_values(|o: String| o@) =~= changed0.map_values(
                            |o: String| o@,
                        ).push(origin@));
                        assert(changed@.map_values(|o: String| o@) =~= origins_where(
                            entries@.take(i + 1),
                            okv,
                        ));
                    }
                },
                Err(_) => {
                    proof {
                        let okv0 = okv;
                        okv = okv.push(false);
                        assert(okv.drop_last() =~= okv0);
                        assert(!okv.last());
                        assert(changed@.map_values(|o: String| o@) + Seq::<Seq<char>>::empty()
                            =~= changed@.map_values(|o: String| o@));
                        assert(changed@.map_values(|o: String| o@) =~= origins_where(
                            entries@.take(i + 1),
                            okv,
                        ));
                    }
                },
            }
            i = i + 1;
        }
        proof {
            assert(entries@.take(entries@.len() as int) =~= entries@);
            assert forall|k: int| 0 <= k < changed@.len() implies is_origin_of(
                (#[trigger] changed@[k])@,
                entries@,
            ) by {
                let j = witnesses[k];
                assert(0 <= j < entries@.len() && changed@[k]@ == entries@[j].origin@);
            }
            assert(manifest_rows(*db) == upsert_fold(manifest_rows(*old(db)), entries@, okv));
            assert(changed@.map_values(|o: String| o@) == origins_where(entries@, okv));
        }
        self.phase = TickPhase::Parsed;
        changed
    }

    /// Records the source uris the recipe evaluation produced for the
    /// changed Manifests: every (filename, uri) pair is inserted, a
    /// duplicate uri is ignored, and a failed insert is skipped.  Ends
    /// the tick.  The manifest table is untouched.
    pub fn parse_ebuilds(&mut self, db: &mut RepoDB, pairs: &Vec<(String, Vec<String>)>)
        requires
            old(self).phase == TickPhase::Parsed,
        ensures
            final(self).phase == TickPhase::Idle,
            final(self).sync_interval_secs == old(self).sync_interval_secs,
            final(self).storage_root == old(self).storage_root,
            manifest_rows(*final(db)) == manifest_rows(*old(db)),
            exists|ok: Seq<Seq<bool>>|
                {
                    &&& ok.len() == pairs@.len()
                    &&& src_uri_rows(*final(db)) == record_pairs_fold(
                        src_uri_rows(*old(db)),
                        pairs@,
                        ok,
                    )
                },
    {
        let ghost m0 = src_uri_rows(*db);
        let ghost mut okouter: Seq<Seq<bool>> = Seq::empty();
        let mut i: usize = 0;
        while i < pairs.len()
            invariant
                i <= pairs@.len(),
                manifest_rows(*db) == manifest_rows(*old(db)),
                m0 == src_uri_rows(*old(db)),
                okouter.len() == i,
                src_uri_rows(*db) == record_pairs_fold(m0, pairs@.take(i as int), okouter),
            decreases pairs@.len() - i,
        {
            let file = &pairs[i].0;
            let uris = &pairs[i].1;
            let ghost prev = src_uri_rows(*db);
            let ghost mut okj: Seq<bool> = Seq::empty();
            let mut j: usize = 0;
            proof {
                assert(uris@.take(0) =~= Seq::<String>::empty());
            }
            while j < uris.len()
                invariant
                    i < pairs@.len(),
                    file == &pairs@[i as int].0,
                    uris == &pairs@[i as int].1,
                    j <= uris@.len(),
                    manifest_rows(*db) == manifest_rows(*old(db)),
                    okj.len() == j,
                    src_uri_rows(*db) == record_uris_fold(prev, file@, uris@.take(j as int), okj),
                decreases uris@.len() - j,
            {
                proof {
                    assert(uris@.take(j + 1).drop_last() =~= uris@.take(j as int));
                    assert(uris@.take(j + 1).last() == uris@[j as int]);
                }
                let r = db.insert_src_uri(file.as_str(), uris[j].as_str());
                proof {
                    let okj0 = okj;
                    okj = okj.push(r is Ok);
                    assert(okj.drop_last() =~= okj0);
                }
                j = j + 1;
            }
            proof {
                assert(uris@.take(uris@.len() as int) =~= uris@);
                assert(pairs@.take(i + 1).drop_last() =~= pairs@.take(i as int));
                assert(pairs@.take(i + 1).last() == pairs@[i as int]);
                let okouter0 = okouter;
                okouter = okouter.push(okj);
                assert(okouter.drop_last() =~= okouter0);
            }
            i = i + 1;
        }
        proof {
            assert(pairs@.take(pairs@.len() as int) =~= pairs@);
            assert(src_uri_rows(*db) == record_pairs_fold(m0, pairs@, okouter));
        }
        self.phase = TickPhase::Idle;
    }
}

} // verus!
