use vstd::prelude::*;

verus! {

/// What the embedder observes of one downstream media session while walking
/// the server's session pool: for each mounted path of interest, how many
/// leading characters the session's setup URL matched (the transport's
/// answer, absent when the query failed), and whether the session's media
/// element is the placeholder shown before the stream is ready.
pub struct MediaObservation {
    /// One answer per path, in the order of the path list.
    pub matched: Vec<Option<i32>>,
    /// The bound media is the not-ready placeholder.
    pub placeholder: bool,
}

/// A full-length match: the transport answered, and the matched length is
/// the whole path.  A failed query never matches.
pub open spec fn spec_full_match(matched: Option<i32>, path_len: int) -> bool {
    matched matches Some(m) && m == path_len
}

/// Whether one answer is a full-length match of its path.
pub fn full_match(matched: Option<i32>, path_len: usize) -> (r: bool)
    requires
        path_len <= i32::MAX,
    ensures
        r == spec_full_match(matched, path_len as int),
{
    match matched {
        Some(m) => m >= 0 && (m as usize) == path_len,
        None => false,
    }
}

/// The media session sits on one of the paths: some path matched in full.
pub open spec fn spec_media_on_paths(matched: Seq<Option<i32>>, path_lens: Seq<usize>) -> bool {
    exists|i: int|
        0 <= i < matched.len() && i < path_lens.len() && spec_full_match(
            matched[i],
            path_lens[i] as int,
        )
}

/// Whether the media session sits on one of the paths.
pub fn media_on_paths(matched: &Vec<Option<i32>>, path_lens: &Vec<usize>) -> (r: bool)
    requires
        forall|i: int| 0 <= i < path_lens@.len() ==> #[trigger] path_lens@[i] <= i32::MAX,
    ensures
        r == spec_media_on_paths(matched@, path_lens@),
{
    let n = if matched.len() < path_lens.len() {
        matched.len()
    } else {
        path_lens.len()
    };
    let mut i: usize = 0;
    while i < n
        invariant
            i <= n,
            n <= matched@.len(),
            n <= path_lens@.len(),
            matched@.len() <= n || path_lens@.len() <= n,
            forall|j: int|
                0 <= j < path_lens@.len() ==> #[trigger] path_lens@[j] <= i32::MAX,
            forall|j: int|
                0 <= j < i ==> !spec_full_match(matched@[j], #[trigger] path_lens@[j] as int),
        decreases n - i,
    {
        if full_match(matched[i], path_lens[i]) {
            assert(spec_full_match(matched@[i as int], path_lens@[i as int] as int));
            return true;
        }
        i += 1;
    }
    false
}

impl MediaObservation {
    /// Whether this media session is cleared by a sweep over these paths: it
    /// must sit on one of them, and, when the sweep spares live media, be
    /// bound to the placeholder.
    pub open spec fn spec_cleared(self, path_lens: Seq<usize>, only_placeholder: bool) -> bool {
        spec_media_on_paths(self.matched@, path_lens) && (!only_placeholder || self.placeholder)
    }

    /// Whether the sweep clears this media session.
    pub fn cleared(&self, path_lens: &Vec<usize>, only_placeholder: bool) -> (r: bool)
        requires
            forall|i: int| 0 <= i < path_lens@.len() ==> #[trigger] path_lens@[i] <= i32::MAX,
        ensures
            r == self.spec_cleared(path_lens@, only_placeholder),
    {
        if only_placeholder && !self.placeholder {
            false
        } else {
            media_on_paths(&self.matched, path_lens)
        }
    }
}

/// A session is closed — and its client with it — exactly when the sweep
/// cleared at least one of its media sessions.
pub open spec fn spec_session_closed(
    medias: Seq<MediaObservation>,
    path_lens: Seq<usize>,
    only_placeholder: bool,
) -> bool {
    exists|i: int|
        0 <= i < medias.len() && (#[trigger] medias[i]).spec_cleared(path_lens, only_placeholder)
}

/// Whether the sweep closes a session with these media sessions.
pub fn session_closed(
    medias: &Vec<MediaObservation>,
    path_lens: &Vec<usize>,
    only_placeholder: bool,
) -> (r: bool)
    requires
        forall|i: int| 0 <= i < path_lens@.len() ==> #[trigger] path_lens@[i] <= i32::MAX,
    ensures
        r == spec_session_closed(medias@, path_lens@, only_placeholder),
{
    let mut i: usize = 0;
    while i < medias.len()
        invariant
            i <= medias@.len(),
            forall|j: int|
                0 <= j < path_lens@.len() ==> #[trigger] path_lens@[j] <= i32::MAX,
            forall|j: int|
                0 <= j < i ==> !(#[trigger] medias@[j]).spec_cleared(path_lens@, only_placeholder),
        decreases medias@.len() - i,
    {
        let m = &medias[i];
        if m.cleared(path_lens, only_placeholder) {
            assert(medias@[i as int].spec_cleared(path_lens@, only_placeholder));
            return true;
        }
        i += 1;
    }
    false
}

/// How many of the media sessions sit on one of the paths.
pub open spec fn spec_count_on_paths(medias: Seq<MediaObservation>, path_lens: Seq<usize>) -> nat
    decreases medias.len(),
{
    if medias.len() == 0 {
        0
    } else {
        spec_count_on_paths(medias.drop_last(), path_lens) + (if spec_media_on_paths(
            medias.last().matched@,
            path_lens,
        ) {
            1nat
        } else {
            0nat
        })
    }
}

proof fn lemma_count_bound(medias: Seq<MediaObservation>, path_lens: Seq<usize>)
    ensures
        spec_count_on_paths(medias, path_lens) <= medias.len(),
    decreases medias.len(),
{
    if medias.len() > 0 {
        lemma_count_bound(medias.drop_last(), path_lens);
    }
}

/// Counts the media sessions that sit on one of the paths: how many
/// downstream users the paths have.
pub fn count_path_users(medias: &Vec<MediaObservation>, path_lens: &Vec<usize>) -> (n: usize)
    requires
        forall|i: int| 0 <= i < path_lens@.len() ==> #[trigger] path_lens@[i] <= i32::MAX,
    ensures
        n == spec_count_on_paths(medias@, path_lens@),
{
    let mut n: usize = 0;
    let mut i: usize = 0;
    while i < medias.len()
        invariant
            i <= medias@.len(),
            n == spec_count_on_paths(medias@.take(i as int), path_lens@),
            n <= i,
            forall|j: int|
                0 <= j < path_lens@.len() ==> #[trigger] path_lens@[j] <= i32::MAX,
        decreases medias@.len() - i,
    {
        let m = &medias[i];
        proof {
            assert(medias@.take(i as int + 1).drop_last() =~= medias@.take(i as int));
            assert(medias@.take(i as int + 1).last() == medias@[i as int]);
        }
        if media_on_paths(&m.matched, path_lens) {
            n += 1;
        }
        i += 1;
    }
    proof {
        assert(medias@.take(medias@.len() as int) =~= medias@);
    }
    n
}

} // verus!
