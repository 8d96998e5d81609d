use vstd::prelude::*;

verus! {

/// Why a registry operation failed.
#[derive(Clone, Copy, PartialEq, Eq, Structural, Debug)]
pub enum RegistryError {
    /// The tag was never created, or was removed.
    UnknownTag,
}

/// Membership of a string value in a list of strings.
pub open spec fn has_view(s: Seq<String>, t: Seq<char>) -> bool {
    exists|i: int| 0 <= i < s.len() && s[i]@ == t
}

/// No two strings in the list hold the same value.
pub open spec fn unique_views(s: Seq<String>) -> bool {
    forall|i: int, j: int| 0 <= i < j < s.len() ==> s[i]@ != s[j]@
}

proof fn lemma_has_view_push(s: Seq<String>, x: String, t: Seq<char>)
    ensures
        has_view(s.push(x), t) <==> (has_view(s, t) || x@ == t),
{
    if has_view(s.push(x), t) {
        let i = choose|i: int| 0 <= i < s.push(x).len() && s.push(x)[i]@ == t;
        if i < s.len() {
            assert(s[i]@ == t);
        } else {
            assert(s.push(x)[i] == x);
        }
    }
    if has_view(s, t) {
        let i = choose|i: int| 0 <= i < s.len() && s[i]@ == t;
        assert(s.push(x)[i]@ == t);
    }
    if x@ == t {
        assert(s.push(x)[s.len() as int]@ == t);
    }
}

proof fn lemma_unique_push(s: Seq<String>, x: String)
    requires
        unique_views(s),
        !has_view(s, x@),
    ensures
        unique_views(s.push(x)),
{
    assert forall|i: int, j: int| 0 <= i < j < s.push(x).len() implies s.push(x)[i]@ != s.push(
        x,
    )[j]@ by {
        if j < s.len() {
            assert(s[i]@ != s[j]@);
        } else {
            assert(s.push(x)[j] == x);
            assert(s.push(x)[i] == s[i]);
            if s[i]@ == x@ {
                assert(has_view(s, x@));
            }
        }
    }
}

proof fn lemma_has_view_remove(s: Seq<String>, j: int, t: Seq<char>)
    requires
        0 <= j < s.len(),
        unique_views(s),
    ensures
        has_view(s.remove(j), t) <==> (has_view(s, t) && s[j]@ != t),
{
    if has_view(s.remove(j), t) {
        let i = choose|i: int| 0 <= i < s.remove(j).len() && s.remove(j)[i]@ == t;
        if i < j {
            assert(s[i]@ == t);
            assert(s[i]@ != s[j]@);
        } else {
            assert(s.remove(j)[i] == s[i + 1]);
            assert(s[i + 1]@ == t);
            assert(s[j]@ != s[i + 1]@);
        }
    }
    if has_view(s, t) && s[j]@ != t {
        let i = choose|i: int| 0 <= i < s.len() && s[i]@ == t;
        if i < j {
            assert(s.remove(j)[i]@ == t);
        } else {
            assert(i != j);
            assert(s.remove(j)[i - 1] == s[i]);
            assert(s.remove(j)[i - 1]@ == t);
        }
    }
}

proof fn lemma_unique_remove(s: Seq<String>, j: int)
    requires
        0 <= j < s.len(),
        unique_views(s),
    ensures
        unique_views(s.remove(j)),
{
    assert forall|a: int, b: int| 0 <= a < b < s.remove(j).len() implies s.remove(j)[a]@ != s.remove(
        j,
    )[b]@ by {
        let a0 = if a < j {
            a
        } else {
            a + 1
        };
        let b0 = if b < j {
            b
        } else {
            b + 1
        };
        assert(s.remove(j)[a] == s[a0]);
        assert(s.remove(j)[b] == s[b0]);
        assert(s[a0]@ != s[b0]@);
    }
}

/// The position of a string with this value, if the list holds one.
fn index_of(v: &Vec<String>, x: &String) -> (r: Option<usize>)
    ensures
        r matches Some(i) ==> i < v@.len() && v@[i as int]@ == x@,
        r is None ==> !has_view(v@, x@),
{
    let mut i: usize = 0;
    while i < v.len()
        invariant
            i <= v@.len(),
            forall|j: int| 0 <= j < i ==> v@[j]@ != x@,
        decreases v@.len() - i,
    {
        if v[i] == *x {
            return Some(i);
        }
        i += 1;
    }
    None
}

/// Whether a string with this value is in the list.
fn contains_str(v: &Vec<String>, x: &String) -> (r: bool)
    ensures
        r == has_view(v@, x@),
{
    match index_of(v, x) {
        Some(i) => {
            assert(v@[i as int]@ == x@);
            true
        },
        None => false,
    }
}

/// Adds every value of `src` that `dst` does not already hold; `dst` stays
/// duplicate-free and ends holding exactly the union of the two.
fn push_missing(dst: &mut Vec<String>, src: &Vec<String>)
    requires
        unique_views(old(dst)@),
    ensures
        unique_views(final(dst)@),
        forall|t: Seq<char>|
            #![trigger has_view(final(dst)@, t)]
            #![trigger has_view(old(dst)@, t)]
            has_view(final(dst)@, t) <==> (has_view(old(dst)@, t) || has_view(src@, t)),
{
    let mut k: usize = 0;
    while k < src.len()
        invariant
            k <= src@.len(),
            unique_views(dst@),
            forall|t: Seq<char>|
                #![trigger has_view(dst@, t)]
                has_view(dst@, t) <==> (has_view(old(dst)@, t) || has_view(
                    src@.take(k as int),
                    t,
                )),
        decreases src@.len() - k,
    {
        let ghost pre = dst@;
        let x = &src[k];
        let present = contains_str(dst, x);
        if !present {
            dst.push(x.clone());
        }
        proof {
            assert(src@.take(k as int + 1) =~= src@.take(k as int).push(src@[k as int]));
            assert forall|t: Seq<char>|
                #![trigger has_view(dst@, t)]
                has_view(dst@, t) <==> (has_view(old(dst)@, t) || has_view(
                    src@.take(k as int + 1),
                    t,
                )) by {
                lemma_has_view_push(src@.take(k as int), src@[k as int], t);
                if !present {
                    lemma_has_view_push(pre, dst@.last(), t);
                } else {
                    assert(has_view(pre, x@));
                }
            }
            if !present {
                lemma_unique_push(pre, dst@.last());
            }
        }
        k += 1;
    }
    proof {
        assert(src@.take(src@.len() as int) =~= src@);
    }
}

/// Removes every value of `src` that `dst` holds; returns the values
/// actually removed.  `dst` ends holding exactly the difference, and the
/// returned list exactly the intersection.
fn remove_present(dst: &mut Vec<String>, src: &Vec<String>) -> (removed: Vec<String>)
    requires
        unique_views(old(dst)@),
    ensures
        unique_views(final(dst)@),
        unique_views(removed@),
        forall|t: Seq<char>|
            #![trigger has_view(final(dst)@, t)]
            #![trigger has_view(old(dst)@, t)]
            has_view(final(dst)@, t) <==> (has_view(old(dst)@, t) && !has_view(src@, t)),
        forall|t: Seq<char>|
            #![trigger has_view(removed@, t)]
            has_view(removed@, t) <==> (has_view(old(dst)@, t) && has_view(src@, t)),
{
    let mut removed: Vec<String> = Vec::new();
    let mut k: usize = 0;
    while k < src.len()
        invariant
            k <= src@.len(),
            unique_views(dst@),
            unique_views(removed@),
            forall|t: Seq<char>|
                #![trigger has_view(dst@, t)]
                has_view(dst@, t) <==> (has_view(old(dst)@, t) && !has_view(
                    src@.take(k as int),
                    t,
                )),
            forall|t: Seq<char>|
                #![trigger has_view(removed@, t)]
                has_view(removed@, t) <==> (has_view(old(dst)@, t) && has_view(
                    src@.take(k as int),
                    t,
                )),
        decreases src@.len() - k,
    {
        let ghost pre = dst@;
        let ghost pre_removed = removed@;
        let x = &src[k];
        let idx = index_of(dst, x);
        if let Some(i) = idx {
            proof {
                assert(has_view(pre, x@));
                assert(!has_view(src@.take(k as int), x@));
                assert(!has_view(pre_removed, x@));
            }
            let s = dst.remove(i);
            removed.push(s);
        }
        proof {
            assert(src@.take(k as int + 1) =~= src@.take(k as int).push(src@[k as int]));
            assert forall|t: Seq<char>|
                #![trigger has_view(dst@, t)]
                has_view(dst@, t) <==> (has_view(old(dst)@, t) && !has_view(
                    src@.take(k as int + 1),
                    t,
                )) by {
                lemma_has_view_push(src@.take(k as int), src@[k as int], t);
                if let Some(i) = idx {
                    lemma_has_view_remove(pre, i as int, t);
                } else {
                    if x@ == t {
                        assert(!has_view(pre, t));
                    }
                }
            }
            assert forall|t: Seq<char>|
                #![trigger has_view(removed@, t)]
                has_view(removed@, t) <==> (has_view(old(dst)@, t) && has_view(
                    src@.take(k as int + 1),
                    t,
                )) by {
                lemma_has_view_push(src@.take(k as int), src@[k as int], t);
                if let Some(i) = idx {
                    lemma_has_view_remove(pre, i as int, t);
                    lemma_has_view_push(pre_removed, removed@.last(), t);
                } else {
                    if x@ == t {
                        assert(!has_view(pre, t));
                    }
                }
            }
            if let Some(i) = idx {
                lemma_unique_remove(pre, i as int);
                lemma_unique_push(pre_removed, removed@.last());
            }
        }
        k += 1;
    }
    proof {
        assert(src@.take(src@.len() as int) =~= src@);
    }
    removed
}

/// Clones a list of strings, value for value.
fn clone_strings(v: &Vec<String>) -> (r: Vec<String>)
    ensures
        r@ == v@,
{
    let mut r: Vec<String> = Vec::new();
    let mut i: usize = 0;
    while i < v.len()
        invariant
            i <= v@.len(),
            r@ =~= v@.take(i as int),
        decreases v@.len() - i,
    {
        r.push(v[i].clone());
        i += 1;
    }
    proof {
        assert(v@.take(v@.len() as int) =~= v@);
    }
    r
}

/// One tag's entry: its mounted paths, the user roles allowed to read it,
/// and the runtime facts the decision engine consults.
pub struct TagEntry {
    pub tag: String,
    pub paths: Vec<String>,
    pub roles: Vec<String>,
    pub buffer_ready: bool,
    pub consumers: usize,
}

impl TagEntry {
    /// Paths and roles are duplicate-free.
    pub open spec fn well_formed(self) -> bool {
        unique_views(self.paths@) && unique_views(self.roles@)
    }
}

/// A tag with this value has an entry in the list.
pub open spec fn tags_has(s: Seq<TagEntry>, t: Seq<char>) -> bool {
    exists|i: int| 0 <= i < s.len() && s[i].tag@ == t
}

/// No two entries carry the same tag value.
pub open spec fn tags_unique(s: Seq<TagEntry>) -> bool {
    forall|i: int, j: int| 0 <= i < j < s.len() ==> s[i].tag@ != s[j].tag@
}

proof fn lemma_tags_push(s: Seq<TagEntry>, e: TagEntry, t: Seq<char>)
    ensures
        tags_has(s.push(e), t) <==> (tags_has(s, t) || e.tag@ == t),
{
    if tags_has(s.push(e), t) {
        let i = choose|i: int| 0 <= i < s.push(e).len() && s.push(e)[i].tag@ == t;
        if i < s.len() {
            assert(s[i].tag@ == t);
        } else {
            assert(s.push(e)[i] == e);
        }
    }
    if tags_has(s, t) {
        let i = choose|i: int| 0 <= i < s.len() && s[i].tag@ == t;
        assert(s.push(e)[i].tag@ == t);
    }
    if e.tag@ == t {
        assert(s.push(e)[s.len() as int].tag@ == t);
    }
}

proof fn lemma_tags_remove(s: Seq<TagEntry>, j: int, t: Seq<char>)
    requires
        0 <= j < s.len(),
        tags_unique(s),
    ensures
        tags_has(s.remove(j), t) <==> (tags_has(s, t) && s[j].tag@ != t),
{
    if tags_has(s.remove(j), t) {
        let i = choose|i: int| 0 <= i < s.remove(j).len() && s.remove(j)[i].tag@ == t;
        if i < j {
            assert(s[i].tag@ == t);
            assert(s[i].tag@ != s[j].tag@);
        } else {
            assert(s.remove(j)[i] == s[i + 1]);
            assert(s[i + 1].tag@ == t);
            assert(s[j].tag@ != s[i + 1].tag@);
        }
    }
    if tags_has(s, t) && s[j].tag@ != t {
        let i = choose|i: int| 0 <= i < s.len() && s[i].tag@ == t;
        if i < j {
            assert(s.remove(j)[i].tag@ == t);
        } else {
            assert(i != j);
            assert(s.remove(j)[i - 1] == s[i]);
        }
    }
}

proof fn lemma_tags_unique_remove(s: Seq<TagEntry>, j: int)
    requires
        0 <= j < s.len(),
        tags_unique(s),
    ensures
        tags_unique(s.remove(j)),
{
    assert forall|a: int, b: int| 0 <= a < b < s.remove(j).len() implies s.remove(j)[a].tag@
        != s.remove(j)[b].tag@ by {
        let a0 = if a < j {
            a
        } else {
            a + 1
        };
        let b0 = if b < j {
            b
        } else {
            b + 1
        };
        assert(s.remove(j)[a] == s[a0]);
        assert(s.remove(j)[b] == s[b0]);
        assert(s[a0].tag@ != s[b0].tag@);
    }
}

/// The tag table of the stream registry: one entry per created tag.
///
/// A tag has an entry exactly while the supervisor owning it has created and
/// not removed it; removing a tag removes all its paths with it.
pub struct Registry {
    pub entries: Vec<TagEntry>,
}

impl Registry {
    /// A tag with this value has an entry.
    pub open spec fn spec_has(self, t: Seq<char>) -> bool {
        tags_has(self.entries@, t)
    }

    /// Tags are unique and every entry is well formed.
    pub open spec fn well_formed(self) -> bool {
        &&& tags_unique(self.entries@)
        &&& forall|i: int|
            0 <= i < self.entries@.len() ==> (#[trigger] self.entries@[i]).well_formed()
    }

    /// The position of this tag's entry.
    pub open spec fn spec_index_of(self, t: Seq<char>) -> int {
        choose|i: int| 0 <= i < self.entries@.len() && self.entries@[i].tag@ == t
    }

    /// This tag's entry.
    pub open spec fn spec_entry(self, t: Seq<char>) -> TagEntry {
        self.entries@[self.spec_index_of(t)]
    }

    /// In a well-formed table an entry's position is determined by its tag.
    pub proof fn lemma_entry_at(self, i: int)
        requires
            self.well_formed(),
            0 <= i < self.entries@.len(),
        ensures
            self.spec_has(self.entries@[i].tag@),
            self.spec_index_of(self.entries@[i].tag@) == i,
    {
        let t = self.entries@[i].tag@;
        assert(tags_has(self.entries@, t));
        let j = self.spec_index_of(t);
        if j < i {
            assert(self.entries@[j].tag@ != self.entries@[i].tag@);
        } else if i < j {
            assert(self.entries@[i].tag@ != self.entries@[j].tag@);
        }
    }

    /// Replacing one entry with another carrying the same tag keeps the
    /// table well formed and its tag set unchanged.
    proof fn lemma_update_same_tag(pre: Registry, post: Registry, i: int)
        requires
            pre.well_formed(),
            0 <= i < pre.entries@.len(),
            post.entries@ == pre.entries@.update(i, post.entries@[i]),
            post.entries@[i].tag == pre.entries@[i].tag,
            post.entries@[i].well_formed(),
        ensures
            post.well_formed(),
            forall|t: Seq<char>| #[trigger] post.spec_has(t) == pre.spec_has(t),
            post.spec_index_of(pre.entries@[i].tag@) == i,
    {
        assert forall|j: int|
            0 <= j < post.entries@.len() implies (#[trigger] post.entries@[j]).tag@
            == pre.entries@[j].tag@ by {}
        assert forall|a: int, b: int|
            0 <= a < b < post.entries@.len() implies post.entries@[a].tag@
            != post.entries@[b].tag@ by {
            assert(pre.entries@[a].tag@ != pre.entries@[b].tag@);
        }
        assert forall|j: int|
            0 <= j < post.entries@.len() implies (#[trigger] post.entries@[j]).well_formed() by {
            if j != i {
                assert(post.entries@[j] == pre.entries@[j]);
            }
        }
        assert forall|t: Seq<char>| #[trigger] post.spec_has(t) == pre.spec_has(t) by {
            if pre.spec_has(t) {
                let j = choose|j: int|
                    0 <= j < pre.entries@.len() && pre.entries@[j].tag@ == t;
                assert(post.entries@[j].tag@ == t);
            }
            if post.spec_has(t) {
                let j = choose|j: int|
                    0 <= j < post.entries@.len() && post.entries@[j].tag@ == t;
                assert(pre.entries@[j].tag@ == t);
            }
        }
        post.lemma_entry_at(i);
    }

    /// The position of this tag's entry, if it has one.
    fn find(&self, tag: &String) -> (r: Option<usize>)
        ensures
            r matches Some(i) ==> i < self.entries@.len() && self.entries@[i as int].tag@ == tag@,
            r is None ==> !self.spec_has(tag@),
    {
        let mut i: usize = 0;
        while i < self.entries.len()
            invariant
                i <= self.entries@.len(),
                forall|j: int| 0 <= j < i ==> self.entries@[j].tag@ != tag@,
            decreases self.entries@.len() - i,
        {
            let e = &self.entries[i];
            if e.tag == *tag {
                return Some(i);
            }
            i += 1;
        }
        None
    }

    /// An empty table.
    pub fn new() -> (r: Registry)
        ensures
            r.well_formed(),
            r.entries@.len() == 0,
    {
        Registry { entries: Vec::new() }
    }

    /// Whether this tag has an entry.
    pub fn has_tag(&self, tag: &String) -> (r: bool)
        ensures
            r == self.spec_has(tag@),
    {
        match self.find(tag) {
            Some(i) => {
                proof {
                    assert(tags_has(self.entries@, tag@));
                }
                true
            },
            None => false,
        }
    }

    /// Creates the tag if it is absent: idempotent.  A fresh entry has no
    /// paths, no roles, an unready buffer and no consumers.
    pub fn create_tag(&mut self, tag: String)
        requires
            old(self).well_formed(),
        ensures
            final(self).well_formed(),
            forall|t: Seq<char>| #[trigger]
                final(self).spec_has(t) <==> (old(self).spec_has(t) || t == tag@),
            old(self).spec_has(tag@) ==> *final(self) == *old(self),
            !old(self).spec_has(tag@) ==> {
                &&& final(self).entries@ == old(self).entries@.push(final(self).entries@.last())
                &&& final(self).entries@.last().tag@ == tag@
                &&& final(self).entries@.last().paths@.len() == 0
                &&& final(self).entries@.last().roles@.len() == 0
                &&& final(self).entries@.last().buffer_ready == false
                &&& final(self).entries@.last().consumers == 0
            },
    {
        match self.find(&tag) {
            Some(i) => {
                proof {
                    assert(tags_has(self.entries@, tag@));
                }
            },
            None => {
                let ghost pre = self.entries@;
                let e = TagEntry {
                    tag,
                    paths: Vec::new(),
                    roles: Vec::new(),
                    buffer_ready: false,
                    consumers: 0,
                };
                self.entries.push(e);
                proof {
                    let t0 = self.entries@.last().tag@;
                    assert forall|t: Seq<char>| #[trigger]
                        self.spec_has(t) <==> (old(self).spec_has(t) || t == t0) by {
                        lemma_tags_push(pre, self.entries@.last(), t);
                    }
                    assert forall|a: int, b: int|
                        0 <= a < b < self.entries@.len() implies self.entries@[a].tag@
                        != self.entries@[b].tag@ by {
                        if b < pre.len() {
                            assert(pre[a].tag@ != pre[b].tag@);
                        } else {
                            assert(self.entries@[b] == self.entries@.last());
                            assert(self.entries@[a] == pre[a]);
                            if pre[a].tag@ == t0 {
                                assert(tags_has(pre, t0));
                            }
                        }
                    }
                    assert forall|j: int|
                        0 <= j < self.entries@.len() implies (
                        #[trigger] self.entries@[j]).well_formed() by {
                        if j < pre.len() {
                            assert(self.entries@[j] == pre[j]);
                        }
                    }
                }
            },
        }
    }

    /// Removes the tag and all its paths atomically: idempotent.  Returns
    /// the paths that were mounted, for the embedder to unmount.
    pub fn remove_tag(&mut self, tag: &String) -> (removed: Vec<String>)
        requires
            old(self).well_formed(),
        ensures
            final(self).well_formed(),
            forall|t: Seq<char>| #[trigger]
                final(self).spec_has(t) <==> (old(self).spec_has(t) && t != tag@),
            !old(self).spec_has(tag@) ==> *final(self) == *old(self) && removed@.len() == 0,
            old(self).spec_has(tag@) ==> {
                &&& final(self).entries@ == old(self).entries@.remove(
                    old(self).spec_index_of(tag@),
                )
                &&& removed@ == old(self).spec_entry(tag@).paths@
            },
    {
        match self.find(tag) {
            None => {
                proof {
                    assert forall|t: Seq<char>| #[trigger]
                        self.spec_has(t) <==> (self.spec_has(t) && t != tag@) by {
                        if t == tag@ {
                            assert(!self.spec_has(t));
                        }
                    }
                }
                Vec::new()
            },
            Some(i) => {
                proof {
                    self.lemma_entry_at(i as int);
                }
                let ghost pre = self.entries@;
                let e = self.entries.remove(i);
                proof {
                    lemma_tags_unique_remove(pre, i as int);
                    assert forall|t: Seq<char>| #[trigger]
                        self.spec_has(t) <==> (old(self).spec_has(t) && t != tag@) by {
                        lemma_tags_remove(pre, i as int, t);
                    }
                    assert forall|j: int|
                        0 <= j < self.entries@.len() implies (
                        #[trigger] self.entries@[j]).well_formed() by {
                        let j0 = if j < i as int {
                            j
                        } else {
                            j + 1
                        };
                        assert(self.entries@[j] == pre[j0]);
                        assert(pre[j0].well_formed());
                    }
                }
                e.paths
            },
        }
    }

    /// Mounts these paths on the tag, each value once; fails exactly when
    /// the tag is unknown.
    pub fn add_paths(&mut self, tag: &String, paths: &Vec<String>) -> (r: Result<
        (),
        RegistryError,
    >)
        requires
            old(self).well_formed(),
        ensures
            final(self).well_formed(),
            r is Ok <==> old(self).spec_has(tag@),
            forall|t: Seq<char>| #[trigger]
                final(self).spec_has(t) == old(self).spec_has(t),
            !old(self).spec_has(tag@) ==> *final(self) == *old(self) && r == Err::<
                (),
                RegistryError,
            >(RegistryError::UnknownTag),
            old(self).spec_has(tag@) ==> {
                let i = old(self).spec_index_of(tag@);
                &&& final(self).entries@ == old(self).entries@.update(
                    i,
                    final(self).entries@[i],
                )
                &&& final(self).entries@[i].tag == old(self).entries@[i].tag
                &&& final(self).entries@[i].roles == old(self).entries@[i].roles
                &&& final(self).entries@[i].buffer_ready == old(self).entries@[i].buffer_ready
                &&& final(self).entries@[i].consumers == old(self).entries@[i].consumers
                &&& forall|t: Seq<char>|
                    #![trigger has_view(final(self).entries@[i].paths@, t)]
                    has_view(final(self).entries@[i].paths@, t) <==> (has_view(
                        old(self).entries@[i].paths@,
                        t,
                    ) || has_view(paths@, t))
            },
    {
        match self.find(tag) {
            None => Err(RegistryError::UnknownTag),
            Some(i) => {
                proof {
                    self.lemma_entry_at(i as int);
                    assert(self.entries@[i as int].well_formed());
                }
                let mut e = self.entries.remove(i);
                push_missing(&mut e.paths, paths);
                self.entries.insert(i, e);
                proof {
                    assert(self.entries@ =~= old(self).entries@.update(
                        i as int,
                        self.entries@[i as int],
                    ));
                    Registry::lemma_update_same_tag(*old(self), *self, i as int);
                }
                Ok(())
            },
        }
    }

    /// Unmounts these paths from the tag, keeping the rest; returns the
    /// paths actually removed.  Fails exactly when the tag is unknown.
    pub fn remove_paths(&mut self, tag: &String, paths: &Vec<String>) -> (r: Result<
        Vec<String>,
        RegistryError,
    >)
        requires
            old(self).well_formed(),
        ensures
            final(self).well_formed(),
            r is Ok <==> old(self).spec_has(tag@),
            forall|t: Seq<char>| #[trigger]
                final(self).spec_has(t) == old(self).spec_has(t),
            !old(self).spec_has(tag@) ==> *final(self) == *old(self),
            old(self).spec_has(tag@) ==> {
                let i = old(self).spec_index_of(tag@);
                &&& final(self).entries@ == old(self).entries@.update(
                    i,
                    final(self).entries@[i],
                )
                &&& final(self).entries@[i].tag == old(self).entries@[i].tag
                &&& final(self).entries@[i].roles == old(self).entries@[i].roles
                &&& final(self).entries@[i].buffer_ready == old(self).entries@[i].buffer_ready
                &&& final(self).entries@[i].consumers == old(self).entries@[i].consumers
                &&& forall|t: Seq<char>|
                    #![trigger has_view(final(self).entries@[i].paths@, t)]
                    has_view(final(self).entries@[i].paths@, t) <==> (has_view(
                        old(self).entries@[i].paths@,
                        t,
                    ) && !has_view(paths@, t))
                &&& r matches Ok(removed) ==> forall|t: Seq<char>| #[trigger]
                    has_view(removed@, t) <==> (has_view(old(self).entries@[i].paths@, t)
                        && has_view(paths@, t))
            },
    {
        match self.find(tag) {
            None => Err(RegistryError::UnknownTag),
            Some(i) => {
                proof {
                    self.lemma_entry_at(i as int);
                    assert(self.entries@[i as int].well_formed());
                }
                let mut e = self.entries.remove(i);
                let removed = remove_present(&mut e.paths, paths);
                self.entries.insert(i, e);
                proof {
                    assert(self.entries@ =~= old(self).entries@.update(
                        i as int,
                        self.entries@[i as int],
                    ));
                    Registry::lemma_update_same_tag(*old(self), *self, i as int);
                }
                Ok(removed)
            },
        }
    }

    /// Grants these user roles leave to read the tag, each value once; fails
    /// exactly when the tag is unknown.
    pub fn add_permitted_roles(&mut self, tag: &String, roles: &Vec<String>) -> (r: Result<
        (),
        RegistryError,
    >)
        requires
            old(self).well_formed(),
        ensures
            final(self).well_formed(),
            r is Ok <==> old(self).spec_has(tag@),
            forall|t: Seq<char>| #[trigger]
                final(self).spec_has(t) == old(self).spec_has(t),
            !old(self).spec_has(tag@) ==> *final(self) == *old(self) && r == Err::<
                (),
                RegistryError,
            >(RegistryError::UnknownTag),
            old(self).spec_has(tag@) ==> {
                let i = old(self).spec_index_of(tag@);
                &&& final(self).entries@ == old(self).entries@.update(
                    i,
                    final(self).entries@[i],
                )
                &&& final(self).entries@[i].tag == old(self).entries@[i].tag
                &&& final(self).entries@[i].paths == old(self).entries@[i].paths
                &&& final(self).entries@[i].buffer_ready == old(self).entries@[i].buffer_ready
                &&& final(self).entries@[i].consumers == old(self).entries@[i].consumers
                &&& forall|t: Seq<char>|
                    #![trigger has_view(final(self).entries@[i].roles@, t)]
                    has_view(final(self).entries@[i].roles@, t) <==> (has_view(
                        old(self).entries@[i].roles@,
                        t,
                    ) || has_view(roles@, t))
            },
    {
        match self.find(tag) {
            None => Err(RegistryError::UnknownTag),
            Some(i) => {
                proof {
                    self.lemma_entry_at(i as int);
                    assert(self.entries@[i as int].well_formed());
                }
                let mut e = self.entries.remove(i);
                push_missing(&mut e.roles, roles);
                self.entries.insert(i, e);
                proof {
                    assert(self.entries@ =~= old(self).entries@.update(
                        i as int,
                        self.entries@[i as int],
                    ));
                    Registry::lemma_update_same_tag(*old(self), *self, i as int);
                }
                Ok(())
            },
        }
    }

    /// Records the observed buffer readiness of the tag; false when the tag
    /// is unknown and nothing was recorded.
    pub fn set_buffer_ready(&mut self, tag: &String, ready: bool) -> (ok: bool)
        requires
            old(self).well_formed(),
        ensures
            final(self).well_formed(),
            ok == old(self).spec_has(tag@),
            forall|t: Seq<char>| #[trigger]
                final(self).spec_has(t) == old(self).spec_has(t),
            !ok ==> *final(self) == *old(self),
            ok ==> {
                let i = old(self).spec_index_of(tag@);
                &&& final(self).entries@ == old(self).entries@.update(
                    i,
                    final(self).entries@[i],
                )
                &&& final(self).entries@[i].tag == old(self).entries@[i].tag
                &&& final(self).entries@[i].paths == old(self).entries@[i].paths
                &&& final(self).entries@[i].roles == old(self).entries@[i].roles
                &&& final(self).entries@[i].buffer_ready == ready
                &&& final(self).entries@[i].consumers == old(self).entries@[i].consumers
            },
    {
        match self.find(tag) {
            None => false,
            Some(i) => {
                proof {
                    self.lemma_entry_at(i as int);
                    assert(self.entries@[i as int].well_formed());
                }
                let mut e = self.entries.remove(i);
                e.buffer_ready = ready;
                self.entries.insert(i, e);
                proof {
                    assert(self.entries@ =~= old(self).entries@.update(
                        i as int,
                        self.entries@[i as int],
                    ));
                    Registry::lemma_update_same_tag(*old(self), *self, i as int);
                }
                true
            },
        }
    }

    /// Records the observed consumer count of the tag; false when the tag is
    /// unknown and nothing was recorded.
    pub fn set_consumer_count(&mut self, tag: &String, n: usize) -> (ok: bool)
        requires
            old(self).well_formed(),
        ensures
            final(self).well_formed(),
            ok == old(self).spec_has(tag@),
            forall|t: Seq<char>| #[trigger]
                final(self).spec_has(t) == old(self).spec_has(t),
            !ok ==> *final(self) == *old(self),
            ok ==> {
                let i = old(self).spec_index_of(tag@);
                &&& final(self).entries@ == old(self).entries@.update(
                    i,
                    final(self).entries@[i],
                )
                &&& final(self).entries@[i].tag == old(self).entries@[i].tag
                &&& final(self).entries@[i].paths == old(self).entries@[i].paths
                &&& final(self).entries@[i].roles == old(self).entries@[i].roles
                &&& final(self).entries@[i].buffer_ready == old(self).entries@[i].buffer_ready
                &&& final(self).entries@[i].consumers == n
            },
    {
        match self.find(tag) {
            None => false,
            Some(i) => {
                proof {
                    self.lemma_entry_at(i as int);
                    assert(self.entries@[i as int].well_formed());
                }
                let mut e = self.entries.remove(i);
                e.consumers = n;
                self.entries.insert(i, e);
                proof {
                    assert(self.entries@ =~= old(self).entries@.update(
                        i as int,
                        self.entries@[i as int],
                    ));
                    Registry::lemma_update_same_tag(*old(self), *self, i as int);
                }
                true
            },
        }
    }

    /// The recorded buffer readiness of the tag, if it has an entry.
    pub fn buffer_ready(&self, tag: &String) -> (r: Option<bool>)
        requires
            self.well_formed(),
        ensures
            self.spec_has(tag@) ==> r == Some(self.spec_entry(tag@).buffer_ready),
            !self.spec_has(tag@) ==> r is None,
    {
        match self.find(tag) {
            None => None,
            Some(i) => {
                proof {
                    self.lemma_entry_at(i as int);
                }
                let e = &self.entries[i];
                Some(e.buffer_ready)
            },
        }
    }

    /// The recorded consumer count of the tag, if it has an entry.
    pub fn consumer_count(&self, tag: &String) -> (r: Option<usize>)
        requires
            self.well_formed(),
        ensures
            self.spec_has(tag@) ==> r == Some(self.spec_entry(tag@).consumers),
            !self.spec_has(tag@) ==> r is None,
    {
        match self.find(tag) {
            None => None,
            Some(i) => {
                proof {
                    self.lemma_entry_at(i as int);
                }
                let e = &self.entries[i];
                Some(e.consumers)
            },
        }
    }

    /// The paths mounted on the tag, if it has an entry.
    pub fn paths_of(&self, tag: &String) -> (r: Option<Vec<String>>)
        requires
            self.well_formed(),
        ensures
            self.spec_has(tag@) ==> (r matches Some(p) && p@ == self.spec_entry(tag@).paths@),
            !self.spec_has(tag@) ==> r is None,
    {
        match self.find(tag) {
            None => None,
            Some(i) => {
                proof {
                    self.lemma_entry_at(i as int);
                }
                let e = &self.entries[i];
                Some(clone_strings(&e.paths))
            },
        }
    }
}

} // verus!
