use vstd::prelude::*;

use crate::error::ImageError;
use crate::image::Image;
use crate::scaling::{Filter, Scaling};

verus! {

/// Decodes the image at a path and renders it under a scaling policy and a
/// filter: the outside work that the cache memoizes.
pub trait ImageSource {
    /// Every request this source has been asked to render, oldest first.
    ///
    /// A source verified against `render` overrides this with its own log.
    closed spec fn requests(&self) -> Seq<(Seq<char>, Scaling, Filter)> {
        Seq::empty()
    }

    /// Renders `path`; the request is appended to `requests`, whatever the
    /// outcome.
    fn render(&mut self, path: &str, scaling: Scaling, filter: Filter) -> (r: Result<
        Image,
        ImageError,
    >)
        ensures
            final(self).requests() == old(self).requests().push((path@, scaling, filter)),
    ;
}

/// A cache of rendered images keyed by path (exact, case-sensitive match).
///
/// Entries are created on the first successful load of a path and are never
/// replaced or evicted.
pub struct ResourceLoader {
    loaded: Vec<(String, Image)>,
}

/// The map that a list of entries with distinct keys stands for.
pub open spec fn entries_map(entries: Seq<(String, Image)>) -> Map<Seq<char>, Image>
    decreases entries.len(),
{
    if entries.len() == 0 {
        Map::empty()
    } else {
        entries_map(entries.drop_last()).insert(entries.last().0@, entries.last().1)
    }
}

/// No two entries share a key.
pub open spec fn distinct_keys(entries: Seq<(String, Image)>) -> bool {
    forall|i: int, j: int|
        0 <= i < entries.len() && 0 <= j < entries.len() && i != j ==> entries[i].0@
            != entries[j].0@
}

/// The cache contents after a load of `path` whose renderer, if asked, gave
/// `rendered`: unchanged on a hit or a failure, else extended by the new image.
pub open spec fn stored(
    before: Map<Seq<char>, Image>,
    path: Seq<char>,
    rendered: Result<Image, ImageError>,
) -> Map<Seq<char>, Image> {
    if before.contains_key(path) {
        before
    } else {
        match rendered {
            Ok(img) => before.insert(path, img),
            Err(_) => before,
        }
    }
}

/// What a load of `path` answers when its renderer, if asked, gave `rendered`:
/// the cached image on a hit, else the rendering outcome itself.
pub open spec fn answer(
    before: Map<Seq<char>, Image>,
    path: Seq<char>,
    rendered: Result<Image, ImageError>,
) -> Result<Image, ImageError> {
    if before.contains_key(path) {
        Ok(before[path])
    } else {
        rendered
    }
}

/// The outcome that a borrowed result stands for.
pub open spec fn owned(r: Result<&Image, ImageError>) -> Result<Image, ImageError> {
    match r {
        Ok(img) => Ok(*img),
        Err(e) => Err(e),
    }
}

/// A request to render: a path, a scaling policy and a filter.
pub type Request = (Seq<char>, Scaling, Filter);

/// What a call of `load(path, scaling, filter)` guarantees, from the cache
/// contents `before` to `after`, with result `r`, while the source's request
/// log goes from `asked_before` to `asked_after`.
pub open spec fn load_post(
    before: Map<Seq<char>, Image>,
    after: Map<Seq<char>, Image>,
    path: Seq<char>,
    scaling: Scaling,
    filter: Filter,
    r: Result<Image, ImageError>,
    asked_before: Seq<Request>,
    asked_after: Seq<Request>,
) -> bool {
    &&& before.contains_key(path) ==> r == Ok::<Image, ImageError>(before[path]) && after == before
        && asked_after == asked_before
    &&& !before.contains_key(path) ==> asked_after == asked_before.push((path, scaling, filter))
    &&& r matches Ok(img) ==> after == before.insert(path, img)
    &&& r is Err ==> after == before && !before.contains_key(path)
}

/// A run of `paths.len()` loads on one cache and one source: step `s` loads
/// `paths[s]` with `scalings[s]` and `filters[s]`, takes the cache from
/// `states[s]` to `states[s + 1]` and the request log from `logs[s]` to
/// `logs[s + 1]`, and answers `results[s]`.
pub open spec fn load_run(
    states: Seq<Map<Seq<char>, Image>>,
    paths: Seq<Seq<char>>,
    scalings: Seq<Scaling>,
    filters: Seq<Filter>,
    results: Seq<Result<Image, ImageError>>,
    logs: Seq<Seq<Request>>,
) -> bool {
    &&& states.len() == paths.len() + 1
    &&& logs.len() == paths.len() + 1
    &&& scalings.len() == paths.len()
    &&& filters.len() == paths.len()
    &&& results.len() == paths.len()
    &&& forall|s: int|
        0 <= s < paths.len() ==> load_post(
            #[trigger] states[s],
            states[s + 1],
            paths[s],
            scalings[s],
            filters[s],
            results[s],
            logs[s],
            logs[s + 1],
        )
}

proof fn lemma_entries_map(entries: Seq<(String, Image)>)
    requires
        distinct_keys(entries),
    ensures
        forall|k: Seq<char>|
            #[trigger] entries_map(entries).contains_key(k) <==> exists|i: int|
                0 <= i < entries.len() && entries[i].0@ == k,
        forall|i: int|
            0 <= i < entries.len() ==> #[trigger] entries_map(entries)[entries[i].0@]
                == entries[i].1,
    decreases entries.len(),
{
    if entries.len() > 0 {
        let rest = entries.drop_last();
        lemma_entries_map(rest);
        let n = entries.len() - 1;
        assert(entries_map(entries) == entries_map(rest).insert(entries[n].0@, entries[n].1));
        assert forall|k: Seq<char>| #[trigger]
            entries_map(entries).contains_key(k) implies exists|i: int|
                0 <= i < entries.len() && entries[i].0@ == k by {
            if k != entries[n].0@ {
                assert(entries_map(rest).contains_key(k));
                let i = choose|i: int| 0 <= i < rest.len() && rest[i].0@ == k;
                assert(entries[i] == rest[i]);
            }
        }
        assert forall|i: int| 0 <= i < entries.len() implies #[trigger] entries_map(
            entries,
        )[entries[i].0@] == entries[i].1 by {
            if i < n {
                assert(rest[i] == entries[i]);
            }
        }
        assert forall|k: Seq<char>|
            (exists|i: int| 0 <= i < entries.len() && entries[i].0@ == k) implies #[trigger]
            entries_map(entries).contains_key(k) by {
            let i = choose|i: int| 0 <= i < entries.len() && entries[i].0@ == k;
            if i < n {
                assert(rest[i] == entries[i]);
            }
        }
    }
}

/// Once a load of a path has succeeded, a second load of it answers the same
/// image whatever scaling and filter it asks for, changes nothing and asks the
/// source for nothing.
pub proof fn lemma_repeat_load_hits(
    c0: Map<Seq<char>, Image>,
    c1: Map<Seq<char>, Image>,
    c2: Map<Seq<char>, Image>,
    path: Seq<char>,
    s1: Scaling,
    f1: Filter,
    s2: Scaling,
    f2: Filter,
    r1: Result<Image, ImageError>,
    r2: Result<Image, ImageError>,
    l0: Seq<Request>,
    l1: Seq<Request>,
    l2: Seq<Request>,
)
    requires
        load_post(c0, c1, path, s1, f1, r1, l0, l1),
        r1 is Ok,
        load_post(c1, c2, path, s2, f2, r2, l1, l2),
    ensures
        r2 == r1,
        c2 == c1,
        l2 == l1,
{
}

/// Along a run of loads, once the load at step `i` has succeeded, the entry it
/// answered stays cached unchanged at every later step `k`.
proof fn lemma_entry_persists(
    states: Seq<Map<Seq<char>, Image>>,
    paths: Seq<Seq<char>>,
    scalings: Seq<Scaling>,
    filters: Seq<Filter>,
    results: Seq<Result<Image, ImageError>>,
    logs: Seq<Seq<Request>>,
    i: int,
    k: int,
)
    requires
        load_run(states, paths, scalings, filters, results, logs),
        0 <= i < k <= paths.len(),
        results[i] is Ok,
    ensures
        states[k].contains_key(paths[i]),
        Ok::<Image, ImageError>(states[k][paths[i]]) == results[i],
    decreases k - i,
{
    if k > i + 1 {
        lemma_entry_persists(states, paths, scalings, filters, results, logs, i, k - 1);
        assert(load_post(
            states[k - 1],
            states[k],
            paths[k - 1],
            scalings[k - 1],
            filters[k - 1],
            results[k - 1],
            logs[k - 1],
            logs[k],
        ));
    } else {
        assert(load_post(
            states[i],
            states[i + 1],
            paths[i],
            scalings[i],
            filters[i],
            results[i],
            logs[i],
            logs[i + 1],
        ));
    }
}

/// Along any run of loads, where the load at step `i` succeeded, every later
/// load of the same path, with whatever scaling and filter and whatever loads
/// in between, is a hit: it answers the same image, changes nothing and asks
/// the source for nothing.
pub proof fn lemma_rendered_once(
    states: Seq<Map<Seq<char>, Image>>,
    paths: Seq<Seq<char>>,
    scalings: Seq<Scaling>,
    filters: Seq<Filter>,
    results: Seq<Result<Image, ImageError>>,
    logs: Seq<Seq<Request>>,
    i: int,
    j: int,
)
    requires
        load_run(states, paths, scalings, filters, results, logs),
        0 <= i < j < paths.len(),
        paths[i] == paths[j],
        results[i] is Ok,
    ensures
        states[j].contains_key(paths[j]),
        results[j] == results[i],
        states[j + 1] == states[j],
        logs[j + 1] == logs[j],
{
    lemma_entry_persists(states, paths, scalings, filters, results, logs, i, j);
    assert(load_post(
        states[j],
        states[j + 1],
        paths[j],
        scalings[j],
        filters[j],
        results[j],
        logs[j],
        logs[j + 1],
    ));
}

/// In a run of loads of one path `p` that is not cached at the start and whose
/// first load succeeds, the source is asked exactly once, by the first load and
/// with its scaling and filter, and every load answers the same image.
pub proof fn lemma_single_render(
    states: Seq<Map<Seq<char>, Image>>,
    paths: Seq<Seq<char>>,
    scalings: Seq<Scaling>,
    filters: Seq<Filter>,
    results: Seq<Result<Image, ImageError>>,
    logs: Seq<Seq<Request>>,
    p: Seq<char>,
    n: int,
)
    requires
        load_run(states, paths, scalings, filters, results, logs),
        1 <= n <= paths.len(),
        forall|k: int| 0 <= k < n ==> paths[k] == p,
        !states[0].contains_key(p),
        results[0] is Ok,
    ensures
        logs[n] == logs[0].push((p, scalings[0], filters[0])),
        forall|k: int| 0 <= k < n ==> #[trigger] results[k] == results[0],
    decreases n,
{
    assert(load_post(
        states[0],
        states[1],
        paths[0],
        scalings[0],
        filters[0],
        results[0],
        logs[0],
        logs[1],
    ));
    if n > 1 {
        lemma_single_render(states, paths, scalings, filters, results, logs, p, n - 1);
        lemma_rendered_once(states, paths, scalings, filters, results, logs, 0, n - 1);
    }
}

/// A failed load caches nothing: the cache is as it was and holds no entry for
/// the path. The next load of the path asks the source again, with its own
/// scaling and filter, and caches the image that comes back, if any.
pub proof fn lemma_failure_not_cached(
    c0: Map<Seq<char>, Image>,
    c1: Map<Seq<char>, Image>,
    c2: Map<Seq<char>, Image>,
    path: Seq<char>,
    s1: Scaling,
    f1: Filter,
    s2: Scaling,
    f2: Filter,
    r1: Result<Image, ImageError>,
    r2: Result<Image, ImageError>,
    l0: Seq<Request>,
    l1: Seq<Request>,
    l2: Seq<Request>,
)
    requires
        load_post(c0, c1, path, s1, f1, r1, l0, l1),
        r1 is Err,
        load_post(c1, c2, path, s2, f2, r2, l1, l2),
    ensures
        c1 == c0,
        !c1.contains_key(path),
        l1 == l0.push((path, s1, f1)),
        l2 == l1.push((path, s2, f2)),
        r2 matches Ok(img) ==> c2 == c1.insert(path, img),
        r2 is Err ==> c2 == c1,
{
}

impl View for ResourceLoader {
    type V = Map<Seq<char>, Image>;

    closed spec fn view(&self) -> Map<Seq<char>, Image> {
        entries_map(self.loaded@)
    }
}

impl ResourceLoader {
    /// The cache's own consistency: each path has at most one entry.
    pub closed spec fn wf(&self) -> bool {
        distinct_keys(self.loaded@)
    }

    /// An empty cache.
    pub fn new() -> (r: Self)
        ensures
            r.wf(),
            r@ == Map::<Seq<char>, Image>::empty(),
    {
        ResourceLoader { loaded: Vec::new() }
    }

    /// The index of the entry for `path`, if there is one.
    fn position(&self, path: &String) -> (r: Option<usize>)
        requires
            self.wf(),
        ensures
            r matches Some(i) ==> i < self.loaded@.len() && self.loaded@[i as int].0@ == path@,
            r is None ==> forall|i: int|
                0 <= i < self.loaded@.len() ==> self.loaded@[i].0@ != path@,
    {
        let mut i: usize = 0;
        while i < self.loaded.len()
            invariant
                i <= self.loaded@.len(),
                forall|j: int| 0 <= j < i ==> self.loaded@[j].0@ != path@,
            decreases self.loaded@.len() - i,
        {
            if self.loaded[i].0 == *path {
                return Some(i);
            }
            i = i + 1;
        }
        Option::None
    }

    /// Whether an image is cached for `path`.
    pub fn contains(&self, path: &str) -> (r: bool)
        requires
            self.wf(),
        ensures
            r == self@.contains_key(path@),
    {
        proof {
            lemma_entries_map(self.loaded@);
        }
        let key = path.to_owned();
        match self.position(&key) {
            Some(_) => true,
            Option::None => false,
        }
    }

    /// Completes a load of `path` whose renderer gave `rendered`: on a hit the
    /// cached image is answered and `rendered` is ignored; on a miss a rendered
    /// image is cached and answered, and a failure is answered with nothing
    /// cached.
    pub fn store(&mut self, path: &str, rendered: Result<Image, ImageError>) -> (r: Result<
        &Image,
        ImageError,
    >)
        requires
            old(self).wf(),
        ensures
            final(self).wf(),
            final(self)@ == stored(old(self)@, path@, rendered),
            owned(r) == answer(old(self)@, path@, rendered),
            r matches Ok(img) ==> *img == final(self)@[path@],
    {
        proof {
            lemma_entries_map(self.loaded@);
        }
        let key = path.to_owned();
        match self.position(&key) {
            Some(i) => Ok(&self.loaded[i].1),
            Option::None => match rendered {
                Ok(img) => {
                    let ghost before = self.loaded@;
                    self.loaded.push((key, img));
                    proof {
                        assert(self.loaded@.drop_last() =~= before);
                        assert(distinct_keys(self.loaded@));
                        lemma_entries_map(self.loaded@);
                    }
                    let last = self.loaded.len() - 1;
                    Ok(&self.loaded[last].1)
                },
                Err(e) => Err(e),
            },
        }
    }

    /// The image for `path`, rendered by `source` with `scaling` and `filter`
    /// on the first successful load of `path` only.
    ///
    /// A hit answers the cached image, ignores `scaling` and `filter`, and
    /// leaves `source` untouched. A miss asks `source` once, for `path` with
    /// `scaling` and `filter`: its image is cached and answered, its error is
    /// answered and nothing is cached.
    pub fn load<S: ImageSource>(
        &mut self,
        source: &mut S,
        path: &str,
        scaling: Scaling,
        filter: Filter,
    ) -> (r: Result<&Image, ImageError>)
        requires
            old(self).wf(),
        ensures
            final(self).wf(),
            load_post(
                old(self)@,
                final(self)@,
                path@,
                scaling,
                filter,
                owned(r),
                old(source).requests(),
                final(source).requests(),
            ),
            old(self)@.contains_key(path@) ==> *final(source) == *old(source),
    {
        proof {
            lemma_entries_map(self.loaded@);
        }
        let key = path.to_owned();
        if let Some(i) = self.position(&key) {
            proof {
                assert(self@ =~= old(self)@.insert(path@, self.loaded@[i as int].1));
            }
            return Ok(&self.loaded[i].1);
        }
        let rendered = source.render(path, scaling, filter);
        self.store(path, rendered)
    }
}

} // verus!
