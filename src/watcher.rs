use vstd::prelude::*;
use vstd::string::StringSliceAdditionalSpecFns;
use crate::color::Color;
use crate::mapper::{ClassMapper, StyleError};
use crate::parser::{css_color, parse_color_bytes};
use crate::styles::{CssClass, CssClassView};
use crate::text::same_text;

verus! {

/// One element of the observed document, read during a scan: the watched
/// class it was found under, its stable identity, and its raw style value.
#[derive(Debug, Clone)]
pub struct ElementSample {
    pub class_name: String,
    pub element_id: u64,
    pub raw_value: String,
}

/// What a sample holds, with its text as characters.
pub struct SampleView {
    pub class_name: Seq<char>,
    pub element_id: u64,
    pub raw_value: Seq<char>,
}

impl View for ElementSample {
    type V = SampleView;

    open spec fn view(&self) -> SampleView {
        SampleView {
            class_name: self.class_name@,
            element_id: self.element_id,
            raw_value: self.raw_value@,
        }
    }
}

/// The views of a list of samples.
pub open spec fn sample_views(samples: Seq<ElementSample>) -> Seq<SampleView> {
    samples.map_values(|s: ElementSample| s@)
}

/// The class that a change to `name` installs: its colour alone, every other
/// slot empty, since installing replaces the whole class.
pub open spec fn class_with_color(name: Seq<char>, color: Color) -> CssClassView {
    CssClassView { name, color: Some(color), background_color: None, border_color: None }
}

/// What a scan works on: the last raw value seen per (class, element), the
/// registry, and whether a class has changed so far.
pub struct ScanState {
    pub cache: Map<(Seq<char>, u64), Seq<char>>,
    pub registry: Map<Seq<char>, CssClassView>,
    pub changed: bool,
}

/// One sample's effect. Samples of unwatched classes and empty values are
/// skipped. A value equal to the cached one is no change. Otherwise the
/// cache takes the value, even when it does not parse; when it parses, the
/// class is replaced by one holding that colour and the scan has changed.
pub open spec fn scan_step(st: ScanState, watched: Seq<Seq<char>>, s: SampleView) -> ScanState {
    let key = (s.class_name, s.element_id);
    if !watched.contains(s.class_name) || s.raw_value.len() == 0 {
        st
    } else if st.cache.contains_key(key) && st.cache[key] == s.raw_value {
        st
    } else {
        let cache = st.cache.insert(key, s.raw_value);
        match css_color(vstd::utf8::encode_utf8(s.raw_value)) {
            Some(c) => ScanState {
                cache,
                registry: st.registry.insert(s.class_name, class_with_color(s.class_name, c)),
                changed: true,
            },
            None => ScanState { cache, ..st },
        }
    }
}

/// The samples' effects, in order.
pub open spec fn scan(st: ScanState, watched: Seq<Seq<char>>, samples: Seq<SampleView>) -> ScanState
    decreases samples.len(),
{
    if samples.len() == 0 {
        st
    } else {
        scan_step(scan(st, watched, samples.drop_last()), watched, samples.last())
    }
}

/// Whether no two samples are of the same element under the same class.
pub open spec fn distinct_elements(ss: Seq<SampleView>) -> bool {
    forall|i: int, j: int|
        0 <= i < ss.len() && 0 <= j < ss.len() && (#[trigger] ss[i]).class_name == (
        #[trigger] ss[j]).class_name && ss[i].element_id == ss[j].element_id ==> i == j
}

/// Whether `cache` already holds the value of every sample that a scan
/// would look at.
pub open spec fn settled(
    cache: Map<(Seq<char>, u64), Seq<char>>,
    watched: Seq<Seq<char>>,
    ss: Seq<SampleView>,
) -> bool {
    forall|k: int|
        0 <= k < ss.len() && watched.contains(#[trigger] ss[k].class_name) && ss[k].raw_value.len()
            > 0 ==> cache.contains_key((ss[k].class_name, ss[k].element_id)) && cache[(
            ss[k].class_name,
            ss[k].element_id,
        )] == ss[k].raw_value
}

proof fn lemma_scan_settles(st: ScanState, watched: Seq<Seq<char>>, ss: Seq<SampleView>)
    requires
        distinct_elements(ss),
    ensures
        settled(scan(st, watched, ss).cache, watched, ss),
    decreases ss.len(),
{
    if ss.len() > 0 {
        let p = ss.drop_last();
        let n = ss.len() - 1;
        assert(distinct_elements(p)) by {
            assert forall|i: int, j: int|
                0 <= i < p.len() && 0 <= j < p.len() && (#[trigger] p[i]).class_name == (
                #[trigger] p[j]).class_name && p[i].element_id == p[j].element_id implies i == j by {
                assert(p[i] == ss[i] && p[j] == ss[j]);
            }
        }
        lemma_scan_settles(st, watched, p);
        let mid = scan(st, watched, p);
        let out = scan(st, watched, ss);
        assert(out == scan_step(mid, watched, ss[n]));
        assert forall|k: int|
            0 <= k < ss.len() && watched.contains(#[trigger] ss[k].class_name)
                && ss[k].raw_value.len() > 0 implies out.cache.contains_key(
            (ss[k].class_name, ss[k].element_id),
        ) && out.cache[(ss[k].class_name, ss[k].element_id)] == ss[k].raw_value by {
            if k < n {
                assert(p[k] == ss[k]);
                assert((ss[k].class_name, ss[k].element_id) != (ss[n].class_name, ss[n].element_id));
            }
        }
    }
}

proof fn lemma_settled_scan_is_still(st: ScanState, watched: Seq<Seq<char>>, ss: Seq<SampleView>)
    requires
        settled(st.cache, watched, ss),
        !st.changed,
    ensures
        scan(st, watched, ss) == st,
    decreases ss.len(),
{
    if ss.len() > 0 {
        let p = ss.drop_last();
        assert(settled(st.cache, watched, p)) by {
            assert forall|k: int|
                0 <= k < p.len() && watched.contains(#[trigger] p[k].class_name) && p[k].raw_value.len()
                    > 0 implies st.cache.contains_key((p[k].class_name, p[k].element_id)) && st.cache[(
                p[k].class_name,
                p[k].element_id,
            )] == p[k].raw_value by {
                assert(p[k] == ss[k]);
            }
        }
        lemma_settled_scan_is_still(st, watched, p);
        assert(ss.last() == ss[ss.len() - 1]);
    }
}

/// Scanning again values that have not changed since the last scan reports
/// no change and leaves the cache and the registry as they were, provided
/// the scan sees each element of a class once.
pub proof fn lemma_rescan_unchanged(
    cache: Map<(Seq<char>, u64), Seq<char>>,
    registry: Map<Seq<char>, CssClassView>,
    watched: Seq<Seq<char>>,
    ss: Seq<SampleView>,
)
    requires
        distinct_elements(ss),
    ensures
        ({
            let first = scan(ScanState { cache, registry, changed: false }, watched, ss);
            let second = scan(
                ScanState { cache: first.cache, registry: first.registry, changed: false },
                watched,
                ss,
            );
            &&& !second.changed
            &&& second.cache == first.cache
            &&& second.registry == first.registry
        }),
{
    let first = scan(ScanState { cache, registry, changed: false }, watched, ss);
    lemma_scan_settles(ScanState { cache, registry, changed: false }, watched, ss);
    lemma_settled_scan_is_still(
        ScanState { cache: first.cache, registry: first.registry, changed: false },
        watched,
        ss,
    );
}

struct CacheEntry {
    class_name: String,
    element_id: u64,
    value: String,
}

spec fn key_at(cache: Seq<CacheEntry>, i: int) -> (Seq<char>, u64) {
    (cache[i].class_name@, cache[i].element_id)
}

spec fn keys_unique(cache: Seq<CacheEntry>) -> bool {
    forall|i: int, j: int|
        0 <= i < cache.len() && 0 <= j < cache.len() && #[trigger] key_at(cache, i) == #[trigger] key_at(
            cache,
            j,
        ) ==> i == j
}

spec fn holds(cache: Seq<CacheEntry>, k: (Seq<char>, u64)) -> bool {
    exists|i: int| 0 <= i < cache.len() && #[trigger] key_at(cache, i) == k
}

spec fn index_of(cache: Seq<CacheEntry>, k: (Seq<char>, u64)) -> int {
    choose|i: int| 0 <= i < cache.len() && #[trigger] key_at(cache, i) == k
}

spec fn cache_map(cache: Seq<CacheEntry>) -> Map<(Seq<char>, u64), Seq<char>> {
    Map::new(|k: (Seq<char>, u64)| holds(cache, k), |k: (Seq<char>, u64)| cache[index_of(cache, k)].value@)
}

proof fn lemma_entry(cache: Seq<CacheEntry>, i: int)
    requires
        keys_unique(cache),
        0 <= i < cache.len(),
    ensures
        cache_map(cache).contains_key(key_at(cache, i)),
        cache_map(cache)[key_at(cache, i)] == cache[i].value@,
{
    let k = key_at(cache, i);
    assert(holds(cache, k));
    let j = index_of(cache, k);
    assert(key_at(cache, j) == k);
}

/// What a watcher holds.
pub struct WatcherView {
    pub watched: Seq<Seq<char>>,
    pub cache: Map<(Seq<char>, u64), Seq<char>>,
    pub watching: bool,
}

/// Detects changes in raw style values of watched classes and folds them
/// into a class registry. The caller reads the document: it enumerates the
/// elements of each watched class, gives each a stable id, and hands the
/// samples in; it also owns the listener, which it notifies once whenever a
/// scan reports a change.
pub struct CssWatcher {
    watched_classes: Vec<String>,
    cache: Vec<CacheEntry>,
    watching: bool,
}

impl CssWatcher {
    /// Well-formedness: one cache entry per (class, element).
    pub closed spec fn wf(&self) -> bool {
        keys_unique(self.cache@)
    }

    pub closed spec fn view(&self) -> WatcherView {
        WatcherView {
            watched: self.watched_classes@.map_values(|s: String| s@),
            cache: cache_map(self.cache@),
            watching: self.watching,
        }
    }

    /// A stopped watcher with nothing watched and nothing seen.
    pub fn new() -> (w: CssWatcher)
        ensures
            w.wf(),
            w@.watched == Seq::<Seq<char>>::empty(),
            w@.cache == Map::<(Seq<char>, u64), Seq<char>>::empty(),
            !w@.watching,
    {
        let w = CssWatcher { watched_classes: Vec::new(), cache: Vec::new(), watching: false };
        assert(w@.watched =~= Seq::<Seq<char>>::empty());
        assert(w@.cache =~= Map::<(Seq<char>, u64), Seq<char>>::empty());
        w
    }

    /// Adds `class_name` to the watched classes.
    pub fn watch_class(&mut self, class_name: &str)
        requires
            old(self).wf(),
        ensures
            final(self).wf(),
            final(self)@ == (WatcherView { watched: old(self)@.watched.push(class_name@), ..old(self)@ }),
    {
        broadcast use vstd::string::to_string_from_display_ensures_for_str;

        let ghost before = self.watched_classes@;
        self.watched_classes.push(class_name.to_string());
        assert(self.watched_classes@.map_values(|s: String| s@) =~= before.map_values(
            |s: String| s@,
        ).push(class_name@));
    }

    /// The watched classes, in the order they were added.
    pub fn watched_classes(&self) -> (r: &[String])
        ensures
            r@.map_values(|s: String| s@) == self@.watched,
    {
        self.watched_classes.as_slice()
    }

    pub fn is_watching(&self) -> (b: bool)
        ensures
            b == self@.watching,
    {
        self.watching
    }

    /// Scans `samples` in order (see `scan`), updating the cache and
    /// `mapper`, and reports whether any class changed. The caller notifies
    /// its listener once when it did, however many changes the scan found.
    pub fn rescan(&mut self, mapper: &mut ClassMapper, samples: &Vec<ElementSample>) -> (changed: bool)
        requires
            old(self).wf(),
            old(mapper).wf(),
        ensures
            final(self).wf(),
            final(mapper).wf(),
            ({
                let st = scan(
                    ScanState { cache: old(self)@.cache, registry: old(mapper)@, changed: false },
                    old(self)@.watched,
                    sample_views(samples@),
                );
                &&& final(self)@ == (WatcherView { cache: st.cache, ..old(self)@ })
                &&& final(mapper)@ == st.registry
                &&& changed == st.changed
            }),
    {
        let ghost init = ScanState { cache: self@.cache, registry: mapper@, changed: false };
        let ghost watched = self@.watched;
        let ghost views = sample_views(samples@);
        let mut changed = false;
        let mut i: usize = 0;
        assert(views.take(0) =~= Seq::<SampleView>::empty());
        while i < samples.len()
            invariant
                i <= samples@.len() == views.len(),
                views == sample_views(samples@),
                watched == old(self)@.watched,
                self.wf(),
                mapper.wf(),
                ({
                    let st = scan(init, watched, views.take(i as int));
                    &&& self@ == (WatcherView { cache: st.cache, ..old(self)@ })
                    &&& mapper@ == st.registry
                    &&& changed == st.changed
                }),
            decreases samples@.len() - i,
        {
            let smp = &samples[i];
            let ghost prev = scan(init, watched, views.take(i as int));
            proof {
                assert(views.take(i + 1).drop_last() =~= views.take(i as int));
                assert(views.take(i + 1).last() == smp@);
                assert(prev == ScanState { cache: self@.cache, registry: mapper@, changed });
            }
            changed = self.scan_one(mapper, smp, changed);
            assert(scan(init, watched, views.take(i + 1)) == scan_step(prev, watched, smp@));
            i = i + 1;
        }
        assert(views.take(i as int) =~= views);
        changed
    }

    /// One sample's effect; see `scan_step`.
    fn scan_one(&mut self, mapper: &mut ClassMapper, smp: &ElementSample, changed: bool) -> (r: bool)
        requires
            old(self).wf(),
            old(mapper).wf(),
        ensures
            final(self).wf(),
            final(mapper).wf(),
            ({
                let st = scan_step(
                    ScanState { cache: old(self)@.cache, registry: old(mapper)@, changed },
                    old(self)@.watched,
                    smp@,
                );
                &&& final(self)@ == (WatcherView { cache: st.cache, ..old(self)@ })
                &&& final(mapper)@ == st.registry
                &&& r == st.changed
            }),
    {
        let ghost key = (smp.class_name@, smp.element_id);
        if !self.is_watched(smp.class_name.as_str()) || smp.raw_value.as_str().is_empty() {
            return changed;
        }
        let same = match self.cache_find(smp.class_name.as_str(), smp.element_id) {
            Some(j) => {
                proof {
                    lemma_entry(self.cache@, j as int);
                }
                same_text(self.cache[j].value.as_str(), smp.raw_value.as_str())
            },
            None => false,
        };
        if same {
            return changed;
        }
        self.cache_put(&smp.class_name, smp.element_id, &smp.raw_value);
        let bytes = smp.raw_value.as_str().as_bytes();
        assert(bytes@ == vstd::utf8::encode_utf8(smp.raw_value@));
        match parse_color_bytes(bytes) {
            Some(c) => {
                let name = smp.class_name.clone();
                let class = CssClass::new(name).with_color(c);
                mapper.add_class(class);
                true
            },
            None => changed,
        }
    }

    /// Starts watching: one full scan of `source` seeds the cache and the
    /// registry before any notification is awaited. With no source (the
    /// document cannot be reached) nothing changes and the error says so.
    pub fn start(&mut self, mapper: &mut ClassMapper, source: Option<&Vec<ElementSample>>) -> (r:
        Result<bool, StyleError>)
        requires
            old(self).wf(),
            old(mapper).wf(),
        ensures
            final(self).wf(),
            final(mapper).wf(),
            r is Err <==> source is None,
            r is Err ==> (r matches Err(StyleError::DomAccessFailed)) && final(self)@ == old(self)@
                && final(mapper)@ == old(mapper)@,
            source matches Some(samples) ==> ({
                let st = scan(
                    ScanState { cache: old(self)@.cache, registry: old(mapper)@, changed: false },
                    old(self)@.watched,
                    sample_views(samples@),
                );
                &&& final(self)@ == (WatcherView { cache: st.cache, watching: true, ..old(self)@ })
                &&& final(mapper)@ == st.registry
                &&& r == Ok::<bool, StyleError>(st.changed)
            }),
    {
        match source {
            Some(samples) => {
                self.watching = true;
                let changed = self.rescan(mapper, samples);
                Ok(changed)
            },
            None => Err(StyleError::DomAccessFailed),
        }
    }

    /// Stops watching. The cache is kept, so a later start does not report
    /// values already seen as changes.
    pub fn stop(&mut self)
        requires
            old(self).wf(),
        ensures
            final(self).wf(),
            final(self)@ == (WatcherView { watching: false, ..old(self)@ }),
    {
        self.watching = false;
    }

    fn is_watched(&self, name: &str) -> (r: bool)
        ensures
            r == self@.watched.contains(name@),
    {
        let ghost names = self@.watched;
        let mut i: usize = 0;
        while i < self.watched_classes.len()
            invariant
                i <= self.watched_classes@.len() == names.len(),
                names == self.watched_classes@.map_values(|s: String| s@),
                forall|k: int| 0 <= k < i ==> names[k] != name@,
            decreases self.watched_classes@.len() - i,
        {
            if same_text(self.watched_classes[i].as_str(), name) {
                assert(names[i as int] == name@);
                return true;
            }
            i = i + 1;
        }
        false
    }

    fn cache_find(&self, class_name: &str, element_id: u64) -> (r: Option<usize>)
        ensures
            r matches Some(i) ==> i < self.cache@.len() && key_at(self.cache@, i as int) == (
                class_name@,
                element_id,
            ),
            r is None ==> !holds(self.cache@, (class_name@, element_id)),
    {
        let mut i: usize = 0;
        while i < self.cache.len()
            invariant
                i <= self.cache@.len(),
                forall|k: int| 0 <= k < i ==> #[trigger] key_at(self.cache@, k) != (class_name@, element_id),
            decreases self.cache@.len() - i,
        {
            if self.cache[i].element_id == element_id && same_text(
                self.cache[i].class_name.as_str(),
                class_name,
            ) {
                return Some(i);
            }
            i = i + 1;
        }
        None
    }

    fn cache_put(&mut self, class_name: &String, element_id: u64, value: &String)
        requires
            old(self).wf(),
        ensures
            final(self).wf(),
            final(self)@ == (WatcherView {
                cache: old(self)@.cache.insert((class_name@, element_id), value@),
                ..old(self)@
            }),
    {
        let ghost before = *self;
        let ghost key = (class_name@, element_id);
        let entry = CacheEntry { class_name: class_name.clone(), element_id, value: value.clone() };
        let ghost mut pos: int = 0;
        match self.cache_find(class_name.as_str(), element_id) {
            Some(i) => {
                self.cache.set(i, entry);
                proof {
                    pos = i as int;
                    assert forall|a: int, b: int|
                        0 <= a < self.cache.len() && 0 <= b < self.cache.len()
                            && #[trigger] key_at(self.cache@, a) == #[trigger] key_at(self.cache@, b) implies a == b by {
                        assert(key_at(before.cache@, a) == key_at(self.cache@, a));
                        assert(key_at(before.cache@, b) == key_at(self.cache@, b));
                    }
                }
            },
            None => {
                self.cache.push(entry);
                proof {
                    pos = before.cache.len() as int;
                    let len = before.cache.len() as int;
                    assert forall|a: int, b: int|
                        0 <= a < self.cache.len() && 0 <= b < self.cache.len()
                            && #[trigger] key_at(self.cache@, a) == #[trigger] key_at(self.cache@, b) implies a == b by {
                        if a < len && b == len {
                            assert(key_at(before.cache@, a) == key);
                        }
                        if b < len && a == len {
                            assert(key_at(before.cache@, b) == key);
                        }
                        if a < len && b < len {
                            assert(key_at(before.cache@, a) == key_at(self.cache@, a));
                            assert(key_at(before.cache@, b) == key_at(self.cache@, b));
                        }
                    }
                }
            },
        }
        proof {
            let target = before@.cache.insert(key, value@);
            assert forall|k: (Seq<char>, u64)| #[trigger] self@.cache.contains_key(k)
                == target.contains_key(k) && (self@.cache.contains_key(k) ==> self@.cache[k]
                == target[k]) by {
                if k == key {
                    assert(key_at(self.cache@, pos) == key);
                    lemma_entry(self.cache@, pos);
                } else {
                    if holds(self.cache@, k) {
                        let i = index_of(self.cache@, k);
                        lemma_entry(self.cache@, i);
                        assert(i != pos);
                        assert(before.cache@[i] == self.cache@[i]);
                        assert(key_at(before.cache@, i) == key_at(self.cache@, i));
                        lemma_entry(before.cache@, i);
                    }
                    if holds(before.cache@, k) {
                        let i = index_of(before.cache@, k);
                        lemma_entry(before.cache@, i);
                        assert(i != pos);
                        assert(before.cache@[i] == self.cache@[i]);
                        assert(key_at(before.cache@, i) == key_at(self.cache@, i));
                        lemma_entry(self.cache@, i);
                    }
                }
            }
            assert(self@.cache =~= target);
            assert(self@.watched =~= before@.watched);
        }
    }
}

} // verus!
