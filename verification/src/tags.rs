//! Meta information passed along with error reports and metrics.
use vstd::prelude::*;

use crate::strmap::StrMap;
use crate::text::{copy_str, lemma_take_to_set};
use crate::user_agent::get_device_info;

verus! {

/// Tags are a set of meta information passed along with error reports and metrics.
///
/// `tags` go to both reports and metrics, `extra` only to error reports, and
/// `metric` only to metrics.
#[derive(Debug)]
pub struct Tags {
    /// All tags (both metric and error report)
    pub tags: StrMap<String>,
    /// Error report only "extra" data.
    pub extra: StrMap<String>,
    /// Metric only supplemental tags.
    pub metric: StrMap<String>,
}

/// The views of the values of a text map.
pub open spec fn str_values(m: Map<Seq<char>, String>) -> Map<Seq<char>, Seq<char>> {
    m.map_values(|v: String| v@)
}

/// `m` with `key` set to `value`; an empty value is not recorded.
pub open spec fn with_entry(m: Map<Seq<char>, Seq<char>>, key: Seq<char>, value: Seq<char>) -> Map<
    Seq<char>,
    Seq<char>,
> {
    if value.len() == 0 {
        m
    } else {
        m.insert(key, value)
    }
}

/// What a set of tags holds: the tags, the extra data and the metric-only tags, by key.
pub struct TagsView {
    pub tags: Map<Seq<char>, Seq<char>>,
    pub extra: Map<Seq<char>, Seq<char>>,
    pub metric: Map<Seq<char>, Seq<char>>,
}

impl View for Tags {
    type V = TagsView;

    open spec fn view(&self) -> TagsView {
        TagsView { tags: self.tag_map(), extra: self.extra_map(), metric: self.metric_map() }
    }
}

impl Tags {
    /// The tags, by key.
    pub open spec fn tag_map(&self) -> Map<Seq<char>, Seq<char>> {
        str_values(self.tags@)
    }

    /// The extra data, by key.
    pub open spec fn extra_map(&self) -> Map<Seq<char>, Seq<char>> {
        str_values(self.extra@)
    }

    /// The metric-only tags, by key.
    pub open spec fn metric_map(&self) -> Map<Seq<char>, Seq<char>> {
        str_values(self.metric@)
    }

    /// A copy of the tags as they are now.
    pub fn snapshot(&self) -> (r: Tags)
        ensures
            r.tags@ == self.tags@,
            r.extra@ == self.extra@,
            r.metric@ == self.metric@,
    {
        Tags { tags: self.tags.copied(), extra: self.extra.copied(), metric: self.metric.copied() }
    }

    /// Tags with nothing in them.
    pub fn new() -> (r: Tags)
        ensures
            r.tags@ == Map::<Seq<char>, String>::empty(),
            r.extra@ == Map::<Seq<char>, String>::empty(),
            r.metric@ == Map::<Seq<char>, String>::empty(),
            r.tag_map() == Map::<Seq<char>, Seq<char>>::empty(),
            r.extra_map() == Map::<Seq<char>, Seq<char>>::empty(),
            r.metric_map() == Map::<Seq<char>, Seq<char>>::empty(),
    {
        let r = Tags { tags: StrMap::new(), extra: StrMap::new(), metric: StrMap::new() };
        assert(r.tag_map() =~= Map::<Seq<char>, Seq<char>>::empty());
        assert(r.extra_map() =~= Map::<Seq<char>, Seq<char>>::empty());
        assert(r.metric_map() =~= Map::<Seq<char>, Seq<char>>::empty());
        r
    }

    /// Tags whose `extra` data is `map`, later pairs overriding earlier ones with the same key.
    pub fn from_extra(map: Vec<(&'static str, String)>) -> (r: Tags)
        ensures
            r.tag_map() == Map::<Seq<char>, Seq<char>>::empty(),
            r.metric_map() == Map::<Seq<char>, Seq<char>>::empty(),
            r.extra_map() == pairs_map(map@),
    {
        let mut r = Tags::new();
        let mut i: usize = 0;
        while i < map.len()
            invariant
                i <= map@.len(),
                r.tag_map() == Map::<Seq<char>, Seq<char>>::empty(),
                r.metric_map() == Map::<Seq<char>, Seq<char>>::empty(),
                r.extra_map() == pairs_map(map@.take(i as int)),
            decreases map@.len() - i,
        {
            let key = copy_str(map[i].0);
            let value = map[i].1.clone();
            let ghost before = r.extra@;
            r.extra.insert(key, value);
            assert(map@.take(i + 1).drop_last() =~= map@.take(i as int));
            assert(r.extra_map() =~= str_values(before).insert(map@[i as int].0@, map@[i as int].1@));
            i = i + 1;
        }
        assert(map@.take(map@.len() as int) =~= map@);
        r
    }

    /// Tags made of `tags`, with no extra data and no metric-only tags.
    pub fn with_tags(tags: StrMap<String>) -> (r: Tags)
        ensures
            r.tags@ == tags@,
            r.extra_map() == Map::<Seq<char>, Seq<char>>::empty(),
            r.metric_map() == Map::<Seq<char>, Seq<char>>::empty(),
    {
        if tags.is_empty() {
            return Tags::new();
        }
        let r = Tags { tags, extra: StrMap::new(), metric: StrMap::new() };
        assert(r.extra_map() =~= Map::<Seq<char>, Seq<char>>::empty());
        assert(r.metric_map() =~= Map::<Seq<char>, Seq<char>>::empty());
        r
    }

    /// Add an element to the "extra" data; an empty value is not recorded.
    pub fn add_extra(&mut self, key: &str, value: &str)
        ensures
            final(self).extra_map() == with_entry(old(self).extra_map(), key@, value@),
            final(self).tags@ == old(self).tags@,
            final(self).metric@ == old(self).metric@,
    {
        if !value.is_empty() {
            self.extra.insert(copy_str(key), copy_str(value));
            assert(self.extra_map() =~= old(self).extra_map().insert(key@, value@));
        }
    }

    /// Add an element to the "tag" data; an empty value is not recorded.
    pub fn add_tag(&mut self, key: &str, value: &str)
        ensures
            final(self).tag_map() == (if value@.len() == 0 {
                old(self).tag_map()
            } else {
                old(self).tag_map().insert(key@, value@)
            }),
            final(self).extra@ == old(self).extra@,
            final(self).metric@ == old(self).metric@,
    {
        if !value.is_empty() {
            self.tags.insert(copy_str(key), copy_str(value));
            assert(self.tag_map() =~= old(self).tag_map().insert(key@, value@));
        }
    }

    /// Add an element to the "extra" data: non-key storage for error reports, not
    /// distributed to metrics. An empty value is not recorded.
    pub fn add_metric(&mut self, key: &str, value: &str)
        ensures
            final(self).extra_map() == with_entry(old(self).extra_map(), key@, value@),
            final(self).tags@ == old(self).tags@,
            final(self).metric@ == old(self).metric@,
    {
        self.add_extra(key, value);
    }

    /// The value of tag `label`, or the text `None` where there is no such tag.
    pub fn get(&self, label: &str) -> (r: String)
        ensures
            r@ == (if self.tag_map().contains_key(label@) {
                self.tag_map()[label@]
            } else {
                "None"@
            }),
    {
        match self.tags.get(label) {
            Some(v) => v.clone(),
            None => copy_str("None"),
        }
    }

    /// Extend the tag sets with those of `other`; on a shared key the value of `other` wins.
    pub fn extend(&mut self, other: Tags)
        ensures
            final(self).tag_map() == old(self).tag_map().union_prefer_right(other.tag_map()),
            final(self).extra_map() == old(self).extra_map().union_prefer_right(other.extra_map()),
            final(self).metric_map() == old(self).metric_map().union_prefer_right(other.metric_map()),
    {
        let Tags { tags, extra, metric } = other;
        merge_into(&mut self.tags, &tags);
        merge_into(&mut self.extra, &extra);
        merge_into(&mut self.metric, &metric);
    }

    /// The tags as key/value pairs, in the order in which their keys were first set.
    pub fn tag_tree(self) -> (r: Vec<(String, String)>)
        ensures
            pairs_map_owned(r@) == self.tag_map(),
            distinct_pair_keys(r@),
    {
        entries_of(&self.tags)
    }

    /// The tags with a non-empty value, as key/value pairs (what is written out
    /// when the tags are serialised).
    pub fn serializable_tags(&self) -> (r: Vec<(String, String)>)
        ensures
            pairs_map_owned(r@) == Map::new(
                |k: Seq<char>| self.tag_map().contains_key(k) && self.tag_map()[k].len() > 0,
                |k: Seq<char>| self.tag_map()[k],
            ),
            distinct_pair_keys(r@),
    {
        let n = self.tags.len();
        let mut r: Vec<(String, String)> = Vec::new();
        let mut i: usize = 0;
        let ghost keys = self.tags.key_seq();
        let ghost tm = self.tag_map();
        while i < n
            invariant
                n == keys.len(),
                keys == self.tags.key_seq(),
                tm == self.tag_map(),
                keys.no_duplicates(),
                forall|k: Seq<char>| #[trigger] self.tags@.contains_key(k) <==> keys.contains(k),
                forall|j: int| 0 <= j < keys.len() ==> self.tags@[#[trigger] keys[j]] == self.tags.value_at(j),
                i <= n,
                distinct_pair_keys(r@),
                forall|j: int| 0 <= j < r@.len() ==> keys.take(i as int).contains(#[trigger] r@[j].0@),
                pairs_map_owned(r@) == Map::new(
                    |k: Seq<char>| keys.take(i as int).contains(k) && tm[k].len() > 0,
                    |k: Seq<char>| tm[k],
                ),
            decreases n - i,
        {
            let (k, v) = self.tags.entry(i);
            let ghost before = r@;
            proof {
                lemma_take_to_set(keys, i as int);
                assert(tm[keys[i as int]] == v@);
            }
            if !v.as_str().is_empty() {
                r.push((k.clone(), v.clone()));
                proof {
                    assert(!keys.take(i as int).contains(keys[i as int])) by {
                        if keys.take(i as int).contains(keys[i as int]) {
                            let j = choose|j: int| 0 <= j < i && #[trigger] keys.take(i as int)[j] == keys[i as int];
                            assert(keys[j] == keys[i as int]);
                        }
                    }
                    assert(r@.drop_last() =~= before);
                    assert(distinct_pair_keys(r@)) by {
                        assert forall|a: int, b: int| 0 <= a < b < r@.len() implies (#[trigger] r@[a]).0@
                            != (#[trigger] r@[b]).0@ by {
                            if b == r@.len() - 1 {
                                assert(keys.take(i as int).contains(before[a].0@));
                            } else {
                                assert(r@[a] == before[a]);
                                assert(r@[b] == before[b]);
                            }
                        }
                    }
                    assert forall|j: int| 0 <= j < r@.len() implies keys.take(i + 1).contains(#[trigger] r@[j].0@) by {
                        if j < r@.len() - 1 {
                            assert(r@[j] == before[j]);
                        }
                    }
                    assert(pairs_map_owned(r@) =~= Map::new(
                        |k: Seq<char>| keys.take(i + 1).contains(k) && tm[k].len() > 0,
                        |k: Seq<char>| tm[k],
                    ));
                }
            } else {
                proof {
                    assert forall|j: int| 0 <= j < r@.len() implies keys.take(i + 1).contains(#[trigger] r@[j].0@) by {
                    }
                    assert(pairs_map_owned(r@) =~= Map::new(
                        |k: Seq<char>| keys.take(i + 1).contains(k) && tm[k].len() > 0,
                        |k: Seq<char>| tm[k],
                    ));
                }
            }
            i = i + 1;
        }
        proof {
            assert(keys.take(n as int) =~= keys);
            assert(pairs_map_owned(r@) =~= Map::new(
                |k: Seq<char>| self.tag_map().contains_key(k) && self.tag_map()[k].len() > 0,
                |k: Seq<char>| self.tag_map()[k],
            ));
        }
        r
    }

    /// Tags for a request: the operating system family and form factor of the
    /// user agent (where it is a recognised Firefox), the user agent itself and the
    /// trace header value (where present and non-empty) as extra data, the method
    /// as a tag and the URI as extra data.
    pub fn from_request_parts(
        user_agent: Option<&str>,
        trace: Option<&str>,
        method: &str,
        uri: &str,
    ) -> (r: Tags)
        ensures
            r.tag_map().contains_key("uri.method"@),
            r.tag_map()["uri.method"@] == method@,
            r.extra_map().contains_key("uri.path"@),
            r.extra_map()["uri.path"@] == uri@,
            match user_agent {
                Some(ua) => r.extra_map().contains_key("ua"@) && r.extra_map()["ua"@] == ua@,
                None => !r.extra_map().contains_key("ua"@),
            },
            match trace {
                Some(t) => t@.len() > 0 ==> (r.extra_map().contains_key("header.trace"@)
                    && r.extra_map()["header.trace"@] == t@),
                None => !r.extra_map().contains_key("header.trace"@),
            },
    {
        proof {
            reveal_strlit("uri.method");
            reveal_strlit("uri.path");
            reveal_strlit("ua");
            reveal_strlit("header.trace");
            reveal_strlit("ua.os.family");
            reveal_strlit("ua.form_factor");
        }
        let mut tags: StrMap<String> = StrMap::new();
        let mut extra: StrMap<String> = StrMap::new();
        if let Some(ua) = user_agent {
            if let Ok(device_info) = get_device_info(ua) {
                tags.insert(copy_str("ua.os.family"), device_info.os_family.to_string());
                tags.insert(copy_str("ua.form_factor"), device_info.form_factor.to_string());
            }
            let ghost e0 = extra@;
            extra.insert(copy_str("ua"), copy_str(ua));
            proof {
                lemma_str_values_insert(e0, "ua"@, extra@["ua"@]);
            }
        }
        let ghost e1 = extra@;
        if let Some(val) = trace {
            if !val.is_empty() {
                extra.insert(copy_str("header.trace"), copy_str(val));
                proof {
                    lemma_str_values_insert(e1, "header.trace"@, extra@["header.trace"@]);
                }
            }
        }
        let ghost e2 = extra@;
        let ghost t2 = tags@;
        tags.insert(copy_str("uri.method"), copy_str(method));
        extra.insert(copy_str("uri.path"), copy_str(uri));
        proof {
            lemma_str_values_insert(e2, "uri.path"@, extra@["uri.path"@]);
            lemma_str_values_insert(t2, "uri.method"@, tags@["uri.method"@]);
            assert("ua"@.len() != "uri.path"@.len());
            assert("header.trace"@.len() != "uri.path"@.len());
            assert("ua"@.len() != "header.trace"@.len());
        }
        Tags { tags, extra, metric: StrMap::new() }
    }
}

/// The map that a list of borrowed-key pairs denotes, later pairs overriding earlier ones.
pub open spec fn pairs_map(p: Seq<(&'static str, String)>) -> Map<Seq<char>, Seq<char>>
    decreases p.len(),
{
    if p.len() == 0 {
        Map::empty()
    } else {
        pairs_map(p.drop_last()).insert(p.last().0@, p.last().1@)
    }
}

/// The map that a list of owned pairs denotes, later pairs overriding earlier ones.
pub open spec fn pairs_map_owned(p: Seq<(String, String)>) -> Map<Seq<char>, Seq<char>>
    decreases p.len(),
{
    if p.len() == 0 {
        Map::empty()
    } else {
        pairs_map_owned(p.drop_last()).insert(p.last().0@, p.last().1@)
    }
}

/// Whether no key occurs twice in a list of pairs.
pub open spec fn distinct_pair_keys(p: Seq<(String, String)>) -> bool {
    forall|i: int, j: int| 0 <= i < j < p.len() ==> (#[trigger] p[i]).0@ != (#[trigger] p[j]).0@
}

/// The views of a map after an insertion.
pub proof fn lemma_str_values_insert(m: Map<Seq<char>, String>, k: Seq<char>, v: String)
    ensures
        str_values(m.insert(k, v)) == str_values(m).insert(k, v@),
{
    assert(str_values(m.insert(k, v)) =~= str_values(m).insert(k, v@));
}

/// Store every entry of `src` into `dst`, the values of `src` winning.
fn merge_into(dst: &mut StrMap<String>, src: &StrMap<String>)
    ensures
        str_values(final(dst)@) == str_values(old(dst)@).union_prefer_right(str_values(src@)),
{
    let n = src.len();
    let ghost keys = src.key_seq();
    let mut i: usize = 0;
    while i < n
        invariant
            n == keys.len(),
            keys == src.key_seq(),
            forall|k: Seq<char>| #[trigger] src@.contains_key(k) <==> keys.contains(k),
            forall|j: int| 0 <= j < keys.len() ==> src@[#[trigger] keys[j]] == src.value_at(j),
            i <= n,
            str_values(dst@) == str_values(old(dst)@).union_prefer_right(
                str_values(src@).restrict(keys.take(i as int).to_set()),
            ),
        decreases n - i,
    {
        let (k, v) = src.entry(i);
        let ghost before = dst@;
        dst.insert(k.clone(), v.clone());
        proof {
            lemma_str_values_insert(before, k@, *v);
            assert(str_values(src@)[keys[i as int]] == v@);
            lemma_take_to_set(keys, i as int);
            assert(str_values(dst@) =~= str_values(old(dst)@).union_prefer_right(
                str_values(src@).restrict(keys.take(i + 1).to_set()),
            ));
        }
        i = i + 1;
    }
    proof {
        assert(keys.take(n as int) =~= keys);
        assert(str_values(src@).restrict(keys.to_set()) =~= str_values(src@));
    }
}

/// The entries of a text map, in key order.
fn entries_of(m: &StrMap<String>) -> (r: Vec<(String, String)>)
    ensures
        pairs_map_owned(r@) == str_values(m@),
        distinct_pair_keys(r@),
        r@.len() == m.key_seq().len(),
        forall|i: int| 0 <= i < r@.len() ==> (#[trigger] r@[i]).0@ == m.key_seq()[i],
{
    let n = m.len();
    let ghost keys = m.key_seq();
    let mut r: Vec<(String, String)> = Vec::new();
    let mut i: usize = 0;
    while i < n
        invariant
            n == keys.len(),
            keys == m.key_seq(),
            keys.no_duplicates(),
            forall|k: Seq<char>| #[trigger] m@.contains_key(k) <==> keys.contains(k),
            forall|j: int| 0 <= j < keys.len() ==> m@[#[trigger] keys[j]] == m.value_at(j),
            i <= n,
            r@.len() == i,
            forall|j: int| 0 <= j < i ==> (#[trigger] r@[j]).0@ == keys[j],
            distinct_pair_keys(r@),
            pairs_map_owned(r@) == str_values(m@).restrict(keys.take(i as int).to_set()),
        decreases n - i,
    {
        let (k, v) = m.entry(i);
        let ghost before = r@;
        r.push((k.clone(), v.clone()));
        proof {
            assert(r@.drop_last() =~= before);
            lemma_take_to_set(keys, i as int);
            assert(distinct_pair_keys(r@)) by {
                assert forall|a: int, b: int| 0 <= a < b < r@.len() implies (#[trigger] r@[a]).0@ != (
                #[trigger] r@[b]).0@ by {
                    assert(r@[a].0@ == keys[a]);
                    assert(r@[b].0@ == keys[b]);
                }
            }
            assert(pairs_map_owned(r@) =~= str_values(m@).restrict(keys.take(i + 1).to_set()));
        }
        i = i + 1;
    }
    proof {
        assert(keys.take(n as int) =~= keys);
        assert(keys.to_set() =~= m@.dom());
        assert(str_values(m@).restrict(keys.to_set()) =~= str_values(m@));
    }
    r
}

} // verus!
