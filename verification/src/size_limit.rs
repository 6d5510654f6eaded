//! Size limits: on the whole stream, on every field, and on fields by name.

use multer::SizeLimit;
use vstd::prelude::*;

use crate::outside::{limit_by_name, limit_for_field, limit_per_field, limit_whole_stream};

verus! {

/// The limits of a configuration.
#[verifier::ext_equal]
pub struct SizeLimitView {
    /// The limit on the whole stream, if there is one.
    pub whole_stream: Option<u64>,
    /// The limit on each field without a limit of its own, if there is one.
    pub per_field: Option<u64>,
    /// The limits on fields of a given name.
    pub fields: Map<Seq<char>, u64>,
}

/// The configuration that limits nothing.
pub open spec fn no_limits() -> SizeLimitView {
    SizeLimitView { whole_stream: None, per_field: None, fields: Map::empty() }
}

/// The limits that a list of names and limits sets, where a later entry for a
/// name replaces an earlier one.
pub open spec fn limits_map(entries: Seq<(String, u64)>) -> Map<Seq<char>, u64>
    decreases entries.len(),
{
    if entries.len() == 0 {
        Map::empty()
    } else {
        limits_map(entries.drop_last()).insert(entries.last().0@, entries.last().1)
    }
}

/// The limits that the items of a mapping set. An item counts only if its key
/// is a string and its value an unsigned number; a later item for a name
/// replaces an earlier one.
pub open spec fn accepted_limits(items: Seq<(Option<String>, Option<u64>)>) -> Map<Seq<char>, u64>
    decreases items.len(),
{
    if items.len() == 0 {
        Map::empty()
    } else {
        let earlier = accepted_limits(items.drop_last());
        match items.last() {
            (Some(name), Some(limit)) => earlier.insert(name@, limit),
            _ => earlier,
        }
    }
}

/// Whether no name occurs twice.
pub open spec fn distinct_names(entries: Seq<(String, u64)>) -> bool {
    forall|i: int, j: int|
        0 <= i < j < entries.len() ==> #[trigger] entries[i].0@ != #[trigger] entries[j].0@
}

/// The number that stands for an optional limit: the largest `u64` where there
/// is none.
pub open spec fn bound(limit: Option<u64>) -> u64 {
    match limit {
        Some(n) => n,
        None => u64::MAX,
    }
}

/// Whether a `SizeLimit` imposes the limits of a configuration and no others.
pub open spec fn imposes(limit: SizeLimit, config: SizeLimitView) -> bool {
    &&& limit_whole_stream(limit) == bound(config.whole_stream)
    &&& limit_per_field(limit) == bound(config.per_field)
    &&& limit_by_name(limit) == config.fields
}

/// The names in a list are those of the map that it sets, and where none occurs
/// twice each has the limit that stands beside it.
proof fn lemma_limits_map(entries: Seq<(String, u64)>)
    ensures
        forall|name: Seq<char>| #[trigger]
            limits_map(entries).dom().contains(name) <==> exists|i: int|
                0 <= i < entries.len() && #[trigger] entries[i].0@ == name,
        distinct_names(entries) ==> forall|i: int|
            0 <= i < entries.len() ==> limits_map(entries)[#[trigger] entries[i].0@]
                == entries[i].1,
    decreases entries.len(),
{
    if entries.len() > 0 {
        let init = entries.drop_last();
        lemma_limits_map(init);
        let last = entries.len() - 1;
        assert(entries[last] == entries.last());
        assert(forall|i: int| 0 <= i < last ==> #[trigger] init[i] == entries[i]);
        assert forall|name: Seq<char>|
            #[trigger] limits_map(entries).dom().contains(name) implies exists|i: int|
            0 <= i < entries.len() && #[trigger] entries[i].0@ == name by {
            if name != entries[last].0@ {
                assert(limits_map(init).dom().contains(name));
                let i = choose|i: int| 0 <= i < init.len() && #[trigger] init[i].0@ == name;
                assert(entries[i].0@ == name);
            }
        }
        assert forall|name: Seq<char>|
            (exists|i: int| 0 <= i < entries.len() && #[trigger] entries[i].0@ == name)
            implies #[trigger] limits_map(entries).dom().contains(name) by {
            let i = choose|i: int| 0 <= i < entries.len() && #[trigger] entries[i].0@ == name;
            if i < last {
                assert(init[i].0@ == name);
                assert(limits_map(init).dom().contains(name));
            }
        }
        if distinct_names(entries) {
            assert forall|i: int, j: int| 0 <= i < j < init.len() implies #[trigger] init[i].0@
                != #[trigger] init[j].0@ by {
                assert(entries[i].0@ != entries[j].0@);
            }
            assert forall|i: int| 0 <= i < entries.len() implies limits_map(
                entries,
            )[#[trigger] entries[i].0@] == entries[i].1 by {
                if i < last {
                    assert(entries[i].0@ != entries[last].0@);
                    assert(init[i].0@ == entries[i].0@);
                }
            }
        }
    }
}

/// Sets the limit of a name in a list in which no name occurs twice: in place,
/// if the name is there already.
fn set_limit(entries: &mut Vec<(String, u64)>, name: String, limit: u64)
    requires
        distinct_names(old(entries)@),
    ensures
        distinct_names(final(entries)@),
        limits_map(final(entries)@) == limits_map(old(entries)@).insert(name@, limit),
{
    let ghost before = entries@;
    let mut i: usize = 0;
    while i < entries.len()
        invariant
            i <= entries.len(),
            entries@ == before,
            distinct_names(before),
            *old(entries) == *entries,
            forall|j: int| 0 <= j < i ==> #[trigger] before[j].0@ != name@,
        decreases entries.len() - i,
    {
        if entries[i].0 == name {
            entries.set(i, (name, limit));
            proof {
                let after = entries@;
                assert(forall|j: int|
                    0 <= j < after.len() ==> #[trigger] after[j].0@ == before[j].0@);
                lemma_limits_map(before);
                lemma_limits_map(after);
                let wanted = limits_map(before).insert(name@, limit);
                assert forall|n: Seq<char>| limits_map(after).dom().contains(n) implies {
                    wanted.dom().contains(n) && limits_map(after)[n] == wanted[n]
                } by {
                    let j = choose|j: int| 0 <= j < after.len() && #[trigger] after[j].0@ == n;
                    assert(before[j].0@ == n);
                }
                assert forall|n: Seq<char>| wanted.dom().contains(n) implies limits_map(
                    after,
                ).dom().contains(n) by {
                    if n == name@ {
                        assert(after[i as int].0@ == n);
                    } else {
                        let j = choose|j: int|
                            0 <= j < before.len() && #[trigger] before[j].0@ == n;
                        assert(after[j].0@ == n);
                    }
                }
                assert(limits_map(after) =~= wanted);
            }
            return;
        }
        i = i + 1;
    }
    entries.push((name, limit));
    proof {
        assert(entries@.drop_last() =~= before);
    }
}

/// Size limits for a multipart parse: on the whole stream, on every field, and
/// on fields of a given name.
pub struct SizeLimitWrapper {
    whole_stream: Option<u64>,
    per_field: Option<u64>,
    fields: Vec<(String, u64)>,
}

impl View for SizeLimitWrapper {
    type V = SizeLimitView;

    closed spec fn view(&self) -> SizeLimitView {
        SizeLimitView {
            whole_stream: self.whole_stream,
            per_field: self.per_field,
            fields: limits_map(self.fields@),
        }
    }
}

impl SizeLimitWrapper {
    #[verifier::type_invariant]
    closed spec fn wf(self) -> bool {
        distinct_names(self.fields@)
    }

    /// Limits from the arguments of the Python constructor. `fields` holds the
    /// items of the mapping in order: the key, if it is a string, and the
    /// value, if it is an unsigned number. An item that lacks either is passed
    /// over.
    pub fn new(
        whole_stream: Option<u64>,
        per_field: Option<u64>,
        fields: Option<Vec<(Option<String>, Option<u64>)>>,
    ) -> (limits: Self)
        ensures
            limits@.whole_stream == whole_stream,
            limits@.per_field == per_field,
            limits@.fields == match fields {
                Some(items) => accepted_limits(items@),
                None => Map::empty(),
            },
    {
        let mut map: Vec<(String, u64)> = Vec::new();
        if let Some(items) = fields {
            let mut i: usize = 0;
            while i < items.len()
                invariant
                    i <= items.len(),
                    distinct_names(map@),
                    limits_map(map@) == accepted_limits(items@.take(i as int)),
                decreases items.len() - i,
            {
                proof {
                    assert(items@.take(i + 1).drop_last() =~= items@.take(i as int));
                    assert(items@.take(i + 1).last() == items@[i as int]);
                }
                if let (Some(name), Some(limit)) = &items[i] {
                    set_limit(&mut map, name.clone(), *limit);
                }
                i = i + 1;
            }
            assert(items@.take(items.len() as int) =~= items@);
        }
        SizeLimitWrapper { whole_stream, per_field, fields: map }
    }

    /// The limit on the whole stream.
    pub fn whole_stream(&self) -> (limit: Option<u64>)
        ensures
            limit == self@.whole_stream,
    {
        self.whole_stream
    }

    /// The limit on each field without a limit of its own.
    pub fn per_field(&self) -> (limit: Option<u64>)
        ensures
            limit == self@.per_field,
    {
        self.per_field
    }

    /// The limits on fields of a given name, each name once.
    pub fn fields(&self) -> (entries: Vec<(String, u64)>)
        ensures
            distinct_names(entries@),
            limits_map(entries@) == self@.fields,
            forall|i: int, j: int|
                0 <= i < j < entries.len() ==> #[trigger] entries@[i].0@
                    != #[trigger] entries@[j].0@,
            forall|i: int|
                0 <= i < entries.len() ==> self@.fields.dom().contains(
                    #[trigger] entries@[i].0@,
                ) && self@.fields[entries@[i].0@] == entries@[i].1,
            forall|name: Seq<char>| #[trigger]
                self@.fields.dom().contains(name) ==> exists|i: int|
                    0 <= i < entries.len() && #[trigger] entries@[i].0@ == name,
    {
        proof {
            use_type_invariant(self);
        }
        let entries = copy_entries(&self.fields);
        proof {
            lemma_limits_map(entries@);
        }
        entries
    }

    /// The limits in the form in which `multer` takes them.
    pub fn to_size_limit(&self) -> (limit: SizeLimit)
        ensures
            imposes(limit, self@),
            match self@.whole_stream {
                Some(n) => limit_whole_stream(limit) == n,
                None => limit_whole_stream(limit) == 0xffff_ffff_ffff_ffff,
            },
            match self@.per_field {
                Some(n) => limit_per_field(limit) == n,
                None => limit_per_field(limit) == 0xffff_ffff_ffff_ffff,
            },
            limit_by_name(limit) == self@.fields,
    {
        let mut sl = SizeLimit::new();
        if let Some(ws) = self.whole_stream {
            sl = sl.whole_stream(ws);
        }
        if let Some(pf) = self.per_field {
            sl = sl.per_field(pf);
        }
        let mut i: usize = 0;
        while i < self.fields.len()
            invariant
                i <= self.fields.len(),
                limit_whole_stream(sl) == bound(self.whole_stream),
                limit_per_field(sl) == bound(self.per_field),
                limit_by_name(sl) == limits_map(self.fields@.take(i as int)),
            decreases self.fields.len() - i,
        {
            proof {
                assert(self.fields@.take(i + 1).drop_last() =~= self.fields@.take(i as int));
                assert(self.fields@.take(i + 1).last() == self.fields@[i as int]);
            }
            sl = limit_for_field(sl, self.fields[i].0.clone(), self.fields[i].1);
            i = i + 1;
        }
        assert(self.fields@.take(self.fields.len() as int) =~= self.fields@);
        sl
    }
}

impl Clone for SizeLimitWrapper {
    fn clone(&self) -> (copy: Self)
        ensures
            copy@ == self@,
    {
        proof {
            use_type_invariant(self);
        }
        SizeLimitWrapper {
            whole_stream: self.whole_stream,
            per_field: self.per_field,
            fields: copy_entries(&self.fields),
        }
    }
}

/// A list with the same names and limits.
fn copy_entries(entries: &Vec<(String, u64)>) -> (copy: Vec<(String, u64)>)
    ensures
        limits_map(copy@) == limits_map(entries@),
        distinct_names(copy@) == distinct_names(entries@),
{
    let mut copy: Vec<(String, u64)> = Vec::new();
    let mut i: usize = 0;
    while i < entries.len()
        invariant
            i <= entries.len(),
            copy.len() == i,
            forall|j: int|
                0 <= j < i ==> #[trigger] copy@[j].0@ == entries@[j].0@ && copy@[j].1
                    == entries@[j].1,
            limits_map(copy@) == limits_map(entries@.take(i as int)),
        decreases entries.len() - i,
    {
        let ghost before = copy@;
        copy.push((entries[i].0.clone(), entries[i].1));
        proof {
            assert(copy@.drop_last() =~= before);
            assert(entries@.take(i + 1).drop_last() =~= entries@.take(i as int));
            assert(entries@.take(i + 1).last() == entries@[i as int]);
        }
        i = i + 1;
    }
    proof {
        assert(entries@.take(entries.len() as int) =~= entries@);
        if distinct_names(copy@) {
            assert forall|a: int, b: int| 0 <= a < b < entries.len() implies #[trigger] entries@[a].0@
                != #[trigger] entries@[b].0@ by {
                assert(copy@[a].0@ != copy@[b].0@);
            }
        }
    }
    copy
}

/// Whether an item of a mapping sets a limit for a name.
pub open spec fn sets_limit(item: (Option<String>, Option<u64>), name: Seq<char>) -> bool {
    match item {
        (Some(key), Some(_)) => key@ == name,
        _ => false,
    }
}

/// A name has the limit of the last item that sets one for it.
pub proof fn law_last_item_sets_the_limit(
    items: Seq<(Option<String>, Option<u64>)>,
    name: Seq<char>,
    at: int,
)
    requires
        0 <= at < items.len(),
        sets_limit(items[at], name),
        forall|i: int| at < i < items.len() ==> !sets_limit(#[trigger] items[i], name),
    ensures
        accepted_limits(items).dom().contains(name),
        items[at].1 == Some(accepted_limits(items)[name]),
    decreases items.len(),
{
    let last = items.len() - 1;
    if at < last {
        assert(!sets_limit(items[last], name));
        law_last_item_sets_the_limit(items.drop_last(), name, at);
    }
}

/// A name for which no item sets a limit has none.
pub proof fn law_no_item_sets_no_limit(
    items: Seq<(Option<String>, Option<u64>)>,
    name: Seq<char>,
)
    requires
        forall|i: int| 0 <= i < items.len() ==> !sets_limit(#[trigger] items[i], name),
    ensures
        !accepted_limits(items).dom().contains(name),
    decreases items.len(),
{
    if items.len() > 0 {
        assert(!sets_limit(items[items.len() - 1], name));
        assert forall|i: int| 0 <= i < items.len() - 1 implies !sets_limit(
            #[trigger] items.drop_last()[i],
            name,
        ) by {
            assert(!sets_limit(items[i], name));
        }
        law_no_item_sets_no_limit(items.drop_last(), name);
    }
}

/// Limits that are made from the entries that `fields` returns are the same
/// limits.
pub proof fn law_fields_rebuild_the_limits(entries: Seq<(String, u64)>)
    ensures
        accepted_limits(entries.map_values(|e: (String, u64)| (Some(e.0), Some(e.1))))
            == limits_map(entries),
    decreases entries.len(),
{
    let items = entries.map_values(|e: (String, u64)| (Some(e.0), Some(e.1)));
    if entries.len() > 0 {
        law_fields_rebuild_the_limits(entries.drop_last());
        assert(items.drop_last() =~= entries.drop_last().map_values(
            |e: (String, u64)| (Some(e.0), Some(e.1)),
        ));
        assert(items.last() == (Some(entries.last().0), Some(entries.last().1)));
    }
}

/// A limit that is given is the limit that `multer` gets, whatever its size, for
/// the stream, for every field and for each name; a general limit that is not
/// given is the largest `u64`.
pub proof fn law_given_limits_reach_multer(limit: SizeLimit, config: SizeLimitView)
    requires
        imposes(limit, config),
    ensures
        config.whole_stream matches Some(n) ==> limit_whole_stream(limit) == n,
        config.whole_stream is None ==> limit_whole_stream(limit) == 0xffff_ffff_ffff_ffff,
        config.per_field matches Some(n) ==> limit_per_field(limit) == n,
        config.per_field is None ==> limit_per_field(limit) == 0xffff_ffff_ffff_ffff,
        forall|name: Seq<char>| #[trigger]
            limit_by_name(limit).dom().contains(name) <==> config.fields.dom().contains(name),
        forall|name: Seq<char>|
            config.fields.dom().contains(name) ==> #[trigger] limit_by_name(limit)[name]
                == config.fields[name],
{
}

/// Two configurations that reach `multer` alike have the same limits: no limit
/// below the largest `u64` is lost, and none is changed.
pub proof fn law_different_limits_stay_different(
    limit: SizeLimit,
    config: SizeLimitView,
    other: SizeLimitView,
)
    requires
        imposes(limit, config),
        imposes(limit, other),
    ensures
        config.whole_stream matches Some(n) ==> n < 0xffff_ffff_ffff_ffff ==> other.whole_stream
            == Some(n),
        config.per_field matches Some(n) ==> n < 0xffff_ffff_ffff_ffff ==> other.per_field == Some(
            n,
        ),
        config.fields == other.fields,
{
}

/// The configuration that limits nothing gives no limit at all.
pub proof fn law_no_limits_gives_none()
    ensures
        no_limits().whole_stream is None,
        no_limits().per_field is None,
        forall|name: Seq<char>| !(#[trigger] no_limits().fields.dom().contains(name)),
{
}

/// The entry of a list in which no name occurs twice is the limit of its name,
/// whatever the limit is, and names that are not in the list have none.
pub proof fn law_entries_are_the_limits(entries: Seq<(String, u64)>)
    requires
        forall|i: int, j: int|
            0 <= i < j < entries.len() ==> #[trigger] entries[i].0@ != #[trigger] entries[j].0@,
    ensures
        distinct_names(entries),
        forall|i: int|
            0 <= i < entries.len() ==> limits_map(entries).dom().contains(
                #[trigger] entries[i].0@,
            ) && limits_map(entries)[entries[i].0@] == entries[i].1,
        forall|name: Seq<char>| #[trigger]
            limits_map(entries).dom().contains(name) ==> exists|i: int|
                0 <= i < entries.len() && #[trigger] entries[i].0@ == name,
{
    lemma_limits_map(entries);
}

/// Whether no name occurs twice is what it says: it fails where two entries have
/// the same name.
pub proof fn law_distinct_names_differ(entries: Seq<(String, u64)>, i: int, j: int)
    requires
        distinct_names(entries),
        0 <= i < entries.len(),
        0 <= j < entries.len(),
        entries[i].0@ == entries[j].0@,
    ensures
        i == j,
{
}

/// An item with a string for its key and a number for its value sets that limit
/// for that name, whatever the number, and leaves the limits of other names as
/// the items before it set them.
pub proof fn law_an_item_sets_its_limit(
    items: Seq<(Option<String>, Option<u64>)>,
    key: String,
    limit: u64,
    name: Seq<char>,
)
    ensures
        ({
            let before = accepted_limits(items);
            let after = accepted_limits(items.push((Some(key), Some(limit))));
            &&& after.dom().contains(key@)
            &&& after[key@] == limit
            &&& name != key@ ==> (after.dom().contains(name) <==> before.dom().contains(name))
            &&& name != key@ && before.dom().contains(name) ==> after[name] == before[name]
        }),
{
    assert(items.push((Some(key), Some(limit))).drop_last() =~= items);
}

/// An item whose key is no string or whose value is no number changes nothing,
/// and no item at all sets nothing.
pub proof fn law_other_items_set_nothing(
    items: Seq<(Option<String>, Option<u64>)>,
    item: (Option<String>, Option<u64>),
)
    requires
        item.0 is None || item.1 is None,
    ensures
        accepted_limits(items.push(item)) == accepted_limits(items),
        accepted_limits(Seq::empty()).dom() =~= Set::<Seq<char>>::empty(),
{
    assert(items.push(item).drop_last() =~= items);
}

} // verus!
