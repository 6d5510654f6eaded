//! Constraints on a parse: size limits, and which fields are allowed.

use multer::Constraints;
use vstd::prelude::*;

use crate::exception::Exception;
use crate::outside::{
    allow_fields, constraints_allowed, constraints_size_limit, limit_by_name, limit_per_field,
    limit_whole_stream,
};
use crate::size_limit::{imposes, no_limits, SizeLimitView, SizeLimitWrapper};
use crate::text::{law_texts_are_all_texts, opt_text, texts};

verus! {

/// The constraints of a configuration.
#[verifier::ext_equal]
pub struct ConstraintView {
    /// The size limits, if there are any.
    pub size_limit: Option<SizeLimitView>,
    /// The names of the allowed fields. An empty list allows every field.
    pub allowed_fields: Seq<Seq<char>>,
}

/// The configuration that constrains nothing.
pub open spec fn no_constraints() -> ConstraintView {
    ConstraintView { size_limit: None, allowed_fields: Seq::empty() }
}

/// The names that the items of a list give: those items that are strings, in
/// order.
pub open spec fn accepted_names(items: Seq<Option<String>>) -> Seq<Seq<char>>
    decreases items.len(),
{
    if items.len() == 0 {
        Seq::empty()
    } else {
        let earlier = accepted_names(items.drop_last());
        match items.last() {
            Some(name) => earlier.push(name@),
            None => earlier,
        }
    }
}

/// The size limits that apply under a configuration.
pub open spec fn limits_of(config: ConstraintView) -> SizeLimitView {
    match config.size_limit {
        Some(limits) => limits,
        None => no_limits(),
    }
}

/// The field names that a configuration allows; `None` allows every field.
pub open spec fn allowed_of(config: ConstraintView) -> Option<Seq<Seq<char>>> {
    if config.allowed_fields.len() == 0 {
        None
    } else {
        Some(config.allowed_fields)
    }
}

/// Whether a `Constraints` imposes a configuration and nothing else.
pub open spec fn constrains(constraints: Constraints, config: ConstraintView) -> bool {
    &&& imposes(constraints_size_limit(constraints), limits_of(config))
    &&& constraints_allowed(constraints) == allowed_of(config)
}

/// Constraints for a multipart parse.
pub struct ConstraintWrapper {
    size_limit: Option<SizeLimitWrapper>,
    allowed_fields: Vec<String>,
}

impl View for ConstraintWrapper {
    type V = ConstraintView;

    closed spec fn view(&self) -> ConstraintView {
        ConstraintView {
            size_limit: match self.size_limit {
                Some(limits) => Some(limits@),
                None => None,
            },
            allowed_fields: texts(self.allowed_fields@),
        }
    }
}

impl ConstraintWrapper {
    /// Constraints from the arguments of the Python constructor.
    /// `allowed_fields` holds the items of the list in order, each as the string
    /// that it is; an item that is no string is passed over.
    pub fn new(
        size_limit: Option<SizeLimitWrapper>,
        allowed_fields: Option<Vec<Option<String>>>,
    ) -> (constraint: Result<Self, Exception>)
        ensures
            constraint matches Ok(c) && c@ == (ConstraintView {
                size_limit: match size_limit {
                    Some(limits) => Some(limits@),
                    None => None,
                },
                allowed_fields: match allowed_fields {
                    Some(items) => accepted_names(items@),
                    None => Seq::empty(),
                },
            }),
    {
        let mut names: Vec<String> = Vec::new();
        if let Some(items) = allowed_fields {
            let mut i: usize = 0;
            while i < items.len()
                invariant
                    i <= items.len(),
                    texts(names@) == accepted_names(items@.take(i as int)),
                decreases items.len() - i,
            {
                proof {
                    assert(items@.take(i + 1).drop_last() =~= items@.take(i as int));
                    assert(items@.take(i + 1).last() == items@[i as int]);
                }
                if let Some(name) = &items[i] {
                    let ghost before = names@;
                    names.push(name.clone());
                    assert(texts(names@) =~= texts(before).push(name@));
                }
                i = i + 1;
            }
            assert(items@.take(items.len() as int) =~= items@);
        }
        Ok(ConstraintWrapper { size_limit, allowed_fields: names })
    }

    /// The size limits.
    pub fn size_limit(&self) -> (limits: Option<SizeLimitWrapper>)
        ensures
            match limits {
                Some(l) => self@.size_limit == Some(l@),
                None => self@.size_limit is None,
            },
    {
        match &self.size_limit {
            Some(limits) => Some(limits.clone()),
            None => None,
        }
    }

    /// The names of the allowed fields.
    pub fn allowed_fields(&self) -> (names: Vec<String>)
        ensures
            texts(names@) == self@.allowed_fields,
            names.len() == self@.allowed_fields.len(),
            forall|i: int|
                0 <= i < names.len() ==> #[trigger] names@[i]@ == self@.allowed_fields[i],
    {
        let names = copy_names(&self.allowed_fields);
        proof {
            law_texts_are_all_texts(names@);
            assert forall|i: int| 0 <= i < names.len() implies #[trigger] names@[i]@
                == self@.allowed_fields[i] by {
                assert(texts(names@)[i] == names@[i]@);
            }
        }
        names
    }

    /// The constraints in the form in which `multer` takes them. An empty list
    /// of names is not handed on, so that it allows every field.
    pub fn to_constraints(&self) -> (constraints: Constraints)
        ensures
            constrains(constraints, self@),
            self@.allowed_fields.len() == 0 ==> constraints_allowed(constraints) is None,
            self@.allowed_fields.len() > 0 ==> constraints_allowed(constraints) == Some(
                self@.allowed_fields,
            ),
            match self@.size_limit {
                Some(config) => {
                    let limit = constraints_size_limit(constraints);
                    &&& config.whole_stream matches Some(n) ==> limit_whole_stream(limit) == n
                    &&& config.whole_stream is None ==> limit_whole_stream(limit)
                        == 0xffff_ffff_ffff_ffff
                    &&& config.per_field matches Some(n) ==> limit_per_field(limit) == n
                    &&& config.per_field is None ==> limit_per_field(limit)
                        == 0xffff_ffff_ffff_ffff
                    &&& limit_by_name(limit) == config.fields
                },
                None => {
                    let limit = constraints_size_limit(constraints);
                    &&& limit_whole_stream(limit) == 0xffff_ffff_ffff_ffff
                    &&& limit_per_field(limit) == 0xffff_ffff_ffff_ffff
                    &&& limit_by_name(limit) == Map::<Seq<char>, u64>::empty()
                },
            },
    {
        let mut c = Constraints::new();
        if let Some(sl) = &self.size_limit {
            c = c.size_limit(sl.to_size_limit());
        }
        if self.allowed_fields.len() != 0 {
            c = allow_fields(c, copy_names(&self.allowed_fields));
        }
        c
    }
}

impl Clone for ConstraintWrapper {
    fn clone(&self) -> (copy: Self)
        ensures
            copy@ == self@,
    {
        ConstraintWrapper {
            size_limit: self.size_limit(),
            allowed_fields: copy_names(&self.allowed_fields),
        }
    }
}

/// A list of the same names.
fn copy_names(names: &Vec<String>) -> (copy: Vec<String>)
    ensures
        texts(copy@) == texts(names@),
{
    let mut copy: Vec<String> = Vec::new();
    let mut i: usize = 0;
    while i < names.len()
        invariant
            i <= names.len(),
            copy.len() == i,
            forall|j: int| 0 <= j < i ==> #[trigger] copy@[j]@ == names@[j]@,
        decreases names.len() - i,
    {
        copy.push(names[i].clone());
        i = i + 1;
    }
    assert(texts(copy@) =~= texts(names@));
    copy
}

/// Leaving the size limits out of the constraints is the same as giving limits
/// that limit nothing.
pub proof fn law_absent_limits_limit_nothing(
    constraints: Constraints,
    allowed_fields: Seq<Seq<char>>,
)
    ensures
        constrains(constraints, ConstraintView { size_limit: None, allowed_fields })
            == constrains(
            constraints,
            ConstraintView { size_limit: Some(no_limits()), allowed_fields },
        ),
{
}

/// Constraints restrict which fields are accepted exactly if they name at least
/// one field.
pub proof fn law_fields_restricted_iff_named(constraints: Constraints, config: ConstraintView)
    requires
        constrains(constraints, config),
    ensures
        constraints_allowed(constraints) is Some <==> config.allowed_fields.len() > 0,
{
}

/// A list of strings is accepted as it is: constraints that are made from the
/// names that `allowed_fields` returns allow the same fields.
pub proof fn law_names_rebuild_the_list(names: Seq<String>)
    ensures
        accepted_names(names.map_values(|n: String| Some(n))) == texts(names),
    decreases names.len(),
{
    let items = names.map_values(|n: String| Some(n));
    if names.len() == 0 {
        assert(texts(names) =~= Seq::empty());
    } else {
        law_names_rebuild_the_list(names.drop_last());
        assert(items.drop_last() =~= names.drop_last().map_values(|n: String| Some(n)));
        assert(items.last() == Some(names.last()));
        assert(texts(names) =~= texts(names.drop_last()).push(names.last()@));
    }
}

/// A name is accepted exactly if some item of the list is that string.
pub proof fn law_strings_are_accepted(items: Seq<Option<String>>, name: Seq<char>)
    ensures
        accepted_names(items).contains(name) <==> exists|i: int|
            0 <= i < items.len() && opt_text(#[trigger] items[i]) == Some(name),
    decreases items.len(),
{
    if items.len() > 0 {
        let init = items.drop_last();
        let last = items.len() - 1;
        law_strings_are_accepted(init, name);
        let earlier = accepted_names(init);
        assert(forall|i: int| 0 <= i < last ==> #[trigger] init[i] == items[i]);
        assert(items[last] == items.last());
        if accepted_names(items).contains(name) {
            let k = accepted_names(items).index_of(name);
            if earlier.contains(name) {
                let i = choose|i: int|
                    0 <= i < init.len() && opt_text(#[trigger] init[i]) == Some(name);
                assert(opt_text(items[i]) == Some(name));
            } else {
                assert(k < earlier.len() ==> earlier[k] == name);
                assert(opt_text(items[last]) == Some(name));
            }
        }
        if exists|i: int| 0 <= i < items.len() && opt_text(#[trigger] items[i]) == Some(name) {
            let i = choose|i: int|
                0 <= i < items.len() && opt_text(#[trigger] items[i]) == Some(name);
            if i < last {
                assert(opt_text(init[i]) == Some(name));
                let k = earlier.index_of(name);
                assert(accepted_names(items)[k] == name);
            } else {
                assert(accepted_names(items)[earlier.len() as int] == name);
            }
        }
    }
}

/// Where names are given, `multer` allows exactly these names, all of them and
/// in order; where none is given it allows every field.
pub proof fn law_all_named_fields_are_allowed(constraints: Constraints, config: ConstraintView)
    requires
        constrains(constraints, config),
    ensures
        config.allowed_fields.len() > 0 ==> constraints_allowed(constraints) == Some(
            config.allowed_fields,
        ),
        config.allowed_fields.len() == 0 ==> constraints_allowed(constraints) is None,
{
}

/// The size limits of the constraints are the limits that `multer` gets, number
/// for number, and without size limits it gets none.
pub proof fn law_constrained_limits_reach_multer(
    constraints: Constraints,
    config: ConstraintView,
)
    requires
        constrains(constraints, config),
    ensures
        ({
            let limit = constraints_size_limit(constraints);
            match config.size_limit {
                Some(given) => {
                    &&& given.whole_stream matches Some(n) ==> limit_whole_stream(limit) == n
                    &&& given.whole_stream is None ==> limit_whole_stream(limit)
                        == 0xffff_ffff_ffff_ffff
                    &&& given.per_field matches Some(n) ==> limit_per_field(limit) == n
                    &&& given.per_field is None ==> limit_per_field(limit)
                        == 0xffff_ffff_ffff_ffff
                    &&& limit_by_name(limit) == given.fields
                },
                None => {
                    &&& limit_whole_stream(limit) == 0xffff_ffff_ffff_ffff
                    &&& limit_per_field(limit) == 0xffff_ffff_ffff_ffff
                    &&& limit_by_name(limit).dom() =~= Set::<Seq<char>>::empty()
                },
            }
        }),
{
}

/// The configuration that constrains nothing gives no limits and no names.
pub proof fn law_no_constraints_gives_none()
    ensures
        no_constraints().size_limit is None,
        no_constraints().allowed_fields.len() == 0,
{
}

/// Names are accepted item by item: of two lists, one after the other, the names
/// of the first come first and then those of the second, none left out, none
/// twice and none in another order. A string gives its own text, whatever it is,
/// and an item that is no string gives nothing.
pub proof fn law_names_are_accepted_item_by_item(
    first: Seq<Option<String>>,
    second: Seq<Option<String>>,
    name: String,
)
    ensures
        accepted_names(first + second) == accepted_names(first) + accepted_names(second),
        accepted_names(seq![Some(name)]) == seq![name@],
        accepted_names(seq![None::<String>]) == Seq::<Seq<char>>::empty(),
    decreases second.len(),
{
    let one = seq![Some(name)];
    assert(one.drop_last() =~= Seq::<Option<String>>::empty());
    assert(accepted_names(one.drop_last()) =~= Seq::<Seq<char>>::empty());
    assert(accepted_names(one) =~= seq![name@]);
    let none = seq![None::<String>];
    assert(none.drop_last() =~= Seq::<Option<String>>::empty());
    assert(accepted_names(none) =~= Seq::<Seq<char>>::empty());
    if second.len() == 0 {
        assert(first + second =~= first);
        assert(accepted_names(first) + accepted_names(second) =~= accepted_names(first));
    } else {
        law_names_are_accepted_item_by_item(first, second.drop_last(), name);
        assert((first + second).drop_last() =~= first + second.drop_last());
        assert((first + second).last() == second.last());
        assert(accepted_names(first + second) =~= accepted_names(first) + accepted_names(second));
    }
}

} // verus!
