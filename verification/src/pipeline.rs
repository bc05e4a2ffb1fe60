//! Pipeline items that judge a value, and the registry of the callbacks that a pipeline can
//! name.

use vstd::prelude::*;
use vstd::string::StringExecFns;
use crate::model::same_text;
use crate::text::texts;

verus! {

/// A pipeline, by the names of its items in order.
#[derive(Clone, Debug, PartialEq, Eq)]
pub struct Pipeline {
    pub items: Vec<String>,
}

impl View for Pipeline {
    type V = Seq<Seq<char>>;

    open spec fn view(&self) -> Seq<Seq<char>> {
        texts(self.items@)
    }
}

/// A copy of a list of texts.
pub fn copy_texts(v: &Vec<String>) -> (r: Vec<String>)
    ensures
        texts(r@) == texts(v@),
{
    let mut out: Vec<String> = Vec::new();
    let mut i: usize = 0;
    while i < v.len()
        invariant
            i <= v.len(),
            out@.len() == i,
            forall|j: int| 0 <= j < i ==> (#[trigger] out@[j])@ == v@[j]@,
        decreases v.len() - i,
    {
        out.push(v[i].clone());
        i += 1;
    }
    assert(texts(out@) =~= texts(v@));
    out
}

/// The item that accepts an object of one model and nothing else.
#[derive(Debug, Clone, PartialEq, Eq)]
pub struct IsObjectOfModifier {
    model: String,
}

/// The refusal of a value that is no object.
pub open spec fn not_object() -> Seq<char> {
    "Value is not object."@
}

/// The refusal of an object of another model than `model`.
pub open spec fn not_object_of(model: Seq<char>) -> Seq<char> {
    "Value is not object of '"@ + model + "'."@
}

impl IsObjectOfModifier {
    /// The item that accepts the objects of `model`.
    pub fn new(model: &str) -> (r: IsObjectOfModifier)
        ensures
            r.model_name() == model@,
    {
        IsObjectOfModifier { model: model.to_owned() }
    }

    /// The name of the model whose objects are accepted.
    pub closed spec fn model_name(&self) -> Seq<char> {
        self.model@
    }

    /// The name of the model whose objects are accepted.
    pub fn model(&self) -> (r: &String)
        ensures
            r@ == self.model_name(),
    {
        &self.model
    }

    /// Judges a value. `value_model` is the name of the model of the value where the value
    /// is an object. An object of the item's model is accepted; anything else is refused
    /// with a message.
    pub fn call(&self, value_model: Option<&str>) -> (r: Result<(), String>)
        ensures
            match value_model {
                Some(name) => if name@ == self.model_name() {
                    r.is_ok()
                } else {
                    r.is_err() && r->Err_0@ == not_object_of(self.model_name())
                },
                None => r.is_err() && r->Err_0@ == not_object(),
            },
    {
        match value_model {
            Some(name) => {
                if same_text(name, self.model.as_str()) {
                    Ok(())
                } else {
                    let message = String::from_str("Value is not object of '").concat(
                        self.model.as_str(),
                    ).concat("'.");
                    Err(message)
                }
            },
            None => Err(String::from_str("Value is not object.")),
        }
    }
}

/// The item that keeps the elements of a list that a pipeline judges valid.
#[derive(Debug, Clone, PartialEq, Eq)]
pub struct FilterModifier {
    pipeline: Pipeline,
}

/// The positions at which a verdict is `true`, ascending.
pub open spec fn valid_positions(verdicts: Seq<bool>) -> Seq<int>
    decreases verdicts.len(),
{
    if verdicts.len() == 0 {
        Seq::empty()
    } else if verdicts.last() {
        valid_positions(verdicts.drop_last()).push(verdicts.len() - 1)
    } else {
        valid_positions(verdicts.drop_last())
    }
}

impl FilterModifier {
    /// The item that filters by `pipeline`.
    pub fn new(pipeline: Pipeline) -> (r: FilterModifier)
        ensures
            r.pipeline_spec() == pipeline@,
    {
        FilterModifier { pipeline }
    }

    /// The pipeline that judges the elements.
    pub closed spec fn pipeline_spec(&self) -> Seq<Seq<char>> {
        self.pipeline@
    }

    /// The pipeline that judges the elements.
    pub fn pipeline(&self) -> (r: &Pipeline)
        ensures
            r@ == self.pipeline_spec(),
    {
        &self.pipeline
    }

    /// The name of the item.
    pub fn name(&self) -> (r: &'static str)
        ensures
            r@ == "filter"@,
    {
        "filter"
    }

    /// Selects the elements to keep. `verdicts` holds, for each element of the list in
    /// order, whether the pipeline judged it valid; the result holds the positions of the
    /// elements that stay, in order.
    pub fn call(&self, verdicts: &Vec<bool>) -> (r: Vec<usize>)
        ensures
            r@.map_values(|i: usize| i as int) == valid_positions(verdicts@),
    {
        let mut out: Vec<usize> = Vec::new();
        let mut i: usize = 0;
        assert(verdicts@.take(0) =~= Seq::empty());
        assert(out@.map_values(|i: usize| i as int) =~= Seq::empty());
        while i < verdicts.len()
            invariant
                i <= verdicts.len(),
                out@.map_values(|i: usize| i as int) == valid_positions(verdicts@.take(i as int)),
            decreases verdicts.len() - i,
        {
            proof {
                assert(verdicts@.take(i + 1).drop_last() =~= verdicts@.take(i as int));
            }
            if verdicts[i] {
                let ghost before = out@;
                out.push(i);
                assert(out@.map_values(|i: usize| i as int) =~= before.map_values(
                    |i: usize| i as int,
                ).push(i as int));
            }
            i += 1;
        }
        assert(verdicts@.take(i as int) =~= verdicts@);
        out
    }
}

/// The callbacks that a schema can name, by kind. With `ignore` set, every named callback
/// resolves to the item that accepts everything.
#[derive(Clone, Debug, PartialEq, Eq)]
pub struct Callbacks {
    pub ignore: bool,
    pub transforms: Vec<String>,
    pub validators: Vec<String>,
    pub callbacks: Vec<String>,
    pub compares: Vec<String>,
}

/// An argument of a pipeline item, as far as it is resolved.
#[derive(Clone, Debug, PartialEq, Eq)]
pub enum Argument {
    /// A text: the name of a callback.
    Text(String),
    /// A pipeline.
    Nested(Pipeline),
    /// Anything else.
    Other,
}

/// What a custom item resolves to.
#[derive(Debug, PartialEq, Eq)]
pub enum Custom {
    /// The item that accepts everything.
    Valid,
    /// The registered callback at this position of its kind's list.
    Registered(usize),
    /// The item that runs a pipeline.
    With(Pipeline),
}

/// The position of a name in a list of names: the first, where it occurs more than once.
pub open spec fn index_of(list: Seq<Seq<char>>, name: Seq<char>) -> Option<int>
    decreases list.len(),
{
    if list.len() == 0 {
        None
    } else {
        match index_of(list.drop_last(), name) {
            Some(i) => Some(i),
            None => if list.last() == name {
                Some(list.len() - 1)
            } else {
                None
            },
        }
    }
}

/// The position of a name in a list of names.
pub fn lookup(list: &Vec<String>, name: &str) -> (r: Option<usize>)
    ensures
        match r {
            Some(i) => index_of(texts(list@), name@) == Some(i as int),
            None => index_of(texts(list@), name@).is_none(),
        },
{
    let ghost all = texts(list@);
    let mut i: usize = 0;
    assert(all.take(0) =~= Seq::empty());
    while i < list.len()
        invariant
            i <= list.len(),
            all == texts(list@),
            index_of(all.take(i as int), name@).is_none(),
        decreases list.len() - i,
    {
        proof {
            assert(all.take(i + 1).drop_last() =~= all.take(i as int));
            assert(all.take(i + 1).last() == list@[i as int]@);
        }
        if same_text(list[i].as_str(), name) {
            proof {
                lemma_index_stays(all, name@, i + 1);
            }
            return Some(i);
        }
        i += 1;
    }
    assert(all.take(i as int) =~= all);
    None
}

/// A position found in a prefix of a list is the position in the whole list.
pub proof fn lemma_index_stays(list: Seq<Seq<char>>, name: Seq<char>, i: int)
    requires
        0 <= i <= list.len(),
        index_of(list.take(i), name).is_some(),
    ensures
        index_of(list, name) == index_of(list.take(i), name),
    decreases list.len() - i,
{
    if i < list.len() {
        assert(list.take(i + 1).drop_last() =~= list.take(i));
        lemma_index_stays(list, name, i + 1);
    } else {
        assert(list.take(i) =~= list);
    }
}

/// What the first argument asks of a list of registered names: the callback of that name,
/// or, where `nested` is set, a pipeline. `None` where the argument asks for something that
/// is not there.
pub open spec fn asked(list: Seq<Seq<char>>, args: Seq<Argument>, nested: bool) -> Option<
    CustomSpec,
> {
    if args.len() == 0 {
        None
    } else {
        match args[0] {
            Argument::Text(name) => match index_of(list, name@) {
                Some(i) => Some(CustomSpec::Registered(i)),
                None => None,
            },
            Argument::Nested(p) => if nested {
                Some(CustomSpec::With(p@))
            } else {
                None
            },
            Argument::Other => None,
        }
    }
}

/// What a custom item resolves to, as plain values.
pub enum CustomSpec {
    Valid,
    Registered(int),
    With(Seq<Seq<char>>),
}

impl View for Custom {
    type V = CustomSpec;

    open spec fn view(&self) -> CustomSpec {
        match self {
            Custom::Valid => CustomSpec::Valid,
            Custom::Registered(i) => CustomSpec::Registered(*i as int),
            Custom::With(p) => CustomSpec::With(p@),
        }
    }
}

/// Resolves the first argument against a list of registered names.
fn resolve_custom(ignore: bool, list: &Vec<String>, args: &Vec<Argument>, nested: bool) -> (r: Option<
    Custom,
>)
    ensures
        match r {
            Some(c) => if ignore {
                c@ == CustomSpec::Valid
            } else {
                asked(texts(list@), args@, nested) == Some(c@)
            },
            None => !ignore && asked(texts(list@), args@, nested).is_none(),
        },
{
    if ignore {
        return Some(Custom::Valid);
    }
    if args.len() == 0 {
        return None;
    }
    match &args[0] {
        Argument::Text(name) => match lookup(list, name.as_str()) {
            Some(i) => Some(Custom::Registered(i)),
            None => None,
        },
        Argument::Nested(p) => {
            if nested {
                Some(Custom::With(Pipeline { items: copy_texts(&p.items) }))
            } else {
                None
            }
        },
        Argument::Other => None,
    }
}

/// Resolves a `transform` item: the registered transform that its argument names, or the
/// item that transforms with the pipeline given as argument. Where callbacks are ignored,
/// the item that accepts everything. `None` where the argument is missing, names no
/// registered transform, or is neither a name nor a pipeline.
pub fn custom_transform(registry: &Callbacks, args: &Vec<Argument>) -> (r: Option<Custom>)
    ensures
        match r {
            Some(c) => if registry.ignore {
                c@ == CustomSpec::Valid
            } else {
                asked(texts(registry.transforms@), args@, true) == Some(c@)
            },
            None => !registry.ignore && asked(texts(registry.transforms@), args@, true).is_none(),
        },
{
    resolve_custom(registry.ignore, &registry.transforms, args, true)
}

/// Resolves a `callback` item: the registered callback that its argument names.
pub fn custom_callback(registry: &Callbacks, args: &Vec<Argument>) -> (r: Option<Custom>)
    ensures
        match r {
            Some(c) => if registry.ignore {
                c@ == CustomSpec::Valid
            } else {
                asked(texts(registry.callbacks@), args@, false) == Some(c@)
            },
            None => !registry.ignore && asked(texts(registry.callbacks@), args@, false).is_none(),
        },
{
    resolve_custom(registry.ignore, &registry.callbacks, args, false)
}

/// Resolves a `validate` item: the registered validator that its argument names, or the
/// item that validates with the pipeline given as argument.
pub fn custom_validate(registry: &Callbacks, args: &Vec<Argument>) -> (r: Option<Custom>)
    ensures
        match r {
            Some(c) => if registry.ignore {
                c@ == CustomSpec::Valid
            } else {
                asked(texts(registry.validators@), args@, true) == Some(c@)
            },
            None => !registry.ignore && asked(texts(registry.validators@), args@, true).is_none(),
        },
{
    resolve_custom(registry.ignore, &registry.validators, args, true)
}

/// Resolves a `compare` item: the registered comparison that its argument names.
pub fn custom_compare(registry: &Callbacks, args: &Vec<Argument>) -> (r: Option<Custom>)
    ensures
        match r {
            Some(c) => if registry.ignore {
                c@ == CustomSpec::Valid
            } else {
                asked(texts(registry.compares@), args@, false) == Some(c@)
            },
            None => !registry.ignore && asked(texts(registry.compares@), args@, false).is_none(),
        },
{
    resolve_custom(registry.ignore, &registry.compares, args, false)
}

} // verus!
