//! The reusable bag of variables and host functions that expressions are
//! evaluated against.

use crate::bridge::{engine_value, to_engine};
use crate::error::{ErrorKind, Failure, FailureModel};
use crate::host::{host_model, host_pairs, HostCallable, HostModel, HostValue};
use crate::text::{identifier, is_identifier, same_text};
use crate::value::{
    bound, distinct_keys, lemma_put_at_end, lemma_put_in_place, lemma_with_entry, with_entry,
    Value, ValueModel,
};
use vstd::prelude::*;

verus! {

/// The variables and host functions of an evaluation, each under its name.
///
/// A context is made once and used for many evaluations: its values were
/// converted when they were added. No name occurs twice among the
/// variables, nor among the functions; binding a name again replaces what
/// it was bound to.
#[derive(Debug, PartialEq)]
pub struct Context {
    pub variables: Vec<(String, Value)>,
    pub functions: Vec<(String, HostCallable)>,
}

/// The mathematical content of a [`Context`].
pub ghost struct ContextModel {
    pub variables: Seq<(Seq<char>, ValueModel)>,
    pub functions: Seq<(Seq<char>, HostCallable)>,
}

/// The mathematical contents of entries under names, in order.
pub open spec fn named_models<V: View>(entries: Vec<(String, V)>) -> Seq<(Seq<char>, V::V)> {
    Seq::new(entries.len() as nat, |i: int| (entries[i].0@, entries[i].1@))
}

impl View for Context {
    type V = ContextModel;

    open spec fn view(&self) -> ContextModel {
        ContextModel {
            variables: named_models(self.variables),
            functions: named_models(self.functions),
        }
    }
}

impl ContextModel {
    /// The context without variables and functions.
    pub open spec fn empty() -> ContextModel {
        ContextModel { variables: Seq::empty(), functions: Seq::empty() }
    }

    /// Whether no name occurs twice among the variables, nor among the
    /// functions.
    pub open spec fn well_formed(self) -> bool {
        distinct_keys(self.variables) && distinct_keys(self.functions)
    }

    /// The context with the variable `name` bound to `value`.
    pub open spec fn with_variable(self, name: Seq<char>, value: ValueModel) -> ContextModel {
        ContextModel { variables: with_entry(self.variables, name, value), ..self }
    }

    /// The context with the function `name` bound to `function`.
    pub open spec fn with_function(self, name: Seq<char>, function: HostCallable) -> ContextModel {
        ContextModel { functions: with_entry(self.functions, name, function), ..self }
    }
}

/// A failed conversion as one line of text.
pub open spec fn conversion_text(detail: Seq<char>) -> Seq<char> {
    "Conversion Error: "@ + detail
}

/// What the host is told of a name that is no identifier.
pub open spec fn invalid_name(name: Seq<char>) -> FailureModel {
    FailureModel {
        kind: ErrorKind::Context,
        message: "Invalid identifier: '"@ + name + "'"@,
    }
}

/// What adding the variable `name` with the host value `value` makes of
/// the context `c`: the name must be an identifier and the value must
/// convert.
pub open spec fn variable_added(c: ContextModel, name: Seq<char>, value: HostModel) -> Result<
    ContextModel,
    FailureModel,
> {
    if !is_identifier(name) {
        Err(invalid_name(name))
    } else {
        match engine_value(value) {
            Ok(v) => Ok(c.with_variable(name, v)),
            Err(e) => Err(
                FailureModel {
                    kind: ErrorKind::Conversion,
                    message: "Failed to convert variable '"@ + name + "': "@ + conversion_text(e),
                },
            ),
        }
    }
}

/// What adding the function `name` makes of the context `c`: the name
/// must be an identifier.
pub open spec fn function_added(c: ContextModel, name: Seq<char>, function: HostCallable) -> Result<
    ContextModel,
    FailureModel,
> {
    if !is_identifier(name) {
        Err(invalid_name(name))
    } else {
        Ok(c.with_function(name, function))
    }
}

/// What one entry of a host mapping makes of the context `c`: the key
/// must be a string and an identifier; a callable is bound as a function,
/// anything else is converted and bound as a variable.
pub open spec fn entry_merged(c: ContextModel, entry: (HostModel, HostModel)) -> Result<
    ContextModel,
    FailureModel,
> {
    match entry.0 {
        HostModel::Str(name) => if !is_identifier(name) {
            Err(invalid_name(name))
        } else {
            match entry.1 {
                HostModel::Callable { handle, kind_name } => Ok(c.with_function(name, handle)),
                value => match engine_value(value) {
                    Ok(v) => Ok(c.with_variable(name, v)),
                    Err(e) => Err(
                        FailureModel { kind: ErrorKind::Conversion, message: conversion_text(e) },
                    ),
                },
            }
        },
        _ => Err(FailureModel { kind: ErrorKind::Context, message: "Keys must be strings"@ }),
    }
}

/// What the entries of a host mapping, taken in order, make of the
/// context `c`, and the failure that stopped them, if any: the entries
/// before the first one that fails are merged, that one and the ones
/// after it are not.
pub open spec fn merged(c: ContextModel, entries: Seq<(HostModel, HostModel)>) -> (
    ContextModel,
    Option<FailureModel>,
)
    decreases entries.len(),
{
    if entries.len() == 0 {
        (c, None)
    } else {
        let before = merged(c, entries.drop_last());
        if before.1 is Some {
            before
        } else {
            match entry_merged(before.0, entries.last()) {
                Ok(next) => (next, None),
                Err(failure) => (before.0, Some(failure)),
            }
        }
    }
}

/// What one entry of the initial variables makes of the context `c`: the
/// key must be a string, and the value is added as a variable whatever it
/// is.
pub open spec fn entry_declared(c: ContextModel, entry: (HostModel, HostModel)) -> Result<
    ContextModel,
    FailureModel,
> {
    match entry.0 {
        HostModel::Str(name) => variable_added(c, name, entry.1),
        _ => Err(
            FailureModel { kind: ErrorKind::Context, message: "Variable name must be strings"@ },
        ),
    }
}

/// What the initial variables, taken in order, make of the context `c`,
/// or the failure of the first entry that fails.
pub open spec fn declared(c: ContextModel, entries: Seq<(HostModel, HostModel)>) -> Result<
    ContextModel,
    FailureModel,
>
    decreases entries.len(),
{
    if entries.len() == 0 {
        Ok(c)
    } else {
        match declared(c, entries.drop_last()) {
            Ok(before) => entry_declared(before, entries.last()),
            Err(failure) => Err(failure),
        }
    }
}

/// The context made from initial variables and functions, or the failure
/// that the first bad entry gives: the variables are declared first, then
/// the functions are merged in.
pub open spec fn created(
    variables: Option<Seq<(HostModel, HostModel)>>,
    functions: Option<Seq<(HostModel, HostModel)>>,
) -> Result<ContextModel, FailureModel> {
    let with_variables = match variables {
        Some(entries) => declared(ContextModel::empty(), entries),
        None => Ok(ContextModel::empty()),
    };
    match with_variables {
        Err(failure) => Err(failure),
        Ok(c) => match functions {
            Some(entries) => match merged(c, entries).1 {
                Some(failure) => Err(failure),
                None => Ok(merged(c, entries).0),
            },
            None => Ok(c),
        },
    }
}

/// Binds `name` to `value` in `entries`: in the place of the entry that
/// held `name`, or at the end where there was none.
fn put_named<V: View>(entries: &mut Vec<(String, V)>, name: String, value: V)
    requires
        distinct_keys(named_models(*old(entries))),
    ensures
        named_models(*final(entries)) == with_entry(named_models(*old(entries)), name@, value@),
        distinct_keys(named_models(*final(entries))),
{
    let ghost before = named_models(*entries);
    let mut i: usize = 0;
    while i < entries.len()
        invariant
            i <= entries.len(),
            named_models(*entries) == before,
            before == named_models(*old(entries)),
            distinct_keys(before),
            forall|j: int| 0 <= j < i ==> (#[trigger] before[j]).0 != name@,
        decreases entries.len() - i,
    {
        if same_text(entries[i].0.as_str(), name.as_str()) {
            entries.set(i, (name, value));
            proof {
                assert(named_models(*entries) =~= before.update(i as int, (name@, value@)));
                lemma_put_in_place(before, i as int, name@, value@);
            }
            return ;
        }
        i += 1;
    }
    entries.push((name, value));
    proof {
        assert(named_models(*entries) =~= before.push((name@, value@)));
        lemma_put_at_end(before, name@, value@);
    }
}

fn invalid_name_failure(name: &str) -> (failure: Failure)
    ensures
        failure@ == invalid_name(name@),
{
    let mut text = String::from_str("Invalid identifier: '");
    text.append(name);
    text.append("'");
    Failure { kind: ErrorKind::Context, message: text }
}

fn context_failure(text: &str) -> (failure: Failure)
    ensures
        failure@ == (FailureModel { kind: ErrorKind::Context, message: text@ }),
{
    Failure { kind: ErrorKind::Context, message: String::from_str(text) }
}

/// The entries of an optional host mapping.
pub open spec fn optional_pairs(mapping: Option<&Vec<(HostValue, HostValue)>>) -> Option<
    Seq<(HostModel, HostModel)>,
> {
    match mapping {
        Some(entries) => Some(host_pairs(*entries)),
        None => None,
    }
}

/// Where the entry at `at` fails after every earlier entry was merged,
/// merging stops there: with the context as the earlier entries left it,
/// and with that entry's failure.
proof fn lemma_merge_stops(c: ContextModel, entries: Seq<(HostModel, HostModel)>, at: int)
    requires
        0 <= at < entries.len(),
        merged(c, entries.take(at)).1 is None,
        entry_merged(merged(c, entries.take(at)).0, entries[at]) is Err,
    ensures
        merged(c, entries) == (
            merged(c, entries.take(at)).0,
            Some(entry_merged(merged(c, entries.take(at)).0, entries[at])->Err_0),
        ),
    decreases entries.len(),
{
    if at == entries.len() - 1 {
        assert(entries.drop_last() == entries.take(at));
    } else {
        assert(entries.drop_last().take(at) == entries.take(at));
        lemma_merge_stops(c, entries.drop_last(), at);
    }
}

/// Where the entry at `at` fails after every earlier entry was declared,
/// declaring fails with that entry's failure.
proof fn lemma_declare_stops(c: ContextModel, entries: Seq<(HostModel, HostModel)>, at: int)
    requires
        0 <= at < entries.len(),
        declared(c, entries.take(at)) is Ok,
        entry_declared(declared(c, entries.take(at))->Ok_0, entries[at]) is Err,
    ensures
        declared(c, entries) == Err::<ContextModel, FailureModel>(
            entry_declared(declared(c, entries.take(at))->Ok_0, entries[at])->Err_0,
        ),
    decreases entries.len(),
{
    if at == entries.len() - 1 {
        assert(entries.drop_last() == entries.take(at));
    } else {
        assert(entries.drop_last().take(at) == entries.take(at));
        lemma_declare_stops(c, entries.drop_last(), at);
    }
}

impl Context {
    /// Whether no name occurs twice among the variables, nor among the
    /// functions.
    pub open spec fn well_formed(&self) -> bool {
        self@.well_formed()
    }

    /// Makes a context from initial variables and functions.
    ///
    /// Each entry of `variables` is added as a variable: its key must be a
    /// string and an identifier, and its value must convert. The entries
    /// of `functions` are then merged in as [`Context::update`] does. The
    /// first entry that fails decides the failure.
    pub fn new(
        variables: Option<&Vec<(HostValue, HostValue)>>,
        functions: Option<&Vec<(HostValue, HostValue)>>,
    ) -> (result: Result<Context, Failure>)
        ensures
            match result {
                Ok(context) => created(optional_pairs(variables), optional_pairs(functions)) == Ok::<
                    ContextModel,
                    FailureModel,
                >(context@) && context.well_formed(),
                Err(failure) => created(optional_pairs(variables), optional_pairs(functions))
                    == Err::<ContextModel, FailureModel>(failure@),
            },
    {
        let mut context = Context { variables: Vec::new(), functions: Vec::new() };
        proof {
            assert(context@.variables =~= Seq::empty());
            assert(context@.functions =~= Seq::empty());
        }
        if let Some(entries) = variables {
            let ghost models = host_pairs(*entries);
            let mut i: usize = 0;
            proof {
                assert(models.take(0) =~= Seq::empty());
            }
            while i < entries.len()
                invariant
                    i <= entries.len(),
                    models == host_pairs(*entries),
                    optional_pairs(variables) == Some(models),
                    context.well_formed(),
                    declared(ContextModel::empty(), models.take(i as int)) == Ok::<
                        ContextModel,
                        FailureModel,
                    >(context@),
                decreases entries.len() - i,
            {
                proof {
                    assert(models.take(i + 1).drop_last() == models.take(i as int));
                    assert(models[i as int] == (
                        host_model(entries[i as int].0),
                        host_model(entries[i as int].1),
                    ));
                }
                let added = match &entries[i].0 {
                    HostValue::Str(name) => context.add_variable(name.clone(), &entries[i].1),
                    _ => Err(context_failure("Variable name must be strings")),
                };
                if let Err(failure) = added {
                    proof {
                        lemma_declare_stops(ContextModel::empty(), models, i as int);
                    }
                    return Err(failure);
                }
                i += 1;
            }
            proof {
                assert(models.take(models.len() as int) == models);
            }
        }
        if let Some(entries) = functions {
            if let Err(failure) = context.update(entries) {
                return Err(failure);
            }
        }
        Ok(context)
    }

    /// Registers the host callable `function` under `name`, in place of
    /// what `name` stood for among the functions. Fails, and changes
    /// nothing, where `name` is no identifier.
    pub fn add_function(&mut self, name: String, function: HostCallable) -> (result: Result<
        (),
        Failure,
    >)
        requires
            old(self).well_formed(),
        ensures
            final(self).well_formed(),
            match function_added(old(self)@, name@, function) {
                Ok(c) => result is Ok && final(self)@ == c,
                Err(f) => result matches Err(e) && e@ == f && final(self)@ == old(self)@,
            },
    {
        if !identifier(name.as_str()) {
            return Err(invalid_name_failure(name.as_str()));
        }
        put_named(&mut self.functions, name, function);
        Ok(())
    }

    /// Converts `value` and binds the variable `name` to it, in place of
    /// what `name` was bound to. Fails, and changes nothing, where `name`
    /// is no identifier or `value` does not convert.
    pub fn add_variable(&mut self, name: String, value: &HostValue) -> (result: Result<
        (),
        Failure,
    >)
        requires
            old(self).well_formed(),
        ensures
            final(self).well_formed(),
            match variable_added(old(self)@, name@, value@) {
                Ok(c) => result is Ok && final(self)@ == c,
                Err(f) => result matches Err(e) && e@ == f && final(self)@ == old(self)@,
            },
    {
        if !identifier(name.as_str()) {
            return Err(invalid_name_failure(name.as_str()));
        }
        match to_engine(value) {
            Ok(converted) => {
                put_named(&mut self.variables, name, converted);
                Ok(())
            },
            Err(e) => {
                let mut text = String::from_str("Failed to convert variable '");
                text.append(name.as_str());
                text.append("': ");
                text.append(e.message().as_str());
                proof {
                    assert(text@ =~= "Failed to convert variable '"@ + name@ + "': "@
                        + conversion_text(e.detail()));
                }
                Err(Failure { kind: ErrorKind::Conversion, message: text })
            },
        }
    }

    /// Merges the entries of a host mapping into the context, in order:
    /// callables as functions, everything else, converted, as variables,
    /// each in place of what its name stood for. Every key must be a
    /// string and an identifier. The first entry that fails stops the
    /// merge; the entries before it stay merged.
    pub fn update(&mut self, variables: &Vec<(HostValue, HostValue)>) -> (result: Result<
        (),
        Failure,
    >)
        requires
            old(self).well_formed(),
        ensures
            final(self).well_formed(),
            final(self)@ == merged(old(self)@, host_pairs(*variables)).0,
            match merged(old(self)@, host_pairs(*variables)).1 {
                None => result is Ok,
                Some(f) => result matches Err(e) && e@ == f,
            },
    {
        let ghost models = host_pairs(*variables);
        let ghost start = self@;
        let mut i: usize = 0;
        proof {
            assert(models.take(0) =~= Seq::empty());
        }
        while i < variables.len()
            invariant
                i <= variables.len(),
                models == host_pairs(*variables),
                self.well_formed(),
                start == old(self)@,
                merged(start, models.take(i as int)) == (self@, None::<FailureModel>),
            decreases variables.len() - i,
        {
            proof {
                assert(models.take(i + 1).drop_last() == models.take(i as int));
                assert(models[i as int] == (
                    host_model(variables[i as int].0),
                    host_model(variables[i as int].1),
                ));
            }
            let merged_entry = self.merge_entry(&variables[i].0, &variables[i].1);
            if let Err(failure) = merged_entry {
                proof {
                    lemma_merge_stops(start, models, i as int);
                }
                return Err(failure);
            }
            i += 1;
        }
        proof {
            assert(models.take(models.len() as int) == models);
        }
        Ok(())
    }

    /// Merges one entry of a host mapping into the context.
    fn merge_entry(&mut self, key: &HostValue, value: &HostValue) -> (result: Result<(), Failure>)
        requires
            old(self).well_formed(),
        ensures
            final(self).well_formed(),
            match entry_merged(old(self)@, (key@, value@)) {
                Ok(c) => result is Ok && final(self)@ == c,
                Err(f) => result matches Err(e) && e@ == f && final(self)@ == old(self)@,
            },
    {
        let name = match key {
            HostValue::Str(name) => name,
            _ => {
                return Err(context_failure("Keys must be strings"));
            },
        };
        if !identifier(name.as_str()) {
            return Err(invalid_name_failure(name.as_str()));
        }
        match value {
            HostValue::Callable { handle, kind_name } => {
                put_named(&mut self.functions, name.clone(), *handle);
                Ok(())
            },
            _ => match to_engine(value) {
                Ok(converted) => {
                    put_named(&mut self.variables, name.clone(), converted);
                    Ok(())
                },
                Err(e) => Err(Failure { kind: ErrorKind::Conversion, message: e.message() }),
            },
        }
    }
}

impl Context {
    /// A context without variables and functions.
    pub fn empty() -> (context: Context)
        ensures
            context@ == ContextModel::empty(),
            context.well_formed(),
    {
        let context = Context { variables: Vec::new(), functions: Vec::new() };
        proof {
            assert(context@.variables =~= Seq::empty());
            assert(context@.functions =~= Seq::empty());
        }
        context
    }

    /// A second context with the same variables and functions.
    pub fn share(&self) -> (copy: Context)
        ensures
            copy@ == self@,
    {
        let mut variables: Vec<(String, Value)> = Vec::new();
        let mut i: usize = 0;
        while i < self.variables.len()
            invariant
                i <= self.variables.len(),
                variables.len() == i,
                forall|j: int|
                    0 <= j < i ==> #[trigger] named_models(variables)[j] == named_models(
                        self.variables,
                    )[j],
            decreases self.variables.len() - i,
        {
            let ghost before = named_models(variables);
            let name = self.variables[i].0.clone();
            let value = self.variables[i].1.copy();
            variables.push((name, value));
            proof {
                assert forall|j: int| 0 <= j < i + 1 implies #[trigger] named_models(variables)[j]
                    == named_models(self.variables)[j] by {
                    if j < i {
                        assert(named_models(variables)[j] == before[j]);
                    }
                }
            }
            i += 1;
        }
        let mut functions: Vec<(String, HostCallable)> = Vec::new();
        let mut k: usize = 0;
        while k < self.functions.len()
            invariant
                k <= self.functions.len(),
                functions.len() == k,
                forall|j: int|
                    0 <= j < k ==> #[trigger] named_models(functions)[j] == named_models(
                        self.functions,
                    )[j],
            decreases self.functions.len() - k,
        {
            let ghost before = named_models(functions);
            let name = self.functions[k].0.clone();
            let function = self.functions[k].1;
            functions.push((name, function));
            proof {
                assert forall|j: int| 0 <= j < k + 1 implies #[trigger] named_models(functions)[j]
                    == named_models(self.functions)[j] by {
                    if j < k {
                        assert(named_models(functions)[j] == before[j]);
                    }
                }
            }
            k += 1;
        }
        let copy = Context { variables, functions };
        proof {
            assert(copy@.variables =~= self@.variables);
            assert(copy@.functions =~= self@.functions);
        }
        copy
    }

    /// What the variable `name` is bound to, if anything.
    pub fn variable(&self, name: &str) -> (value: Option<&Value>)
        ensures
            match value {
                Some(v) => bound(self@.variables, name@) == Some(v@),
                None => bound(self@.variables, name@) is None,
            },
    {
        let ghost models = self@.variables;
        let mut i: usize = 0;
        proof {
            assert(models.skip(0) =~= models);
        }
        while i < self.variables.len()
            invariant
                i <= self.variables.len(),
                models == self@.variables,
                bound(models, name@) == bound(models.skip(i as int), name@),
            decreases self.variables.len() - i,
        {
            proof {
                assert(models.skip(i as int).drop_first() =~= models.skip(i + 1));
                assert(models.skip(i as int)[0] == models[i as int]);
            }
            if same_text(self.variables[i].0.as_str(), name) {
                return Some(&self.variables[i].1);
            }
            i += 1;
        }
        None
    }

    /// The host callable that the function `name` stands for, if any.
    pub fn function(&self, name: &str) -> (function: Option<HostCallable>)
        ensures
            function == bound(self@.functions, name@),
    {
        let ghost models = self@.functions;
        let mut i: usize = 0;
        proof {
            assert(models.skip(0) =~= models);
        }
        while i < self.functions.len()
            invariant
                i <= self.functions.len(),
                models == self@.functions,
                bound(models, name@) == bound(models.skip(i as int), name@),
            decreases self.functions.len() - i,
        {
            proof {
                assert(models.skip(i as int).drop_first() =~= models.skip(i + 1));
                assert(models.skip(i as int)[0] == models[i as int]);
            }
            if same_text(self.functions[i].0.as_str(), name) {
                return Some(self.functions[i].1);
            }
            i += 1;
        }
        None
    }
}

/// Context reuse: once a variable was added to a context, the context
/// binds its name to the converted value, whatever the name was bound to
/// before; every other variable and every function stays as it was.
pub proof fn lemma_rebinding(c: ContextModel, name: Seq<char>, value: HostModel, other: Seq<char>)
    requires
        c.well_formed(),
        variable_added(c, name, value) is Ok,
    ensures
        variable_added(c, name, value)->Ok_0.well_formed(),
        bound(variable_added(c, name, value)->Ok_0.variables, name) == Some(
            engine_value(value)->Ok_0,
        ),
        other != name ==> bound(variable_added(c, name, value)->Ok_0.variables, other) == bound(
            c.variables,
            other,
        ),
        variable_added(c, name, value)->Ok_0.functions == c.functions,
{
    lemma_with_entry(c.variables, name, engine_value(value)->Ok_0, other);
}

} // verus!
