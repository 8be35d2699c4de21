//! Promotion of a context's integers to floating-point numbers.

use crate::context::named_models;
use crate::float::{float_bits_of_int, int_to_float_bits};
use crate::value::{Value, ValueModel};
use vstd::prelude::*;

verus! {

/// Whether one of the variables is a floating-point number.
pub open spec fn holds_float(variables: Seq<(Seq<char>, ValueModel)>) -> bool {
    exists|i: int| 0 <= i < variables.len() && (#[trigger] variables[i]).1 is Float
}

/// A variable's value after promotion: an integer becomes the
/// floating-point number nearest to it, anything else stays as it is.
pub open spec fn promoted_value(v: ValueModel) -> ValueModel {
    match v {
        ValueModel::Int(i) => ValueModel::Float(float_bits_of_int(i as int)),
        other => other,
    }
}

/// The variables after promotion: each under its name, in order.
pub open spec fn promoted(variables: Seq<(Seq<char>, ValueModel)>) -> Seq<
    (Seq<char>, ValueModel),
> {
    Seq::new(variables.len(), |i: int| (variables[i].0, promoted_value(variables[i].1)))
}

/// Whether the variables call for promotion: one of them is a
/// floating-point number.
pub fn should_promote_integers_to_floats(variables: &Vec<(String, Value)>) -> (promote: bool)
    ensures
        promote == holds_float(named_models(*variables)),
{
    let mut i: usize = 0;
    while i < variables.len()
        invariant
            i <= variables.len(),
            forall|j: int| 0 <= j < i ==> !((#[trigger] named_models(*variables)[j]).1 is Float),
        decreases variables.len() - i,
    {
        if let Value::Float(_) = &variables[i].1 {
            proof {
                assert(named_models(*variables)[i as int].1 is Float);
            }
            return true;
        }
        i += 1;
    }
    false
}

/// Promotes every variable that is an integer to the floating-point number
/// nearest to it. Names, order and all other values stay as they are.
pub fn promote_integers_in_context(variables: &mut Vec<(String, Value)>)
    ensures
        named_models(*final(variables)) == promoted(named_models(*old(variables))),
{
    let ghost before = named_models(*variables);
    let mut i: usize = 0;
    while i < variables.len()
        invariant
            i <= variables.len(),
            variables.len() == before.len(),
            before == named_models(*old(variables)),
            forall|j: int| 0 <= j < i ==> #[trigger] named_models(*variables)[j] == promoted(before)[j],
            forall|j: int|
                i <= j < variables.len() ==> #[trigger] named_models(*variables)[j] == before[j],
        decreases variables.len() - i,
    {
        let replacement = match &variables[i].1 {
            Value::Int(n) => Some((variables[i].0.clone(), Value::Float(int_to_float_bits(*n)))),
            _ => None,
        };
        let ghost current = named_models(*variables);
        proof {
            assert(current[i as int] == before[i as int]);
        }
        if let Some(entry) = replacement {
            variables.set(i, entry);
        }
        proof {
            let after = named_models(*variables);
            assert forall|j: int| 0 <= j < i + 1 implies #[trigger] after[j] == promoted(before)[j] by {
                if j < i {
                    assert(after[j] == current[j]);
                }
            }
            assert forall|j: int| i + 1 <= j < variables.len() implies #[trigger] after[j]
                == before[j] by {
                assert(after[j] == current[j]);
            }
        }
        i += 1;
    }
    proof {
        assert(named_models(*variables) =~= promoted(before));
    }
}

} // verus!
