//! The WebAssembly signature under which a host function is offered to a
//! guest module.
use vstd::prelude::*;

verus! {

/// The type of a host function parameter.
#[derive(PartialEq, Eq, Structural, Debug, Clone, Copy)]
pub enum ParameterType {
    Int,
    UInt,
    Long,
    ULong,
    Float,
    Double,
    String,
    Bool,
    VecBytes,
}

/// The type a host function returns.
#[derive(PartialEq, Eq, Structural, Debug, Clone, Copy)]
pub enum ReturnType {
    Int,
    UInt,
    Long,
    ULong,
    Float,
    Double,
    String,
    Bool,
    Void,
    VecBytes,
}

/// A WebAssembly value type.
#[derive(PartialEq, Eq, Structural, Debug, Clone, Copy)]
pub enum ValType {
    I32,
    I64,
    F32,
    F64,
}

/// A WebAssembly function type: its parameters and results.
pub struct FuncSignature {
    pub params: Vec<ValType>,
    pub results: Vec<ValType>,
}

/// Why a host function cannot be offered.
#[derive(PartialEq, Eq, Structural, Debug, Clone, Copy)]
pub enum SignatureError {
    /// A byte vector parameter is not followed by its length.
    VectorLengthMissing,
}

impl SignatureError {
    /// The message of the error.
    pub fn message(&self) -> (s: String)
        ensures
            s@ == "Host function vector parameter missing length"@,
    {
        "Host function vector parameter missing length".to_owned()
    }
}

/// The value type a parameter is passed as: strings and byte vectors go as
/// 32-bit guest pointers, booleans as 32-bit integers.
pub open spec fn param_val(p: ParameterType) -> ValType {
    match p {
        ParameterType::Int | ParameterType::UInt | ParameterType::Bool | ParameterType::String
        | ParameterType::VecBytes => ValType::I32,
        ParameterType::Long | ParameterType::ULong => ValType::I64,
        ParameterType::Float => ValType::F32,
        ParameterType::Double => ValType::F64,
    }
}

/// The results a return type is passed as: none for void, and a byte
/// vector as one 64-bit value packing pointer and length.
pub open spec fn return_vals(r: ReturnType) -> Seq<ValType> {
    match r {
        ReturnType::Void => Seq::empty(),
        ReturnType::Int | ReturnType::UInt | ReturnType::Bool | ReturnType::String => seq![ValType::I32],
        ReturnType::Long | ReturnType::ULong | ReturnType::VecBytes => seq![ValType::I64],
        ReturnType::Float => seq![ValType::F32],
        ReturnType::Double => seq![ValType::F64],
    }
}

/// Every parameter after a byte vector is an `Int`.
pub open spec fn lengths_follow_vectors(ps: Seq<ParameterType>) -> bool {
    forall|i: int, j: int| 0 <= i < j < ps.len() && ps[i] == ParameterType::VecBytes ==> ps[j]
        == ParameterType::Int
}

/// The parameter list, none when absent.
pub open spec fn param_list(ps: Option<Vec<ParameterType>>) -> Seq<ParameterType> {
    match ps {
        Some(v) => v@,
        None => Seq::empty(),
    }
}

fn param_val_of(p: ParameterType) -> (v: ValType)
    ensures
        v == param_val(p),
{
    match p {
        ParameterType::Int | ParameterType::UInt | ParameterType::Bool | ParameterType::String
        | ParameterType::VecBytes => ValType::I32,
        ParameterType::Long | ParameterType::ULong => ValType::I64,
        ParameterType::Float => ValType::F32,
        ParameterType::Double => ValType::F64,
    }
}

/// The function type of a host function with the given parameter and
/// return types; refused when a byte vector parameter is followed by one
/// that is not an `Int`.
pub fn hostfunc_type(parameter_types: &Option<Vec<ParameterType>>, return_type: ReturnType) -> (r:
    Result<FuncSignature, SignatureError>)
    ensures
        lengths_follow_vectors(param_list(*parameter_types)) ==> (r matches Ok(sig) && sig.params@
            == param_list(*parameter_types).map_values(|p: ParameterType| param_val(p))
            && sig.results@ == return_vals(return_type)),
        !lengths_follow_vectors(param_list(*parameter_types)) ==> r
            == Err::<FuncSignature, SignatureError>(SignatureError::VectorLengthMissing),
{
    let ghost ps = param_list(*parameter_types);
    let mut params: Vec<ValType> = Vec::new();
    match parameter_types {
        Some(list) => {
            let mut last_was_vec = false;
            let mut i: usize = 0;
            while i < list.len()
                invariant
                    ps == list@,
                    ps == param_list(*parameter_types),
                    i <= list.len(),
                    params@ == ps.take(i as int).map_values(|p: ParameterType| param_val(p)),
                    lengths_follow_vectors(ps.take(i as int)),
                    last_was_vec <==> exists|k: int| 0 <= k < i && ps[k] == ParameterType::VecBytes,
                decreases list.len() - i,
            {
                let p = list[i];
                if last_was_vec && p != ParameterType::Int {
                    let ghost k = choose|k: int| 0 <= k < i && ps[k] == ParameterType::VecBytes;
                    assert(!lengths_follow_vectors(ps) ) by {
                        assert(ps[k] == ParameterType::VecBytes && ps[i as int] != ParameterType::Int);
                    }
                    return Err(SignatureError::VectorLengthMissing);
                }
                if p == ParameterType::VecBytes {
                    last_was_vec = true;
                }
                params.push(param_val_of(p));
                proof {
                    assert(ps.take(i + 1).drop_last() =~= ps.take(i as int));
                    assert(ps.take(i + 1).map_values(|p: ParameterType| param_val(p)) =~= ps.take(
                        i as int,
                    ).map_values(|p: ParameterType| param_val(p)).push(param_val(p)));
                    let t = ps.take(i + 1);
                    let t0 = ps.take(i as int);
                    assert forall|a: int, b: int|
                        0 <= a < b < t.len() && t[a] == ParameterType::VecBytes implies t[b]
                        == ParameterType::Int by {
                        if b < i {
                            assert(t0[a] == t[a] && t0[b] == t[b]);
                        } else {
                            assert(ps[a] == ParameterType::VecBytes);
                        }
                    }
                }
                i = i + 1;
            }
            assert(ps.take(list.len() as int) =~= ps);
        },
        None => {
            assert(ps.map_values(|p: ParameterType| param_val(p)) =~= Seq::<ValType>::empty());
        },
    }
    let mut results: Vec<ValType> = Vec::new();
    match return_type {
        ReturnType::Void => {},
        ReturnType::Int | ReturnType::UInt | ReturnType::Bool | ReturnType::String => results.push(
            ValType::I32,
        ),
        ReturnType::Long | ReturnType::ULong | ReturnType::VecBytes => results.push(ValType::I64),
        ReturnType::Float => results.push(ValType::F32),
        ReturnType::Double => results.push(ValType::F64),
    }
    assert(results@ =~= return_vals(return_type));
    Ok(FuncSignature { params, results })
}

/// The parameter type that carries the same kind of value as a return
/// type, where there is one.
pub open spec fn same_kind_param(r: ReturnType) -> Option<ParameterType> {
    match r {
        ReturnType::Int => Some(ParameterType::Int),
        ReturnType::UInt => Some(ParameterType::UInt),
        ReturnType::Long => Some(ParameterType::Long),
        ReturnType::ULong => Some(ParameterType::ULong),
        ReturnType::Float => Some(ParameterType::Float),
        ReturnType::Double => Some(ParameterType::Double),
        ReturnType::String => Some(ParameterType::String),
        ReturnType::Bool => Some(ParameterType::Bool),
        ReturnType::VecBytes => Some(ParameterType::VecBytes),
        ReturnType::Void => None,
    }
}

/// A value is returned as the same value type it is passed as: a result of
/// a kind that a parameter can have is that parameter's one value type;
/// void returns nothing; and only a byte vector differs, coming back as one
/// 64-bit value that packs its pointer and length where a parameter passes
/// a 32-bit pointer.
pub proof fn lemma_results_match_params(r: ReturnType)
    ensures
        r is Void <==> return_vals(r).len() == 0,
        !(r is Void) ==> return_vals(r).len() == 1,
        !(r is Void) && !(r is VecBytes) ==> return_vals(r) == seq![
            param_val(same_kind_param(r)->0),
        ],
        r is VecBytes ==> return_vals(r) == seq![ValType::I64] && param_val(ParameterType::VecBytes)
            == ValType::I32,
{
}

/// Integers, booleans and string pointers are 32-bit values; longs are
/// 64-bit: parameters and results agree on each.
pub proof fn lemma_value_widths()
    ensures
        param_val(ParameterType::Int) == param_val(ParameterType::UInt),
        param_val(ParameterType::Int) == param_val(ParameterType::Bool),
        param_val(ParameterType::Int) == param_val(ParameterType::String),
        param_val(ParameterType::Long) == param_val(ParameterType::ULong),
        param_val(ParameterType::Int) != param_val(ParameterType::Long),
        return_vals(ReturnType::Int) == return_vals(ReturnType::Bool),
        return_vals(ReturnType::Int) != return_vals(ReturnType::Long),
{
    assert(return_vals(ReturnType::Int)[0] != return_vals(ReturnType::Long)[0]);
}

} // verus!
