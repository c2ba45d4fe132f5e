//! The registry of built-in host functions, and the built-ins
//! themselves.
//!
//! Built-ins are consulted on identifier lookup and during `let`, so a
//! binding can never shadow one.  `print` and `println` write their
//! output into a character buffer that the caller hands in; the code
//! around the interpreter decides where that buffer goes.

use vstd::prelude::*;
use crate::error::{ErrV, EvaluatorError};
use crate::object::{obj_view, objs_view, spec_inspect, BuiltinKind, Object, ObjectType, ValueV};
use crate::object::{lemma_objs_view_index, lemma_objs_view_len};
use crate::strutil::{push_str_chars, str_eq, str_to_chars};

verus! {

/// The built-in bound to a name, if any.
pub open spec fn spec_get_builtin(name: Seq<char>) -> Option<ValueV> {
    if name == "len"@ {
        Option::Some(ValueV::Builtin(BuiltinKind::Len))
    } else if name == "first"@ {
        Option::Some(ValueV::Builtin(BuiltinKind::First))
    } else if name == "last"@ {
        Option::Some(ValueV::Builtin(BuiltinKind::Last))
    } else if name == "push"@ {
        Option::Some(ValueV::Builtin(BuiltinKind::Push))
    } else if name == "pop"@ {
        Option::Some(ValueV::Builtin(BuiltinKind::Pop))
    } else if name == "rest"@ {
        Option::Some(ValueV::Builtin(BuiltinKind::Rest))
    } else if name == "print"@ {
        Option::Some(ValueV::Builtin(BuiltinKind::Print))
    } else if name == "println"@ {
        Option::Some(ValueV::Builtin(BuiltinKind::Println))
    } else {
        Option::None
    }
}

/// Looks a name up in the built-in registry.
pub fn get_builtin(name: &str) -> (r: Option<ObjectType>)
    ensures
        match r {
            Option::Some(v) => spec_get_builtin(name@) == Option::Some(v@),
            Option::None => spec_get_builtin(name@) is None,
        },
{
    if str_eq(name, "len") {
        Option::Some(ObjectType::Builtin(BuiltinKind::Len))
    } else if str_eq(name, "first") {
        Option::Some(ObjectType::Builtin(BuiltinKind::First))
    } else if str_eq(name, "last") {
        Option::Some(ObjectType::Builtin(BuiltinKind::Last))
    } else if str_eq(name, "push") {
        Option::Some(ObjectType::Builtin(BuiltinKind::Push))
    } else if str_eq(name, "pop") {
        Option::Some(ObjectType::Builtin(BuiltinKind::Pop))
    } else if str_eq(name, "rest") {
        Option::Some(ObjectType::Builtin(BuiltinKind::Rest))
    } else if str_eq(name, "print") {
        Option::Some(ObjectType::Builtin(BuiltinKind::Print))
    } else if str_eq(name, "println") {
        Option::Some(ObjectType::Builtin(BuiltinKind::Println))
    } else {
        Option::None
    }
}

/// Whether an executable evaluation result matches a modelled one.
pub open spec fn res_matches(
    r: Result<ObjectType, EvaluatorError>,
    s: Result<ValueV, ErrV>,
) -> bool {
    match (r, s) {
        (Result::Ok(v), Result::Ok(vv)) => v@ == vv,
        (Result::Err(e), Result::Err(ev)) => e@ == ev,
        _ => false,
    }
}

/// What `len` returns: the character count of a string or the element
/// count of an array.  A length beyond the 64-bit signed range reports
/// as that range's maximum; no real value reaches it.
pub open spec fn spec_builtin_len(args: Seq<ValueV>) -> Result<ValueV, ErrV> {
    if args.len() != 1 {
        Result::Err(
            ErrV::WrongNumberOfArguments {
                function: "unknown"@,
                expected: 1,
                actual: args.len() as usize,
            },
        )
    } else {
        match args[0] {
            ValueV::String(s) => Result::Ok(
                ValueV::Integer(
                    if s.len() <= 0x7fff_ffff_ffff_ffff {
                        s.len() as i64
                    } else {
                        0x7fff_ffff_ffff_ffff
                    },
                ),
            ),
            ValueV::Array(items) => Result::Ok(
                ValueV::Integer(
                    if items.len() <= 0x7fff_ffff_ffff_ffff {
                        items.len() as i64
                    } else {
                        0x7fff_ffff_ffff_ffff
                    },
                ),
            ),
            _ => Result::Err(
                ErrV::ArgumentTypeNotSupported { function: "len"@, actual: spec_inspect(args[0]) },
            ),
        }
    }
}

/// What `first` returns: the first element of an array, or `Null` when
/// it is empty.
pub open spec fn spec_builtin_first(args: Seq<ValueV>) -> Result<ValueV, ErrV> {
    if args.len() != 1 {
        Result::Err(
            ErrV::WrongNumberOfArguments {
                function: "unknown"@,
                expected: 1,
                actual: args.len() as usize,
            },
        )
    } else {
        match args[0] {
            ValueV::Array(items) => if items.len() > 0 {
                Result::Ok(items[0])
            } else {
                Result::Ok(ValueV::Null)
            },
            _ => Result::Err(
                ErrV::ArgumentTypeNotSupported {
                    function: "first"@,
                    actual: spec_inspect(args[0]),
                },
            ),
        }
    }
}

/// What `last` returns: the last element of an array, or `Null` when it
/// is empty.
pub open spec fn spec_builtin_last(args: Seq<ValueV>) -> Result<ValueV, ErrV> {
    if args.len() != 1 {
        Result::Err(
            ErrV::WrongNumberOfArguments {
                function: "unknown"@,
                expected: 1,
                actual: args.len() as usize,
            },
        )
    } else {
        match args[0] {
            ValueV::Array(items) => if items.len() > 0 {
                Result::Ok(items.last())
            } else {
                Result::Ok(ValueV::Null)
            },
            _ => Result::Err(
                ErrV::ArgumentTypeNotSupported {
                    function: "last"@,
                    actual: spec_inspect(args[0]),
                },
            ),
        }
    }
}

/// What `rest` returns: a new array without the first element, or
/// `Null` when the array is empty.
pub open spec fn spec_builtin_rest(args: Seq<ValueV>) -> Result<ValueV, ErrV> {
    if args.len() != 1 {
        Result::Err(
            ErrV::WrongNumberOfArguments {
                function: "unknown"@,
                expected: 1,
                actual: args.len() as usize,
            },
        )
    } else {
        match args[0] {
            ValueV::Array(items) => if items.len() > 0 {
                Result::Ok(ValueV::Array(items.drop_first()))
            } else {
                Result::Ok(ValueV::Null)
            },
            _ => Result::Err(
                ErrV::ArgumentTypeNotSupported {
                    function: "rest"@,
                    actual: spec_inspect(args[0]),
                },
            ),
        }
    }
}

/// What `push` returns: a new array with the second argument appended.
/// Any argument count other than two is an arity error.
pub open spec fn spec_builtin_push(args: Seq<ValueV>) -> Result<ValueV, ErrV> {
    if args.len() != 2 {
        Result::Err(
            ErrV::WrongNumberOfArguments {
                function: "unknown"@,
                expected: 2,
                actual: args.len() as usize,
            },
        )
    } else {
        match args[0] {
            ValueV::Array(items) => Result::Ok(ValueV::Array(items.push(args[1]))),
            _ => Result::Err(
                ErrV::ArgumentTypeNotSupported {
                    function: "push"@,
                    actual: spec_inspect(args[0]),
                },
            ),
        }
    }
}

/// What `pop` returns: a new array without the last element, or `Null`
/// when the array is empty.
pub open spec fn spec_builtin_pop(args: Seq<ValueV>) -> Result<ValueV, ErrV> {
    if args.len() != 1 {
        Result::Err(
            ErrV::WrongNumberOfArguments {
                function: "unknown"@,
                expected: 1,
                actual: args.len() as usize,
            },
        )
    } else {
        match args[0] {
            ValueV::Array(items) => if items.len() > 0 {
                Result::Ok(ValueV::Array(items.drop_last()))
            } else {
                Result::Ok(ValueV::Null)
            },
            _ => Result::Err(
                ErrV::ArgumentTypeNotSupported {
                    function: "pop"@,
                    actual: spec_inspect(args[0]),
                },
            ),
        }
    }
}

/// The text `print` emits: each argument's display form, in order.
pub open spec fn spec_print_output(args: Seq<ValueV>) -> Seq<char>
    decreases args.len(),
{
    if args.len() == 0 {
        Seq::<char>::empty()
    } else {
        spec_inspect(args[0]) + spec_print_output(args.drop_first())
    }
}

/// The text `println` emits: each argument's display form followed by a
/// newline.
pub open spec fn spec_println_output(args: Seq<ValueV>) -> Seq<char>
    decreases args.len(),
{
    if args.len() == 0 {
        Seq::<char>::empty()
    } else {
        spec_inspect(args[0]) + "\n"@ + spec_println_output(args.drop_first())
    }
}

/// The result of one built-in call, together with the text it appends
/// to the output.
pub open spec fn spec_apply_builtin(kind: BuiltinKind, args: Seq<ValueV>) -> (
    Result<ValueV, ErrV>,
    Seq<char>,
) {
    match kind {
        BuiltinKind::Len => (spec_builtin_len(args), Seq::<char>::empty()),
        BuiltinKind::First => (spec_builtin_first(args), Seq::<char>::empty()),
        BuiltinKind::Last => (spec_builtin_last(args), Seq::<char>::empty()),
        BuiltinKind::Push => (spec_builtin_push(args), Seq::<char>::empty()),
        BuiltinKind::Pop => (spec_builtin_pop(args), Seq::<char>::empty()),
        BuiltinKind::Rest => (spec_builtin_rest(args), Seq::<char>::empty()),
        BuiltinKind::Print => (Result::Ok(ValueV::Null), spec_print_output(args)),
        BuiltinKind::Println => (Result::Ok(ValueV::Null), spec_println_output(args)),
    }
}

/// `len` of a string (its character count) or of an array (its element
/// count).
pub fn len(args: &Vec<ObjectType>) -> (r: Result<ObjectType, EvaluatorError>)
    ensures
        res_matches(r, spec_builtin_len(objs_view(args@))),
{
    broadcast use lemma_objs_view_len, lemma_objs_view_index;

    proof {
        lemma_objs_view_len(args@);
        if args@.len() > 0 {
            lemma_objs_view_index(args@, 0);
            lemma_objs_view_index(args@, args@.len() - 1);
        }
        if args@.len() > 1 {
            lemma_objs_view_index(args@, 1);
        }
    }

    if args.len() != 1 {
        return Result::Err(EvaluatorError::wrong_number_of_arguments(1, args.len()));
    }
    let first = &args[0];
    match first {
        ObjectType::String(s) => {
            let n = s.as_str().unicode_len();
            let i: i64 = if (n as u64) <= 0x7fff_ffff_ffff_ffffu64 {
                n as i64
            } else {
                0x7fff_ffff_ffff_ffffi64
            };
            Result::Ok(ObjectType::Integer(i))
        },
        ObjectType::Array(items) => {
            proof {
                lemma_objs_view_len(items@);
            }
            let n = items.len();
            let i: i64 = if (n as u64) <= 0x7fff_ffff_ffff_ffffu64 {
                n as i64
            } else {
                0x7fff_ffff_ffff_ffffi64
            };
            Result::Ok(ObjectType::Integer(i))
        },
        _ => Result::Err(
            EvaluatorError::argument_type_not_supported("len", first.inspect().as_str()),
        ),
    }
}

/// `first` of an array: its first element, or `Null` when empty.
pub fn first(args: &Vec<ObjectType>) -> (r: Result<ObjectType, EvaluatorError>)
    ensures
        res_matches(r, spec_builtin_first(objs_view(args@))),
{
    broadcast use lemma_objs_view_len, lemma_objs_view_index;

    proof {
        lemma_objs_view_len(args@);
        if args@.len() > 0 {
            lemma_objs_view_index(args@, 0);
            lemma_objs_view_index(args@, args@.len() - 1);
        }
        if args@.len() > 1 {
            lemma_objs_view_index(args@, 1);
        }
    }

    if args.len() != 1 {
        return Result::Err(EvaluatorError::wrong_number_of_arguments(1, args.len()));
    }
    let first = &args[0];
    match first {
        ObjectType::Array(items) => {
            proof {
                lemma_objs_view_len(items@);
                if items@.len() > 0 {
                    lemma_objs_view_index(items@, 0);
                }
            }
            if items.len() > 0 {
                Result::Ok(items[0].clone())
            } else {
                Result::Ok(ObjectType::Null)
            }
        },
        _ => Result::Err(
            EvaluatorError::argument_type_not_supported("first", first.inspect().as_str()),
        ),
    }
}

/// `last` of an array: its last element, or `Null` when empty.
pub fn last(args: &Vec<ObjectType>) -> (r: Result<ObjectType, EvaluatorError>)
    ensures
        res_matches(r, spec_builtin_last(objs_view(args@))),
{
    broadcast use lemma_objs_view_len, lemma_objs_view_index;

    proof {
        lemma_objs_view_len(args@);
        if args@.len() > 0 {
            lemma_objs_view_index(args@, 0);
            lemma_objs_view_index(args@, args@.len() - 1);
        }
        if args@.len() > 1 {
            lemma_objs_view_index(args@, 1);
        }
    }

    if args.len() != 1 {
        return Result::Err(EvaluatorError::wrong_number_of_arguments(1, args.len()));
    }
    let first = &args[0];
    match first {
        ObjectType::Array(items) => {
            proof {
                lemma_objs_view_len(items@);
                if items@.len() > 0 {
                    lemma_objs_view_index(items@, items@.len() - 1);
                }
            }
            if items.len() > 0 {
                Result::Ok(items[items.len() - 1].clone())
            } else {
                Result::Ok(ObjectType::Null)
            }
        },
        _ => Result::Err(
            EvaluatorError::argument_type_not_supported("last", first.inspect().as_str()),
        ),
    }
}

/// `rest` of an array: a new array without the first element, or `Null`
/// when the array is empty.
pub fn rest(args: &Vec<ObjectType>) -> (r: Result<ObjectType, EvaluatorError>)
    ensures
        res_matches(r, spec_builtin_rest(objs_view(args@))),
{
    broadcast use lemma_objs_view_len, lemma_objs_view_index;

    proof {
        lemma_objs_view_len(args@);
        if args@.len() > 0 {
            lemma_objs_view_index(args@, 0);
            lemma_objs_view_index(args@, args@.len() - 1);
        }
        if args@.len() > 1 {
            lemma_objs_view_index(args@, 1);
        }
    }

    if args.len() != 1 {
        return Result::Err(EvaluatorError::wrong_number_of_arguments(1, args.len()));
    }
    let first = &args[0];
    match first {
        ObjectType::Array(items) => {
            if items.len() > 0 {
                let mut new_arr: Vec<ObjectType> = Vec::new();
                let mut j: usize = 1;
                while j < items.len()
                    invariant
                        1 <= j <= items@.len(),
                        new_arr@.len() == j - 1,
                        forall|k: int|
                            0 <= k < j - 1 ==> obj_view(#[trigger] new_arr@[k]) == obj_view(
                                items@[k + 1],
                            ),
                    decreases items@.len() - j,
                {
                    new_arr.push(items[j].clone());
                    j = j + 1;
                }
                proof {
                    assert(objs_view(new_arr@) =~= objs_view(items@).drop_first());
                }
                Result::Ok(ObjectType::Array(new_arr))
            } else {
                Result::Ok(ObjectType::Null)
            }
        },
        _ => Result::Err(
            EvaluatorError::argument_type_not_supported("rest", first.inspect().as_str()),
        ),
    }
}

/// `push`: a new array with the second argument appended to the first.
pub fn push(args: &Vec<ObjectType>) -> (r: Result<ObjectType, EvaluatorError>)
    ensures
        res_matches(r, spec_builtin_push(objs_view(args@))),
{
    broadcast use lemma_objs_view_len, lemma_objs_view_index;

    proof {
        lemma_objs_view_len(args@);
        if args@.len() > 0 {
            lemma_objs_view_index(args@, 0);
            lemma_objs_view_index(args@, args@.len() - 1);
        }
        if args@.len() > 1 {
            lemma_objs_view_index(args@, 1);
        }
    }

    if args.len() != 2 {
        return Result::Err(EvaluatorError::wrong_number_of_arguments(2, args.len()));
    }
    let first = &args[0];
    match first {
        ObjectType::Array(items) => push_array(items, args[1].clone()),
        _ => Result::Err(
            EvaluatorError::argument_type_not_supported("push", first.inspect().as_str()),
        ),
    }
}

/// Appends `obj` to a copy of `arr`.
pub fn push_array(arr: &Vec<ObjectType>, obj: ObjectType) -> (r: Result<
    ObjectType,
    EvaluatorError,
>)
    ensures
        r is Ok && r->Ok_0@ == ValueV::Array(objs_view(arr@).push(obj@)),
{
    broadcast use lemma_objs_view_len, lemma_objs_view_index;

    let ghost ov = obj@;
    let mut new_arr = crate::object::clone_obj_vec(arr);
    new_arr.push(obj);
    proof {
        assert(objs_view(new_arr@) =~= objs_view(arr@).push(ov));
    }
    Result::Ok(ObjectType::Array(new_arr))
}

/// `pop`: a new array without the last element, or `Null` when the
/// array is empty.
pub fn pop(args: &Vec<ObjectType>) -> (r: Result<ObjectType, EvaluatorError>)
    ensures
        res_matches(r, spec_builtin_pop(objs_view(args@))),
{
    broadcast use lemma_objs_view_len, lemma_objs_view_index;

    proof {
        lemma_objs_view_len(args@);
        if args@.len() > 0 {
            lemma_objs_view_index(args@, 0);
            lemma_objs_view_index(args@, args@.len() - 1);
        }
        if args@.len() > 1 {
            lemma_objs_view_index(args@, 1);
        }
    }

    if args.len() != 1 {
        return Result::Err(EvaluatorError::wrong_number_of_arguments(1, args.len()));
    }
    let first = &args[0];
    match first {
        ObjectType::Array(items) => {
            proof {
                lemma_objs_view_len(items@);
            }
            pop_array(items)
        },
        _ => Result::Err(
            EvaluatorError::argument_type_not_supported("pop", first.inspect().as_str()),
        ),
    }
}

/// A copy of `arr` without its last element; `Null` when it is empty.
pub fn pop_array(arr: &Vec<ObjectType>) -> (r: Result<ObjectType, EvaluatorError>)
    ensures
        r is Ok,
        arr@.len() > 0 ==> r->Ok_0@ == ValueV::Array(objs_view(arr@).drop_last()),
        arr@.len() == 0 ==> r->Ok_0@ == ValueV::Null,
{
    broadcast use lemma_objs_view_len, lemma_objs_view_index;

    if arr.len() > 0 {
        let mut new_arr = crate::object::clone_obj_vec(arr);
        new_arr.pop();
        proof {
            assert(objs_view(new_arr@) =~= objs_view(arr@).drop_last());
        }
        Result::Ok(ObjectType::Array(new_arr))
    } else {
        Result::Ok(ObjectType::Null)
    }
}

/// `print`: appends each argument's display form to the output buffer
/// and returns `Null`.
pub fn print(args: &Vec<ObjectType>, out: &mut Vec<char>) -> (r: Result<
    ObjectType,
    EvaluatorError,
>)
    ensures
        final(out)@ == old(out)@ + spec_print_output(objs_view(args@)),
        r is Ok && r->Ok_0@ == ValueV::Null,
{
    broadcast use lemma_objs_view_len, lemma_objs_view_index;

    proof {
        lemma_objs_view_len(args@);
        if args@.len() > 0 {
            lemma_objs_view_index(args@, 0);
            lemma_objs_view_index(args@, args@.len() - 1);
        }
        if args@.len() > 1 {
            lemma_objs_view_index(args@, 1);
        }
    }

    let mut j: usize = 0;
    while j < args.len()
        invariant
            j <= args@.len(),
            out@ == old(out)@ + spec_print_output(objs_view(args@).take(j as int)),
        decreases args@.len() - j,
    {
        args[j].push_inspect(out);
        j = j + 1;
        proof {
            lemma_objs_view_len(args@);
            lemma_objs_view_index(args@, j as int - 1);
            lemma_print_take_step(objs_view(args@), j as int);
            assert(out@ =~= old(out)@ + spec_print_output(objs_view(args@).take(j as int)));
        }
    }
    proof {
        assert(objs_view(args@).take(args@.len() as int) =~= objs_view(args@));
    }
    Result::Ok(ObjectType::Null)
}

/// `println`: like `print` with a newline after each argument.
pub fn println(args: &Vec<ObjectType>, out: &mut Vec<char>) -> (r: Result<
    ObjectType,
    EvaluatorError,
>)
    ensures
        final(out)@ == old(out)@ + spec_println_output(objs_view(args@)),
        r is Ok && r->Ok_0@ == ValueV::Null,
{
    broadcast use lemma_objs_view_len, lemma_objs_view_index;

    proof {
        lemma_objs_view_len(args@);
        if args@.len() > 0 {
            lemma_objs_view_index(args@, 0);
            lemma_objs_view_index(args@, args@.len() - 1);
        }
        if args@.len() > 1 {
            lemma_objs_view_index(args@, 1);
        }
    }

    let mut j: usize = 0;
    while j < args.len()
        invariant
            j <= args@.len(),
            out@ == old(out)@ + spec_println_output(objs_view(args@).take(j as int)),
        decreases args@.len() - j,
    {
        args[j].push_inspect(out);
        push_str_chars(out, "\n");
        j = j + 1;
        proof {
            lemma_objs_view_len(args@);
            lemma_objs_view_index(args@, j as int - 1);
            lemma_println_take_step(objs_view(args@), j as int);
            assert(out@ =~= old(out)@ + spec_println_output(objs_view(args@).take(j as int)));
        }
    }
    proof {
        assert(objs_view(args@).take(args@.len() as int) =~= objs_view(args@));
    }
    Result::Ok(ObjectType::Null)
}

/// One step of `print` output: the prefix grows by one display form.
proof fn lemma_print_take_step(args: Seq<ValueV>, j: int)
    requires
        0 < j <= args.len(),
    ensures
        spec_print_output(args.take(j)) == spec_print_output(args.take(j - 1)) + spec_inspect(
            args[j - 1],
        ),
    decreases j,
{
    if j == 1 {
        assert(args.take(1).drop_first() =~= args.take(0));
        assert(spec_print_output(args.take(0)) == Seq::<char>::empty());
        assert(spec_print_output(args.take(1)) =~= spec_inspect(args[0]) + Seq::<char>::empty());
        assert(spec_print_output(args.take(0)) + spec_inspect(args[0]) =~= spec_print_output(
            args.take(1),
        ));
    } else {
        lemma_print_take_step(args.drop_first(), j - 1);
        assert(args.take(j).drop_first() =~= args.drop_first().take(j - 1));
        assert(args.take(j - 1).drop_first() =~= args.drop_first().take(j - 2));
        assert(args.drop_first()[j - 2] == args[j - 1]);
        assert(spec_print_output(args.take(j)) =~= spec_print_output(args.take(j - 1))
            + spec_inspect(args[j - 1]));
    }
}

/// One step of `println` output: the prefix grows by one display form
/// and a newline.
proof fn lemma_println_take_step(args: Seq<ValueV>, j: int)
    requires
        0 < j <= args.len(),
    ensures
        spec_println_output(args.take(j)) == spec_println_output(args.take(j - 1)) + spec_inspect(
            args[j - 1],
        ) + "\n"@,
    decreases j,
{
    if j == 1 {
        assert(args.take(1).drop_first() =~= args.take(0));
        assert(spec_println_output(args.take(1)) =~= spec_println_output(args.take(0))
            + spec_inspect(args[0]) + "\n"@);
    } else {
        lemma_println_take_step(args.drop_first(), j - 1);
        assert(args.take(j).drop_first() =~= args.drop_first().take(j - 1));
        assert(args.take(j - 1).drop_first() =~= args.drop_first().take(j - 2));
        assert(args.drop_first()[j - 2] == args[j - 1]);
        assert(spec_println_output(args.take(j)) =~= spec_println_output(args.take(j - 1))
            + spec_inspect(args[j - 1]) + "\n"@);
    }
}

/// Dispatches one built-in call, appending any output it makes.
pub fn apply_builtin(kind: BuiltinKind, args: &Vec<ObjectType>, out: &mut Vec<char>) -> (r: Result<
    ObjectType,
    EvaluatorError,
>)
    ensures
        res_matches(r, spec_apply_builtin(kind, objs_view(args@)).0),
        final(out)@ == old(out)@ + spec_apply_builtin(kind, objs_view(args@)).1,
{
    match kind {
        BuiltinKind::Len => {
            let r = len(args);
            assert(out@ =~= old(out)@ + Seq::<char>::empty());
            r
        },
        BuiltinKind::First => {
            let r = first(args);
            assert(out@ =~= old(out)@ + Seq::<char>::empty());
            r
        },
        BuiltinKind::Last => {
            let r = last(args);
            assert(out@ =~= old(out)@ + Seq::<char>::empty());
            r
        },
        BuiltinKind::Push => {
            let r = push(args);
            assert(out@ =~= old(out)@ + Seq::<char>::empty());
            r
        },
        BuiltinKind::Pop => {
            let r = pop(args);
            assert(out@ =~= old(out)@ + Seq::<char>::empty());
            r
        },
        BuiltinKind::Rest => {
            let r = rest(args);
            assert(out@ =~= old(out)@ + Seq::<char>::empty());
            r
        },
        BuiltinKind::Print => print(args, out),
        BuiltinKind::Println => println(args, out),
    }
}

} // verus!
