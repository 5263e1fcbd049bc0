//! Checking a program: names, types and calls, filling in what the
//! generator needs (symbols, generated names, inferred types).
use vstd::prelude::*;
use crate::parser::ast::{
    BuiltInFunction, EnumDecl, Expr, MethodType, Parameter, Symbol, TemplateChunk, Type, TypeV,
    arg_count_spec, builtin_name, builtin_name_spec, clone_parameters, clone_type, type_eq,
};
use crate::text::{str_eq, to_owned_string};
use crate::translations::validator_messages::ValidatorError;
use crate::validator::{FunctionInfo, MethodInfo, TypeDef, ValidatorContext, keeps_declarations};
use crate::validator::helpers::{az_fold, fold_name, get_type_checked, transpile_az_chars, type_outcome};

verus! {

/// The forms the validator leaves as they are: literals, unary operations,
/// lists, assignments and loop jumps.
pub open spec fn is_unchecked_form(e: Expr) -> bool {
    ||| e is DynamicString
    ||| e is String
    ||| e is Bool
    ||| e is Number
    ||| e is Char
    ||| e is Float
    ||| e is UnaryOp
    ||| e is List
    ||| e is Assingment
    ||| e is Assignment
    ||| e is Break
    ||| e is Continue
}

/// The position of the first method called `name` from position `i` on.
pub open spec fn first_method(methods: Seq<MethodInfo>, name: Seq<char>, i: int) -> Option<int>
    decreases methods.len() - i,
{
    if i < 0 || i >= methods.len() {
        None
    } else if methods[i].name@ == name {
        Some(i)
    } else {
        first_method(methods, name, i + 1)
    }
}

/// The position of the first method `name` in a list of method descriptions.
fn find_method(methods: &Vec<MethodInfo>, name: &str) -> (r: Option<usize>)
    ensures
        r matches Some(i) ==> i < methods@.len() && methods@[i as int].name@ == name@,
        r is None ==> forall|i: int| 0 <= i < methods@.len() ==> (#[trigger] methods@[i]).name@ != name@,
        match r { Some(i) => first_method(methods@, name@, 0) == Some(i as int), None => first_method(methods@, name@, 0) is None },
{
    let mut i: usize = 0;
    while i < methods.len()
        invariant
            i <= methods@.len(),
            forall|j: int| 0 <= j < i ==> (#[trigger] methods@[j]).name@ != name@,
            first_method(methods@, name@, 0) == first_method(methods@, name@, i as int),
        decreases methods@.len() - i,
    {
        if str_eq(methods[i].name.as_str(), name) {
            return Some(i);
        }
        i = i + 1;
    }
    None
}

/// A copy of an optional type.
fn clone_opt_type(t: &Option<Type>) -> (r: Option<Type>)
    ensures
        r == *t,
{
    match t {
        Some(x) => Some(clone_type(x)),
        None => None,
    }
}

/// The result a failed type inference gives.
fn inference_failed(n: String) -> (r: ValidatorError)
    ensures
        r == ValidatorError::TypeInferenceFailed(n),
{
    ValidatorError::TypeInferenceFailed(n)
}

/// What a method call needs of the method: its generated name, whether it
/// uses the allocator, and its return type; `None` when the argument count
/// does not fit. `extra` is 1 when the method also takes the value it is
/// called on.
fn method_call_info(def: &TypeDef, name: &String, n_args: usize, extra: usize)
    -> (r: Result<(String, bool, Option<Type>), ValidatorError>)
    requires
        extra <= 1,
    ensures
        match first_method(def.2@, name@, 0) {
            None => r == Err::<(String, bool, Option<Type>), ValidatorError>(ValidatorError::FunctionNotFound(*name)),
            Some(i) => {
                let m = def.2@[i];
                if n_args + extra != m.parameters@.len() {
                    r matches Err(ValidatorError::FunctionArgCountMismatch { name: n, expected, found })
                        && n == *name && expected == m.parameters@.len() && found == n_args
                } else {
                    r matches Ok((tn, alloc, ret))
                        && tn@ == fold_name(m.name@) && alloc == m.is_allocator_used && ret == m.return_type
                }
            },
        },
{
    let idx = match find_method(&def.2, name.as_str()) {
        Some(i) => i,
        None => return Err(ValidatorError::FunctionNotFound(name.clone())),
    };
    let method = &def.2[idx];
    if n_args as u128 + extra as u128 != method.parameters.len() as u128 {
        return Err(ValidatorError::FunctionArgCountMismatch {
            name: name.clone(),
            expected: method.parameters.len(),
            found: n_args,
        });
    }
    Ok((transpile_az_chars(method.name.as_str()), method.is_allocator_used, clone_opt_type(&method.return_type)))
}

/// Whether a method's return type names a type the context does not know.
pub open spec fn unknown_return(m: MethodType, ctx: ValidatorContext) -> bool {
    m.return_type matches Some(Type::User(n, _)) && !ctx.knows_type(n@)
}

/// Whether `info` describes the method `m`: its name and parameters, not
/// using the allocator, and its return type, a user type given its
/// generated name.
pub open spec fn method_info_of(m: MethodType, info: MethodInfo) -> bool {
    &&& info.name == m.name
    &&& info.parameters@ == m.params@
    &&& !info.is_allocator_used
    &&& match m.return_type {
        Some(Type::User(n, _)) => info.return_type matches Some(Type::User(n2, t2)) && n2 == n && t2@ == fold_name(n@),
        other => info.return_type == other,
    }
}

/// The method descriptions of a type's methods, with user return types
/// checked and given their generated names.
fn method_infos(methods: &Vec<MethodType>, ctx: &ValidatorContext) -> (r: Result<Vec<MethodInfo>, ValidatorError>)
    requires
        ctx.wf(),
    ensures
        r is Err <==> exists|k: int| 0 <= k < methods@.len() && #[trigger] unknown_return(methods@[k], *ctx),
        r matches Err(e) ==> exists|k: int| 0 <= k < methods@.len() && #[trigger] unknown_return(methods@[k], *ctx)
            && (forall|j: int| 0 <= j < k ==> !unknown_return(#[trigger] methods@[j], *ctx))
            && (e matches ValidatorError::UnknownType(n) && n@ == methods@[k].return_type->Some_0->User_0@),
        r matches Ok(v) ==> v@.len() == methods@.len()
            && forall|k: int| 0 <= k < methods@.len() ==> #[trigger] method_info_of(methods@[k], v@[k]),
{
    let mut out: Vec<MethodInfo> = Vec::new();
    let mut i: usize = 0;
    while i < methods.len()
        invariant
            ctx.wf(),
            i <= methods@.len(),
            out@.len() == i,
            forall|j: int| 0 <= j < i ==> !unknown_return(#[trigger] methods@[j], *ctx),
            forall|k: int| 0 <= k < i ==> #[trigger] method_info_of(methods@[k], out@[k]),
        decreases methods@.len() - i,
    {
        let method = &methods[i];
        let mut ret = clone_opt_type(&method.return_type);
        match &mut ret {
            Some(Type::User(n, transpiled_type)) => {
                match ctx.validate_user_type(n.as_str()) {
                    Ok(_) => {},
                    Err(e) => {
                        assert(unknown_return(methods@[i as int], *ctx));
                        return Err(e);
                    },
                }
                *transpiled_type = transpile_az_chars(n.as_str());
            },
            _ => {},
        }
        assert(!unknown_return(methods@[i as int], *ctx));
        out.push(MethodInfo {
            name: method.name.clone(),
            return_type: ret,
            parameters: clone_parameters(&method.params),
            is_allocator_used: false,
        });
        i = i + 1;
    }
    Ok(out)
}

/// `a` and `b` agree on everything the type of an expression is read from,
/// but perhaps on the variable `name`.
pub open spec fn same_but(a: ValidatorContext, b: ValidatorContext, name: Seq<char>) -> bool {
    &&& forall|q: Seq<char>| q != name ==> #[trigger] a.lookup(q) == b.lookup(q)
    &&& a.struct_defs == b.struct_defs
    &&& a.union_defs == b.union_defs
    &&& a.enum_defs == b.enum_defs
}

/// A checked parameter `p1` is the parameter `p0`, passed by pointer where
/// it is mutable.
pub open spec fn pointer_param(p1: Parameter, p0: Parameter) -> bool {
    &&& p1.name == p0.name
    &&& p1.typ == p0.typ
    &&& p1.is_mutable == p0.is_mutable
    &&& p1.is_pointer == p0.is_mutable
}

/// How a declaration of the new name `name` ends once its value was
/// checked, becoming `v1` with the result `rv` and leaving the context `cm`:
/// an error of the value is the result; else the value's type decides, and
/// a known type that agrees with the annotation declares the name.
pub open spec fn decl_decided(name: String, typ0: Option<Type>, v1: Expr, cm: ValidatorContext,
    rv: Result<(), ValidatorError>, e1: Expr, c1: ValidatorContext, r: Result<(), ValidatorError>) -> bool {
    match rv {
        Err(_) => r == rv,
        Ok(_) => match type_outcome(v1, cm, typ0) {
            Err(n) => r matches Err(ValidatorError::TypeInferenceFailed(m)) && m@ == n,
            Ok(None) => r == Err::<(), ValidatorError>(ValidatorError::DeclTypeUnknown),
            Ok(Some(t)) => match typ0 {
                Some(a) => if a@ != t {
                    r matches Err(ValidatorError::DeclTypeMismatch { name: n, expected, found })
                        && n == name && expected == a && found@ == t
                } else {
                    decl_entered(name, v1, t, cm, e1, c1, r)
                },
                None => decl_entered(name, v1, t, cm, e1, c1, r),
            },
        },
    }
}

/// A declaration succeeded: it keeps its checked value `v1`, carries the
/// type `t`, and the name is entered with that type.
pub open spec fn decl_entered(name: String, v1: Expr, t: TypeV, cm: ValidatorContext, e1: Expr,
    c1: ValidatorContext, r: Result<(), ValidatorError>) -> bool {
    &&& r is Ok
    &&& e1 matches Expr::Decl { value: v2, typ: Some(ty), .. } && *v2 == v1 && ty@ == t
    &&& same_but(cm, c1, name@)
    &&& cm.scopes@.len() > 0 ==> (c1.lookup(name@) matches Some(s) && s.typ@ == t)
}

/// What checking the expression `e0` in the context `c0` does, where it
/// follows from them, giving `e1`, `c1` and the result `r`.
pub open spec fn expr_checked(e0: Expr, e1: Expr, c0: ValidatorContext, c1: ValidatorContext,
    r: Result<(), ValidatorError>) -> bool {
    // forms the validator passes over
    &&& (is_unchecked_form(e0) ==> r is Ok && e1 == e0 && c1 == c0)
    // a declaration
    &&& (e0 matches Expr::Decl { name, is_mutable, typ: typ0, .. } ==> {
        &&& c0.lookup(name@) is Some ==> r == Err::<(), ValidatorError>(ValidatorError::AlreadyDecl(name))
        &&& r is Ok ==> (e1 matches Expr::Decl { name: n2, typ: Some(t), transpiled_name: Some(tn), value: v1, .. }
            && n2 == name && tn@ == fold_name(name@)
            && (typ0 matches Some(a) ==> a@ == t@)
            && exists|cm: ValidatorContext| #[trigger] type_outcome(*v1, cm, typ0)
                == Ok::<Option<TypeV>, Seq<char>>(Some(t@)) && same_but(cm, c1, name@)
            && (c0.scopes@.len() > 0 ==> c1.lookup(name@) == Some(Symbol {
                typ: t, transpiled_name: Some(tn), is_mutable, is_used: false, is_pointer: false })))
    })
    // a declaration whose annotation differs from its literal value's type:
    // the annotation is what was expected, the value's type what was found
    &&& (e0 matches Expr::Decl { name, value, typ: Some(a), .. } ==> (is_unchecked_form(*value)
        && c0.lookup(name@) is None
        && (type_outcome(*value, c0, Some(a)) matches Ok(Some(t)) && a@ != t)
        ==> (r matches Err(ValidatorError::DeclTypeMismatch { name: n, expected, found }) && n == name
            && Ok::<Option<TypeV>, Seq<char>>(Some(found@)) == type_outcome(*value, c0, Some(a)) && expected == a)
            && e1 == e0 && c1 == c0))
    // an enum declaration
    &&& (e0 matches Expr::EnumDecl(d) ==> {
        &&& c0.enum_defs.has(d.name@) ==> r == Err::<(), ValidatorError>(ValidatorError::DuplicateEnum(d.name))
        &&& !c0.enum_defs.has(d.name@) ==> r is Ok && e1 == e0
            && c1.enum_defs.as_map() == c0.enum_defs.as_map().insert(d.name@, c1.enum_defs.as_map()[d.name@])
            && c1.enum_defs.as_map()[d.name@]@ == d.variants@
    })
    // a struct type
    &&& (e0 matches Expr::StructDef { name, .. } ==> {
        &&& c0.struct_defs.has(name@) ==> r == Err::<(), ValidatorError>(ValidatorError::DuplicateStruct(name))
        &&& r is Ok ==> c1.struct_defs.has(name@)
            && (e1 matches Expr::StructDef { name: n2, transpiled_name: Some(tn), .. }
                && n2@ == Seq::<char>::empty() && tn@ == fold_name(name@))
    })
    // a union type
    &&& (e0 matches Expr::UnionType { name, .. } ==> {
        &&& c0.union_defs.has(name@) ==> r == Err::<(), ValidatorError>(ValidatorError::DuplicateUnion(name))
        &&& r is Ok ==> c1.union_defs.has(name@)
            && (e1 matches Expr::UnionType { name: n2, transpiled_name: Some(tn), .. }
                && n2 == name && tn@ == fold_name(name@))
    })
    // a struct value
    &&& (e0 matches Expr::StructInit { name, .. } ==>
        (!c0.struct_defs.has(name@) && !c0.union_defs.has(name@)
            ==> r == Err::<(), ValidatorError>(ValidatorError::UnknownStruct(name))))
    // a built-in call with the wrong number of arguments
    &&& (e0 matches Expr::BuiltInCall { function, args, .. } ==>
        (arg_count_spec(function) matches Some(e) ==> args@.len() != e ==>
            (r matches Err(ValidatorError::InvalidArgumentCount { name: n, expected, found })
                && n@ == builtin_name_spec(function) && expected == e && found == args@.len())))
    // a function definition
    &&& (e0 matches Expr::FunctionDef { name, params, body, return_type, .. } ==> {
        &&& c0.current_function is Some ==> r == Err::<(), ValidatorError>(ValidatorError::NestedFunctionDefinition)
            && c1 == c0 && e1 == e0
        &&& r is Ok ==> c1.functions.has(name@) && c1.current_function is None && c1.current_return is None
            && !c1.is_allocator_used
            && (e1 matches Expr::FunctionDef { params: p1, body: b1, .. }
                && b1@.len() == body@.len() && p1@.len() == params@.len()
                && c1.functions.as_map()[name@].parameters@ == p1@
                && forall|k: int| 0 <= k < p1@.len() ==> #[trigger] pointer_param(p1@[k], params@[k]))
        &&& (c0.current_function is None
            && (return_type matches Some(Type::User(rn, _)) ==> c0.knows_type(rn@))
            && body@.len() >= 1 && body@[0] is Decl && c0.lookup(body@[0]->Decl_name@) is Some)
            ==> r == Err::<(), ValidatorError>(ValidatorError::AlreadyDecl(body@[0]->Decl_name))
    })
    // a call of a free function
    &&& (e0 matches Expr::Call { target: None, name, args, .. } ==> {
        &&& !c0.functions.has(name@) ==> r == Err::<(), ValidatorError>(ValidatorError::FunctionNotFound(name))
        &&& c0.functions.has(name@) && c0.functions.as_map()[name@].parameters@.len() != args@.len()
            ==> (r matches Err(ValidatorError::FunctionArgCountMismatch { name: n, expected, found })
                && n == name && expected == c0.functions.as_map()[name@].parameters@.len()
                && found == args@.len())
        &&& r is Ok ==> (e1 matches Expr::Call { transpiled_name: Some(tn), returned_type, .. }
            && tn@ == fold_name(name@) && returned_type == c0.functions.as_map()[name@].return_type)
    })
    // a condition whose type is known and not a truth value, or unknown
    &&& (e0 matches Expr::If { condition, .. } ==> (is_unchecked_form(*condition) ==> {
        &&& type_outcome(*condition, c0, None) == Ok::<Option<TypeV>, Seq<char>>(None)
            ==> r == Err::<(), ValidatorError>(ValidatorError::IfConditionTypeUnknown) && c1 == c0
        &&& type_outcome(*condition, c0, None) matches Ok(Some(t)) ==> (t != TypeV::Bool
            ==> (r matches Err(ValidatorError::IfConditionTypeMismatch(ft)) && ft@ == t) && c1 == c0)
    }))
    &&& (e0 matches Expr::ElseIf { condition, .. } ==> (is_unchecked_form(*condition) ==> {
        &&& type_outcome(*condition, c0, None) == Ok::<Option<TypeV>, Seq<char>>(None)
            ==> r == Err::<(), ValidatorError>(ValidatorError::IfConditionTypeUnknown) && c1 == c0
        &&& type_outcome(*condition, c0, None) matches Ok(Some(t)) ==> (t != TypeV::Bool
            ==> (r matches Err(ValidatorError::IfConditionTypeMismatch(ft)) && ft@ == t) && c1 == c0)
    }))
    // a loop over something that is not a list
    &&& (e0 matches Expr::Loop { iterable, .. } ==> (is_unchecked_form(*iterable) ==> {
        &&& type_outcome(*iterable, c0, None) == Ok::<Option<TypeV>, Seq<char>>(None)
            ==> r == Err::<(), ValidatorError>(ValidatorError::LoopIterableTypeNotFound) && c1 == c0
        &&& type_outcome(*iterable, c0, None) matches Ok(Some(t)) ==> (!(t is Array)
            ==> r == Err::<(), ValidatorError>(ValidatorError::LoopRequiresList) && c1 == c0)
    }))
    // a variable reference
    &&& (e0 matches Expr::VariableRef { name, .. } ==> {
        &&& r is Ok <==> (c0.lookup(name@) is Some
            || (name@ == "self"@ && c0.current_struct is Some)
            || c0.is_any_variant(name@))
        &&& r is Err ==> r == Err::<(), ValidatorError>(ValidatorError::UndefinedVariable(name))
        &&& c0.lookup(name@) matches Some(s) ==> e1 == (Expr::VariableRef {
            name, transpiled_name: s.transpiled_name, symbol: Some(Symbol { is_used: true, ..s }) })
            && c1.lookup(name@) == Some(Symbol { is_used: true, ..s })
    })
}

/// Checks an expression and annotates it (`validate_expr`): declarations
/// are entered and given their inferred type and generated name, names are
/// resolved, calls are matched against the declared functions and methods,
/// built-in calls are checked for their argument count, and conditions and
/// loops for their types.
#[verifier::loop_isolation(false)]
#[verifier::rlimit(80)]
#[verifier::spinoff_prover]
pub fn validate_expr(expr: &mut Expr, ctx: &mut ValidatorContext) -> (r: Result<(), ValidatorError>)
    requires
        old(ctx).wf(),
    ensures
        final(ctx).wf(),
        keeps_declarations(*old(ctx), *final(ctx)),
        r is Ok ==> final(ctx).scopes@.len() == old(ctx).scopes@.len(),
        r is Ok ==> final(ctx).current_function == old(ctx).current_function,
        expr_checked(*old(expr), *final(expr), *old(ctx), *final(ctx), r),
        parts_decide(*old(expr), *final(expr), *old(ctx), *final(ctx), r),
    decreases *old(expr),
{
    match expr {
        Expr::Decl { name, transpiled_name, typ, is_mutable, value, .. } => {
            if ctx.lookup_variable(name.as_str()).is_some() {
                return Err(ValidatorError::AlreadyDecl(name.clone()));
            }
            let transpiled = transpile_az_chars(name.as_str());
            let ghost c_pre = *ctx;
            let rv = validate_expr(value, ctx);
            let ghost cm = *ctx;
            let ghost v1 = **value;
            proof {
                assert(expr_checked(*old(expr)->Decl_value, v1, c_pre, cm, rv));
            }
            match rv {
                Ok(_) => {},
                Err(e) => {
                    proof {
                        assert(decl_decided(old(expr)->Decl_name, old(expr)->Decl_typ, v1, cm, rv,
                            *expr, *ctx, Err(e)));
                    }
                    return Err(e);
                },
            }
            let inferred = match get_type_checked(value, ctx, typ.as_ref()) {
                Ok(t) => t,
                Err(n) => {
                    let r = inference_failed(n);
                    proof {
                        assert(decl_decided(old(expr)->Decl_name, old(expr)->Decl_typ, v1, cm, rv,
                            *expr, *ctx, Err(r)));
                    }
                    return Err(r);
                },
            };
            match inferred {
                Some(s) => {
                    match typ {
                        Some(typ_ref) => {
                            if !type_eq(typ_ref, &s) {
                                proof {
                                    assert(type_outcome(**value, *ctx, old(expr)->Decl_typ)
                                        == Ok::<Option<TypeV>, Seq<char>>(Some(s@)));
                                }
                                let r = ValidatorError::DeclTypeMismatch {
                                    name: name.clone(),
                                    expected: clone_type(typ_ref),
                                    found: s,
                                };
                                proof {
                                    assert(decl_decided(old(expr)->Decl_name, old(expr)->Decl_typ, v1, cm, rv,
                                        *expr, *ctx, Err(r)));
                                }
                                return Err(r);
                            }
                        },
                        None => {},
                    }
                    *typ = Some(clone_type(&s));
                    *transpiled_name = Some(transpiled.clone());
                    let ghost sv = s;
                    let sym = Symbol {
                        typ: s,
                        transpiled_name: Some(transpiled),
                        is_mutable: *is_mutable,
                        is_used: false,
                        is_pointer: false,
                    };
                    let ghost symv = sym;
                    ctx.declare_variable(name.clone(), sym);
                    proof {
                        assert forall|q: Seq<char>| q != name@ implies #[trigger] cm.lookup(q) == ctx.lookup(q) by {
                            if cm.scopes@.len() > 0 {
                                crate::validator::lemma_declare_keeps_others(cm.scope_maps(), name@, symv, q);
                            } else {
                                assert(ctx.scope_maps() =~= cm.scope_maps());
                            }
                        }
                        assert(same_but(cm, *ctx, name@));
                        assert(type_outcome(**value, cm, old(expr)->Decl_typ)
                            == Ok::<Option<TypeV>, Seq<char>>(Some(sv@)));
                        if cm.scopes@.len() > 0 {
                            crate::validator::lemma_declare_then_lookup(cm.scope_maps(), name@, symv);
                        }
                        assert(decl_decided(old(expr)->Decl_name, old(expr)->Decl_typ, v1, cm, rv,
                            *expr, *ctx, Ok(())));
                    }
                },
                None => {
                    proof {
                        assert(decl_decided(old(expr)->Decl_name, old(expr)->Decl_typ, v1, cm, rv,
                            *expr, *ctx, Err(ValidatorError::DeclTypeUnknown)));
                    }
                    return Err(ValidatorError::DeclTypeUnknown);
                },
            }
        },
        Expr::UnionType { name, transpiled_name, fields, methods } => {
            if ctx.union_defs.contains_key(name.as_str()) {
                return Err(ValidatorError::DuplicateUnion(name.clone()));
            }
            let transpiled = transpile_az_chars(name.as_str());
            ctx.union_defs.insert(name.clone(), (transpiled.clone(), Vec::new(), Vec::new()));
            let mut infos: Vec<MethodInfo> = Vec::new();
            let mut k: usize = 0;
            while k < methods.len()
                invariant
                    ctx.current_function == old(ctx).current_function,
                    ctx.wf(),
                    keeps_declarations(*old(ctx), *ctx),
                    ctx.scopes@.len() == old(ctx).scopes@.len(),
                    k <= methods@.len(),
                decreases methods@.len() - k,
            {
                let m = &methods[k];
                infos.push(MethodInfo {
                    name: m.name.clone(),
                    return_type: clone_opt_type(&m.return_type),
                    parameters: clone_parameters(&m.params),
                    is_allocator_used: false,
                });
                k = k + 1;
            }
            let mut newfields: Vec<(String, Type)> = Vec::new();
            let mut k: usize = 0;
            while k < fields.len()
                invariant
                    ctx.current_function == old(ctx).current_function,
                    k <= fields@.len(),
                decreases fields@.len() - k,
            {
                newfields.push((fields[k].0.clone(), clone_type(&fields[k].1)));
                k = k + 1;
            }
            ctx.union_defs.insert(name.clone(), (transpiled.clone(), newfields, infos));
            let ghost orig = methods@;
            let mut k: usize = 0;
            while k < methods.len()
                invariant
                    ctx.current_function == old(ctx).current_function,
                    ctx.wf(),
                    keeps_declarations(*old(ctx), *ctx),
                    ctx.scopes@.len() == old(ctx).scopes@.len(),
                    methods@.len() == orig.len(),
                    k <= methods@.len(),
                    forall|j: int| k <= j < orig.len() ==> #[trigger] methods@[j] == orig[j],
                    *old(expr) == (Expr::UnionType { name: old(expr)->UnionType_name,
                        transpiled_name: old(expr)->UnionType_transpiled_name,
                        fields: old(expr)->UnionType_fields, methods: old(expr)->UnionType_methods }),
                    orig == old(expr)->UnionType_methods@,
                    ctx.union_defs.has(name@),
                decreases methods@.len() - k,
            {
                ctx.current_struct = Some(name.clone());
                proof {
                    assert(decreases_to!(*old(expr) => orig[k as int]));
                    assert(decreases_to!(orig[k as int] => orig[k as int].body));
                }
                let method = &mut methods[k];
                validate_exprs(&mut method.body, ctx)?;
                method.is_allocator = ctx.is_allocator_used;
                method.transpiled_name = Some(transpile_az_chars(method.name.as_str()));
                match &mut method.return_type {
                    Some(Type::User(rn, transpiled_type)) => {
                        ctx.validate_user_type(rn.as_str())?;
                        *transpiled_type = transpile_az_chars(rn.as_str());
                    },
                    _ => {},
                }
                let used = ctx.is_allocator_used;
                let entry = ctx.union_defs.find(name.as_str());
                match entry {
                    Some(ei) => {
                        let ghost before = ctx.union_defs;
                        let mut def = ctx.union_defs.entries.remove(ei);
                        match find_method(&def.1 .2, method.name.as_str()) {
                            Some(mi) => {
                                def.1 .2[mi].is_allocator_used = used;
                            },
                            None => {},
                        }
                        ctx.union_defs.entries.insert(ei, def);
                        proof {
                            assert forall|a: int, b: int|
                                0 <= a < ctx.union_defs.entries@.len() && 0 <= b < ctx.union_defs.entries@.len() && a != b
                                implies (#[trigger] ctx.union_defs.entries@[a]).0@ != (#[trigger] ctx.union_defs.entries@[b]).0@ by {
                                assert(ctx.union_defs.entries@[a].0 == before.entries@[a].0);
                                assert(ctx.union_defs.entries@[b].0 == before.entries@[b].0);
                            }
                            assert forall|q: Seq<char>| #![trigger before.has(q)] #![trigger ctx.union_defs.has(q)] before.has(q) implies ctx.union_defs.has(q) by {
                                let w = choose|w: int| 0 <= w < before.entries@.len() && (#[trigger] before.entries@[w]).0@ == q;
                                assert(ctx.union_defs.entries@[w].0 == before.entries@[w].0);
                            }
                        }
                    },
                    None => {},
                }
                ctx.is_allocator_used = false;
                k = k + 1;
            }
            ctx.current_struct = None;
            *transpiled_name = Some(transpiled);
        },
        Expr::Match { target, arms } => {
            let ghost c_pre = *ctx;
            let rt = validate_expr(target, ctx);
            let ghost cm = *ctx;
            proof {
                assert(expr_checked(*old(expr)->Match_target, **target, c_pre, cm, rt));
            }
            match rt {
                Ok(_) => {},
                Err(e) => return Err(e),
            }
            let ghost orig = arms@;
            let ghost bs0 = arm_blocks(orig);
            let ghost mut cs: Seq<ValidatorContext> = seq![*ctx];
            let ghost mut rs: Seq<Result<(), ValidatorError>> = Seq::empty();
            let mut k: usize = 0;
            while k < arms.len()
                invariant
                    ctx.current_function == old(ctx).current_function,
                    ctx.wf(),
                    keeps_declarations(*old(ctx), *ctx),
                    ctx.scopes@.len() == old(ctx).scopes@.len(),
                    arms@.len() == orig.len(),
                    k <= arms@.len(),
                    forall|j: int| k <= j < orig.len() ==> #[trigger] arms@[j] == orig[j],
                    orig == old(expr)->Match_arms@,
                    *old(expr) is Match,
                    bs0 == arm_blocks(orig),
                    blocks_in_order(bs0, arm_blocks(arms@), k as int, cs, rs),
                    cs[0] == cm,
                    cs[k as int] == *ctx,
                    k > 0 ==> rs[k - 1] is Ok,
                decreases arms@.len() - k,
            {
                proof {
                    assert(decreases_to!(*old(expr) => orig[k as int]));
                    assert(decreases_to!(orig[k as int] => orig[k as int].1));
                }
                let ghost before = arms@;
                let ghost cb = *ctx;
                let res = validate_exprs(&mut arms[k].1, ctx);
                proof {
                    let ncs = cs.push(*ctx);
                    let nrs = rs.push(res);
                    assert(list_checked(bs0[k as int], arms@[k as int].1@, cb, *ctx, res));
                    assert forall|j: int| 0 <= j < k + 1 implies
                        #[trigger] list_checked(bs0[j], arm_blocks(arms@)[j], ncs[j], ncs[j + 1], nrs[j]) by {
                        if j < k {
                            assert(arms@[j] == before[j]);
                            assert(list_checked(bs0[j], arm_blocks(before)[j], cs[j], cs[j + 1], rs[j]));
                        }
                    }
                    assert forall|j: int| 0 <= j < k implies (#[trigger] nrs[j]) is Ok by {
                        assert(nrs[j] == rs[j]);
                    }
                    assert(blocks_in_order(bs0, arm_blocks(arms@), k + 1, ncs, nrs));
                    cs = ncs;
                    rs = nrs;
                }
                match res {
                    Ok(_) => {},
                    Err(e) => {
                        proof {
                            assert(blocks_checked(bs0, arm_blocks(arms@), cm, *ctx, Err(e)));
                        }
                        return Err(e);
                    },
                }
                k = k + 1;
            }
            proof {
                assert(blocks_checked(bs0, arm_blocks(arms@), cm, *ctx, Ok(())));
            }
        },
        Expr::String(_, _) | Expr::Float(_) | Expr::Bool(_) | Expr::Number(_) | Expr::UnaryOp { .. } => {},
        Expr::BuiltInCall { function, args, .. } => {
            match function.expected_arg_count() {
                Some(expected) => {
                    if args.len() != expected {
                        return Err(ValidatorError::InvalidArgumentCount {
                            name: builtin_name(*function),
                            expected,
                            found: args.len(),
                        });
                    }
                },
                None => {},
            }
            match function {
                BuiltInFunction::Allocator | BuiltInFunction::StrLower | BuiltInFunction::StrReverse
                | BuiltInFunction::StrUpper => {
                    ctx.is_allocator_used = true;
                },
                BuiltInFunction::Len => {
                    match get_type_checked(&args[0], ctx, None) {
                        Ok(Some(t)) => {
                            let list_any = Type::Array(Box::new(Type::Any));
                            if !type_eq(&t, &list_any) {
                                return Err(ValidatorError::TypeMismatch {
                                    expected: String::from_str("Siyahi"),
                                    found: t,
                                });
                            }
                        },
                        Ok(None) => {},
                        Err(n) => return Err(inference_failed(n)),
                    }
                    if args.len() != 1 {
                        return Err(ValidatorError::InvalidOneArgumentCount { name: String::from_str("Uzunluq") });
                    }
                },
                _ => {},
            }
            let ghost cb = *ctx;
            let ghost is_len = *function is Len;
            proof {
                if !is_len {
                    assert(cb == (ValidatorContext { is_allocator_used: cb.is_allocator_used, ..*old(ctx) }));
                }
            }
            let ra = validate_exprs(args, ctx);
            proof {
                assert(list_checked(old(expr)->BuiltInCall_args@, args@, cb, *ctx, ra));
                if ra is Ok {
                    assert(list_checked(old(expr)->BuiltInCall_args@, args@, cb, *ctx, Ok(())));
                }
            }
            match ra {
                Ok(_) => {},
                Err(e) => {
                    proof {
                        assert(*expr matches Expr::BuiltInCall { args: a1, .. } && a1@ == args@);
                        if !is_len {
                            assert(exists|cb2: ValidatorContext| #[trigger] list_checked(old(expr)->BuiltInCall_args@, args@, cb2, *ctx, Err(e))
                                && cb2 == (ValidatorContext { is_allocator_used: cb2.is_allocator_used, ..*old(ctx) }));
                        }
                        assert(old(expr)->BuiltInCall_function == *function);
                        assert(!(old(expr)->BuiltInCall_function is Len) ==> (*expr matches Expr::BuiltInCall { args: a1, .. }
                            && exists|cb2: ValidatorContext| #[trigger] list_checked(old(expr)->BuiltInCall_args@, a1@, cb2, *ctx, Err(e))
                                && cb2 == (ValidatorContext { is_allocator_used: cb2.is_allocator_used, ..*old(ctx) })));
                    }
                    return Err(e);
                },
            }
            proof {
                assert(*expr matches Expr::BuiltInCall { args: a1, .. } && a1@ == args@);
                if !is_len {
                    assert(exists|cb2: ValidatorContext| #[trigger] list_checked(old(expr)->BuiltInCall_args@, args@, cb2, *ctx, Ok(()))
                        && cb2 == (ValidatorContext { is_allocator_used: cb2.is_allocator_used, ..*old(ctx) }));
                }
                assert(!(old(expr)->BuiltInCall_function is Len) ==> (*expr matches Expr::BuiltInCall { args: a1, .. }
                    && exists|cb2: ValidatorContext| #[trigger] list_checked(old(expr)->BuiltInCall_args@, a1@, cb2, *ctx, Ok(()))
                        && cb2 == (ValidatorContext { is_allocator_used: cb2.is_allocator_used, ..*old(ctx) })));
            }
        },
        Expr::StructInit { name, transpiled_name, args } => {
            match ctx.struct_defs.get(name.as_str()) {
                Some(def) => {
                    *transpiled_name = Some(def.0.clone());
                },
                None => match ctx.union_defs.get(name.as_str()) {
                    Some(def) => {
                        *transpiled_name = Some(def.0.clone());
                    },
                    None => {
                        return Err(ValidatorError::UnknownStruct(name.clone()));
                    },
                },
            }
            let ghost orig = args@;
            let ghost vs0 = value_parts(orig);
            let ghost mut cs: Seq<ValidatorContext> = seq![*ctx];
            let ghost mut rs: Seq<Result<(), ValidatorError>> = Seq::empty();
            let mut k: usize = 0;
            while k < args.len()
                invariant
                    ctx.current_function == old(ctx).current_function,
                    ctx.wf(),
                    keeps_declarations(*old(ctx), *ctx),
                    ctx.scopes@.len() == old(ctx).scopes@.len(),
                    args@.len() == orig.len(),
                    k <= args@.len(),
                    forall|j: int| k <= j < orig.len() ==> #[trigger] args@[j] == orig[j],
                    forall|j: int| 0 <= j < orig.len() ==> (#[trigger] args@[j]).0 == orig[j].0,
                    orig == old(expr)->StructInit_args@,
                    *old(expr) is StructInit,
                    vs0 == value_parts(orig),
                    checked_in_order(vs0, value_parts(args@), k as int, cs, rs),
                    cs[0] == *old(ctx),
                    cs[k as int] == *ctx,
                    k > 0 ==> rs[k - 1] is Ok,
                decreases args@.len() - k,
            {
                proof {
                    assert(decreases_to!(*old(expr) => orig[k as int]));
                    assert(decreases_to!(orig[k as int] => orig[k as int].1));
                }
                let ghost before = args@;
                let res = validate_expr(&mut args[k].1, ctx);
                proof {
                    let ncs = cs.push(*ctx);
                    let nrs = rs.push(res);
                    assert(args@[k as int].0 == before[k as int].0);
                    assert forall|j: int| 0 <= j < k + 1 implies
                        #[trigger] expr_checked(vs0[j], value_parts(args@)[j], ncs[j], ncs[j + 1], nrs[j]) by {
                        if j < k {
                            assert(args@[j] == before[j]);
                            assert(expr_checked(vs0[j], value_parts(before)[j], cs[j], cs[j + 1], rs[j]));
                        } else {
                            assert(vs0[j] == orig[j].1);
                            assert(before[j] == orig[j]);
                        }
                    }
                    assert forall|j: int| 0 <= j < k implies (#[trigger] nrs[j]) is Ok by {
                        assert(nrs[j] == rs[j]);
                    }
                    assert(checked_in_order(vs0, value_parts(args@), k + 1, ncs, nrs));
                    cs = ncs;
                    rs = nrs;
                }
                match res {
                    Ok(_) => {},
                    Err(e) => {
                        proof {
                            assert(list_checked(vs0, value_parts(args@), *old(ctx), *ctx, Err(e)));
                        }
                        return Err(e);
                    },
                }
                k = k + 1;
            }
            proof {
                assert(list_checked(vs0, value_parts(args@), *old(ctx), *ctx, Ok(())));
            }
        },
        Expr::StructDef { name, transpiled_name, fields, methods } => {
            if ctx.struct_defs.contains_key(name.as_str()) {
                return Err(ValidatorError::DuplicateStruct(name.clone()));
            }
            let infos = method_infos(methods, ctx)?;
            let mut newfields: Vec<(String, Type)> = Vec::new();
            let mut k: usize = 0;
            while k < fields.len()
                invariant
                    ctx.current_function == old(ctx).current_function,
                    k <= fields@.len(),
                decreases fields@.len() - k,
            {
                newfields.push((fields[k].0.clone(), clone_type(&fields[k].1)));
                k = k + 1;
            }
            let s = transpile_az_chars(name.as_str());
            ctx.struct_defs.insert(name.clone(), (s.clone(), newfields, infos));
            let ghost orig = methods@;
            let mut k: usize = 0;
            while k < methods.len()
                invariant
                    ctx.current_function == old(ctx).current_function,
                    ctx.wf(),
                    keeps_declarations(*old(ctx), *ctx),
                    ctx.scopes@.len() == old(ctx).scopes@.len(),
                    methods@.len() == orig.len(),
                    k <= methods@.len(),
                    forall|j: int| k <= j < orig.len() ==> #[trigger] methods@[j] == orig[j],
                    orig == old(expr)->StructDef_methods@,
                    ctx.struct_defs.has(name@),
                    *old(expr) is StructDef,
                decreases methods@.len() - k,
            {
                ctx.current_struct = Some(name.clone());
                proof {
                    assert(decreases_to!(*old(expr) => orig[k as int]));
                    assert(decreases_to!(orig[k as int] => orig[k as int].body));
                }
                validate_exprs(&mut methods[k].body, ctx)?;
                ctx.is_allocator_used = false;
                ctx.current_struct = None;
                k = k + 1;
            }
            *transpiled_name = Some(s);
            *name = String::new();
        },
        Expr::EnumDecl(EnumDecl { name, variants }) => {
            if ctx.enum_defs.contains_key(name.as_str()) {
                return Err(ValidatorError::DuplicateEnum(name.clone()));
            }
            let mut copy: Vec<String> = Vec::new();
            let mut k: usize = 0;
            while k < variants.len()
                invariant
                    ctx.current_function == old(ctx).current_function,
                    k <= variants@.len(),
                    copy@ == variants@.subrange(0, k as int),
                decreases variants@.len() - k,
            {
                copy.push(variants[k].clone());
                k = k + 1;
                assert(copy@ =~= variants@.subrange(0, k as int));
            }
            assert(variants@.subrange(0, variants@.len() as int) =~= variants@);
            ctx.enum_defs.insert(name.clone(), copy);
        },
        Expr::VariableRef { name, transpiled_name, symbol } => {
            match ctx.mark_used(name.as_str()) {
                Some(sym) => {
                    *transpiled_name = match &sym.transpiled_name {
                        Some(t) => Some(t.clone()),
                        None => None,
                    };
                    *symbol = Some(sym);
                    return Ok(());
                },
                None => {},
            }
            if str_eq(name.as_str(), "self") {
                match &ctx.current_struct {
                    Some(cs) => {
                        *symbol = Some(Symbol {
                            typ: Type::User(cs.clone(), cs.clone()),
                            is_mutable: false,
                            transpiled_name: Some(String::from_str("self")),
                            is_used: true,
                            is_pointer: false,
                        });
                        return Ok(());
                    },
                    None => {},
                }
            }
            if !ctx.is_enum_variant(name.as_str()) {
                return Err(ValidatorError::UndefinedVariable(name.clone()));
            }
            return Ok(());
        },
        Expr::If { condition, then_branch, else_branch } => {
            let ghost c_pre = *ctx;
            let rc = validate_expr(condition, ctx);
            let ghost cm = *ctx;
            proof {
                assert(expr_checked(*old(expr)->If_condition, **condition, c_pre, cm, rc));
            }
            match rc {
                Ok(_) => {},
                Err(e) => return Err(e),
            }
            let cond_type = match get_type_checked(condition, ctx, None) {
                Ok(Some(t)) => t,
                Ok(None) => return Err(ValidatorError::IfConditionTypeUnknown),
                Err(n) => return Err(inference_failed(n)),
            };
            if !type_eq(&cond_type, &Type::Bool) {
                return Err(ValidatorError::IfConditionTypeMismatch(cond_type));
            }
            let rt = validate_exprs(then_branch, ctx);
            let ghost ct = *ctx;
            proof {
                assert(list_checked(old(expr)->If_then_branch@, then_branch@, cm, ct, rt));
            }
            match rt {
                Ok(_) => {},
                Err(e) => return Err(e),
            }
            match validate_exprs(else_branch, ctx) {
                Ok(_) => {},
                Err(e) => return Err(e),
            }
        },
        Expr::ElseIf { condition, then_branch } => {
            let ghost c_pre = *ctx;
            let rc = validate_expr(condition, ctx);
            let ghost cm = *ctx;
            proof {
                assert(expr_checked(*old(expr)->ElseIf_condition, **condition, c_pre, cm, rc));
            }
            match rc {
                Ok(_) => {},
                Err(e) => return Err(e),
            }
            let cond_type = match get_type_checked(condition, ctx, None) {
                Ok(Some(t)) => t,
                Ok(None) => return Err(ValidatorError::IfConditionTypeUnknown),
                Err(n) => return Err(inference_failed(n)),
            };
            if !type_eq(&cond_type, &Type::Bool) {
                return Err(ValidatorError::IfConditionTypeMismatch(cond_type));
            }
            let rt = validate_exprs(then_branch, ctx);
            let ghost ct = *ctx;
            proof {
                assert(list_checked(old(expr)->ElseIf_then_branch@, then_branch@, cm, ct, rt));
                assert(checked_in_order(Seq::empty(), Seq::empty(), 0, seq![ct], Seq::empty()));
                assert(list_checked(Seq::empty(), Seq::empty(), ct, ct, Ok(())));
            }
            match rt {
                Ok(_) => {},
                Err(e) => return Err(e),
            }
        },
        Expr::Else { then_branch } => {
            match validate_exprs(then_branch, ctx) {
                Ok(_) => {},
                Err(e) => return Err(e),
            }
        },
        Expr::Loop { var_name, iterable, body } => {
            let ghost c_pre = *ctx;
            let rc = validate_expr(iterable, ctx);
            let ghost cm = *ctx;
            proof {
                assert(expr_checked(*old(expr)->Loop_iterable, **iterable, c_pre, cm, rc));
            }
            match rc {
                Ok(_) => {},
                Err(e) => return Err(e),
            }
            let iterable_type = match get_type_checked(iterable, ctx, None) {
                Ok(Some(t)) => t,
                Ok(None) => return Err(ValidatorError::LoopIterableTypeNotFound),
                Err(n) => return Err(inference_failed(n)),
            };
            let ghost tv = iterable_type@;
            proof {
                assert(type_outcome(**iterable, cm, None) == Ok::<Option<TypeV>, Seq<char>>(Some(tv)));
            }
            match iterable_type {
                Type::Array(inner) => {
                    proof {
                        assert(tv == TypeV::Array(Box::new(inner@)));
                    }
                    let sym = Symbol {
                        typ: *inner,
                        is_mutable: false,
                        is_used: false,
                        transpiled_name: Some(String::new()),
                        is_pointer: false,
                    };
                    let ghost symv = sym;
                    ctx.declare_variable(var_name.clone(), sym);
                    proof {
                        assert forall|q: Seq<char>| q != var_name@ implies #[trigger] cm.lookup(q) == ctx.lookup(q) by {
                            if cm.scopes@.len() > 0 {
                                crate::validator::lemma_declare_keeps_others(cm.scope_maps(), var_name@, symv, q);
                            } else {
                                assert(ctx.scope_maps() =~= cm.scope_maps());
                            }
                        }
                        if cm.scopes@.len() > 0 {
                            crate::validator::lemma_declare_then_lookup(cm.scope_maps(), var_name@, symv);
                        }
                    }
                },
                _ => return Err(ValidatorError::LoopRequiresList),
            }
            let ghost cb = *ctx;
            let rb = validate_exprs(body, ctx);
            proof {
                assert(list_checked(old(expr)->Loop_body@, body@, cb, *ctx, rb));
                assert(same_but(cm, cb, var_name@));
            }
            match rb {
                Ok(_) => {},
                Err(e) => return Err(e),
            }
            proof {
                assert(list_checked(old(expr)->Loop_body@, body@, cb, *ctx, Ok(())));
                assert(same_but(cm, cb, old(expr)->Loop_var_name@));
                assert(tv is Array);
                assert(cm.scopes@.len() > 0 ==> (cb.lookup(old(expr)->Loop_var_name@) matches Some(s)
                    && s.typ@ == *tv->Array_0 && !s.is_mutable));
                assert(loop_decided(old(expr)->Loop_var_name@, **iterable, cm, rc, old(expr)->Loop_body@, body@,
                    *ctx, Ok(())));
            }
        },
        Expr::TemplateString(chunks) => {
            let ghost orig = chunks@;
            let ghost ps0 = chunk_parts(orig);
            let ghost mut cs: Seq<ValidatorContext> = seq![*ctx];
            let ghost mut rs: Seq<Result<(), ValidatorError>> = Seq::empty();
            let mut k: usize = 0;
            while k < chunks.len()
                invariant
                    ctx.current_function == old(ctx).current_function,
                    ctx.wf(),
                    keeps_declarations(*old(ctx), *ctx),
                    ctx.scopes@.len() == old(ctx).scopes@.len(),
                    chunks@.len() == orig.len(),
                    k <= chunks@.len(),
                    forall|j: int| k <= j < orig.len() ==> #[trigger] chunks@[j] == orig[j],
                    orig == old(expr)->TemplateString_0@,
                    *old(expr) is TemplateString,
                    ps0 == chunk_parts(orig),
                    checked_in_order(ps0, chunk_parts(chunks@), k as int, cs, rs),
                    cs[0] == *old(ctx),
                    cs[k as int] == *ctx,
                    k > 0 ==> rs[k - 1] is Ok,
                decreases chunks@.len() - k,
            {
                proof {
                    assert(decreases_to!(*old(expr) => orig[k as int]));
                }
                let ghost before = chunks@;
                let ghost cb = *ctx;
                let res: Result<(), ValidatorError> = match &mut chunks[k] {
                    TemplateChunk::Literal(_) => Ok(()),
                    TemplateChunk::Expr(e) => validate_expr(e, ctx),
                };
                proof {
                    let ncs = cs.push(*ctx);
                    let nrs = rs.push(res);
                    match before[k as int] {
                        TemplateChunk::Literal(t) => {
                            assert(chunks@[k as int] == before[k as int]);
                            assert(expr_checked(Expr::String(t, false), Expr::String(t, false), cb, cb, Ok(())));
                        },
                        TemplateChunk::Expr(x) => {},
                    }
                    assert(expr_checked(ps0[k as int], chunk_parts(chunks@)[k as int], cb, *ctx, res));
                    assert forall|j: int| 0 <= j < k + 1 implies
                        #[trigger] expr_checked(ps0[j], chunk_parts(chunks@)[j], ncs[j], ncs[j + 1], nrs[j]) by {
                        if j < k {
                            assert(chunks@[j] == before[j]);
                            assert(expr_checked(ps0[j], chunk_parts(before)[j], cs[j], cs[j + 1], rs[j]));
                        }
                    }
                    assert forall|j: int| 0 <= j < k implies (#[trigger] nrs[j]) is Ok by {
                        assert(nrs[j] == rs[j]);
                    }
                    assert(checked_in_order(ps0, chunk_parts(chunks@), k + 1, ncs, nrs));
                    cs = ncs;
                    rs = nrs;
                }
                match res {
                    Ok(_) => {},
                    Err(e) => {
                        proof {
                            assert(list_checked(ps0, chunk_parts(chunks@), *old(ctx), *ctx, Err(e)));
                        }
                        return Err(e);
                    },
                }
                k = k + 1;
            }
            proof {
                assert(list_checked(ps0, chunk_parts(chunks@), *old(ctx), *ctx, Ok(())));
            }
        },
        Expr::Call { target, args, returned_type, name, is_allocator, transpiled_name } => {
            match target {
                Some(variable) => {
                    validate_expr(variable, ctx)?;
                    let variable_type = match get_type_checked(variable, ctx, None) {
                        Ok(t) => t,
                        Err(n) => return Err(inference_failed(n)),
                    };
                    let (def_name, extra): (String, usize) = match &variable_type {
                        Some(Type::String) => (String::from_str("Yazı"), 0),
                        Some(Type::Natural) | Some(Type::Integer) => (String::from_str("Ədəd"), 0),
                        Some(Type::User(s, _)) => (s.clone(), 1),
                        _ => return Err(ValidatorError::UnionNotFound(String::from_str("Enum tapılmadı"))),
                    };
                    let def = if extra == 0 {
                        ctx.union_defs.get(def_name.as_str())
                    } else {
                        match ctx.union_defs.get(def_name.as_str()) {
                            Some(d) => Some(d),
                            None => ctx.struct_defs.get(def_name.as_str()),
                        }
                    };
                    let def = match def {
                        Some(d) => d,
                        None => return Err(ValidatorError::UnionNotFound(def_name)),
                    };
                    let (tn, alloc, ret) = method_call_info(def, name, args.len(), extra)?;
                    *transpiled_name = Some(tn);
                    *is_allocator = alloc;
                    *returned_type = ret;
                },
                None => {
                    let func = match ctx.functions.get(name.as_str()) {
                        Some(f) => f,
                        None => return Err(ValidatorError::FunctionNotFound(name.clone())),
                    };
                    if func.parameters.len() != args.len() {
                        return Err(ValidatorError::FunctionArgCountMismatch {
                            name: name.clone(),
                            expected: func.parameters.len(),
                            found: args.len(),
                        });
                    }
                    let ret = clone_opt_type(&func.return_type);
                    *transpiled_name = Some(transpile_az_chars(name.as_str()));
                    *returned_type = ret;
                },
            }
            match validate_exprs(args, ctx) {
                Ok(_) => {},
                Err(e) => return Err(e),
            }
        },
        Expr::Index { target, index, target_type } => {
            let ghost c_pre = *ctx;
            let rt = validate_expr(target, ctx);
            let ghost cm = *ctx;
            proof {
                assert(expr_checked(*old(expr)->Index_target, **target, c_pre, cm, rt));
            }
            match rt {
                Ok(_) => {},
                Err(e) => return Err(e),
            }
            let ri = validate_expr(index, ctx);
            proof {
                assert(expr_checked(*old(expr)->Index_index, **index, cm, *ctx, ri));
            }
            match ri {
                Ok(_) => {},
                Err(e) => return Err(e),
            }
            let index_type = match get_type_checked(index, ctx, None) {
                Ok(Some(t)) => t,
                Ok(None) => return Err(ValidatorError::IndexTargetTypeNotFound),
                Err(n) => return Err(inference_failed(n)),
            };
            match index_type {
                Type::Integer => {
                    *target_type = Type::Integer;
                },
                Type::String => {
                    let index_name = match &**index {
                        Expr::String(s, _) => s.clone(),
                        _ => return Err(ValidatorError::IndexTargetTypeNotFound),
                    };
                    let struct_name = match get_type_checked(target, ctx, None) {
                        Ok(Some(Type::User(n, _))) => n,
                        Err(n) => return Err(inference_failed(n)),
                        _ => return Err(ValidatorError::IndexTargetTypeNotFound),
                    };
                    let def = match ctx.struct_defs.get(struct_name.as_str()) {
                        Some(d) => d,
                        None => match ctx.union_defs.get(struct_name.as_str()) {
                            Some(d) => d,
                            None => return Err(ValidatorError::IndexTargetTypeNotFound),
                        },
                    };
                    let mut k: usize = 0;
                    while k < def.1.len()
                        invariant
                            ctx.current_function == old(ctx).current_function,
                            k <= def.1@.len(),
                        decreases def.1@.len() - k,
                    {
                        if str_eq(def.1[k].0.as_str(), index_name.as_str()) {
                            *target_type = clone_type(&def.1[k].1);
                            break;
                        }
                        k = k + 1;
                    }
                },
                _ => {},
            }
        },
        Expr::BinaryOp { left, right, .. } => {
            let ghost c_pre = *ctx;
            let rl = validate_expr(left, ctx);
            proof {
                assert(expr_checked(*old(expr)->BinaryOp_left, **left, c_pre, *ctx, rl));
            }
            match rl {
                Ok(_) => {},
                Err(e) => return Err(e),
            }
            match validate_expr(right, ctx) {
                Ok(_) => {},
                Err(e) => return Err(e),
            }
        },
        Expr::FunctionDef { name, transpiled_name, params, body, return_type, is_allocator } => {
            if ctx.current_function.is_some() {
                return Err(ValidatorError::NestedFunctionDefinition);
            }
            match return_type {
                Some(Type::User(rn, _)) => {
                    match ctx.validate_user_type(rn.as_str()) {
                        Ok(_) => {},
                        Err(e) => return Err(e),
                    }
                },
                _ => {},
            }
            ctx.current_function = Some(name.clone());
            ctx.push_scope();
            proof {
                assert forall|q: Seq<char>| old(ctx).lookup(q) is Some implies #[trigger] ctx.lookup(q) is Some by {
                    crate::validator::lemma_push_scope_keeps_lookup(old(ctx).scope_maps(), q);
                }
            }
            let ghost ps0 = params@;
            let mut k: usize = 0;
            while k < params.len()
                invariant
                    ctx.wf(),
                    keeps_declarations(*old(ctx), *ctx),
                    ctx.scopes@.len() == old(ctx).scopes@.len() + 1,
                    k <= params@.len(),
                    params@.len() == ps0.len(),
                    ps0 == old(expr)->FunctionDef_params@,
                    forall|j: int| 0 <= j < k ==> #[trigger] pointer_param(params@[j], ps0[j]),
                    forall|j: int| k <= j < ps0.len() ==> #[trigger] params@[j] == ps0[j],
                    forall|q: Seq<char>| old(ctx).lookup(q) is Some ==> #[trigger] ctx.lookup(q) is Some,
                    forall|j: int| 0 <= j < k ==> (#[trigger] ctx.lookup(ps0[j].name@)) is Some,
                    ctx.current_function matches Some(f) && f@ == old(expr)->FunctionDef_name@,
                decreases params@.len() - k,
            {
                let ghost before = *ctx;
                let p = &mut params[k];
                p.is_pointer = p.is_mutable;
                let sym = Symbol {
                    typ: clone_type(&p.typ),
                    is_mutable: p.is_mutable,
                    is_used: false,
                    is_pointer: p.is_pointer,
                    transpiled_name: Some(String::new()),
                };
                let ghost symv = sym;
                let ghost pn = p.name@;
                ctx.declare_variable(p.name.clone(), sym);
                proof {
                    assert forall|j: int| 0 <= j < k + 1 implies (#[trigger] ctx.lookup(ps0[j].name@)) is Some by {
                        if ps0[j].name@ == pn {
                            crate::validator::lemma_declare_then_lookup(before.scope_maps(), pn, symv);
                        } else {
                            assert(before.lookup(ps0[j].name@) is Some);
                            crate::validator::lemma_declare_keeps_others(before.scope_maps(), pn, symv, ps0[j].name@);
                        }
                    }
                    assert forall|q: Seq<char>| old(ctx).lookup(q) is Some implies #[trigger] ctx.lookup(q) is Some by {
                        assert(before.lookup(q) is Some);
                        if q == pn {
                            crate::validator::lemma_declare_then_lookup(before.scope_maps(), pn, symv);
                        } else {
                            crate::validator::lemma_declare_keeps_others(before.scope_maps(), pn, symv, q);
                        }
                    }
                }
                k = k + 1;
            }
            let ghost cexit = *ctx;
            let mut owned_body: Vec<Expr> = Vec::new();
            std::mem::swap(&mut owned_body, body);
            ctx.functions.insert(name.clone(), FunctionInfo {
                name: name.clone(),
                parameters: clone_parameters(params),
                return_type: clone_opt_type(return_type),
                is_allocator_used: ctx.is_allocator_used,
            });
            proof {
                assert(decreases_to!(*old(expr) => old(expr)->FunctionDef_body));
            }
            let ghost body0 = owned_body@;
            let ghost cb = *ctx;
            proof {
                assert forall|k: int| 0 <= k < ps0.len() implies (#[trigger] cb.lookup(ps0[k].name@)) is Some by {
                    assert(cexit.lookup(ps0[k].name@) is Some);
                    assert(cb.scope_maps() == cexit.scope_maps());
                }
                assert forall|q: Seq<char>| old(ctx).lookup(q) is Some implies (#[trigger] cb.lookup(q)) is Some by {
                    assert(cexit.lookup(q) is Some);
                    assert(cb.scope_maps() == cexit.scope_maps());
                }
            }
            let rb = validate_exprs(&mut owned_body, ctx);
            let ghost cf = *ctx;
            proof {
                assert(list_checked(body0, owned_body@, cb, cf, rb));
            }
            match rb {
                Ok(_) => {},
                Err(e) => {
                    proof {
                        if body0.len() >= 1 && body0[0] is Decl && old(ctx).lookup(body0[0]->Decl_name@) is Some {
                            assert(cexit.lookup(body0[0]->Decl_name@) is Some);
                            assert(cb.scope_maps() == cexit.scope_maps());
                            assert(cb.lookup(body0[0]->Decl_name@) is Some);
                        }
                    }
                    *body = owned_body;
                    return Err(e);
                },
            }
            assert(keeps_declarations(*old(ctx), *ctx));
            *is_allocator = ctx.is_allocator_used;
            ctx.functions.insert(name.clone(), FunctionInfo {
                name: name.clone(),
                parameters: clone_parameters(params),
                return_type: clone_opt_type(return_type),
                is_allocator_used: ctx.is_allocator_used,
            });
            ctx.pop_scope();
            assert(keeps_declarations(*old(ctx), *ctx));
            ctx.current_function = None;
            ctx.current_return = None;
            ctx.is_allocator_used = false;
            *body = owned_body;
            assert(ctx.current_function == old(ctx).current_function);
            proof {
                assert(list_checked(body0, body@, cb, cf, Ok(())));
                assert(cb.functions.has(old(expr)->FunctionDef_name@));
                assert(cb.current_function matches Some(f) && f@ == old(expr)->FunctionDef_name@);
                assert(cb.scopes@.len() == old(ctx).scopes@.len() + 1);
                assert(*expr matches Expr::FunctionDef { body: b1, .. } && b1@ == body@);
                assert(old(expr)->FunctionDef_body@ == body0);
            }
        },
        Expr::Return(value) => {
            match validate_expr(value, ctx) {
                Ok(_) => {},
                Err(e) => return Err(e),
            }
        },
        _ => {},
    }
    Ok(())
}

/// Whether every expression of a list is one the validator passes over.
pub open spec fn all_unchecked(es: Seq<Expr>) -> bool {
    forall|k: int| 0 <= k < es.len() ==> is_unchecked_form(#[trigger] es[k])
}

/// The first `n` statements of `es0` were checked one after another,
/// becoming those of `es1`: statement `k` took the context `cs[k]` to
/// `cs[k + 1]` with the result `rs[k]`, as `expr_checked` says, and every
/// one but the last succeeded.
pub open spec fn checked_in_order(es0: Seq<Expr>, es1: Seq<Expr>, n: int, cs: Seq<ValidatorContext>,
    rs: Seq<Result<(), ValidatorError>>) -> bool {
    &&& 0 <= n <= es0.len()
    &&& es1.len() == es0.len()
    &&& cs.len() == n + 1
    &&& rs.len() == n
    &&& forall|k: int| 0 <= k < n ==> #[trigger] expr_checked(es0[k], es1[k], cs[k], cs[k + 1], rs[k])
    &&& forall|k: int| 0 <= k < n - 1 ==> (#[trigger] rs[k]) is Ok
}

/// The list `es0` was checked in order from the context `c0`, becoming
/// `es1` and leaving `c1`: the result is the first error met, and it is
/// `Ok` exactly when every expression was checked without one.
pub open spec fn list_checked(es0: Seq<Expr>, es1: Seq<Expr>, c0: ValidatorContext, c1: ValidatorContext,
    r: Result<(), ValidatorError>) -> bool {
    exists|n: int, cs: Seq<ValidatorContext>, rs: Seq<Result<(), ValidatorError>>|
        #[trigger] checked_in_order(es0, es1, n, cs, rs)
        && cs[0] == c0 && cs[n] == c1
        && (r is Err ==> n > 0 && rs[n - 1] is Err && r == rs[n - 1])
        && (r is Ok <==> n == es0.len() && (n == 0 || rs[n - 1] is Ok))
}

/// The values of a struct value's fields, in order.
pub open spec fn value_parts(args: Seq<(String, Expr)>) -> Seq<Expr> {
    Seq::new(args.len(), |k: int| args[k].1)
}

/// The parts of a template as expressions, in order: a literal part is the
/// text it holds.
pub open spec fn chunk_parts(chunks: Seq<TemplateChunk>) -> Seq<Expr> {
    Seq::new(chunks.len(), |k: int| match chunks[k] {
        TemplateChunk::Literal(s) => Expr::String(s, false),
        TemplateChunk::Expr(x) => *x,
    })
}

/// How an indexing goes on once its index was checked, becoming `i1` with
/// the result `ri` and leaving `c2`: an error of the index is the result;
/// else the index's type decides: an unknown type is refused, a whole
/// number indexes a list, and any other type but a text is passed over.
pub open spec fn index_decided(i1: Expr, c2: ValidatorContext, ri: Result<(), ValidatorError>, e1: Expr,
    c1: ValidatorContext, r: Result<(), ValidatorError>) -> bool {
    match ri {
        Err(_) => r == ri,
        Ok(_) => c1 == c2 && match type_outcome(i1, c2, None) {
            Err(n) => r matches Err(ValidatorError::TypeInferenceFailed(m)) && m@ == n,
            Ok(None) => r == Err::<(), ValidatorError>(ValidatorError::IndexTargetTypeNotFound),
            Ok(Some(TypeV::Integer)) => r is Ok && (e1 matches Expr::Index { target_type: Type::Integer, .. }),
            Ok(Some(TypeV::String)) => true,
            Ok(Some(_)) => r is Ok,
        },
    }
}

/// The blocks of a `match`'s arms, in order.
pub open spec fn arm_blocks(arms: Seq<(Expr, Vec<Expr>)>) -> Seq<Seq<Expr>> {
    Seq::new(arms.len(), |k: int| arms[k].1@)
}

/// The blocks `bs0` were checked one after another from the context `c0`,
/// each in order, becoming `bs1` and leaving `c1`: the result is the first
/// error met, and it is `Ok` exactly when every block was checked without
/// one.
pub open spec fn blocks_checked(bs0: Seq<Seq<Expr>>, bs1: Seq<Seq<Expr>>, c0: ValidatorContext,
    c1: ValidatorContext, r: Result<(), ValidatorError>) -> bool {
    exists|n: int, cs: Seq<ValidatorContext>, rs: Seq<Result<(), ValidatorError>>|
        #[trigger] blocks_in_order(bs0, bs1, n, cs, rs)
        && cs[0] == c0 && cs[n] == c1
        && (r is Err ==> n > 0 && rs[n - 1] is Err && r == rs[n - 1])
        && (r is Ok <==> n == bs0.len() && (n == 0 || rs[n - 1] is Ok))
}

/// The first `n` blocks of `bs0` were checked one after another, becoming
/// those of `bs1`: block `k` took `cs[k]` to `cs[k + 1]` with the result
/// `rs[k]`, and every one but the last succeeded.
pub open spec fn blocks_in_order(bs0: Seq<Seq<Expr>>, bs1: Seq<Seq<Expr>>, n: int, cs: Seq<ValidatorContext>,
    rs: Seq<Result<(), ValidatorError>>) -> bool {
    &&& 0 <= n <= bs0.len()
    &&& bs1.len() == bs0.len()
    &&& cs.len() == n + 1
    &&& rs.len() == n
    &&& forall|k: int| 0 <= k < n ==> #[trigger] list_checked(bs0[k], bs1[k], cs[k], cs[k + 1], rs[k])
    &&& forall|k: int| 0 <= k < n - 1 ==> (#[trigger] rs[k]) is Ok
}

/// Whether a built-in function takes `n` arguments, where it takes a fixed
/// number of them.
pub open spec fn count_fits(f: BuiltInFunction, n: int) -> bool {
    match arg_count_spec(f) {
        Some(e) => n == e,
        None => true,
    }
}

/// How a conditional goes on once its condition was checked, becoming `k1`
/// with the result `rc` and leaving `cm`: an error of the condition is the
/// result; else the condition's type decides, and for a truth value the
/// first block and then the second are checked in order, the first error
/// being the result.
pub open spec fn cond_decided(k1: Expr, cm: ValidatorContext, rc: Result<(), ValidatorError>,
    then0: Seq<Expr>, then1: Seq<Expr>, else0: Seq<Expr>, else1: Seq<Expr>, c1: ValidatorContext,
    r: Result<(), ValidatorError>) -> bool {
    match rc {
        Err(_) => r == rc,
        Ok(_) => match type_outcome(k1, cm, None) {
            Err(n) => r matches Err(ValidatorError::TypeInferenceFailed(m)) && m@ == n,
            Ok(None) => r == Err::<(), ValidatorError>(ValidatorError::IfConditionTypeUnknown),
            Ok(Some(t)) => if t != TypeV::Bool {
                r matches Err(ValidatorError::IfConditionTypeMismatch(ft)) && ft@ == t
            } else {
                exists|ct: ValidatorContext, rt: Result<(), ValidatorError>|
                    #[trigger] list_checked(then0, then1, cm, ct, rt)
                    && (rt is Err ==> r == rt)
                    && (rt is Ok ==> list_checked(else0, else1, ct, c1, r))
            },
        },
    }
}

/// How a loop goes on once its iterable was checked, becoming `k1` with the
/// result `rc` and leaving `cm`: an error of the iterable is the result;
/// else its type decides, and for a list the loop variable is entered with
/// the list's element type and the block is checked in order from there.
pub open spec fn loop_decided(var: Seq<char>, k1: Expr, cm: ValidatorContext, rc: Result<(), ValidatorError>,
    body0: Seq<Expr>, body1: Seq<Expr>, c1: ValidatorContext, r: Result<(), ValidatorError>) -> bool {
    match rc {
        Err(_) => r == rc,
        Ok(_) => match type_outcome(k1, cm, None) {
            Err(n) => r matches Err(ValidatorError::TypeInferenceFailed(m)) && m@ == n,
            Ok(None) => r == Err::<(), ValidatorError>(ValidatorError::LoopIterableTypeNotFound),
            Ok(Some(t)) => match t {
                TypeV::Array(inner) => exists|cb: ValidatorContext| #[trigger] list_checked(body0, body1, cb, c1, r)
                    && same_but(cm, cb, var)
                    && (cm.scopes@.len() > 0 ==> (cb.lookup(var) matches Some(s) && s.typ@ == *inner && !s.is_mutable)),
                _ => r == Err::<(), ValidatorError>(ValidatorError::LoopRequiresList),
            },
        },
    }
}

/// Where the outcome of checking `e0` from the context `c0` rests on the
/// checks of its parts, as `expr_checked` describes each of them, giving
/// `e1`, `c1` and the result `r`.
pub open spec fn parts_decide(e0: Expr, e1: Expr, c0: ValidatorContext, c1: ValidatorContext,
    r: Result<(), ValidatorError>) -> bool {
    // a declaration of a name not yet declared: its value is checked, then
    // its type decides
    &&& (e0 matches Expr::Decl { name, typ: typ0, value, .. } ==> (c0.lookup(name@) is None ==>
        exists|v1: Expr, cm: ValidatorContext, rv: Result<(), ValidatorError>|
            #[trigger] expr_checked(*value, v1, c0, cm, rv) && decl_decided(name, typ0, v1, cm, rv, e1, c1, r)))
    // a call of a known free function with the right argument count: its
    // arguments are checked in order, and they decide
    &&& (e0 matches Expr::Call { target: None, name, args, .. } ==> (c0.functions.has(name@)
        && c0.functions.as_map()[name@].parameters@.len() == args@.len()
        ==> (e1 matches Expr::Call { args: a1, .. } && list_checked(args@, a1@, c0, c1, r))))
    // a binary operation: its left operand is checked, then its right one,
    // and the first error is the result
    &&& (e0 matches Expr::BinaryOp { left, right, .. } ==>
        exists|l1: Expr, cm: ValidatorContext, rl: Result<(), ValidatorError>|
            #[trigger] expr_checked(*left, l1, c0, cm, rl) && match rl {
                Err(_) => r == rl,
                Ok(_) => e1 matches Expr::BinaryOp { right: r1, .. } && expr_checked(*right, *r1, cm, c1, r),
            })
    // a conditional: its condition is checked, then its type decides, and
    // then its blocks are checked
    &&& (e0 matches Expr::If { condition, then_branch, else_branch } ==>
        (e1 matches Expr::If { then_branch: t1, else_branch: x1, .. }
        && exists|k1: Expr, cm: ValidatorContext, rc: Result<(), ValidatorError>|
            #[trigger] expr_checked(*condition, k1, c0, cm, rc)
            && cond_decided(k1, cm, rc, then_branch@, t1@, else_branch@, x1@, c1, r)))
    &&& (e0 matches Expr::ElseIf { condition, then_branch } ==>
        (e1 matches Expr::ElseIf { then_branch: t1, .. }
        && exists|k1: Expr, cm: ValidatorContext, rc: Result<(), ValidatorError>|
            #[trigger] expr_checked(*condition, k1, c0, cm, rc)
            && cond_decided(k1, cm, rc, then_branch@, t1@, Seq::empty(), Seq::empty(), c1, r)))
    // a loop: its iterable is checked, then its type decides, and then its
    // block is checked with the loop variable entered
    &&& (e0 matches Expr::Loop { var_name, iterable, body } ==>
        (e1 matches Expr::Loop { body: b1, .. }
        && exists|k1: Expr, cm: ValidatorContext, rc: Result<(), ValidatorError>|
            #[trigger] expr_checked(*iterable, k1, c0, cm, rc)
            && loop_decided(var_name@, k1, cm, rc, body@, b1@, c1, r)))
    // a value of a known struct or union type: its fields' values are
    // checked in order, and they decide
    &&& (e0 matches Expr::StructInit { name, args, .. } ==> ((c0.struct_defs.has(name@) || c0.union_defs.has(name@))
        ==> (e1 matches Expr::StructInit { args: a1, .. } && list_checked(value_parts(args@), value_parts(a1@), c0, c1, r))))
    // a built-in call other than the length, with a fitting argument
    // count: its arguments are checked in order (after the use of the
    // allocator is noted), and they decide
    &&& (e0 matches Expr::BuiltInCall { function, args, .. } ==> (!(function is Len)
        && count_fits(function, args@.len() as int)
        ==> (e1 matches Expr::BuiltInCall { args: a1, .. }
            && exists|cb: ValidatorContext| #[trigger] list_checked(args@, a1@, cb, c1, r)
                && cb == (ValidatorContext { is_allocator_used: cb.is_allocator_used, ..c0 }))))
    // a `match`: its target is checked, then its arms' blocks one after
    // another, and the first error is the result
    &&& (e0 matches Expr::Match { target, arms } ==>
        exists|t1: Expr, cm: ValidatorContext, rt: Result<(), ValidatorError>|
            #[trigger] expr_checked(*target, t1, c0, cm, rt) && match rt {
                Err(_) => r == rt,
                Ok(_) => e1 matches Expr::Match { arms: a1, .. }
                    && blocks_checked(arm_blocks(arms@), arm_blocks(a1@), cm, c1, r),
            })
    // a template: its parts are checked in order (a literal part passes),
    // and they decide
    &&& (e0 matches Expr::TemplateString(chunks) ==> (e1 matches Expr::TemplateString(c1s)
        && list_checked(chunk_parts(chunks@), chunk_parts(c1s@), c0, c1, r)))
    // an indexing: its target is checked, then its index, and then the
    // index's type decides
    &&& (e0 matches Expr::Index { target, index, .. } ==>
        exists|t1: Expr, cm: ValidatorContext, rt: Result<(), ValidatorError>|
            #[trigger] expr_checked(*target, t1, c0, cm, rt) && match rt {
                Err(_) => r == rt,
                Ok(_) => exists|i1: Expr, c2: ValidatorContext, ri: Result<(), ValidatorError>|
                    #[trigger] expr_checked(*index, i1, cm, c2, ri) && index_decided(i1, c2, ri, e1, c1, r),
            })
    // a returned value is checked, and decides
    &&& (e0 matches Expr::Return(v) ==> (e1 matches Expr::Return(v1) && expr_checked(*v, *v1, c0, c1, r)))
    // a last branch: its block is checked in order, and decides
    &&& (e0 matches Expr::Else { then_branch } ==>
        (e1 matches Expr::Else { then_branch: t1 } && list_checked(then_branch@, t1@, c0, c1, r)))
    // a function definition outside any other: an unknown return type is
    // refused; else its body is checked in the function's own scope, where
    // the function and its parameters are known, and the body decides
    &&& (e0 matches Expr::FunctionDef { name, params, body, return_type, .. } ==> (c0.current_function is None ==> {
        &&& return_type matches Some(Type::User(rn, _)) ==> (!c0.knows_type(rn@)
            ==> (r matches Err(ValidatorError::UnknownType(n)) && n@ == rn@))
        &&& (return_type matches Some(Type::User(rn, _)) ==> c0.knows_type(rn@))
            ==> (e1 matches Expr::FunctionDef { body: b1, .. }
                && exists|cb: ValidatorContext, cf: ValidatorContext| #[trigger] list_checked(body@, b1@, cb, cf, r)
                    && (cb.current_function matches Some(f) && f@ == name@) && cb.functions.has(name@)
                    && cb.scopes@.len() == c0.scopes@.len() + 1
                    && (forall|k: int| 0 <= k < params@.len() ==> (#[trigger] cb.lookup(params@[k].name@)) is Some)
                    && (forall|q: Seq<char>| c0.lookup(q) is Some ==> (#[trigger] cb.lookup(q)) is Some))
    }))
}

/// Checks the expressions of a list in order, stopping at the first error
/// (`validate_exprs`): each is checked as `validate_expr` checks it, in the
/// context the ones before it left, and the first error is the result.
pub fn validate_exprs(exprs: &mut Vec<Expr>, ctx: &mut ValidatorContext) -> (r: Result<(), ValidatorError>)
    requires
        old(ctx).wf(),
    ensures
        final(ctx).wf(),
        keeps_declarations(*old(ctx), *final(ctx)),
        r is Ok ==> final(ctx).scopes@.len() == old(ctx).scopes@.len(),
        final(exprs)@.len() == old(exprs)@.len(),
        old(exprs)@.len() == 0 ==> r is Ok && *final(ctx) == *old(ctx),
        old(exprs)@.len() >= 1 ==> exists|mid: ValidatorContext, r0: Result<(), ValidatorError>|
            #[trigger] expr_checked(old(exprs)@[0], final(exprs)@[0], *old(ctx), mid, r0)
            && (r0 is Err ==> r == r0 && *final(ctx) == mid)
            && (old(exprs)@.len() == 1 ==> (r is Ok <==> r0 is Ok) && *final(ctx) == mid),
        all_unchecked(old(exprs)@) ==> r is Ok && final(exprs)@ == old(exprs)@ && *final(ctx) == *old(ctx),
        r is Ok ==> final(ctx).current_function == old(ctx).current_function,
        list_checked(old(exprs)@, final(exprs)@, *old(ctx), *final(ctx), r),
    decreases *old(exprs),
{
    let ghost orig = exprs@;
    let ghost mut mid: ValidatorContext = *ctx;
    let ghost mut r0: Result<(), ValidatorError> = Ok(());
    let ghost mut cs: Seq<ValidatorContext> = seq![*ctx];
    let ghost mut rs: Seq<Result<(), ValidatorError>> = Seq::empty();
    let mut i: usize = 0;
    while i < exprs.len()
        invariant
            ctx.current_function == old(ctx).current_function,
            checked_in_order(orig, exprs@, i as int, cs, rs),
            cs[0] == *old(ctx),
            cs[i as int] == *ctx,
            i > 0 ==> rs[i - 1] is Ok,
            ctx.wf(),
            keeps_declarations(*old(ctx), *ctx),
            ctx.scopes@.len() == old(ctx).scopes@.len(),
            i == 0 ==> *ctx == *old(ctx),
            exprs@.len() == orig.len(),
            i <= exprs@.len(),
            forall|j: int| i <= j < orig.len() ==> #[trigger] exprs@[j] == orig[j],
            orig == old(exprs)@,
            i >= 1 ==> expr_checked(orig[0], exprs@[0], *old(ctx), mid, r0) && r0 is Ok,
            i == 1 ==> *ctx == mid,
            all_unchecked(orig) ==> exprs@ == orig && *ctx == *old(ctx),
        decreases exprs@.len() - i,
    {
        proof {
            assert(decreases_to!(*old(exprs) => old(exprs)@));
            assert(decreases_to!(old(exprs)@ => orig[i as int]));
        }
        let ghost before = exprs@;
        let ghost cb = *ctx;
        let res = validate_expr(&mut exprs[i], ctx);
        proof {
            let ncs = cs.push(*ctx);
            let nrs = rs.push(res);
            assert forall|k: int| 0 <= k < i + 1 implies
                #[trigger] expr_checked(orig[k], exprs@[k], ncs[k], ncs[k + 1], nrs[k]) by {
                if k < i {
                    assert(exprs@[k] == before[k]);
                    assert(expr_checked(orig[k], before[k], cs[k], cs[k + 1], rs[k]));
                }
            }
            assert forall|k: int| 0 <= k < i implies (#[trigger] nrs[k]) is Ok by {
                assert(nrs[k] == rs[k]);
            }
            assert(checked_in_order(orig, exprs@, i + 1, ncs, nrs));
            cs = ncs;
            rs = nrs;
            if i == 0 {
                mid = *ctx;
                r0 = res;
            }
            if all_unchecked(orig) {
                assert(is_unchecked_form(orig[i as int]));
                assert(exprs@ =~= before);
            }
        }
        match res {
            Ok(_) => {},
            Err(e) => {
                proof {
                    if i > 0 {
                        assert(exprs@[0] == before[0]);
                    }
                    assert(checked_in_order(old(exprs)@, exprs@, i + 1, cs, rs));
                }
                return Err(e);
            },
        }
        proof {
            if i > 0 {
                assert(exprs@[0] == before[0]);
            }
        }
        i = i + 1;
    }
    proof {
        if orig.len() >= 1 {
            assert(expr_checked(orig[0], exprs@[0], *old(ctx), mid, r0));
        }
        assert(checked_in_order(old(exprs)@, exprs@, i as int, cs, rs));
    }
    Ok(())
}

} // verus!
