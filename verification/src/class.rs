//! What class and method registration decides before it reaches mruby:
//! the argument spec a registered method carries, and how a class
//! definition resolves a name its namespace already binds.

use vstd::prelude::*;

verus! {

/// mruby's `MRB_ARGS_REQ(n)`: `n` required positionals, in bits 18..22.
pub open spec fn args_req_spec(n: u32) -> u32 {
    (n & 0x1f) << 18u32
}

/// mruby's `MRB_ARGS_OPT(n)`: `n` optional positionals, in bits 13..17.
pub open spec fn args_opt_spec(n: u32) -> u32 {
    (n & 0x1f) << 13u32
}

/// mruby's `MRB_ARGS_ANY()`: the rest flag, bit 12, so any count.
pub open spec fn args_any_spec() -> u32 {
    0x1000
}

/// mruby's `MRB_ARGS_BLOCK()`: the block flag, bit 0.
pub open spec fn args_block_spec() -> u32 {
    1
}

/// The argument spec a method of `arity` required positionals (`-1` for
/// any arguments), `opt` optional ones and the block flag registers with:
/// any arguments for a negative arity; otherwise the required count, and
/// the optional count beside it when positive; the block flag ORed in
/// when the method takes a block.
pub open spec fn aspec_of(arity: i8, opt: i8, block: bool) -> u32 {
    let positional = if arity < 0 {
        args_any_spec()
    } else if opt > 0 {
        args_req_spec(arity as u32) | args_opt_spec(opt as u32)
    } else {
        args_req_spec(arity as u32)
    };
    if block {
        positional | args_block_spec()
    } else {
        positional
    }
}

/// `MRB_ARGS_REQ(n)`.
pub fn mrb_args_req(n: u32) -> (r: u32)
    ensures
        r == args_req_spec(n),
{
    (n & 0x1f) << 18u32
}

/// `MRB_ARGS_OPT(n)`.
pub fn mrb_args_opt(n: u32) -> (r: u32)
    ensures
        r == args_opt_spec(n),
{
    (n & 0x1f) << 13u32
}

/// `MRB_ARGS_ARG(req, opt)`: `req` required and `opt` optional
/// positionals.
pub fn mrb_args_arg(req: u32, opt: u32) -> (r: u32)
    ensures
        r == args_req_spec(req) | args_opt_spec(opt),
{
    mrb_args_req(req) | mrb_args_opt(opt)
}

/// `MRB_ARGS_ANY()`.
pub fn mrb_args_any() -> (r: u32)
    ensures
        r == args_any_spec(),
{
    0x1000
}

/// `MRB_ARGS_BLOCK()`.
pub fn mrb_args_block() -> (r: u32)
    ensures
        r == args_block_spec(),
{
    1
}

/// Derive the mruby argument spec from a registration's arity counts:
/// `-1` accepts any arguments (the wrapped function reads the call frame
/// itself), `0..` requires that many positionals, and a positive `opt`
/// adds that many optional positionals after them. `block` ORs in the
/// block-accepting flag, which composes with the positional spec the way
/// mruby's own `MRB_ARGS_ARG` composes its required and optional parts.
pub fn method_aspec(arity: i8, opt: i8, block: bool) -> (r: u32)
    ensures
        r == aspec_of(arity, opt, block),
        aspec_block(r) == block,
        aspec_rest(r) == (arity < 0),
        arity < 32 ==> aspec_req(r) == (if arity < 0 { 0 } else { arity as u32 }),
        arity < 32 && opt < 32 ==> aspec_opt(r) == (if arity < 0 || opt <= 0 {
            0
        } else {
            opt as u32
        }),
        r & 0xff80_0ffeu32 == 0,
{
    proof {
        lemma_aspec_fields(arity, opt, block);
        lemma_aspec_sets_only_its_fields(arity, opt, block);
    }
    let positional = if arity < 0 {
        mrb_args_any()
    } else if opt > 0 {
        mrb_args_arg(arity as u32, opt as u32)
    } else {
        mrb_args_req(arity as u32)
    };
    if block {
        positional | mrb_args_block()
    } else {
        positional
    }
}

/// The required count mruby reads back out of an argument spec.
pub open spec fn aspec_req(aspec: u32) -> u32 {
    (aspec >> 18u32) & 0x1f
}

/// The optional count mruby reads back out of an argument spec.
pub open spec fn aspec_opt(aspec: u32) -> u32 {
    (aspec >> 13u32) & 0x1f
}

/// Whether an argument spec accepts any count (its rest flag).
pub open spec fn aspec_rest(aspec: u32) -> bool {
    (aspec >> 12u32) & 1 == 1
}

/// Whether an argument spec accepts a block.
pub open spec fn aspec_block(aspec: u32) -> bool {
    aspec & 1 == 1
}

proof fn lemma_fixed_fields(req: u32, opt: u32, block: bool)
    by (bit_vector)
    requires
        req < 32,
        opt < 32,
    ensures
        ({
            let p = ((req & 0x1f) << 18u32) | ((opt & 0x1f) << 13u32);
            let a = if block { p | 1u32 } else { p };
            &&& (a >> 18u32) & 0x1f == req
            &&& (a >> 13u32) & 0x1f == opt
            &&& (a >> 12u32) & 1 == 0
            &&& (a & 1 == 1) == block
        }),
{
}

proof fn lemma_any_fields(block: bool)
    by (bit_vector)
    ensures
        ({
            let a = if block { 0x1000u32 | 1u32 } else { 0x1000u32 };
            &&& (a >> 18u32) & 0x1f == 0
            &&& (a >> 13u32) & 0x1f == 0
            &&& (a >> 12u32) & 1 == 1
            &&& (a & 1 == 1) == block
        }),
{
}

proof fn lemma_zero_opt(req: u32)
    by (bit_vector)
    ensures
        ((req & 0x1f) << 18u32) | ((0u32 & 0x1f) << 13u32) == (req & 0x1f) << 18u32,
{
}

proof fn lemma_flags_any_counts(req: u32, opt: u32, block: bool)
    by (bit_vector)
    ensures
        ({
            let p = ((req & 0x1f) << 18u32) | ((opt & 0x1f) << 13u32);
            let a = if block { p | 1u32 } else { p };
            &&& (a >> 12u32) & 1 == 0
            &&& (a & 1 == 1) == block
            &&& req < 32 ==> (a >> 18u32) & 0x1f == req
        }),
{
}

/// What a spec reads back for any counts: the block and rest flags
/// always, the counts while they fit mruby's five-bit fields.
proof fn lemma_aspec_fields(arity: i8, opt: i8, block: bool)
    ensures
        ({
            let a = aspec_of(arity, opt, block);
            &&& aspec_block(a) == block
            &&& aspec_rest(a) == (arity < 0)
            &&& arity < 32 ==> aspec_req(a) == (if arity < 0 { 0 } else { arity as u32 })
            &&& arity < 32 && opt < 32 ==> aspec_opt(a) == (if arity < 0 || opt <= 0 {
                0
            } else {
                opt as u32
            })
        }),
{
    if arity < 0 {
        lemma_any_fields(block);
    } else if opt > 0 {
        lemma_flags_any_counts(arity as u32, opt as u32, block);
        if arity < 32 && opt < 32 {
            lemma_aspec_round_trip(arity, opt, block);
        }
    } else {
        lemma_flags_any_counts(arity as u32, 0, block);
        lemma_zero_opt(arity as u32);
        if arity < 32 {
            lemma_aspec_round_trip(arity, opt, block);
        }
    }
}

proof fn lemma_only_field_bits(req: u32, opt: u32, block: bool)
    by (bit_vector)
    ensures
        ({
            let p = ((req & 0x1f) << 18u32) | ((opt & 0x1f) << 13u32);
            let a = if block { p | 1u32 } else { p };
            a & 0xff80_0ffeu32 == 0
        }),
        ({
            let p = (req & 0x1f) << 18u32;
            let a = if block { p | 1u32 } else { p };
            a & 0xff80_0ffeu32 == 0
        }),
        (if block { 0x1000u32 | 1u32 } else { 0x1000u32 }) & 0xff80_0ffeu32 == 0,
        req < 32 && opt < 32 ==> ((req & 0x1f) << 18u32) | ((opt & 0x1f) << 13u32) == (req << 18u32)
            | (opt << 13u32),
        req < 32 ==> (req & 0x1f) << 18u32 == req << 18u32,
        ({
            let p = ((req & 0x1f) << 18u32) | ((opt & 0x1f) << 13u32);
            let a = if block { p | 1u32 } else { p };
            &&& (a >> 18u32) & 0x1f == req & 0x1f
            &&& (a >> 13u32) & 0x1f == opt & 0x1f
            &&& (a >> 12u32) & 1 == 0
            &&& (a & 1 == 1) == block
        }),
        ({
            let p = (req & 0x1f) << 18u32;
            let a = if block { p | 1u32 } else { p };
            &&& (a >> 18u32) & 0x1f == req & 0x1f
            &&& (a >> 13u32) & 0x1f == 0
            &&& (a >> 12u32) & 1 == 0
            &&& (a & 1 == 1) == block
        }),
{
}

/// An argument spec sets only mruby's required (bits 18..22), optional
/// (bits 13..17), rest (bit 12) and block (bit 0) fields — never the
/// trailing-positional or keyword fields between them, nor a bit above —
/// and for counts that fit their five-bit fields it is exactly the
/// required count shifted to bit 18, the optional count (when positive)
/// shifted to bit 13, and the block flag; a negative arity is the rest
/// flag and the block flag alone. Wider counts keep their low five bits,
/// as mruby's own field macros mask them.
pub proof fn lemma_aspec_sets_only_its_fields(arity: i8, opt: i8, block: bool)
    ensures
        aspec_of(arity, opt, block) & 0xff80_0ffeu32 == 0,
        0 <= arity < 32 && 0 < opt < 32 ==> aspec_of(arity, opt, block) == (if block {
            ((arity as u32) << 18u32) | ((opt as u32) << 13u32) | 1u32
        } else {
            ((arity as u32) << 18u32) | ((opt as u32) << 13u32)
        }),
        0 <= arity < 32 && opt <= 0 ==> aspec_of(arity, opt, block) == (if block {
            ((arity as u32) << 18u32) | 1u32
        } else {
            (arity as u32) << 18u32
        }),
        arity < 0 ==> aspec_of(arity, opt, block) == (if block { 0x1001u32 } else { 0x1000u32 }),
        0 <= arity ==> {
            let a = aspec_of(arity, opt, block);
            &&& aspec_req(a) == (arity as u32) & 0x1f
            &&& aspec_opt(a) == (if opt > 0 { (opt as u32) & 0x1f } else { 0 })
            &&& !aspec_rest(a)
            &&& aspec_block(a) == block
        },
{
    lemma_only_field_bits(arity as u32, opt as u32, block);
    assert(0x1000u32 | 1u32 == 0x1001u32) by (bit_vector);
}

/// The argument spec carries what the registration declared: reading it
/// back gives the required and optional counts (for counts below 32, the
/// widest mruby's five-bit fields hold) and the block flag, with the rest
/// flag clear; a negative arity gives the rest flag, and no counts.
pub proof fn lemma_aspec_round_trip(arity: i8, opt: i8, block: bool)
    requires
        arity < 32,
        opt < 32,
    ensures
        ({
            let a = aspec_of(arity, opt, block);
            &&& aspec_block(a) == block
            &&& aspec_rest(a) == (arity < 0)
            &&& aspec_req(a) == (if arity < 0 { 0 } else { arity as u32 })
            &&& aspec_opt(a) == (if arity < 0 || opt <= 0 { 0 } else { opt as u32 })
        }),
{
    if arity < 0 {
        lemma_any_fields(block);
    } else if opt > 0 {
        lemma_fixed_fields(arity as u32, opt as u32, block);
    } else {
        lemma_fixed_fields(arity as u32, 0, block);
        lemma_zero_opt(arity as u32);
    }
}

/// How a class definition resolves a name its namespace already binds,
/// as Ruby's `class` keyword resolves a reopened class. `X` is the
/// handle on an exception the constant fetch raised.
#[derive(Copy, Clone, Debug, PartialEq, Eq)]
pub enum BoundClass<X> {
    /// Nothing is bound under the name: the definition creates the class.
    Unbound,
    /// Fetching the bound constant raised this exception, which the
    /// definition passes on.
    FetchRaised(X),
    /// The bound constant is not a class: a `TypeError`.
    NotAClass,
    /// The bound class descends from another superclass: a `TypeError`.
    SuperclassMismatch,
    /// The bound class descends from the requested superclass: the
    /// definition yields it, reopened.
    Reopened,
}

/// Resolve a class definition over what the namespace binds: `defined`
/// whether it binds the name at all, and — when it does — what fetching
/// the bound constant came to: the exception it raised, or whether the
/// constant is a class (`is_class`) and whether that class's real
/// superclass is the one the definition requests (`same_superclass`).
pub fn bound_class<X>(defined: bool, fetched: Result<(bool, bool), X>) -> (r: BoundClass<X>)
    ensures
        r == (if !defined {
            BoundClass::<X>::Unbound
        } else {
            match fetched {
                Err(exc) => BoundClass::<X>::FetchRaised(exc),
                Ok((is_class, same_superclass)) => if !is_class {
                    BoundClass::<X>::NotAClass
                } else if !same_superclass {
                    BoundClass::<X>::SuperclassMismatch
                } else {
                    BoundClass::<X>::Reopened
                },
            }
        }),
{
    if !defined {
        return BoundClass::Unbound;
    }
    match fetched {
        Err(exc) => BoundClass::FetchRaised(exc),
        Ok((is_class, same_superclass)) => {
            if !is_class {
                BoundClass::NotAClass
            } else if !same_superclass {
                BoundClass::SuperclassMismatch
            } else {
                BoundClass::Reopened
            }
        },
    }
}

impl<X> BoundClass<X> {
    /// The `TypeError` message a refused definition of the class `name`
    /// raises: `name is not a class` or `superclass mismatch for class
    /// name`; nothing for a definition that goes ahead, or one whose
    /// fetch raised (that exception is passed on as it is).
    pub fn message(&self, name: &str) -> (r: Option<String>)
        ensures
            r matches Some(m) ==> m@ == (match self {
                BoundClass::NotAClass => name@ + " is not a class"@,
                _ => "superclass mismatch for class "@ + name@,
            }),
            r is Some <==> (self is NotAClass || self is SuperclassMismatch),
    {
        match self {
            BoundClass::NotAClass => {
                let mut m = String::from_str(name);
                m.append(" is not a class");
                Some(m)
            },
            BoundClass::SuperclassMismatch => {
                let mut m = String::from_str("superclass mismatch for class ");
                m.append(name);
                Some(m)
            },
            _ => None,
        }
    }
}

} // verus!
