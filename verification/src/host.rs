//! What the library needs from its host for 32-bit floats, which it does not compute itself.
//!
//! The host supplies closures: one that reads a float literal into its bit pattern, one that
//! carries out a `FloatOp`, and one that writes a bit pattern as a literal. The library asks
//! them to be functions (the same input always gives the same output); its contracts speak of
//! their answers through `decoded`, `evaluated` and `rendered`.
use vstd::prelude::*;
use crate::semantics::FloatOp;

verus! {

/// `decode` answers `r` for a literal with the characters `t`.
pub open spec fn decodes<P: Fn(String) -> Option<u32>>(decode: P, t: Seq<char>, r: Option<u32>) -> bool {
    exists|x: String| x@ == t && #[trigger] call_ensures(decode, (x,), r)
}

/// `decode` can be called on any literal and answers alike for literals with the same characters.
pub open spec fn decoder_is_function<P: Fn(String) -> Option<u32>>(decode: P) -> bool {
    &&& forall|x: String| call_requires(decode, (x,))
    &&& forall|x: String, y: String, r1: Option<u32>, r2: Option<u32>|
        x@ == y@ && #[trigger] call_ensures(decode, (x,), r1) && #[trigger] call_ensures(decode, (y,), r2) ==> r1 == r2
}

/// The bit pattern `decode` reads from the literal `t`, if it reads one.
pub open spec fn decoded<P: Fn(String) -> Option<u32>>(decode: P, t: Seq<char>) -> Option<u32> {
    choose|r: Option<u32>| decodes(decode, t, r)
}

/// An answer of a decoder that is a function is its `decoded` value.
pub proof fn lemma_decoded<P: Fn(String) -> Option<u32>>(decode: P, x: String, r: Option<u32>)
    requires
        decoder_is_function(decode),
        call_ensures(decode, (x,), r),
    ensures
        decoded(decode, x@) == r,
{
    assert(decodes(decode, x@, r));
    let c = decoded(decode, x@);
    assert(decodes(decode, x@, c));
    let y = choose|y: String| y@ == x@ && call_ensures(decode, (y,), c);
    assert(call_ensures(decode, (y,), c));
}

/// `eval` can be called on any operation and always answers the same for the same operation.
pub open spec fn evaluator_is_function<E: Fn(FloatOp) -> u32>(eval: E) -> bool {
    &&& forall|o: FloatOp| call_requires(eval, (o,))
    &&& forall|o: FloatOp, r1: u32, r2: u32|
        #[trigger] call_ensures(eval, (o,), r1) && #[trigger] call_ensures(eval, (o,), r2) ==> r1 == r2
}

/// The answer of `eval` to `o`.
pub open spec fn evaluated<E: Fn(FloatOp) -> u32>(eval: E, o: FloatOp) -> u32 {
    choose|r: u32| call_ensures(eval, (o,), r)
}

/// An answer of an evaluator that is a function is its `evaluated` value.
pub proof fn lemma_evaluated<E: Fn(FloatOp) -> u32>(eval: E, o: FloatOp, r: u32)
    requires
        evaluator_is_function(eval),
        call_ensures(eval, (o,), r),
    ensures
        evaluated(eval, o) == r,
{
}

/// Calls the decoder.
pub fn decode_literal<P: Fn(String) -> Option<u32>>(decode: &P, text: String) -> (r: Option<u32>)
    requires
        decoder_is_function(*decode),
    ensures
        r == decoded(*decode, text@),
{
    let ghost t = text@;
    let r = decode(text);
    proof { lemma_decoded(*decode, text, r); }
    r
}

/// `render` can be called on any bit pattern and writes alike for the same bit pattern.
pub open spec fn renderer_is_function<R: Fn(u32) -> String>(render: R) -> bool {
    &&& forall|b: u32| call_requires(render, (b,))
    &&& forall|b: u32, s1: String, s2: String|
        #[trigger] call_ensures(render, (b,), s1) && #[trigger] call_ensures(render, (b,), s2) ==> s1@ == s2@
}

/// The literal `render` writes for the bit pattern `b`.
pub open spec fn rendered<R: Fn(u32) -> String>(render: R, b: u32) -> Seq<char> {
    (choose|s: String| call_ensures(render, (b,), s))@
}

/// Calls the renderer.
pub fn render_bits<R: Fn(u32) -> String>(render: &R, b: u32) -> (s: String)
    requires
        renderer_is_function(*render),
    ensures
        s@ == rendered(*render, b),
{
    let s = render(b);
    proof {
        let c = choose|c: String| call_ensures(*render, (b,), c);
        assert(call_ensures(*render, (b,), c));
    }
    s
}

/// Calls the evaluator.
pub fn evaluate<E: Fn(FloatOp) -> u32>(eval: &E, o: FloatOp) -> (r: u32)
    requires
        evaluator_is_function(*eval),
    ensures
        r == evaluated(*eval, o),
{
    let r = eval(o);
    proof { lemma_evaluated(*eval, o, r); }
    r
}

} // verus!
