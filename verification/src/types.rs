//! The shape of Rust types and method signatures, as far as the generated
//! code inspects them: unwrapping parentheses and references, and reading
//! the output type and the context type of downcasting methods.
//!
//! A node keeps the Rust type `T` it stands for and its span `S`, so that
//! what is found can be handed back as written.
use vstd::prelude::*;

use crate::text::{text_is, unraw, unraw_spec};

verus! {

/// A Rust type: what it is (`ty`), where it is (`span`) and its shape.
pub struct Ty<T, S> {
    pub ty: T,
    pub span: S,
    pub kind: TyKind<T, S>,
}

/// The shape of a Rust type.
pub enum TyKind<T, S> {
    /// `(T)`.
    Paren(Box<Ty<T, S>>),
    /// An invisible group around a type.
    Group(Box<Ty<T, S>>),
    /// A path, with whether it has a qualified self (`<T as Trait>::X`),
    /// and its last segment, if any.
    Path { qself: bool, last: Option<Segment<T, S>> },
    /// `&T` or `&mut T`.
    Reference { mutable: bool, elem: Box<Ty<T, S>> },
    /// `dyn Trait + ...`, with the identifier of the last segment of the
    /// path of its first bound if that bound is a trait.
    TraitObject { first_trait: Option<String> },
    /// Any other type.
    Other,
}

/// A segment of a path: its identifier and its arguments.
pub struct Segment<T, S> {
    pub ident: String,
    pub args: SegmentArgs<T, S>,
}

/// The arguments of a path segment.
pub enum SegmentArgs<T, S> {
    /// `<...>`.
    AngleBracketed(Vec<GenericArg<T, S>>),
    /// `(...) -> ...`, or none.
    Other,
}

/// A generic argument.
pub enum GenericArg<T, S> {
    Type(Ty<T, S>),
    /// A lifetime, a constant, a binding or a constraint.
    Other,
}

/// The innermost type inside parentheses and groups.
pub open spec fn unparen<T, S>(t: Ty<T, S>) -> Ty<T, S>
    decreases t,
{
    match t.kind {
        TyKind::Paren(inner) => unparen(*inner),
        TyKind::Group(inner) => unparen(*inner),
        _ => t,
    }
}

/// The type behind a reference (unwrapped of parentheses first), or the
/// type itself.
pub open spec fn unref<T, S>(t: Ty<T, S>) -> Ty<T, S> {
    match unparen(t).kind {
        TyKind::Reference { elem, .. } => *elem,
        _ => unparen(t),
    }
}

impl<T, S> Ty<T, S> {
    /// The innermost type inside parentheses and groups.
    pub fn unparenthesized(&self) -> (res: &Ty<T, S>)
        ensures
            *res == unparen(*self),
        decreases self,
    {
        match &self.kind {
            TyKind::Paren(inner) => inner.unparenthesized(),
            TyKind::Group(inner) => inner.unparenthesized(),
            _ => self,
        }
    }

    /// The type behind a reference, or the type itself, unwrapped of
    /// parentheses.
    pub fn unreferenced(&self) -> (res: &Ty<T, S>)
        ensures
            *res == unref(*self),
    {
        let t = self.unparenthesized();
        match &t.kind {
            TyKind::Reference { elem, .. } => &**elem,
            _ => t,
        }
    }

    /// The identifier that names the type: the last segment of its path,
    /// or of the path behind a reference, or of the first trait of a trait
    /// object behind a reference.
    pub fn topmost_ident(&self) -> (res: Option<String>)
        ensures
            match unparen(*self).kind {
                TyKind::Path { last, .. } => match last {
                    Some(seg) => res matches Some(i) && i@ == seg.ident@,
                    None => res is None,
                },
                TyKind::Reference { elem, .. } => match unparen(*elem).kind {
                    TyKind::Path { last, .. } => match last {
                        Some(seg) => res matches Some(i) && i@ == seg.ident@,
                        None => res is None,
                    },
                    TyKind::TraitObject { first_trait } => match first_trait {
                        Some(i0) => res matches Some(i) && i@ == i0@,
                        None => res is None,
                    },
                    _ => res is None,
                },
                _ => res is None,
            },
    {
        match &self.unparenthesized().kind {
            TyKind::Path { last, .. } => match last {
                Some(seg) => Some(seg.ident.clone()),
                None => None,
            },
            TyKind::Reference { elem, .. } => match &elem.unparenthesized().kind {
                TyKind::Path { last, .. } => match last {
                    Some(seg) => Some(seg.ident.clone()),
                    None => None,
                },
                TyKind::TraitObject { first_trait } => match first_trait {
                    Some(i) => Some(i.clone()),
                    None => None,
                },
                _ => None,
            },
            _ => None,
        }
    }
}

/// The return type of a method.
pub enum ReturnShape<T, S> {
    /// No return type written, at this span.
    Default(S),
    /// `-> T`.
    Type(Ty<T, S>),
}

/// What the output type of a downcasting method is: `Ok` with the type
/// behind `Option<&Output>`, or `Err` with the span to report at.
pub open spec fn output_type_spec<T, S>(ret: ReturnShape<T, S>) -> Result<Ty<T, S>, S> {
    match ret {
        ReturnShape::Default(span) => Err(span),
        ReturnShape::Type(rt) => {
            let u = unparen(rt);
            match u.kind {
                TyKind::Path { qself: false, last: Some(seg) } => match seg.args {
                    SegmentArgs::AngleBracketed(args) => if unraw_spec(seg.ident@) != "Option"@ {
                        Err(rt.span)
                    } else if args@.len() != 1 {
                        Err(rt.span)
                    } else {
                        match args@[0] {
                            GenericArg::Type(inner) => match unparen(inner).kind {
                                TyKind::Reference { mutable, elem } => if mutable {
                                    Err(unparen(inner).span)
                                } else {
                                    Ok(unparen(*elem))
                                },
                                _ => Err(rt.span),
                            },
                            _ => Err(rt.span),
                        }
                    },
                    _ => Err(rt.span),
                },
                _ => Err(rt.span),
            }
        },
    }
}

/// Parses the output type of a downcasting method from its return type,
/// which must be `Option<&Output>`.
pub fn output_type<T, S: Copy>(ret: &ReturnShape<T, S>) -> (res: Result<&Ty<T, S>, S>)
    ensures
        match output_type_spec(*ret) {
            Ok(t) => res matches Ok(r) && *r == t,
            Err(s) => res == Err::<&Ty<T, S>, S>(s),
        },
{
    let rt = match ret {
        ReturnShape::Default(span) => return Err(*span),
        ReturnShape::Type(rt) => rt,
    };
    let u = rt.unparenthesized();
    let seg = match &u.kind {
        TyKind::Path { qself: false, last: Some(seg) } => seg,
        _ => return Err(rt.span),
    };
    let args = match &seg.args {
        SegmentArgs::AngleBracketed(args) => args,
        _ => return Err(rt.span),
    };
    let name = unraw(seg.ident.as_str());
    if !text_is(name.as_str(), "Option") {
        return Err(rt.span);
    }
    if args.len() != 1 {
        return Err(rt.span);
    }
    match &args[0] {
        GenericArg::Type(inner) => {
            let ui = inner.unparenthesized();
            match &ui.kind {
                TyKind::Reference { mutable, elem } => if *mutable {
                    Err(ui.span)
                } else {
                    Ok(elem.unparenthesized())
                },
                _ => Err(rt.span),
            }
        },
        _ => Err(rt.span),
    }
}

/// The receiver of a method.
pub struct ReceiverShape<S> {
    /// Whether it is borrowed (`&self` or `&mut self`).
    pub reference: bool,
    /// Whether it is mutable (`&mut self` or `mut self`).
    pub mutable: bool,
    pub span: S,
}

/// An input of a method.
pub enum FnArgShape<T, S> {
    /// A receiver.
    Receiver,
    /// A typed argument `pat: T`.
    Typed(Ty<T, S>),
}

/// The signature of a method, as far as downcasting is concerned.
pub struct SigShape<T, S> {
    pub span: S,
    pub receiver: Option<ReceiverShape<S>>,
    /// Where its inputs are.
    pub inputs_span: S,
    /// All its inputs, the receiver included.
    pub inputs: Vec<FnArgShape<T, S>>,
}

/// What the context type of a downcasting method is: `Ok(None)` when it
/// takes no context, `Ok(Some(..))` with the type behind `&Context`, or
/// `Err` with the span to report at.
pub open spec fn context_ty_spec<T, S>(sig: SigShape<T, S>) -> Result<Option<Ty<T, S>>, S> {
    match sig.receiver {
        None => Err(sig.span),
        Some(rcv) => if !rcv.reference || rcv.mutable {
            Err(rcv.span)
        } else if sig.inputs@.len() > 2 {
            Err(sig.inputs_span)
        } else if sig.inputs@.len() < 2 {
            Ok(None)
        } else {
            match sig.inputs@[1] {
                FnArgShape::Receiver => Err(sig.inputs_span),
                FnArgShape::Typed(t) => match unparen(t).kind {
                    TyKind::Reference { mutable, elem } => if mutable {
                        Err(unparen(t).span)
                    } else {
                        Ok(Some(unparen(*elem)))
                    },
                    _ => Err(unparen(t).span),
                },
            }
        },
    }
}

/// Parses the context type of a downcasting method from its signature: it
/// takes `&self` and, optionally, a `&Context`.
pub fn context_ty<T, S: Copy>(sig: &SigShape<T, S>) -> (res: Result<Option<&Ty<T, S>>, S>)
    ensures
        match context_ty_spec(*sig) {
            Ok(None) => res == Ok::<Option<&Ty<T, S>>, S>(None),
            Ok(Some(t)) => res matches Ok(Some(r)) && *r == t,
            Err(s) => res == Err::<Option<&Ty<T, S>>, S>(s),
        },
{
    match &sig.receiver {
        Some(rcv) => {
            if !rcv.reference || rcv.mutable {
                return Err(rcv.span);
            }
        },
        None => return Err(sig.span),
    }
    if sig.inputs.len() > 2 {
        return Err(sig.inputs_span);
    }
    if sig.inputs.len() < 2 {
        return Ok(None);
    }
    match &sig.inputs[1] {
        FnArgShape::Typed(t) => {
            let u = t.unparenthesized();
            match &u.kind {
                TyKind::Reference { mutable, elem } => if *mutable {
                    Err(u.span)
                } else {
                    Ok(Some(elem.unparenthesized()))
                },
                _ => Err(u.span),
            }
        },
        FnArgShape::Receiver => Err(sig.inputs_span),
    }
}

} // verus!
