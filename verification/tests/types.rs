use juniper_codegen::types::{
    context_ty, output_type, FnArgShape, GenericArg, ReceiverShape, ReturnShape, Segment,
    SegmentArgs, SigShape, Ty, TyKind,
};

type T = Ty<&'static str, u32>;

fn ty(name: &'static str, span: u32, kind: TyKind<&'static str, u32>) -> T {
    Ty { ty: name, span, kind }
}

fn path(name: &'static str, span: u32) -> T {
    ty(name, span, TyKind::Path { qself: false, last: Some(Segment { ident: name.to_string(), args: SegmentArgs::Other }) })
}

fn reference(mutable: bool, elem: T, span: u32) -> T {
    ty("&", span, TyKind::Reference { mutable, elem: Box::new(elem) })
}

fn paren(inner: T, span: u32) -> T {
    ty("()", span, TyKind::Paren(Box::new(inner)))
}

fn option_of(inner: T, span: u32) -> T {
    ty(
        "Option",
        span,
        TyKind::Path {
            qself: false,
            last: Some(Segment { ident: "Option".to_string(), args: SegmentArgs::AngleBracketed(vec![GenericArg::Type(inner)]) }),
        },
    )
}

#[test]
fn unwrapping_types() {
    let t = paren(paren(reference(false, paren(path("Human", 3), 4), 2), 1), 0);
    assert_eq!(t.unparenthesized().span, 2);
    assert_eq!(t.unreferenced().span, 4);
    assert_eq!(t.topmost_ident().as_deref(), Some("Human"));
    let dyn_ref = reference(false, ty("dyn", 5, TyKind::TraitObject { first_trait: Some("Character".to_string()) }), 6);
    assert_eq!(dyn_ref.topmost_ident().as_deref(), Some("Character"));
    assert_eq!(ty("_", 7, TyKind::Other).topmost_ident(), None);
}

#[test]
fn downcaster_output_type() {
    let ok = ReturnShape::Type(option_of(reference(false, paren(path("Droid", 3), 2), 1), 0));
    assert_eq!(output_type(&ok).map(|t| t.ty), Ok("Droid"));
    let raw = ReturnShape::Type(ty(
        "Option",
        0,
        TyKind::Path {
            qself: false,
            last: Some(Segment { ident: "r#Option".to_string(), args: SegmentArgs::AngleBracketed(vec![GenericArg::Type(reference(false, path("Droid", 3), 1))]) }),
        },
    ));
    assert_eq!(output_type(&raw).map(|t| t.ty), Ok("Droid"));
    let mutable = ReturnShape::Type(option_of(paren(reference(true, path("Droid", 3), 1), 8), 0));
    assert_eq!(output_type(&mutable).map(|t| t.ty), Err(1));
    let not_ref = ReturnShape::Type(option_of(path("Droid", 3), 0));
    assert_eq!(output_type(&not_ref).map(|t| t.ty), Err(0));
    let default: ReturnShape<&'static str, u32> = ReturnShape::Default(9);
    assert_eq!(output_type(&default).map(|t| t.ty), Err(9));
    let vec_ty = ReturnShape::Type(path("Vec", 4));
    assert_eq!(output_type(&vec_ty).map(|t| t.ty), Err(4));
}

fn sig(receiver: Option<(bool, bool)>, second: Option<FnArgShape<&'static str, u32>>) -> SigShape<&'static str, u32> {
    let mut inputs = vec![FnArgShape::Receiver];
    if let Some(s) = second {
        inputs.push(s);
    }
    SigShape {
        span: 100,
        receiver: receiver.map(|(reference, mutable)| ReceiverShape { reference, mutable, span: 101 }),
        inputs_span: 102,
        inputs,
    }
}

#[test]
fn downcaster_context_type() {
    assert_eq!(context_ty(&sig(Some((true, false)), None)).map(|o| o.map(|t| t.ty)), Ok(None));
    let with_ctx = sig(Some((true, false)), Some(FnArgShape::Typed(reference(false, path("Database", 3), 2))));
    assert_eq!(context_ty(&with_ctx).map(|o| o.map(|t| t.ty)), Ok(Some("Database")));
    assert_eq!(context_ty(&sig(None, None)).map(|o| o.map(|t| t.ty)), Err(100));
    assert_eq!(context_ty(&sig(Some((true, true)), None)).map(|o| o.map(|t| t.ty)), Err(101));
    assert_eq!(context_ty(&sig(Some((false, false)), None)).map(|o| o.map(|t| t.ty)), Err(101));
    let by_value = sig(Some((true, false)), Some(FnArgShape::Typed(path("Database", 3))));
    assert_eq!(context_ty(&by_value).map(|o| o.map(|t| t.ty)), Err(3));
    let mut three = sig(Some((true, false)), Some(FnArgShape::Typed(reference(false, path("Database", 3), 2))));
    three.inputs.push(FnArgShape::Typed(path("X", 4)));
    assert_eq!(context_ty(&three).map(|o| o.map(|t| t.ty)), Err(102));
}
