use juniper_codegen::description::DocAttr;
use juniper_codegen::rename::Policy;
use juniper_codegen::type_attr::{
    interface_arg_key, object_arg_key, TypeArg, TypeArgKey, TypeAttr, TypeMergeError, TypeRef,
};

fn s(v: &str) -> String {
    v.to_string()
}

fn ty(key: u64) -> TypeRef<u8> {
    TypeRef { key, ty: key as u8 }
}

#[test]
fn interface_and_object_argument_keys() {
    assert_eq!(interface_arg_key("for"), Some(TypeArgKey::For));
    assert_eq!(interface_arg_key("implementers"), Some(TypeArgKey::For));
    assert_eq!(interface_arg_key("impl"), Some(TypeArgKey::Implements));
    assert_eq!(interface_arg_key("enum"), Some(TypeArgKey::Enum));
    assert_eq!(interface_arg_key("async"), Some(TypeArgKey::Async));
    assert_eq!(interface_arg_key("interfaces"), None);
    assert_eq!(object_arg_key("interfaces"), Some(TypeArgKey::Implements));
    assert_eq!(object_arg_key("for"), None);
    assert_eq!(object_arg_key("Context"), Some(TypeArgKey::Context));
    assert_eq!(object_arg_key("rename_all"), Some(TypeArgKey::RenameAll));
}

#[test]
fn type_attr_parse_refuses_repeated_type() {
    let a = TypeAttr::<u8>::parse(vec![TypeArg::For(ty(1)), TypeArg::For(ty(2)), TypeArg::Internal, TypeArg::Internal])
        .ok()
        .unwrap();
    assert_eq!(a.implemented_for.len(), 2);
    assert!(a.is_internal);
    assert_eq!(a.renaming(), Policy::CamelCase);
    assert_eq!(TypeAttr::<u8>::parse(vec![TypeArg::For(ty(1)), TypeArg::Implements(ty(1))]).ok().unwrap().implements.len(), 1);
    assert_eq!(TypeAttr::<u8>::parse(vec![TypeArg::Name(s("A")), TypeArg::For(ty(3)), TypeArg::For(ty(3))]).err(), Some(2));
    assert_eq!(TypeAttr::<u8>::parse(vec![TypeArg::Async, TypeArg::Async]).err(), Some(1));
}

#[test]
fn type_attr_merge() {
    let a = TypeAttr::<u8>::parse(vec![TypeArg::For(ty(1)), TypeArg::For(ty(2))]).ok().unwrap();
    let b = TypeAttr::<u8>::parse(vec![TypeArg::For(ty(3)), TypeArg::RenameAll(Policy::Unchanged)]).ok().unwrap();
    let m = a.try_merge(b).ok().unwrap();
    let keys: Vec<u64> = m.implemented_for.iter().map(|t| t.key).collect();
    assert_eq!(keys, vec![1, 2, 3]);
    assert_eq!(m.renaming(), Policy::Unchanged);
    let c = TypeAttr::<u8>::parse(vec![TypeArg::For(ty(7)), TypeArg::For(ty(2))]).ok().unwrap();
    let d = TypeAttr::<u8>::parse(vec![TypeArg::For(ty(2))]).ok().unwrap();
    assert_eq!(c.try_merge(d).err(), Some(TypeMergeError::SharedImplementer(1)));
    let e = TypeAttr::<u8>::parse(vec![TypeArg::Enum(s("X")), TypeArg::Context(1)]).ok().unwrap();
    let f = TypeAttr::<u8>::parse(vec![TypeArg::Enum(s("Y")), TypeArg::Context(2)]).ok().unwrap();
    assert_eq!(e.try_merge(f).err(), Some(TypeMergeError::Both(TypeArgKey::Context)));
}

#[test]
fn type_attr_description_from_docs() {
    let a = TypeAttr::<u8>::new();
    let done = a.from_attrs(&[DocAttr::Text(s(" Some character.")), DocAttr::Other]).ok().unwrap();
    assert_eq!(done.description, Some(s("Some character.")));
    let b = TypeAttr::<u8>::parse(vec![TypeArg::Description(s("given"))]).ok().unwrap();
    assert_eq!(b.from_attrs(&[DocAttr::NotString]).ok().unwrap().description, Some(s("given")));
    assert_eq!(TypeAttr::<u8>::new().from_attrs(&[DocAttr::Other, DocAttr::NotString]).err(), Some(1));
}

#[test]
fn split_type_attributes_mean_one() {
    let one = TypeAttr::<u8>::parse(vec![TypeArg::Name(s("Human")), TypeArg::For(ty(1)), TypeArg::For(ty(2)), TypeArg::Async]).ok().unwrap();
    let first = TypeAttr::<u8>::parse(vec![TypeArg::Name(s("Human")), TypeArg::For(ty(1))]).ok().unwrap();
    let second = TypeAttr::<u8>::parse(vec![TypeArg::For(ty(2)), TypeArg::Async]).ok().unwrap();
    let merged = first.try_merge(second).ok().unwrap();
    assert_eq!(merged.name, one.name);
    assert_eq!(merged.asyncness, one.asyncness);
    let keys = |a: &TypeAttr<u8>| a.implemented_for.iter().map(|t| t.key).collect::<Vec<u64>>();
    assert_eq!(keys(&merged), keys(&one));
    assert!(TypeAttr::<u8>::parse(vec![TypeArg::For(ty(1)), TypeArg::For(ty(1))]).is_err());
    let x = TypeAttr::<u8>::parse(vec![TypeArg::For(ty(1))]).ok().unwrap();
    let y = TypeAttr::<u8>::parse(vec![TypeArg::For(ty(1))]).ok().unwrap();
    assert!(x.try_merge(y).is_err());
}

#[test]
fn type_arguments_one_at_a_time() {
    let a = TypeAttr::<u8>::new().add(TypeArg::For(ty(1)), 0).ok().unwrap();
    let a = a.add(TypeArg::For(ty(2)), 1).ok().unwrap();
    assert_eq!(a.implemented_for.len(), 2);
    assert_eq!(a.add(TypeArg::For(ty(1)), 2).err(), Some(2));
    let a = TypeAttr::<u8>::new().add(TypeArg::Name(s("A")), 0).ok().unwrap();
    assert_eq!(a.add(TypeArg::Name(s("B")), 1).err(), Some(1));
}
