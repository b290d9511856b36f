//! The arguments of `#[graphql_interface]` and `#[graphql_object]` (and of
//! `#[graphql(...)]` beside them): names, description, context, scalar, the
//! sets of implementing and implemented types, and the renaming of fields.
use vstd::prelude::*;

use crate::attr::{merge_opt, merge_option, reversed};
use crate::description::{concatenated, doc_texts, is_not_string, is_text, parse_from_doc_attrs, DocAttr};
use crate::rename::Policy;
use crate::text::text_is;

verus! {

/// The arguments that these attributes take.
#[derive(Clone, Copy, Debug, PartialEq, Eq, Structural)]
pub enum TypeArgKey {
    /// `name = "..."`.
    Name,
    /// `desc = "..."` or `description = "..."`.
    Description,
    /// `ctx = ...`, `context = ...` or `Context = ...`.
    Context,
    /// `scalar = ...`, `Scalar = ...` or `ScalarValue = ...`.
    Scalar,
    /// `for = ...` or `implementers = ...`: the implementers of an
    /// interface.
    For,
    /// `impl = ...`, `implements = ...` (or `interfaces = ...` on an
    /// object): the interfaces implemented.
    Implements,
    /// `enum = Ident`: the alias of the enum behind an interface.
    Enum,
    /// `async`.
    Async,
    /// `rename_all = "..."`.
    RenameAll,
    /// `internal`.
    Internal,
}

/// The argument that `ident` names on an interface, if any.
pub open spec fn interface_arg_key_spec(ident: Seq<char>) -> Option<TypeArgKey> {
    if ident == "name"@ {
        Some(TypeArgKey::Name)
    } else if ident == "desc"@ || ident == "description"@ {
        Some(TypeArgKey::Description)
    } else if ident == "ctx"@ || ident == "context"@ || ident == "Context"@ {
        Some(TypeArgKey::Context)
    } else if ident == "scalar"@ || ident == "Scalar"@ || ident == "ScalarValue"@ {
        Some(TypeArgKey::Scalar)
    } else if ident == "for"@ || ident == "implementers"@ {
        Some(TypeArgKey::For)
    } else if ident == "impl"@ || ident == "implements"@ {
        Some(TypeArgKey::Implements)
    } else if ident == "enum"@ {
        Some(TypeArgKey::Enum)
    } else if ident == "async"@ {
        Some(TypeArgKey::Async)
    } else if ident == "rename_all"@ {
        Some(TypeArgKey::RenameAll)
    } else if ident == "internal"@ {
        Some(TypeArgKey::Internal)
    } else {
        None
    }
}

/// The keywords that name an argument here are exactly `name`, `desc`, `description`, `ctx`, `context`, `Context`, `scalar`, `Scalar`, `ScalarValue`, `for`, `implementers`, `impl`, `implements`, `enum`, `async`, `rename_all`, `internal`, each naming
/// the argument listed.
pub proof fn law_interface_keywords(ident: Seq<char>)
    ensures
        ident == "name"@ ==> interface_arg_key_spec(ident) == Some(TypeArgKey::Name),
        ident == "desc"@ ==> interface_arg_key_spec(ident) == Some(TypeArgKey::Description),
        ident == "description"@ ==> interface_arg_key_spec(ident) == Some(TypeArgKey::Description),
        ident == "ctx"@ ==> interface_arg_key_spec(ident) == Some(TypeArgKey::Context),
        ident == "context"@ ==> interface_arg_key_spec(ident) == Some(TypeArgKey::Context),
        ident == "Context"@ ==> interface_arg_key_spec(ident) == Some(TypeArgKey::Context),
        ident == "scalar"@ ==> interface_arg_key_spec(ident) == Some(TypeArgKey::Scalar),
        ident == "Scalar"@ ==> interface_arg_key_spec(ident) == Some(TypeArgKey::Scalar),
        ident == "ScalarValue"@ ==> interface_arg_key_spec(ident) == Some(TypeArgKey::Scalar),
        ident == "for"@ ==> interface_arg_key_spec(ident) == Some(TypeArgKey::For),
        ident == "implementers"@ ==> interface_arg_key_spec(ident) == Some(TypeArgKey::For),
        ident == "impl"@ ==> interface_arg_key_spec(ident) == Some(TypeArgKey::Implements),
        ident == "implements"@ ==> interface_arg_key_spec(ident) == Some(TypeArgKey::Implements),
        ident == "enum"@ ==> interface_arg_key_spec(ident) == Some(TypeArgKey::Enum),
        ident == "async"@ ==> interface_arg_key_spec(ident) == Some(TypeArgKey::Async),
        ident == "rename_all"@ ==> interface_arg_key_spec(ident) == Some(TypeArgKey::RenameAll),
        ident == "internal"@ ==> interface_arg_key_spec(ident) == Some(TypeArgKey::Internal),
        interface_arg_key_spec(ident) is Some ==> (ident == "name"@ || ident == "desc"@ || ident == "description"@ || ident == "ctx"@ || ident == "context"@ || ident == "Context"@ || ident == "scalar"@ || ident == "Scalar"@ || ident == "ScalarValue"@ || ident == "for"@ || ident == "implementers"@ || ident == "impl"@ || ident == "implements"@ || ident == "enum"@ || ident == "async"@ || ident == "rename_all"@ || ident == "internal"@),
{
    reveal_strlit("name");
    reveal_strlit("desc");
    reveal_strlit("description");
    reveal_strlit("ctx");
    reveal_strlit("context");
    reveal_strlit("Context");
    reveal_strlit("scalar");
    reveal_strlit("Scalar");
    reveal_strlit("ScalarValue");
    reveal_strlit("for");
    reveal_strlit("implementers");
    reveal_strlit("impl");
    reveal_strlit("implements");
    reveal_strlit("enum");
    reveal_strlit("async");
    reveal_strlit("rename_all");
    reveal_strlit("internal");
    assert("name"@[0] != "desc"@[0]);
    assert("name"@.len() != "description"@.len());
    assert("name"@.len() != "ctx"@.len());
    assert("name"@.len() != "context"@.len());
    assert("name"@.len() != "Context"@.len());
    assert("name"@.len() != "scalar"@.len());
    assert("name"@.len() != "Scalar"@.len());
    assert("name"@.len() != "ScalarValue"@.len());
    assert("name"@.len() != "for"@.len());
    assert("name"@.len() != "implementers"@.len());
    assert("name"@[0] != "impl"@[0]);
    assert("name"@.len() != "implements"@.len());
    assert("name"@[0] != "enum"@[0]);
    assert("name"@.len() != "async"@.len());
    assert("name"@.len() != "rename_all"@.len());
    assert("name"@.len() != "internal"@.len());
    assert("desc"@.len() != "description"@.len());
    assert("desc"@.len() != "ctx"@.len());
    assert("desc"@.len() != "context"@.len());
    assert("desc"@.len() != "Context"@.len());
    assert("desc"@.len() != "scalar"@.len());
    assert("desc"@.len() != "Scalar"@.len());
    assert("desc"@.len() != "ScalarValue"@.len());
    assert("desc"@.len() != "for"@.len());
    assert("desc"@.len() != "implementers"@.len());
    assert("desc"@[0] != "impl"@[0]);
    assert("desc"@.len() != "implements"@.len());
    assert("desc"@[0] != "enum"@[0]);
    assert("desc"@.len() != "async"@.len());
    assert("desc"@.len() != "rename_all"@.len());
    assert("desc"@.len() != "internal"@.len());
    assert("description"@.len() != "ctx"@.len());
    assert("description"@.len() != "context"@.len());
    assert("description"@.len() != "Context"@.len());
    assert("description"@.len() != "scalar"@.len());
    assert("description"@.len() != "Scalar"@.len());
    assert("description"@[0] != "ScalarValue"@[0]);
    assert("description"@.len() != "for"@.len());
    assert("description"@.len() != "implementers"@.len());
    assert("description"@.len() != "impl"@.len());
    assert("description"@.len() != "implements"@.len());
    assert("description"@.len() != "enum"@.len());
    assert("description"@.len() != "async"@.len());
    assert("description"@.len() != "rename_all"@.len());
    assert("description"@.len() != "internal"@.len());
    assert("ctx"@.len() != "context"@.len());
    assert("ctx"@.len() != "Context"@.len());
    assert("ctx"@.len() != "scalar"@.len());
    assert("ctx"@.len() != "Scalar"@.len());
    assert("ctx"@.len() != "ScalarValue"@.len());
    assert("ctx"@[0] != "for"@[0]);
    assert("ctx"@.len() != "implementers"@.len());
    assert("ctx"@.len() != "impl"@.len());
    assert("ctx"@.len() != "implements"@.len());
    assert("ctx"@.len() != "enum"@.len());
    assert("ctx"@.len() != "async"@.len());
    assert("ctx"@.len() != "rename_all"@.len());
    assert("ctx"@.len() != "internal"@.len());
    assert("context"@[0] != "Context"@[0]);
    assert("context"@.len() != "scalar"@.len());
    assert("context"@.len() != "Scalar"@.len());
    assert("context"@.len() != "ScalarValue"@.len());
    assert("context"@.len() != "for"@.len());
    assert("context"@.len() != "implementers"@.len());
    assert("context"@.len() != "impl"@.len());
    assert("context"@.len() != "implements"@.len());
    assert("context"@.len() != "enum"@.len());
    assert("context"@.len() != "async"@.len());
    assert("context"@.len() != "rename_all"@.len());
    assert("context"@.len() != "internal"@.len());
    assert("Context"@.len() != "scalar"@.len());
    assert("Context"@.len() != "Scalar"@.len());
    assert("Context"@.len() != "ScalarValue"@.len());
    assert("Context"@.len() != "for"@.len());
    assert("Context"@.len() != "implementers"@.len());
    assert("Context"@.len() != "impl"@.len());
    assert("Context"@.len() != "implements"@.len());
    assert("Context"@.len() != "enum"@.len());
    assert("Context"@.len() != "async"@.len());
    assert("Context"@.len() != "rename_all"@.len());
    assert("Context"@.len() != "internal"@.len());
    assert("scalar"@[0] != "Scalar"@[0]);
    assert("scalar"@.len() != "ScalarValue"@.len());
    assert("scalar"@.len() != "for"@.len());
    assert("scalar"@.len() != "implementers"@.len());
    assert("scalar"@.len() != "impl"@.len());
    assert("scalar"@.len() != "implements"@.len());
    assert("scalar"@.len() != "enum"@.len());
    assert("scalar"@.len() != "async"@.len());
    assert("scalar"@.len() != "rename_all"@.len());
    assert("scalar"@.len() != "internal"@.len());
    assert("Scalar"@.len() != "ScalarValue"@.len());
    assert("Scalar"@.len() != "for"@.len());
    assert("Scalar"@.len() != "implementers"@.len());
    assert("Scalar"@.len() != "impl"@.len());
    assert("Scalar"@.len() != "implements"@.len());
    assert("Scalar"@.len() != "enum"@.len());
    assert("Scalar"@.len() != "async"@.len());
    assert("Scalar"@.len() != "rename_all"@.len());
    assert("Scalar"@.len() != "internal"@.len());
    assert("ScalarValue"@.len() != "for"@.len());
    assert("ScalarValue"@.len() != "implementers"@.len());
    assert("ScalarValue"@.len() != "impl"@.len());
    assert("ScalarValue"@.len() != "implements"@.len());
    assert("ScalarValue"@.len() != "enum"@.len());
    assert("ScalarValue"@.len() != "async"@.len());
    assert("ScalarValue"@.len() != "rename_all"@.len());
    assert("ScalarValue"@.len() != "internal"@.len());
    assert("for"@.len() != "implementers"@.len());
    assert("for"@.len() != "impl"@.len());
    assert("for"@.len() != "implements"@.len());
    assert("for"@.len() != "enum"@.len());
    assert("for"@.len() != "async"@.len());
    assert("for"@.len() != "rename_all"@.len());
    assert("for"@.len() != "internal"@.len());
    assert("implementers"@.len() != "impl"@.len());
    assert("implementers"@.len() != "implements"@.len());
    assert("implementers"@.len() != "enum"@.len());
    assert("implementers"@.len() != "async"@.len());
    assert("implementers"@.len() != "rename_all"@.len());
    assert("implementers"@.len() != "internal"@.len());
    assert("impl"@.len() != "implements"@.len());
    assert("impl"@[0] != "enum"@[0]);
    assert("impl"@.len() != "async"@.len());
    assert("impl"@.len() != "rename_all"@.len());
    assert("impl"@.len() != "internal"@.len());
    assert("implements"@.len() != "enum"@.len());
    assert("implements"@.len() != "async"@.len());
    assert("implements"@[0] != "rename_all"@[0]);
    assert("implements"@.len() != "internal"@.len());
    assert("enum"@.len() != "async"@.len());
    assert("enum"@.len() != "rename_all"@.len());
    assert("enum"@.len() != "internal"@.len());
    assert("async"@.len() != "rename_all"@.len());
    assert("async"@.len() != "internal"@.len());
    assert("rename_all"@.len() != "internal"@.len());
}

/// The argument that `ident` names on an interface; `None` for an unknown
/// argument.
pub fn interface_arg_key(ident: &str) -> (res: Option<TypeArgKey>)
    ensures
        res == interface_arg_key_spec(ident@),
        ident@ == "name"@ ==> res == Some(TypeArgKey::Name),
        ident@ == "desc"@ ==> res == Some(TypeArgKey::Description),
        ident@ == "description"@ ==> res == Some(TypeArgKey::Description),
        ident@ == "ctx"@ ==> res == Some(TypeArgKey::Context),
        ident@ == "context"@ ==> res == Some(TypeArgKey::Context),
        ident@ == "Context"@ ==> res == Some(TypeArgKey::Context),
        ident@ == "scalar"@ ==> res == Some(TypeArgKey::Scalar),
        ident@ == "Scalar"@ ==> res == Some(TypeArgKey::Scalar),
        ident@ == "ScalarValue"@ ==> res == Some(TypeArgKey::Scalar),
        ident@ == "for"@ ==> res == Some(TypeArgKey::For),
        ident@ == "implementers"@ ==> res == Some(TypeArgKey::For),
        ident@ == "impl"@ ==> res == Some(TypeArgKey::Implements),
        ident@ == "implements"@ ==> res == Some(TypeArgKey::Implements),
        ident@ == "enum"@ ==> res == Some(TypeArgKey::Enum),
        ident@ == "async"@ ==> res == Some(TypeArgKey::Async),
        ident@ == "rename_all"@ ==> res == Some(TypeArgKey::RenameAll),
        ident@ == "internal"@ ==> res == Some(TypeArgKey::Internal),
        res is Some ==> (ident@ == "name"@ || ident@ == "desc"@ || ident@ == "description"@ || ident@ == "ctx"@ || ident@ == "context"@ || ident@ == "Context"@ || ident@ == "scalar"@ || ident@ == "Scalar"@ || ident@ == "ScalarValue"@ || ident@ == "for"@ || ident@ == "implementers"@ || ident@ == "impl"@ || ident@ == "implements"@ || ident@ == "enum"@ || ident@ == "async"@ || ident@ == "rename_all"@ || ident@ == "internal"@),
{
    proof {
        reveal_strlit("name");
        reveal_strlit("desc");
        reveal_strlit("description");
        reveal_strlit("ctx");
        reveal_strlit("context");
        reveal_strlit("Context");
        reveal_strlit("scalar");
        reveal_strlit("Scalar");
        reveal_strlit("ScalarValue");
        reveal_strlit("for");
        reveal_strlit("implementers");
        reveal_strlit("impl");
        reveal_strlit("implements");
        reveal_strlit("enum");
        reveal_strlit("async");
        reveal_strlit("rename_all");
        reveal_strlit("internal");
        assert("name"@[0] != "desc"@[0]);
        assert("name"@.len() != "description"@.len());
        assert("name"@.len() != "ctx"@.len());
        assert("name"@.len() != "context"@.len());
        assert("name"@.len() != "Context"@.len());
        assert("name"@.len() != "scalar"@.len());
        assert("name"@.len() != "Scalar"@.len());
        assert("name"@.len() != "ScalarValue"@.len());
        assert("name"@.len() != "for"@.len());
        assert("name"@.len() != "implementers"@.len());
        assert("name"@[0] != "impl"@[0]);
        assert("name"@.len() != "implements"@.len());
        assert("name"@[0] != "enum"@[0]);
        assert("name"@.len() != "async"@.len());
        assert("name"@.len() != "rename_all"@.len());
        assert("name"@.len() != "internal"@.len());
        assert("desc"@.len() != "description"@.len());
        assert("desc"@.len() != "ctx"@.len());
        assert("desc"@.len() != "context"@.len());
        assert("desc"@.len() != "Context"@.len());
        assert("desc"@.len() != "scalar"@.len());
        assert("desc"@.len() != "Scalar"@.len());
        assert("desc"@.len() != "ScalarValue"@.len());
        assert("desc"@.len() != "for"@.len());
        assert("desc"@.len() != "implementers"@.len());
        assert("desc"@[0] != "impl"@[0]);
        assert("desc"@.len() != "implements"@.len());
        assert("desc"@[0] != "enum"@[0]);
        assert("desc"@.len() != "async"@.len());
        assert("desc"@.len() != "rename_all"@.len());
        assert("desc"@.len() != "internal"@.len());
        assert("description"@.len() != "ctx"@.len());
        assert("description"@.len() != "context"@.len());
        assert("description"@.len() != "Context"@.len());
        assert("description"@.len() != "scalar"@.len());
        assert("description"@.len() != "Scalar"@.len());
        assert("description"@[0] != "ScalarValue"@[0]);
        assert("description"@.len() != "for"@.len());
        assert("description"@.len() != "implementers"@.len());
        assert("description"@.len() != "impl"@.len());
        assert("description"@.len() != "implements"@.len());
        assert("description"@.len() != "enum"@.len());
        assert("description"@.len() != "async"@.len());
        assert("description"@.len() != "rename_all"@.len());
        assert("description"@.len() != "internal"@.len());
        assert("ctx"@.len() != "context"@.len());
        assert("ctx"@.len() != "Context"@.len());
        assert("ctx"@.len() != "scalar"@.len());
        assert("ctx"@.len() != "Scalar"@.len());
        assert("ctx"@.len() != "ScalarValue"@.len());
        assert("ctx"@[0] != "for"@[0]);
        assert("ctx"@.len() != "implementers"@.len());
        assert("ctx"@.len() != "impl"@.len());
        assert("ctx"@.len() != "implements"@.len());
        assert("ctx"@.len() != "enum"@.len());
        assert("ctx"@.len() != "async"@.len());
        assert("ctx"@.len() != "rename_all"@.len());
        assert("ctx"@.len() != "internal"@.len());
        assert("context"@[0] != "Context"@[0]);
        assert("context"@.len() != "scalar"@.len());
        assert("context"@.len() != "Scalar"@.len());
        assert("context"@.len() != "ScalarValue"@.len());
        assert("context"@.len() != "for"@.len());
        assert("context"@.len() != "implementers"@.len());
        assert("context"@.len() != "impl"@.len());
        assert("context"@.len() != "implements"@.len());
        assert("context"@.len() != "enum"@.len());
        assert("context"@.len() != "async"@.len());
        assert("context"@.len() != "rename_all"@.len());
        assert("context"@.len() != "internal"@.len());
        assert("Context"@.len() != "scalar"@.len());
        assert("Context"@.len() != "Scalar"@.len());
        assert("Context"@.len() != "ScalarValue"@.len());
        assert("Context"@.len() != "for"@.len());
        assert("Context"@.len() != "implementers"@.len());
        assert("Context"@.len() != "impl"@.len());
        assert("Context"@.len() != "implements"@.len());
        assert("Context"@.len() != "enum"@.len());
        assert("Context"@.len() != "async"@.len());
        assert("Context"@.len() != "rename_all"@.len());
        assert("Context"@.len() != "internal"@.len());
        assert("scalar"@[0] != "Scalar"@[0]);
        assert("scalar"@.len() != "ScalarValue"@.len());
        assert("scalar"@.len() != "for"@.len());
        assert("scalar"@.len() != "implementers"@.len());
        assert("scalar"@.len() != "impl"@.len());
        assert("scalar"@.len() != "implements"@.len());
        assert("scalar"@.len() != "enum"@.len());
        assert("scalar"@.len() != "async"@.len());
        assert("scalar"@.len() != "rename_all"@.len());
        assert("scalar"@.len() != "internal"@.len());
        assert("Scalar"@.len() != "ScalarValue"@.len());
        assert("Scalar"@.len() != "for"@.len());
        assert("Scalar"@.len() != "implementers"@.len());
        assert("Scalar"@.len() != "impl"@.len());
        assert("Scalar"@.len() != "implements"@.len());
        assert("Scalar"@.len() != "enum"@.len());
        assert("Scalar"@.len() != "async"@.len());
        assert("Scalar"@.len() != "rename_all"@.len());
        assert("Scalar"@.len() != "internal"@.len());
        assert("ScalarValue"@.len() != "for"@.len());
        assert("ScalarValue"@.len() != "implementers"@.len());
        assert("ScalarValue"@.len() != "impl"@.len());
        assert("ScalarValue"@.len() != "implements"@.len());
        assert("ScalarValue"@.len() != "enum"@.len());
        assert("ScalarValue"@.len() != "async"@.len());
        assert("ScalarValue"@.len() != "rename_all"@.len());
        assert("ScalarValue"@.len() != "internal"@.len());
        assert("for"@.len() != "implementers"@.len());
        assert("for"@.len() != "impl"@.len());
        assert("for"@.len() != "implements"@.len());
        assert("for"@.len() != "enum"@.len());
        assert("for"@.len() != "async"@.len());
        assert("for"@.len() != "rename_all"@.len());
        assert("for"@.len() != "internal"@.len());
        assert("implementers"@.len() != "impl"@.len());
        assert("implementers"@.len() != "implements"@.len());
        assert("implementers"@.len() != "enum"@.len());
        assert("implementers"@.len() != "async"@.len());
        assert("implementers"@.len() != "rename_all"@.len());
        assert("implementers"@.len() != "internal"@.len());
        assert("impl"@.len() != "implements"@.len());
        assert("impl"@[0] != "enum"@[0]);
        assert("impl"@.len() != "async"@.len());
        assert("impl"@.len() != "rename_all"@.len());
        assert("impl"@.len() != "internal"@.len());
        assert("implements"@.len() != "enum"@.len());
        assert("implements"@.len() != "async"@.len());
        assert("implements"@[0] != "rename_all"@[0]);
        assert("implements"@.len() != "internal"@.len());
        assert("enum"@.len() != "async"@.len());
        assert("enum"@.len() != "rename_all"@.len());
        assert("enum"@.len() != "internal"@.len());
        assert("async"@.len() != "rename_all"@.len());
        assert("async"@.len() != "internal"@.len());
        assert("rename_all"@.len() != "internal"@.len());
    }
    if text_is(ident, "name") {
        Some(TypeArgKey::Name)
    } else if text_is(ident, "desc") || text_is(ident, "description") {
        Some(TypeArgKey::Description)
    } else if text_is(ident, "ctx") || text_is(ident, "context") || text_is(ident, "Context") {
        Some(TypeArgKey::Context)
    } else if text_is(ident, "scalar") || text_is(ident, "Scalar") || text_is(ident, "ScalarValue") {
        Some(TypeArgKey::Scalar)
    } else if text_is(ident, "for") || text_is(ident, "implementers") {
        Some(TypeArgKey::For)
    } else if text_is(ident, "impl") || text_is(ident, "implements") {
        Some(TypeArgKey::Implements)
    } else if text_is(ident, "enum") {
        Some(TypeArgKey::Enum)
    } else if text_is(ident, "async") {
        Some(TypeArgKey::Async)
    } else if text_is(ident, "rename_all") {
        Some(TypeArgKey::RenameAll)
    } else if text_is(ident, "internal") {
        Some(TypeArgKey::Internal)
    } else {
        None
    }
}

/// The argument that `ident` names on an object, if any.
pub open spec fn object_arg_key_spec(ident: Seq<char>) -> Option<TypeArgKey> {
    if ident == "name"@ {
        Some(TypeArgKey::Name)
    } else if ident == "desc"@ || ident == "description"@ {
        Some(TypeArgKey::Description)
    } else if ident == "ctx"@ || ident == "context"@ || ident == "Context"@ {
        Some(TypeArgKey::Context)
    } else if ident == "scalar"@ || ident == "Scalar"@ || ident == "ScalarValue"@ {
        Some(TypeArgKey::Scalar)
    } else if ident == "impl"@ || ident == "implements"@ || ident == "interfaces"@ {
        Some(TypeArgKey::Implements)
    } else if ident == "rename_all"@ {
        Some(TypeArgKey::RenameAll)
    } else if ident == "internal"@ {
        Some(TypeArgKey::Internal)
    } else {
        None
    }
}

/// The keywords that name an argument here are exactly `name`, `desc`, `description`, `ctx`, `context`, `Context`, `scalar`, `Scalar`, `ScalarValue`, `impl`, `implements`, `interfaces`, `rename_all`, `internal`, each naming
/// the argument listed.
pub proof fn law_object_keywords(ident: Seq<char>)
    ensures
        ident == "name"@ ==> object_arg_key_spec(ident) == Some(TypeArgKey::Name),
        ident == "desc"@ ==> object_arg_key_spec(ident) == Some(TypeArgKey::Description),
        ident == "description"@ ==> object_arg_key_spec(ident) == Some(TypeArgKey::Description),
        ident == "ctx"@ ==> object_arg_key_spec(ident) == Some(TypeArgKey::Context),
        ident == "context"@ ==> object_arg_key_spec(ident) == Some(TypeArgKey::Context),
        ident == "Context"@ ==> object_arg_key_spec(ident) == Some(TypeArgKey::Context),
        ident == "scalar"@ ==> object_arg_key_spec(ident) == Some(TypeArgKey::Scalar),
        ident == "Scalar"@ ==> object_arg_key_spec(ident) == Some(TypeArgKey::Scalar),
        ident == "ScalarValue"@ ==> object_arg_key_spec(ident) == Some(TypeArgKey::Scalar),
        ident == "impl"@ ==> object_arg_key_spec(ident) == Some(TypeArgKey::Implements),
        ident == "implements"@ ==> object_arg_key_spec(ident) == Some(TypeArgKey::Implements),
        ident == "interfaces"@ ==> object_arg_key_spec(ident) == Some(TypeArgKey::Implements),
        ident == "rename_all"@ ==> object_arg_key_spec(ident) == Some(TypeArgKey::RenameAll),
        ident == "internal"@ ==> object_arg_key_spec(ident) == Some(TypeArgKey::Internal),
        object_arg_key_spec(ident) is Some ==> (ident == "name"@ || ident == "desc"@ || ident == "description"@ || ident == "ctx"@ || ident == "context"@ || ident == "Context"@ || ident == "scalar"@ || ident == "Scalar"@ || ident == "ScalarValue"@ || ident == "impl"@ || ident == "implements"@ || ident == "interfaces"@ || ident == "rename_all"@ || ident == "internal"@),
{
    reveal_strlit("name");
    reveal_strlit("desc");
    reveal_strlit("description");
    reveal_strlit("ctx");
    reveal_strlit("context");
    reveal_strlit("Context");
    reveal_strlit("scalar");
    reveal_strlit("Scalar");
    reveal_strlit("ScalarValue");
    reveal_strlit("impl");
    reveal_strlit("implements");
    reveal_strlit("interfaces");
    reveal_strlit("rename_all");
    reveal_strlit("internal");
    assert("name"@[0] != "desc"@[0]);
    assert("name"@.len() != "description"@.len());
    assert("name"@.len() != "ctx"@.len());
    assert("name"@.len() != "context"@.len());
    assert("name"@.len() != "Context"@.len());
    assert("name"@.len() != "scalar"@.len());
    assert("name"@.len() != "Scalar"@.len());
    assert("name"@.len() != "ScalarValue"@.len());
    assert("name"@[0] != "impl"@[0]);
    assert("name"@.len() != "implements"@.len());
    assert("name"@.len() != "interfaces"@.len());
    assert("name"@.len() != "rename_all"@.len());
    assert("name"@.len() != "internal"@.len());
    assert("desc"@.len() != "description"@.len());
    assert("desc"@.len() != "ctx"@.len());
    assert("desc"@.len() != "context"@.len());
    assert("desc"@.len() != "Context"@.len());
    assert("desc"@.len() != "scalar"@.len());
    assert("desc"@.len() != "Scalar"@.len());
    assert("desc"@.len() != "ScalarValue"@.len());
    assert("desc"@[0] != "impl"@[0]);
    assert("desc"@.len() != "implements"@.len());
    assert("desc"@.len() != "interfaces"@.len());
    assert("desc"@.len() != "rename_all"@.len());
    assert("desc"@.len() != "internal"@.len());
    assert("description"@.len() != "ctx"@.len());
    assert("description"@.len() != "context"@.len());
    assert("description"@.len() != "Context"@.len());
    assert("description"@.len() != "scalar"@.len());
    assert("description"@.len() != "Scalar"@.len());
    assert("description"@[0] != "ScalarValue"@[0]);
    assert("description"@.len() != "impl"@.len());
    assert("description"@.len() != "implements"@.len());
    assert("description"@.len() != "interfaces"@.len());
    assert("description"@.len() != "rename_all"@.len());
    assert("description"@.len() != "internal"@.len());
    assert("ctx"@.len() != "context"@.len());
    assert("ctx"@.len() != "Context"@.len());
    assert("ctx"@.len() != "scalar"@.len());
    assert("ctx"@.len() != "Scalar"@.len());
    assert("ctx"@.len() != "ScalarValue"@.len());
    assert("ctx"@.len() != "impl"@.len());
    assert("ctx"@.len() != "implements"@.len());
    assert("ctx"@.len() != "interfaces"@.len());
    assert("ctx"@.len() != "rename_all"@.len());
    assert("ctx"@.len() != "internal"@.len());
    assert("context"@[0] != "Context"@[0]);
    assert("context"@.len() != "scalar"@.len());
    assert("context"@.len() != "Scalar"@.len());
    assert("context"@.len() != "ScalarValue"@.len());
    assert("context"@.len() != "impl"@.len());
    assert("context"@.len() != "implements"@.len());
    assert("context"@.len() != "interfaces"@.len());
    assert("context"@.len() != "rename_all"@.len());
    assert("context"@.len() != "internal"@.len());
    assert("Context"@.len() != "scalar"@.len());
    assert("Context"@.len() != "Scalar"@.len());
    assert("Context"@.len() != "ScalarValue"@.len());
    assert("Context"@.len() != "impl"@.len());
    assert("Context"@.len() != "implements"@.len());
    assert("Context"@.len() != "interfaces"@.len());
    assert("Context"@.len() != "rename_all"@.len());
    assert("Context"@.len() != "internal"@.len());
    assert("scalar"@[0] != "Scalar"@[0]);
    assert("scalar"@.len() != "ScalarValue"@.len());
    assert("scalar"@.len() != "impl"@.len());
    assert("scalar"@.len() != "implements"@.len());
    assert("scalar"@.len() != "interfaces"@.len());
    assert("scalar"@.len() != "rename_all"@.len());
    assert("scalar"@.len() != "internal"@.len());
    assert("Scalar"@.len() != "ScalarValue"@.len());
    assert("Scalar"@.len() != "impl"@.len());
    assert("Scalar"@.len() != "implements"@.len());
    assert("Scalar"@.len() != "interfaces"@.len());
    assert("Scalar"@.len() != "rename_all"@.len());
    assert("Scalar"@.len() != "internal"@.len());
    assert("ScalarValue"@.len() != "impl"@.len());
    assert("ScalarValue"@.len() != "implements"@.len());
    assert("ScalarValue"@.len() != "interfaces"@.len());
    assert("ScalarValue"@.len() != "rename_all"@.len());
    assert("ScalarValue"@.len() != "internal"@.len());
    assert("impl"@.len() != "implements"@.len());
    assert("impl"@.len() != "interfaces"@.len());
    assert("impl"@.len() != "rename_all"@.len());
    assert("impl"@.len() != "internal"@.len());
    assert("implements"@[1] != "interfaces"@[1]);
    assert("implements"@[0] != "rename_all"@[0]);
    assert("implements"@.len() != "internal"@.len());
    assert("interfaces"@[0] != "rename_all"@[0]);
    assert("interfaces"@.len() != "internal"@.len());
    assert("rename_all"@.len() != "internal"@.len());
}

/// The argument that `ident` names on an object; `None` for an unknown
/// argument.
pub fn object_arg_key(ident: &str) -> (res: Option<TypeArgKey>)
    ensures
        res == object_arg_key_spec(ident@),
        ident@ == "name"@ ==> res == Some(TypeArgKey::Name),
        ident@ == "desc"@ ==> res == Some(TypeArgKey::Description),
        ident@ == "description"@ ==> res == Some(TypeArgKey::Description),
        ident@ == "ctx"@ ==> res == Some(TypeArgKey::Context),
        ident@ == "context"@ ==> res == Some(TypeArgKey::Context),
        ident@ == "Context"@ ==> res == Some(TypeArgKey::Context),
        ident@ == "scalar"@ ==> res == Some(TypeArgKey::Scalar),
        ident@ == "Scalar"@ ==> res == Some(TypeArgKey::Scalar),
        ident@ == "ScalarValue"@ ==> res == Some(TypeArgKey::Scalar),
        ident@ == "impl"@ ==> res == Some(TypeArgKey::Implements),
        ident@ == "implements"@ ==> res == Some(TypeArgKey::Implements),
        ident@ == "interfaces"@ ==> res == Some(TypeArgKey::Implements),
        ident@ == "rename_all"@ ==> res == Some(TypeArgKey::RenameAll),
        ident@ == "internal"@ ==> res == Some(TypeArgKey::Internal),
        res is Some ==> (ident@ == "name"@ || ident@ == "desc"@ || ident@ == "description"@ || ident@ == "ctx"@ || ident@ == "context"@ || ident@ == "Context"@ || ident@ == "scalar"@ || ident@ == "Scalar"@ || ident@ == "ScalarValue"@ || ident@ == "impl"@ || ident@ == "implements"@ || ident@ == "interfaces"@ || ident@ == "rename_all"@ || ident@ == "internal"@),
{
    proof {
        reveal_strlit("name");
        reveal_strlit("desc");
        reveal_strlit("description");
        reveal_strlit("ctx");
        reveal_strlit("context");
        reveal_strlit("Context");
        reveal_strlit("scalar");
        reveal_strlit("Scalar");
        reveal_strlit("ScalarValue");
        reveal_strlit("impl");
        reveal_strlit("implements");
        reveal_strlit("interfaces");
        reveal_strlit("rename_all");
        reveal_strlit("internal");
        assert("name"@[0] != "desc"@[0]);
        assert("name"@.len() != "description"@.len());
        assert("name"@.len() != "ctx"@.len());
        assert("name"@.len() != "context"@.len());
        assert("name"@.len() != "Context"@.len());
        assert("name"@.len() != "scalar"@.len());
        assert("name"@.len() != "Scalar"@.len());
        assert("name"@.len() != "ScalarValue"@.len());
        assert("name"@[0] != "impl"@[0]);
        assert("name"@.len() != "implements"@.len());
        assert("name"@.len() != "interfaces"@.len());
        assert("name"@.len() != "rename_all"@.len());
        assert("name"@.len() != "internal"@.len());
        assert("desc"@.len() != "description"@.len());
        assert("desc"@.len() != "ctx"@.len());
        assert("desc"@.len() != "context"@.len());
        assert("desc"@.len() != "Context"@.len());
        assert("desc"@.len() != "scalar"@.len());
        assert("desc"@.len() != "Scalar"@.len());
        assert("desc"@.len() != "ScalarValue"@.len());
        assert("desc"@[0] != "impl"@[0]);
        assert("desc"@.len() != "implements"@.len());
        assert("desc"@.len() != "interfaces"@.len());
        assert("desc"@.len() != "rename_all"@.len());
        assert("desc"@.len() != "internal"@.len());
        assert("description"@.len() != "ctx"@.len());
        assert("description"@.len() != "context"@.len());
        assert("description"@.len() != "Context"@.len());
        assert("description"@.len() != "scalar"@.len());
        assert("description"@.len() != "Scalar"@.len());
        assert("description"@[0] != "ScalarValue"@[0]);
        assert("description"@.len() != "impl"@.len());
        assert("description"@.len() != "implements"@.len());
        assert("description"@.len() != "interfaces"@.len());
        assert("description"@.len() != "rename_all"@.len());
        assert("description"@.len() != "internal"@.len());
        assert("ctx"@.len() != "context"@.len());
        assert("ctx"@.len() != "Context"@.len());
        assert("ctx"@.len() != "scalar"@.len());
        assert("ctx"@.len() != "Scalar"@.len());
        assert("ctx"@.len() != "ScalarValue"@.len());
        assert("ctx"@.len() != "impl"@.len());
        assert("ctx"@.len() != "implements"@.len());
        assert("ctx"@.len() != "interfaces"@.len());
        assert("ctx"@.len() != "rename_all"@.len());
        assert("ctx"@.len() != "internal"@.len());
        assert("context"@[0] != "Context"@[0]);
        assert("context"@.len() != "scalar"@.len());
        assert("context"@.len() != "Scalar"@.len());
        assert("context"@.len() != "ScalarValue"@.len());
        assert("context"@.len() != "impl"@.len());
        assert("context"@.len() != "implements"@.len());
        assert("context"@.len() != "interfaces"@.len());
        assert("context"@.len() != "rename_all"@.len());
        assert("context"@.len() != "internal"@.len());
        assert("Context"@.len() != "scalar"@.len());
        assert("Context"@.len() != "Scalar"@.len());
        assert("Context"@.len() != "ScalarValue"@.len());
        assert("Context"@.len() != "impl"@.len());
        assert("Context"@.len() != "implements"@.len());
        assert("Context"@.len() != "interfaces"@.len());
        assert("Context"@.len() != "rename_all"@.len());
        assert("Context"@.len() != "internal"@.len());
        assert("scalar"@[0] != "Scalar"@[0]);
        assert("scalar"@.len() != "ScalarValue"@.len());
        assert("scalar"@.len() != "impl"@.len());
        assert("scalar"@.len() != "implements"@.len());
        assert("scalar"@.len() != "interfaces"@.len());
        assert("scalar"@.len() != "rename_all"@.len());
        assert("scalar"@.len() != "internal"@.len());
        assert("Scalar"@.len() != "ScalarValue"@.len());
        assert("Scalar"@.len() != "impl"@.len());
        assert("Scalar"@.len() != "implements"@.len());
        assert("Scalar"@.len() != "interfaces"@.len());
        assert("Scalar"@.len() != "rename_all"@.len());
        assert("Scalar"@.len() != "internal"@.len());
        assert("ScalarValue"@.len() != "impl"@.len());
        assert("ScalarValue"@.len() != "implements"@.len());
        assert("ScalarValue"@.len() != "interfaces"@.len());
        assert("ScalarValue"@.len() != "rename_all"@.len());
        assert("ScalarValue"@.len() != "internal"@.len());
        assert("impl"@.len() != "implements"@.len());
        assert("impl"@.len() != "interfaces"@.len());
        assert("impl"@.len() != "rename_all"@.len());
        assert("impl"@.len() != "internal"@.len());
        assert("implements"@[1] != "interfaces"@[1]);
        assert("implements"@[0] != "rename_all"@[0]);
        assert("implements"@.len() != "internal"@.len());
        assert("interfaces"@[0] != "rename_all"@[0]);
        assert("interfaces"@.len() != "internal"@.len());
        assert("rename_all"@.len() != "internal"@.len());
    }
    if text_is(ident, "name") {
        Some(TypeArgKey::Name)
    } else if text_is(ident, "desc") || text_is(ident, "description") {
        Some(TypeArgKey::Description)
    } else if text_is(ident, "ctx") || text_is(ident, "context") || text_is(ident, "Context") {
        Some(TypeArgKey::Context)
    } else if text_is(ident, "scalar") || text_is(ident, "Scalar") || text_is(ident, "ScalarValue") {
        Some(TypeArgKey::Scalar)
    } else if text_is(ident, "impl") || text_is(ident, "implements") || text_is(ident, "interfaces") {
        Some(TypeArgKey::Implements)
    } else if text_is(ident, "rename_all") {
        Some(TypeArgKey::RenameAll)
    } else if text_is(ident, "internal") {
        Some(TypeArgKey::Internal)
    } else {
        None
    }
}

/// A Rust type given in an argument, known by `key`: two types with the
/// same key are the same type.
pub struct TypeRef<T> {
    pub key: u64,
    pub ty: T,
}

/// Whether one of `ts` is the type `k`.
pub open spec fn has_type<T>(ts: Seq<TypeRef<T>>, k: u64) -> bool {
    exists|i: int| 0 <= i < ts.len() && #[trigger] ts[i].key == k
}

/// One argument of these attributes, with its value; `T` stands for the
/// Rust types that some arguments carry. `for` and `impl` with several
/// types count as one argument per type.
pub enum TypeArg<T> {
    Name(String),
    Description(String),
    Context(T),
    Scalar(T),
    For(TypeRef<T>),
    Implements(TypeRef<T>),
    Enum(String),
    Async,
    RenameAll(Policy),
    Internal,
}

/// The arguments given by these attributes on a trait, struct or `impl`
/// block.
pub struct TypeAttr<T> {
    pub name: Option<String>,
    pub description: Option<String>,
    pub context: Option<T>,
    pub scalar: Option<T>,
    /// The implementers of an interface, each a different type.
    pub implemented_for: Vec<TypeRef<T>>,
    /// The interfaces implemented, each a different type.
    pub implements: Vec<TypeRef<T>>,
    /// The alias of the enum behind an interface.
    pub alias: Option<String>,
    pub asyncness: bool,
    pub rename_fields: Option<Policy>,
    pub is_internal: bool,
}

/// The view of these arguments: `Vec`s as sequences.
pub struct TypeAttrView<T> {
    pub name: Option<String>,
    pub description: Option<String>,
    pub context: Option<T>,
    pub scalar: Option<T>,
    pub implemented_for: Seq<TypeRef<T>>,
    pub implements: Seq<TypeRef<T>>,
    pub alias: Option<String>,
    pub asyncness: bool,
    pub rename_fields: Option<Policy>,
    pub is_internal: bool,
}

impl<T> TypeAttr<T> {
    pub open spec fn view(&self) -> TypeAttrView<T> {
        TypeAttrView {
            name: self.name,
            description: self.description,
            context: self.context,
            scalar: self.scalar,
            implemented_for: self.implemented_for@,
            implements: self.implements@,
            alias: self.alias,
            asyncness: self.asyncness,
            rename_fields: self.rename_fields,
            is_internal: self.is_internal,
        }
    }
}

/// No argument given.
pub open spec fn type_empty<T>() -> TypeAttrView<T> {
    TypeAttrView {
        name: None,
        description: None,
        context: None,
        scalar: None,
        implemented_for: Seq::empty(),
        implements: Seq::empty(),
        alias: None,
        asyncness: false,
        rename_fields: None,
        is_internal: false,
    }
}

/// Whether giving `x` in `a` gives an argument a second time: a type in
/// `for` or `impl` is given twice when it is already there; `internal` may
/// be repeated.
pub open spec fn type_dup<T>(a: TypeAttrView<T>, x: TypeArg<T>) -> bool {
    match x {
        TypeArg::Name(_) => a.name is Some,
        TypeArg::Description(_) => a.description is Some,
        TypeArg::Context(_) => a.context is Some,
        TypeArg::Scalar(_) => a.scalar is Some,
        TypeArg::For(t) => has_type(a.implemented_for, t.key),
        TypeArg::Implements(t) => has_type(a.implements, t.key),
        TypeArg::Enum(_) => a.alias is Some,
        TypeArg::Async => a.asyncness,
        TypeArg::RenameAll(_) => a.rename_fields is Some,
        TypeArg::Internal => false,
    }
}

/// `a` with the argument `x` given.
pub open spec fn type_with<T>(a: TypeAttrView<T>, x: TypeArg<T>) -> TypeAttrView<T> {
    match x {
        TypeArg::Name(s) => TypeAttrView { name: Some(s), ..a },
        TypeArg::Description(s) => TypeAttrView { description: Some(s), ..a },
        TypeArg::Context(t) => TypeAttrView { context: Some(t), ..a },
        TypeArg::Scalar(t) => TypeAttrView { scalar: Some(t), ..a },
        TypeArg::For(t) => TypeAttrView { implemented_for: a.implemented_for.push(t), ..a },
        TypeArg::Implements(t) => TypeAttrView { implements: a.implements.push(t), ..a },
        TypeArg::Enum(s) => TypeAttrView { alias: Some(s), ..a },
        TypeArg::Async => TypeAttrView { asyncness: true, ..a },
        TypeArg::RenameAll(p) => TypeAttrView { rename_fields: Some(p), ..a },
        TypeArg::Internal => TypeAttrView { is_internal: true, ..a },
    }
}

/// The arguments of one attribute, read in order: each is recorded, and the
/// first one given a second time is refused, by its position.
pub open spec fn type_parse_spec<T>(args: Seq<TypeArg<T>>) -> Result<TypeAttrView<T>, int>
    decreases args.len(),
{
    if args.len() == 0 {
        Ok(type_empty::<T>())
    } else {
        match type_parse_spec(args.drop_last()) {
            Err(i) => Err(i),
            Ok(a) => if type_dup(a, args.last()) {
                Err(args.len() - 1)
            } else {
                Ok(type_with(a, args.last()))
            },
        }
    }
}

proof fn lemma_type_parse_error_stays<T>(args: Seq<TypeArg<T>>, k: int)
    requires
        0 <= k <= args.len(),
        type_parse_spec(args.take(k)) is Err,
    ensures
        type_parse_spec(args) == type_parse_spec(args.take(k)),
    decreases args.len() - k,
{
    if k < args.len() {
        assert(args.take(k + 1).drop_last() =~= args.take(k));
        lemma_type_parse_error_stays(args, k + 1);
    } else {
        assert(args.take(k) =~= args);
    }
}

/// Whether one of `ts` is the type `k`.
fn contains_type<T>(ts: &Vec<TypeRef<T>>, k: u64) -> (res: bool)
    ensures
        res == has_type(ts@, k),
{
    let mut i: usize = 0;
    while i < ts.len()
        invariant
            i <= ts@.len(),
            forall|j: int| 0 <= j < i ==> #[trigger] ts@[j].key != k,
        decreases ts@.len() - i,
    {
        if ts[i].key == k {
            return true;
        }
        i += 1;
    }
    false
}

/// Why merging the arguments of two attributes is refused.
#[derive(Clone, Copy, Debug, PartialEq, Eq, Structural)]
pub enum TypeMergeError {
    /// This argument is given by both.
    Both(TypeArgKey),
    /// The type at this position of the first attribute's `for` is in the
    /// second's too.
    SharedImplementer(usize),
    /// The type at this position of the first attribute's `impl` is in the
    /// second's too.
    SharedInterface(usize),
}

/// The position of the first of `a` that is in `b` too, if any.
pub open spec fn first_shared<T>(a: Seq<TypeRef<T>>, b: Seq<TypeRef<T>>) -> Option<int>
    decreases a.len(),
{
    if a.len() == 0 {
        None
    } else {
        match first_shared(a.drop_last(), b) {
            Some(i) => Some(i),
            None => if has_type(b, a.last().key) {
                Some(a.len() - 1)
            } else {
                None
            },
        }
    }
}

/// Why merging `a` and `b` is refused, if it is: the first argument (in
/// declaration order) that both give.
pub open spec fn type_merge_error<T>(a: TypeAttrView<T>, b: TypeAttrView<T>) -> Option<TypeMergeError> {
    if a.name is Some && b.name is Some {
        Some(TypeMergeError::Both(TypeArgKey::Name))
    } else if a.description is Some && b.description is Some {
        Some(TypeMergeError::Both(TypeArgKey::Description))
    } else if a.context is Some && b.context is Some {
        Some(TypeMergeError::Both(TypeArgKey::Context))
    } else if a.scalar is Some && b.scalar is Some {
        Some(TypeMergeError::Both(TypeArgKey::Scalar))
    } else if first_shared(a.implemented_for, b.implemented_for) is Some {
        Some(TypeMergeError::SharedImplementer(first_shared(a.implemented_for, b.implemented_for)->0 as usize))
    } else if first_shared(a.implements, b.implements) is Some {
        Some(TypeMergeError::SharedInterface(first_shared(a.implements, b.implements)->0 as usize))
    } else if a.alias is Some && b.alias is Some {
        Some(TypeMergeError::Both(TypeArgKey::Enum))
    } else if a.asyncness && b.asyncness {
        Some(TypeMergeError::Both(TypeArgKey::Async))
    } else if a.rename_fields is Some && b.rename_fields is Some {
        Some(TypeMergeError::Both(TypeArgKey::RenameAll))
    } else {
        None
    }
}

/// The arguments of `a` and `b` together, when no argument is in both.
pub open spec fn type_merge_spec<T>(a: TypeAttrView<T>, b: TypeAttrView<T>) -> TypeAttrView<T> {
    TypeAttrView {
        name: merge_opt(a.name, b.name)->0,
        description: merge_opt(a.description, b.description)->0,
        context: merge_opt(a.context, b.context)->0,
        scalar: merge_opt(a.scalar, b.scalar)->0,
        implemented_for: a.implemented_for + b.implemented_for,
        implements: a.implements + b.implements,
        alias: merge_opt(a.alias, b.alias)->0,
        asyncness: a.asyncness || b.asyncness,
        rename_fields: merge_opt(a.rename_fields, b.rename_fields)->0,
        is_internal: a.is_internal || b.is_internal,
    }
}

/// The position of the first of `a` that is in `b` too, if any.
fn find_shared<T>(a: &Vec<TypeRef<T>>, b: &Vec<TypeRef<T>>) -> (res: Option<usize>)
    ensures
        match first_shared(a@, b@) {
            Some(i) => res == Some(i as usize),
            None => res is None,
        },
{
    let mut i: usize = 0;
    while i < a.len()
        invariant
            i <= a@.len(),
            first_shared(a@.take(i as int), b@) is None,
        decreases a@.len() - i,
    {
        assert(a@.take(i + 1).drop_last() =~= a@.take(i as int));
        if contains_type(b, a[i].key) {
            proof {
                lemma_first_shared_stays(a@, b@, i + 1);
            }
            return Some(i);
        }
        i += 1;
    }
    assert(a@.take(i as int) =~= a@);
    None
}

proof fn lemma_first_shared_stays<T>(a: Seq<TypeRef<T>>, b: Seq<TypeRef<T>>, k: int)
    requires
        0 <= k <= a.len(),
        first_shared(a.take(k), b) is Some,
    ensures
        first_shared(a, b) == first_shared(a.take(k), b),
    decreases a.len() - k,
{
    if k < a.len() {
        assert(a.take(k + 1).drop_last() =~= a.take(k));
        lemma_first_shared_stays(a, b, k + 1);
    } else {
        assert(a.take(k) =~= a);
    }
}

impl<T> TypeAttr<T> {
    /// An attribute with no argument.
    pub fn new() -> (res: Self)
        ensures
            res.view() == type_empty::<T>(),
    {
        TypeAttr {
            name: None,
            description: None,
            context: None,
            scalar: None,
            implemented_for: Vec::new(),
            implements: Vec::new(),
            alias: None,
            asyncness: false,
            rename_fields: None,
            is_internal: false,
        }
    }

    /// Records the argument `x`, at position `i` of its attribute, after
    /// those already recorded; refused, by its position, where it is given a
    /// second time: the step by which the arguments of one attribute are
    /// read.
    pub fn add(self, x: TypeArg<T>, i: usize) -> (res: Result<Self, usize>)
        ensures
            forall|before: Seq<TypeArg<T>>|
                before.len() == i && type_parse_spec(before) == Ok::<TypeAttrView<T>, int>(self.view()) ==> match #[trigger] type_parse_spec(
                    before.push(x),
                ) {
                    Ok(a) => res matches Ok(r) && r.view() == a,
                    Err(j) => res matches Err(e) && e == j,
                },
    {
        let mut out = self;
        proof {
            assert forall|before: Seq<TypeArg<T>>| before.len() == i implies #[trigger] before.push(x).drop_last() == before by {
                assert(before.push(x).drop_last() =~= before);
            }
        }
        let dup = match &x {
            TypeArg::Name(_) => out.name.is_some(),
            TypeArg::Description(_) => out.description.is_some(),
            TypeArg::Context(_) => out.context.is_some(),
            TypeArg::Scalar(_) => out.scalar.is_some(),
            TypeArg::For(t) => contains_type(&out.implemented_for, t.key),
            TypeArg::Implements(t) => contains_type(&out.implements, t.key),
            TypeArg::Enum(_) => out.alias.is_some(),
            TypeArg::Async => out.asyncness,
            TypeArg::RenameAll(_) => out.rename_fields.is_some(),
            TypeArg::Internal => false,
        };
        if dup {
            return Err(i);
        }
        match x {
            TypeArg::Name(s) => out.name = Some(s),
            TypeArg::Description(s) => out.description = Some(s),
            TypeArg::Context(t) => out.context = Some(t),
            TypeArg::Scalar(t) => out.scalar = Some(t),
            TypeArg::For(t) => out.implemented_for.push(t),
            TypeArg::Implements(t) => out.implements.push(t),
            TypeArg::Enum(s) => out.alias = Some(s),
            TypeArg::Async => out.asyncness = true,
            TypeArg::RenameAll(p) => out.rename_fields = Some(p),
            TypeArg::Internal => out.is_internal = true,
        }
        Ok(out)
    }

    /// Records the arguments of one attribute, refusing the first argument
    /// given twice, by its position.
    pub fn parse(args: Vec<TypeArg<T>>) -> (res: Result<Self, usize>)
        ensures
            match type_parse_spec(args@) {
                Ok(a) => res matches Ok(r) && r.view() == a,
                Err(i) => res matches Err(j) && j == i,
            },
    {
        let ghost all = args@;
        let n = args.len();
        let mut out = TypeAttr::new();
        let mut i: usize = 0;
        let mut rest = reversed(args);
        while rest.len() > 0
            invariant
                i + rest@.len() == n,
                n == all.len(),
                all == args@,
                forall|j: int| 0 <= j < rest@.len() ==> #[trigger] rest@[j] == all[n - 1 - j],
                type_parse_spec(all.take(i as int)) == Ok::<TypeAttrView<T>, int>(out.view()),
            decreases rest.len(),
        {
            let x = rest.pop().unwrap();
            proof {
                assert(x == all[i as int]);
                assert(all.take(i + 1).drop_last() =~= all.take(i as int));
                assert(all.take(i + 1).last() == x);
            }
            out = match out.add(x, i) {
                Ok(r) => r,
                Err(e) => {
                    proof {
                        assert(all.take(i as int).push(all[i as int]) =~= all.take(i + 1));
                        lemma_type_parse_error_stays(all, i + 1);
                    }
                    return Err(e);
                },
            };
            proof {
                assert(all.take(i as int).push(all[i as int]) =~= all.take(i + 1));
            }
            i += 1;
        }
        assert(all.take(n as int) =~= all);
        Ok(out)
    }

    /// Merges the arguments of two attributes, refusing the first argument
    /// (in declaration order) that both give.
    pub fn try_merge(self, another: Self) -> (res: Result<Self, TypeMergeError>)
        ensures
            match type_merge_error(self.view(), another.view()) {
                Some(e) => res == Err::<Self, TypeMergeError>(e),
                None => res matches Ok(a) && a.view() == type_merge_spec(self.view(), another.view()),
            },
    {
        let ghost sv = self.view();
        let ghost av = another.view();
        let name = match merge_option(self.name, another.name) {
            Ok(v) => v,
            Err(_) => return Err(TypeMergeError::Both(TypeArgKey::Name)),
        };
        let description = match merge_option(self.description, another.description) {
            Ok(v) => v,
            Err(_) => return Err(TypeMergeError::Both(TypeArgKey::Description)),
        };
        let context = match merge_option(self.context, another.context) {
            Ok(v) => v,
            Err(_) => return Err(TypeMergeError::Both(TypeArgKey::Context)),
        };
        let scalar = match merge_option(self.scalar, another.scalar) {
            Ok(v) => v,
            Err(_) => return Err(TypeMergeError::Both(TypeArgKey::Scalar)),
        };
        if let Some(i) = find_shared(&self.implemented_for, &another.implemented_for) {
            return Err(TypeMergeError::SharedImplementer(i));
        }
        if let Some(i) = find_shared(&self.implements, &another.implements) {
            return Err(TypeMergeError::SharedInterface(i));
        }
        let alias = match merge_option(self.alias, another.alias) {
            Ok(v) => v,
            Err(_) => return Err(TypeMergeError::Both(TypeArgKey::Enum)),
        };
        if self.asyncness && another.asyncness {
            return Err(TypeMergeError::Both(TypeArgKey::Async));
        }
        let rename_fields = match merge_option(self.rename_fields, another.rename_fields) {
            Ok(v) => v,
            Err(_) => return Err(TypeMergeError::Both(TypeArgKey::RenameAll)),
        };
        let mut implemented_for = self.implemented_for;
        let mut more_for = another.implemented_for;
        implemented_for.append(&mut more_for);
        let mut implements = self.implements;
        let mut more_impls = another.implements;
        implements.append(&mut more_impls);
        Ok(
            TypeAttr {
                name,
                description,
                context,
                scalar,
                implemented_for,
                implements,
                alias,
                asyncness: self.asyncness || another.asyncness,
                rename_fields,
                is_internal: self.is_internal || another.is_internal,
            },
        )
    }

    /// Completes the merged arguments: a missing description is taken from
    /// the doc attributes `docs`; refused at the first doc attribute with a
    /// non-string value.
    pub fn from_attrs(self, docs: &[DocAttr]) -> (res: Result<Self, usize>)
        ensures
            self.description is Some ==> (res matches Ok(a) && a.view() == self.view()),
            self.description is None ==> match res {
                Err(i) => i < docs@.len() && is_not_string(docs@[i as int]) && forall|j: int|
                    0 <= j < i ==> !is_not_string(#[trigger] docs@[j]),
                Ok(a) => {
                    &&& forall|j: int| 0 <= j < docs@.len() ==> !is_not_string(#[trigger] docs@[j])
                    &&& a.view() == TypeAttrView { description: a.description, ..self.view() }
                    &&& if exists|j: int| 0 <= j < docs@.len() && is_text(#[trigger] docs@[j]) {
                        a.description matches Some(d) && d@ == concatenated(doc_texts(docs@, docs@.len() as int))
                    } else {
                        a.description is None
                    }
                },
            },
    {
        if self.description.is_some() {
            return Ok(self);
        }
        let mut attr = self;
        match parse_from_doc_attrs(docs) {
            Err(i) => Err(i),
            Ok(Some(d)) => {
                proof {
                    assert(is_text(docs@[d.first as int]));
                }
                attr.description = Some(d.description.text);
                Ok(attr)
            },
            Ok(None) => Ok(attr),
        }
    }

    /// The renaming of the fields: the explicit one, or `camelCase`.
    pub fn renaming(&self) -> (res: Policy)
        ensures
            res == match self.rename_fields {
                Some(p) => p,
                None => Policy::CamelCase,
            },
    {
        match self.rename_fields {
            Some(p) => p,
            None => Policy::CamelCase,
        }
    }
}

/// Whether no type is in `ts` twice.
pub open spec fn types_distinct<T>(ts: Seq<TypeRef<T>>) -> bool {
    forall|i: int, j: int| 0 <= i < j < ts.len() ==> #[trigger] ts[i].key != #[trigger] ts[j].key
}

/// What parsing keeps: no type is given twice in `for` or in `impl`.
pub proof fn law_parsed_types_distinct<T>(args: Seq<TypeArg<T>>)
    requires
        type_parse_spec(args) is Ok,
    ensures
        types_distinct(type_parse_spec(args)->Ok_0.implemented_for),
        types_distinct(type_parse_spec(args)->Ok_0.implements),
    decreases args.len(),
{
    if args.len() > 0 {
        law_parsed_types_distinct(args.drop_last());
    }
}

/// What merging keeps: where both sides give no type twice, the merge does
/// not either.
pub proof fn law_merged_types_distinct<T>(a: TypeAttrView<T>, b: TypeAttrView<T>)
    requires
        types_distinct(a.implemented_for),
        types_distinct(b.implemented_for),
        types_distinct(a.implements),
        types_distinct(b.implements),
        type_merge_error(a, b) is None,
    ensures
        types_distinct(type_merge_spec(a, b).implemented_for),
        types_distinct(type_merge_spec(a, b).implements),
{
    lemma_no_shared_disjoint(a.implemented_for, b.implemented_for);
    lemma_no_shared_disjoint(a.implements, b.implements);
    lemma_concat_distinct(a.implemented_for, b.implemented_for);
    lemma_concat_distinct(a.implements, b.implements);
}

proof fn lemma_concat_distinct<T>(a: Seq<TypeRef<T>>, b: Seq<TypeRef<T>>)
    requires
        types_distinct(a),
        types_distinct(b),
        forall|i: int| 0 <= i < a.len() ==> !has_type(b, #[trigger] a[i].key),
    ensures
        types_distinct(a + b),
{
    let c = a + b;
    assert forall|i: int, j: int| 0 <= i < j < c.len() implies #[trigger] c[i].key != #[trigger] c[j].key by {
        if j < a.len() {
            assert(c[i] == a[i] && c[j] == a[j]);
        } else if i >= a.len() {
            assert(c[i] == b[i - a.len()] && c[j] == b[j - a.len()]);
        } else {
            assert(c[i] == a[i] && c[j] == b[j - a.len()]);
            assert(!has_type(b, a[i].key));
        }
    }
}

proof fn lemma_no_shared_disjoint<T>(a: Seq<TypeRef<T>>, b: Seq<TypeRef<T>>)
    requires
        first_shared(a, b) is None,
    ensures
        forall|i: int| 0 <= i < a.len() ==> !has_type(b, #[trigger] a[i].key),
    decreases a.len(),
{
    if a.len() > 0 {
        lemma_no_shared_disjoint(a.drop_last(), b);
        assert forall|i: int| 0 <= i < a.len() implies !has_type(b, #[trigger] a[i].key) by {
            if i < a.len() - 1 {
                assert(a.drop_last()[i] == a[i]);
            }
        }
    }
}

proof fn lemma_first_shared_none<T>(a: Seq<TypeRef<T>>, b: Seq<TypeRef<T>>)
    ensures
        first_shared(a, b) is None <==> forall|i: int| 0 <= i < a.len() ==> !has_type(b, #[trigger] a[i].key),
    decreases a.len(),
{
    if a.len() > 0 {
        lemma_first_shared_none(a.drop_last(), b);
        if first_shared(a, b) is None {
            assert forall|i: int| 0 <= i < a.len() implies !has_type(b, #[trigger] a[i].key) by {
                if i < a.len() - 1 {
                    assert(a.drop_last()[i] == a[i]);
                }
            }
        }
        if forall|i: int| 0 <= i < a.len() ==> !has_type(b, #[trigger] a[i].key) {
            assert forall|i: int| 0 <= i < a.drop_last().len() implies !has_type(b, #[trigger] a.drop_last()[i].key) by {
                assert(a.drop_last()[i] == a[i]);
            }
            assert(!has_type(b, a[a.len() - 1].key));
        }
    }
}

proof fn lemma_has_type_concat<T>(a: Seq<TypeRef<T>>, b: Seq<TypeRef<T>>, k: u64)
    ensures
        has_type(a + b, k) <==> has_type(a, k) || has_type(b, k),
{
    if has_type(a + b, k) {
        let i = choose|i: int| 0 <= i < (a + b).len() && #[trigger] (a + b)[i].key == k;
        if i < a.len() {
            assert(a[i] == (a + b)[i]);
        } else {
            assert(b[i - a.len()] == (a + b)[i]);
        }
    }
    if has_type(a, k) {
        let i = choose|i: int| 0 <= i < a.len() && #[trigger] a[i].key == k;
        assert((a + b)[i] == a[i]);
    }
    if has_type(b, k) {
        let i = choose|i: int| 0 <= i < b.len() && #[trigger] b[i].key == k;
        assert((a + b)[a.len() + i] == b[i]);
    }
}

proof fn lemma_has_type_push<T>(a: Seq<TypeRef<T>>, t: TypeRef<T>, k: u64)
    ensures
        has_type(a.push(t), k) <==> has_type(a, k) || t.key == k,
{
    if has_type(a.push(t), k) {
        let i = choose|i: int| 0 <= i < a.push(t).len() && #[trigger] a.push(t)[i].key == k;
        if i < a.len() {
            assert(a[i] == a.push(t)[i]);
        }
    }
    if has_type(a, k) {
        let i = choose|i: int| 0 <= i < a.len() && #[trigger] a[i].key == k;
        assert(a.push(t)[i] == a[i]);
    }
    if t.key == k {
        assert(a.push(t)[a.len() as int] == t);
    }
}

proof fn lemma_shared_push<T>(a: Seq<TypeRef<T>>, b: Seq<TypeRef<T>>, t: TypeRef<T>)
    ensures
        first_shared(a, b.push(t)) is None <==> (first_shared(a, b) is None && !has_type(a, t.key)),
{
    lemma_first_shared_none(a, b);
    lemma_first_shared_none(a, b.push(t));
    assert forall|i: int| 0 <= i < a.len() implies (has_type(b.push(t), #[trigger] a[i].key) <==> (has_type(b, a[i].key)
        || t.key == a[i].key)) by {
        lemma_has_type_push(b, t, a[i].key);
    }
    if has_type(a, t.key) {
        let i = choose|i: int| 0 <= i < a.len() && #[trigger] a[i].key == t.key;
        assert(has_type(b.push(t), a[i].key));
    }
    if !has_type(a, t.key) {
        assert forall|i: int| 0 <= i < a.len() implies t.key != #[trigger] a[i].key by {
            if t.key == a[i].key {
                assert(has_type(a, t.key));
            }
        }
    }
}

/// Arguments split over two attributes mean what they mean in a single
/// one: the two are accepted together exactly when each is and they share
/// no argument (and no type in `for` or `impl`), and then they give the same
/// arguments.
pub proof fn law_split_type_attributes<T>(a: Seq<TypeArg<T>>, b: Seq<TypeArg<T>>)
    ensures
        type_parse_spec(a + b) is Ok <==> (type_parse_spec(a) is Ok && type_parse_spec(b) is Ok && type_merge_error(
            type_parse_spec(a)->Ok_0,
            type_parse_spec(b)->Ok_0,
        ) is None),
        type_parse_spec(a + b) is Ok ==> type_parse_spec(a + b)->Ok_0 == type_merge_spec(
            type_parse_spec(a)->Ok_0,
            type_parse_spec(b)->Ok_0,
        ),
    decreases b.len(),
{
    if b.len() == 0 {
        assert(a + b =~= a);
        if type_parse_spec(a) is Ok {
            let pa = type_parse_spec(a)->Ok_0;
            lemma_first_shared_none(pa.implemented_for, Seq::<TypeRef<T>>::empty());
            lemma_first_shared_none(pa.implements, Seq::<TypeRef<T>>::empty());
            assert(pa.implemented_for + Seq::empty() =~= pa.implemented_for);
            assert(pa.implements + Seq::empty() =~= pa.implements);
        }
    } else {
        let b1 = b.drop_last();
        let x = b.last();
        law_split_type_attributes(a, b1);
        assert((a + b).drop_last() =~= a + b1);
        assert((a + b).last() == x);
        if type_parse_spec(a) is Ok && type_parse_spec(b1) is Ok {
            let pa = type_parse_spec(a)->Ok_0;
            let pb = type_parse_spec(b1)->Ok_0;
            match x {
                TypeArg::For(t) => {
                    lemma_has_type_concat(pa.implemented_for, pb.implemented_for, t.key);
                    lemma_shared_push(pa.implemented_for, pb.implemented_for, t);
                    assert((pa.implemented_for + pb.implemented_for).push(t) =~= pa.implemented_for
                        + pb.implemented_for.push(t));
                },
                TypeArg::Implements(t) => {
                    lemma_has_type_concat(pa.implements, pb.implements, t.key);
                    lemma_shared_push(pa.implements, pb.implements, t);
                    assert((pa.implements + pb.implements).push(t) =~= pa.implements + pb.implements.push(t));
                },
                _ => {},
            }
        }
    }
}

} // verus!
