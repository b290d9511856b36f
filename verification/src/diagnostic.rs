//! Diagnostics of the procedural macros: the GraphQL scopes errors are
//! reported in, the text of a diagnostic, and the protocol by which
//! diagnostics are collected while a macro runs.
use vstd::prelude::*;

use crate::text::push_chars;

verus! {

/// URL of the GraphQL specification (October 2021 Edition).
pub const SPEC_URL: &'static str = "https://spec.graphql.org/October2021";

/// The GraphQL definitions a macro can generate code for, which diagnostics
/// are reported in.
#[derive(Clone, Copy, Debug, PartialEq, Eq, Structural)]
pub enum Scope {
    EnumDerive,
    InputObjectDerive,
    InterfaceAttr,
    InterfaceDerive,
    ObjectAttr,
    ObjectDerive,
    ScalarAttr,
    ScalarDerive,
    ScalarValueDerive,
    UnionAttr,
    UnionDerive,
}

/// The anchor of the specification section describing `scope`.
pub open spec fn spec_section_of(scope: Scope) -> Seq<char> {
    match scope {
        Scope::EnumDerive => "#sec-Enums"@,
        Scope::InputObjectDerive => "#sec-Input-Objects"@,
        Scope::InterfaceAttr | Scope::InterfaceDerive => "#sec-Interfaces"@,
        Scope::ObjectAttr | Scope::ObjectDerive => "#sec-Objects"@,
        Scope::ScalarAttr | Scope::ScalarDerive => "#sec-Scalars"@,
        Scope::ScalarValueDerive => "#sec-Scalars.Built-in-Scalars"@,
        Scope::UnionAttr | Scope::UnionDerive => "#sec-Unions"@,
    }
}

/// The kind of GraphQL definition `scope` stands for, as diagnostics name it.
pub open spec fn kind_of(scope: Scope) -> Seq<char> {
    match scope {
        Scope::EnumDerive => "enum"@,
        Scope::InputObjectDerive => "input object"@,
        Scope::InterfaceAttr | Scope::InterfaceDerive => "interface"@,
        Scope::ObjectAttr | Scope::ObjectDerive => "object"@,
        Scope::ScalarAttr | Scope::ScalarDerive => "scalar"@,
        Scope::ScalarValueDerive => "built-in scalars"@,
        Scope::UnionAttr | Scope::UnionDerive => "union"@,
    }
}

/// How `scope` is written in diagnostics: `GraphQL <kind>`.
pub open spec fn display_of(scope: Scope) -> Seq<char> {
    "GraphQL "@ + kind_of(scope)
}

/// The link to the specification section describing `scope`.
pub open spec fn spec_link_of(scope: Scope) -> Seq<char> {
    SPEC_URL@ + spec_section_of(scope)
}

/// A diagnostic message of `scope`: the scope's name, a space, then `msg`.
pub open spec fn scoped_message(scope: Scope, msg: Seq<char>) -> Seq<char> {
    display_of(scope) + " "@ + msg
}

/// The message of the diagnostic about names starting with `__`.
pub open spec fn double_underscore_message() -> Seq<char> {
    "All types and directives defined within a schema must not have a name which begins with `__` (two underscores), as this is used exclusively by GraphQL’s introspection system."@
}

/// The note of the diagnostic about names starting with `__`.
pub open spec fn schema_link() -> Seq<char> {
    SPEC_URL@ + "#sec-Schema"@
}

/// Whether `d` is a diagnostic of `scope` pointing at `span`, with `msg`,
/// and with the link to the scope's specification section as its one note.
pub open spec fn is_scoped_diag<S>(d: Diagnostic<S>, scope: Scope, span: S, msg: Seq<char>) -> bool {
    &&& d.first == span
    &&& d.last == span
    &&& d.msg@ == scoped_message(scope, msg)
    &&& d.notes@.len() == 1
    &&& d.notes@[0]@ == spec_link_of(scope)
}

/// Whether `d` is the diagnostic about a name starting with `__`, pointing
/// at `span`.
pub open spec fn is_reserved_diag<S>(d: Diagnostic<S>, span: S) -> bool {
    &&& d.first == span
    &&& d.last == span
    &&& d.msg@ == double_underscore_message()
    &&& d.notes@.len() == 1
    &&& d.notes@[0]@ == schema_link()
}

impl Scope {
    /// Anchor of the specification section describing this scope.
    pub fn spec_section(&self) -> (res: &'static str)
        ensures
            res@ == spec_section_of(*self),
    {
        match self {
            Scope::EnumDerive => "#sec-Enums",
            Scope::InputObjectDerive => "#sec-Input-Objects",
            Scope::InterfaceAttr | Scope::InterfaceDerive => "#sec-Interfaces",
            Scope::ObjectAttr | Scope::ObjectDerive => "#sec-Objects",
            Scope::ScalarAttr | Scope::ScalarDerive => "#sec-Scalars",
            Scope::ScalarValueDerive => "#sec-Scalars.Built-in-Scalars",
            Scope::UnionAttr | Scope::UnionDerive => "#sec-Unions",
        }
    }

    /// The kind of GraphQL definition this scope stands for.
    pub fn kind(&self) -> (res: &'static str)
        ensures
            res@ == kind_of(*self),
    {
        match self {
            Scope::EnumDerive => "enum",
            Scope::InputObjectDerive => "input object",
            Scope::InterfaceAttr | Scope::InterfaceDerive => "interface",
            Scope::ObjectAttr | Scope::ObjectDerive => "object",
            Scope::ScalarAttr | Scope::ScalarDerive => "scalar",
            Scope::ScalarValueDerive => "built-in scalars",
            Scope::UnionAttr | Scope::UnionDerive => "union",
        }
    }

    /// This scope as diagnostics write it, such as `GraphQL enum`.
    pub fn to_string(&self) -> (res: String)
        ensures
            res@ == display_of(*self),
    {
        String::from_str("GraphQL ").concat(self.kind())
    }

    /// Link to the specification section describing this scope.
    pub fn spec_link(&self) -> (res: String)
        ensures
            res@ == spec_link_of(*self),
    {
        String::from_str(SPEC_URL).concat(self.spec_section())
    }

    /// The text of an error of this scope: `GraphQL <kind> <msg>`.
    pub fn custom_error_message(&self, msg: &str) -> (res: String)
        ensures
            res@ == scoped_message(*self, msg@),
    {
        self.to_string().concat(" ").concat(msg)
    }

    /// A diagnostic of this scope pointing at `span`, with `msg` and a note
    /// linking the specification section.
    pub fn custom<S: Copy>(&self, span: S, msg: &str) -> (res: Diagnostic<S>)
        ensures
            res.first == span,
            res.last == span,
            res.msg@ == scoped_message(*self, msg@),
            res.notes@.len() == 1,
            res.notes@[0]@ == spec_link_of(*self),
    {
        Diagnostic::spanned(span, self.custom_error_message(msg)).note(self.spec_link())
    }

    /// A diagnostic of this scope made of the text of an error raised at
    /// `span`.
    pub fn error<S: Copy>(&self, span: S, err: &str) -> (res: Diagnostic<S>)
        ensures
            res.first == span,
            res.last == span,
            res.msg@ == scoped_message(*self, err@),
            res.notes@.len() == 1,
            res.notes@[0]@ == spec_link_of(*self),
    {
        self.custom(span, err)
    }

    /// The diagnostic about a name that starts with `__`, which GraphQL
    /// reserves for its introspection system.
    pub fn no_double_underscore<S: Copy>(&self, field: S) -> (res: Diagnostic<S>)
        ensures
            res.first == field,
            res.last == field,
            res.msg@ == double_underscore_message(),
            res.notes@.len() == 1,
            res.notes@[0]@ == schema_link(),
    {
        let msg = String::from_str(
            "All types and directives defined within a schema must not have a name which begins with `__` (two underscores), as this is used exclusively by GraphQL’s introspection system.",
        );
        let note = String::from_str(SPEC_URL).concat("#sec-Schema");
        Diagnostic::spanned(field, msg).note(note)
    }
}

/// A single diagnostic message, pointing at the range from `first` to
/// `last`, with notes attached to it.
pub struct Diagnostic<S> {
    pub first: S,
    pub last: S,
    pub msg: String,
    pub notes: Vec<String>,
}

/// `s`, ended by a line feed if it is not yet.
pub open spec fn with_lf(s: Seq<char>) -> Seq<char> {
    if s.len() > 0 && s.last() == '\n' {
        s
    } else {
        s.push('\n')
    }
}

/// The notes, each as `· note: <note>` on a line of its own.
pub open spec fn notes_text(notes: Seq<Seq<char>>) -> Seq<char>
    decreases notes.len(),
{
    if notes.len() == 0 {
        Seq::empty()
    } else {
        notes_text(notes.drop_last()) + "· note: "@ + with_lf(notes.last())
    }
}

/// The full text of a diagnostic: the message alone, or, when it has
/// notes, the message on a line of its own followed by its notes.
pub open spec fn full_message(msg: Seq<char>, notes: Seq<Seq<char>>) -> Seq<char> {
    if notes.len() == 0 {
        msg
    } else {
        with_lf(msg) + notes_text(notes)
    }
}

/// The views of the strings of `v`.
pub open spec fn views(v: Seq<String>) -> Seq<Seq<char>> {
    v.map_values(|s: String| s@)
}

fn append_with_lf(buf: &mut String, s: &String)
    ensures
        final(buf)@ == old(buf)@ + with_lf(s@),
{
    let cs = crate::text::chars_of(s.as_str());
    push_chars(buf, &cs);
    let n = cs.len();
    if !(n > 0 && cs[n - 1] == '\n') {
        crate::text::push_char(buf, '\n');
    }
}

impl<S: Copy> Diagnostic<S> {
    /// A diagnostic with `message`, pointing at `span`, with no notes.
    pub fn spanned(span: S, message: String) -> (res: Self)
        ensures
            res.first == span,
            res.last == span,
            res.msg@ == message@,
            res.notes@.len() == 0,
    {
        Diagnostic { first: span, last: span, msg: message, notes: Vec::new() }
    }

    /// This diagnostic with `msg` attached as its last note.
    pub fn note(self, msg: String) -> (res: Self)
        ensures
            res.first == self.first,
            res.last == self.last,
            res.msg == self.msg,
            res.notes@ == self.notes@.push(msg),
    {
        let mut d = self;
        d.notes.push(msg);
        d
    }

    /// This diagnostic with its message preceded by `message` and `: `, as
    /// when a failed result is expected with a message.
    pub fn with_context(self, message: &str) -> (res: Self)
        ensures
            res.first == self.first,
            res.last == self.last,
            res.msg@ == message@ + ": "@ + self.msg@,
            res.notes == self.notes,
    {
        let msg = String::from_str(message).concat(": ").concat(self.msg.as_str());
        Diagnostic { first: self.first, last: self.last, msg, notes: self.notes }
    }

    /// The text that the compiler shows for this diagnostic.
    pub fn full_text(&self) -> (res: String)
        ensures
            res@ == full_message(self.msg@, views(self.notes@)),
    {
        if self.notes.len() == 0 {
            return self.msg.clone();
        }
        let mut message = String::new();
        append_with_lf(&mut message, &self.msg);
        let ghost head = message@;
        let mut i: usize = 0;
        while i < self.notes.len()
            invariant
                i <= self.notes@.len(),
                self.notes@.len() > 0,
                head == with_lf(self.msg@),
                message@ == head + notes_text(views(self.notes@.take(i as int))),
            decreases self.notes@.len() - i,
        {
            message.append("· note: ");
            append_with_lf(&mut message, &self.notes[i]);
            proof {
                let t = self.notes@.take(i + 1);
                assert(t.drop_last() =~= self.notes@.take(i as int));
                assert(views(t).drop_last() =~= views(t.drop_last()));
                assert(views(t).last() == self.notes@[i as int]@);
            }
            i += 1;
        }
        assert(self.notes@.take(self.notes@.len() as int) =~= self.notes@);
        message
    }
}

} // verus!
