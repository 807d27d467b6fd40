//! The one error type of the library: what went wrong, said once for people,
//! and the chain of places that the failure passed through on its way out.

use vstd::prelude::*;
use vstd::string::*;

verus! {

/// The ways in which a schema can fail to become source code.
#[derive(Debug, PartialEq, Eq, Clone, Copy, Structural)]
pub enum ErrorKind {
    /// An enumeration, an object or a union has no name, and none was suggested.
    NameRequired,
    /// A reference names a definition that neither table holds.
    UnresolvedReference,
    /// A reference leads back to a definition that is still being resolved.
    CyclicReference,
    /// A discriminator tag was to be attached to something that cannot carry it.
    DiscriminatorTargetInvalid,
    /// A name cannot be turned into an identifier.
    IdentifierInvalid,
    /// A module has no declaration to render.
    EmptyModule,
    /// A record field is marked optional but its type is no `Maybe`.
    OptionalFieldInvalid,
    /// A fragment was to be stored at the root of the namespace tree.
    RootInsert,
    /// Two different declarations have the same name.
    NameConflict,
    /// What was read as a schema is none.
    SchemaInvalid,
}

/// A failure: its kind, the message of its cause, and the contexts that were
/// added while it travelled outwards, innermost first.
#[derive(Debug, PartialEq, Eq)]
pub struct Error {
    pub kind: ErrorKind,
    pub cause: String,
    pub context: Vec<String>,
}

/// What an [`Error`] holds, as plain sequences of characters.
pub ghost struct ErrorModel {
    pub kind: ErrorKind,
    pub cause: Seq<char>,
    pub context: Seq<Seq<char>>,
}

/// A fresh failure without context.
pub open spec fn failure(kind: ErrorKind, cause: Seq<char>) -> ErrorModel {
    ErrorModel { kind, cause, context: Seq::empty() }
}

/// The failure `e` after it passed through a place described by `context`.
pub open spec fn wrapped(e: ErrorModel, context: Seq<char>) -> ErrorModel {
    ErrorModel { kind: e.kind, cause: e.cause, context: e.context.push(context) }
}

/// The outcome `r` with `context` added to its failure, if it is one.
pub open spec fn wrapped_result<T>(r: Result<T, ErrorModel>, context: Seq<char>) -> Result<
    T,
    ErrorModel,
> {
    match r {
        Ok(v) => Ok(v),
        Err(e) => Err(wrapped(e, context)),
    }
}

/// The message shown first: the outermost context, or the cause itself when
/// no context was added.
pub open spec fn headline(e: ErrorModel) -> Seq<char> {
    if e.context.len() == 0 {
        e.cause
    } else {
        e.context.last()
    }
}

/// All messages from the outermost context down to the cause.
pub open spec fn chain_of(e: ErrorModel) -> Seq<Seq<char>> {
    e.context.reverse().push(e.cause)
}

impl View for Error {
    type V = ErrorModel;

    open spec fn view(&self) -> ErrorModel {
        ErrorModel {
            kind: self.kind,
            cause: self.cause@,
            context: self.context@.map_values(|s: String| s@),
        }
    }
}

impl Error {
    /// A failure of the given kind, caused by what `cause` says.
    pub fn new(kind: ErrorKind, cause: String) -> (e: Error)
        ensures
            e@ == failure(kind, cause@),
    {
        let e = Error { kind, cause, context: Vec::new() };
        assert(e@.context =~= Seq::<Seq<char>>::empty());
        e
    }

    /// The same failure, seen from one level further out.
    pub fn wrap(self, context: String) -> (e: Error)
        ensures
            e@ == wrapped(self@, context@),
    {
        let mut e = self;
        e.context.push(context);
        assert(e@.context =~= self@.context.push(context@));
        e
    }

    /// The kind of the failure.
    pub fn kind(&self) -> (kind: ErrorKind)
        ensures
            kind == self@.kind,
    {
        self.kind
    }

    /// The message of the cause.
    pub fn root_cause(&self) -> (text: String)
        ensures
            text@ == self@.cause,
    {
        self.cause.clone()
    }

    /// The outermost message.
    pub fn message(&self) -> (text: String)
        ensures
            text@ == headline(self@),
    {
        let n = self.context.len();
        if n == 0 {
            self.cause.clone()
        } else {
            self.context[n - 1].clone()
        }
    }

    /// Every message, outermost first, ending with the cause.
    pub fn chain(&self) -> (messages: Vec<String>)
        ensures
            messages@.map_values(|s: String| s@) == chain_of(self@),
    {
        let mut messages: Vec<String> = Vec::new();
        let n = self.context.len();
        let mut i: usize = 0;
        while i < n
            invariant
                i <= n,
                n == self.context@.len(),
                messages@.len() == i,
                forall|j: int| 0 <= j < i ==> (#[trigger] messages@[j])@ == self.context@[n - 1 - j]@,
            decreases n - i,
        {
            messages.push(self.context[n - 1 - i].clone());
            i += 1;
        }
        messages.push(self.cause.clone());
        assert(messages@.map_values(|s: String| s@) =~= chain_of(self@));
        messages
    }
}

/// Adds `context` to the failure of `r`, if it is one.
pub fn wrap_result<T>(r: Result<T, Error>, context: String) -> (out: Result<T, Error>)
    ensures
        match (r, out) {
            (Ok(a), Ok(b)) => a == b,
            (Err(e), Err(w)) => w@ == wrapped(e@, context@),
            _ => false,
        },
{
    match r {
        Ok(v) => Ok(v),
        Err(e) => Err(e.wrap(context)),
    }
}

} // verus!
