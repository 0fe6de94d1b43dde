//! Routing of a request's method name to the closed set of operations.
//!
//! The method name of a decoded request selects exactly one of the recognized
//! operations, or none at all; an unrecognized name is answered with an
//! "unknown method" error and never allocates a task.

use vstd::prelude::*;

verus! {

/// The closed set of operations a request can name.
#[derive(Clone, Copy, Debug, PartialEq, Eq, Structural)]
pub enum Method {
    /// Session bootstrap; runs once, before concurrent traffic exists.
    Init,
    /// Cursor-move preview.
    Move,
    /// Incremental query-as-you-type.
    Typed,
}

/// What the router decides for a given method name: the recognized operation,
/// or nothing (the caller must answer with an "unknown method" error).
pub open spec fn spec_route(s: Seq<char>) -> Option<Method> {
    if s == "init"@ {
        Some(Method::Init)
    } else if s == "move"@ {
        Some(Method::Move)
    } else if s == "typed"@ {
        Some(Method::Typed)
    } else {
        None
    }
}

/// Resolve a method name to its operation; `None` means "unknown method".
pub fn route(name: &str) -> (r: Option<Method>)
    ensures
        r == spec_route(name@),
{
    let n = name.to_owned();
    if n == String::from_str("init") {
        Some(Method::Init)
    } else if n == String::from_str("move") {
        Some(Method::Move)
    } else if n == String::from_str("typed") {
        Some(Method::Typed)
    } else {
        None
    }
}

/// The router is a total function on method names: every name selects exactly
/// one recognized operation or is reported unknown — never both, never neither.
pub proof fn lemma_route_exclusive(s: Seq<char>)
    ensures
        spec_route(s) == Some(Method::Init) <==> s == "init"@,
        spec_route(s) == Some(Method::Move) <==> s == "move"@,
        spec_route(s) == Some(Method::Typed) <==> s == "typed"@,
        spec_route(s) is None <==> (s != "init"@ && s != "move"@ && s != "typed"@),
{
    reveal_strlit("init");
    reveal_strlit("move");
    reveal_strlit("typed");
    assert("init"@ != "move"@) by {
        assert("init"@[0] == 'i' && "move"@[0] == 'm');
    }
    assert("init"@ != "typed"@) by {
        assert("init"@[0] == 'i' && "typed"@[0] == 't');
    }
    assert("move"@ != "typed"@) by {
        assert("move"@[0] == 'm' && "typed"@[0] == 't');
    }
}

} // verus!
