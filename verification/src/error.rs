//! The library's error type and its human-readable rendering.

use crate::policy::{violation_label, Violation};
use crate::text::{decimal, decimal_string};
use vstd::prelude::*;
use vstd::string::*;

verus! {

#[verifier::external_type_specification]
#[verifier::external_body]
pub struct ExIoError(std::io::Error);

#[derive(Debug)]
pub enum AiueError {
    Io(std::io::Error),
    /// EDN failed to parse.
    Edn(String),
    /// A manifest, policy or schema was well-formed EDN of the wrong shape.
    Schema(String),
    /// Policy or capability-linking verification failed; carries every
    /// violation so that all of them can be shown at once.
    Denied(Vec<Violation>),
    /// The safe-kotoba subset checker rejected the source.
    Unsafe(Vec<String>),
    /// CLJ to wasm compilation failed.
    Compile(String),
    /// wasm execution failed.
    Run(String),
}

/// The line that renders one violation.
pub open spec fn violation_line(v: Violation) -> Seq<char> {
    "  \u{2717} ["@ + violation_label(v.kind) + "] "@ + v.component@ + ": "@ + v.message@ + "\n"@
}

/// The lines of all violations, in order.
pub open spec fn violation_lines(vs: Seq<Violation>) -> Seq<char>
    decreases vs.len(),
{
    if vs.len() == 0 {
        seq![]
    } else {
        violation_lines(vs.drop_last()) + violation_line(vs.last())
    }
}

/// Every violation has its own line in the rendering of a denial.
pub proof fn law_denied_lists_every_violation(vs: Seq<Violation>, i: int)
    requires
        0 <= i < vs.len(),
    ensures
        exists|a: Seq<char>, b: Seq<char>| violation_lines(vs) == a + violation_line(vs[i]) + b,
    decreases vs.len(),
{
    if i == vs.len() - 1 {
        let a = violation_lines(vs.drop_last());
        let b = Seq::<char>::empty();
        assert(violation_lines(vs) =~= a + violation_line(vs[i]) + b);
    } else {
        law_denied_lists_every_violation(vs.drop_last(), i);
        let (a, b) = choose|a: Seq<char>, b: Seq<char>| violation_lines(vs.drop_last()) == a + violation_line(vs.drop_last()[i]) + b;
        let b2 = b + violation_line(vs.last());
        assert(violation_lines(vs) =~= a + violation_line(vs[i]) + b2);
    }
}

/// The lines of all rejection reasons, in order.
pub open spec fn reason_lines(rs: Seq<String>) -> Seq<char>
    decreases rs.len(),
{
    if rs.len() == 0 {
        seq![]
    } else {
        reason_lines(rs.drop_last()) + "  \u{2717} "@ + rs.last()@ + "\n"@
    }
}

/// How an error renders, for every variant but `Io`, whose text comes from std.
pub open spec fn rendered(e: AiueError) -> Seq<char> {
    match e {
        AiueError::Io(_) => "io error: "@,
        AiueError::Edn(m) => "edn parse error: "@ + m@,
        AiueError::Schema(m) => "schema error: "@ + m@,
        AiueError::Denied(vs) => "policy denied ("@ + decimal(vs@.len()) + " violation(s)):\n"@
            + violation_lines(vs@),
        AiueError::Unsafe(rs) => "safe-kotoba subset rejected source ("@ + decimal(rs@.len())
            + "):\n"@ + reason_lines(rs@),
        AiueError::Compile(m) => "compile error: "@ + m@,
        AiueError::Run(m) => "run error: "@ + m@,
    }
}

/// The text of an I/O error, as std displays it.
#[verifier::external_body]
fn io_error_text(e: &std::io::Error) -> String {
    format!("{e}")
}

impl AiueError {
    /// The error as text. An `Io` error renders as `io error: ` followed by
    /// std's own text for it.
    pub fn render(&self) -> (r: String)
        ensures
            match self {
                AiueError::Io(_) => rendered(*self).is_prefix_of(r@),
                _ => r@ == rendered(*self),
            },
    {
        match self {
            AiueError::Io(e) => {
                let mut s = String::from_str("io error: ");
                let t = io_error_text(e);
                s.append(t.as_str());
                assert(rendered(*self) =~= s@.subrange(0, rendered(*self).len() as int));
                s
            },
            AiueError::Edn(m) => String::from_str("edn parse error: ").concat(m.as_str()),
            AiueError::Schema(m) => String::from_str("schema error: ").concat(m.as_str()),
            AiueError::Denied(vs) => {
                let mut s = String::from_str("policy denied (");
                s.append(decimal_string(vs.len()).as_str());
                s.append(" violation(s)):\n");
                let ghost head = s@;
                let n = vs.len();
                let mut i: usize = 0;
                while i < n
                    invariant
                        n == vs@.len(),
                        i <= n,
                        s@ == head + violation_lines(vs@.take(i as int)),
                    decreases n - i,
                {
                    let v = &vs[i];
                    s.append("  \u{2717} [");
                    s.append(v.kind.label());
                    s.append("] ");
                    s.append(v.component.as_str());
                    s.append(": ");
                    s.append(v.message.as_str());
                    s.append("\n");
                    assert(vs@.take(i + 1).drop_last() =~= vs@.take(i as int));
                    i = i + 1;
                }
                assert(vs@.take(n as int) =~= vs@);
                s
            },
            AiueError::Unsafe(rs) => {
                let mut s = String::from_str("safe-kotoba subset rejected source (");
                s.append(decimal_string(rs.len()).as_str());
                s.append("):\n");
                let ghost head = s@;
                let n = rs.len();
                let mut i: usize = 0;
                while i < n
                    invariant
                        n == rs@.len(),
                        i <= n,
                        s@ == head + reason_lines(rs@.take(i as int)),
                    decreases n - i,
                {
                    s.append("  \u{2717} ");
                    s.append(rs[i].as_str());
                    s.append("\n");
                    assert(rs@.take(i + 1).drop_last() =~= rs@.take(i as int));
                    i = i + 1;
                }
                assert(rs@.take(n as int) =~= rs@);
                s
            },
            AiueError::Compile(m) => String::from_str("compile error: ").concat(m.as_str()),
            AiueError::Run(m) => String::from_str("run error: ").concat(m.as_str()),
        }
    }
}

impl From<std::io::Error> for AiueError {
    fn from(e: std::io::Error) -> (r: Self) {
        AiueError::Io(e)
    }
}

impl vstd::std_specs::convert::FromSpecImpl<std::io::Error> for AiueError {
    open spec fn obeys_from_spec() -> bool {
        true
    }

    open spec fn from_spec(e: std::io::Error) -> Self {
        AiueError::Io(e)
    }
}

} // verus!
