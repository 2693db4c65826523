//! Queries over the decoded input, evaluated by the `jmespath` crate.

use crate::errors::EachError;
use crate::text::{lemma_starts_with, starts_with};
use crate::value::{error_text, tree_of, Tree};
use vstd::prelude::*;
use vstd::string::StringExecFns;
use vstd::string::StringSliceAdditionalSpecFns;

verus! {

#[verifier::external_type_specification]
#[verifier::external_body]
pub struct ExExpression<'a>(jmespath::Expression<'a>);

#[verifier::external_type_specification]
#[verifier::external_body]
pub struct ExVariable(jmespath::Variable);

#[verifier::external_type_specification]
#[verifier::external_body]
pub struct ExJmespathError(jmespath::JmespathError);

/// Whether a text compiles as a query.
pub uninterp spec fn query_ok(text: Seq<char>) -> bool;

/// The text that an expression was compiled from.
pub uninterp spec fn query_text(e: jmespath::Expression<'static>) -> Seq<char>;

/// What a found variable holds as JSON data, where a JSON value holds the same.
pub uninterp spec fn variable_tree(found: jmespath::Variable) -> Option<Tree>;

/// What a query finds in data, as JSON data where a JSON value can hold it,
/// or `None` where its evaluation fails.
pub uninterp spec fn query_found(query: Seq<char>, data: Tree) -> Option<Option<Tree>>;

/// `jmespath::compile`: the expression of a query text, or the error of its
/// syntax. Whether a text compiles depends on the text alone.
///
/// The crate reads every run of digits into an `i32` and panics where it
/// does not fit, and takes any numeric character after a minus sign for the
/// start of such a run: the text has to be safe from both.
#[verifier::external_body]
pub(crate) fn query_compile(text: &str) -> (r: Result<
    jmespath::Expression<'static>,
    jmespath::JmespathError,
>)
    requires
        query_safe(text@),
    ensures
        match r {
            Ok(e) => query_ok(text@) && query_text(e) == text@,
            Err(_) => !query_ok(text@),
        },
{
    jmespath::compile(text)
}

/// `Expression::search` over a JSON value: what the query finds, or the
/// error of its evaluation. The outcome depends on the text of the query and
/// on what the value holds.
///
/// The crate steps through a slice with `i32` arithmetic on the numbers of
/// the query: they have to be as small as a safe text has them.
#[verifier::external_body]
pub(crate) fn query_search(e: &jmespath::Expression<'static>, data: &serde_json::Value) -> (r:
    Result<jmespath::Variable, jmespath::JmespathError>)
    requires
        query_safe(query_text(*e)),
    ensures
        match r {
            Ok(found) => query_found(query_text(*e), tree_of(*data)) == Some(variable_tree(found)),
            Err(_) => query_found(query_text(*e), tree_of(*data)) is None,
        },
{
    e.search(data).map(|found| (*found).clone())
}

/// `serde_json::to_value` of a found variable: the JSON value that holds the same.
#[verifier::external_body]
pub(crate) fn variable_value(found: &jmespath::Variable) -> (r: Result<
    serde_json::Value,
    serde_json::Error,
>)
    ensures
        match r {
            Ok(v) => variable_tree(*found) == Some(tree_of(v)),
            Err(_) => variable_tree(*found) is None,
        },
{
    serde_json::to_value(found)
}

/// The message of a `jmespath::JmespathError`, as its `Display` writes it.
#[verifier::external_body]
pub(crate) fn query_error_text(e: &jmespath::JmespathError) -> (text: String) {
    e.to_string()
}

/// What a query makes of data: the value found, or `None` where the
/// evaluation fails or what it finds is no JSON value.
pub open spec fn queried(query: Seq<char>, data: Tree) -> Option<Tree> {
    match query_found(query, data) {
        Some(found) => found,
        None => None,
    }
}

/// The longest run of digits that a query may hold.
pub const MAX_DIGITS: usize = 9;

/// Why a text is not safe to hand to the parser of queries.
pub const UNSAFE_QUERY: &'static str =
    "a number of more than 9 digits, or a minus sign before what is no digit";

/// Whether a byte is a decimal digit.
pub open spec fn is_digit(b: u8) -> bool {
    48 <= b <= 57
}

/// Whether a byte opens a quoted name, a raw string or a literal: `"`, `'`
/// or a backtick. The same byte closes it.
pub open spec fn is_quote(b: u8) -> bool {
    b == 34 || b == 39 || b == 96
}

/// Where a walk through the bytes of a query stands.
pub struct Walk {
    /// The byte that closes what the walk is inside of, or 0 outside.
    pub inside: u8,
    /// Inside: the next byte stands after a backslash and closes nothing.
    pub escaped: bool,
    /// Outside: the bytes just before are the start of a name.
    pub name: bool,
    /// Outside: how many digits stand in a row just before, not in a name.
    pub run: nat,
    /// Outside: the byte just before is a minus sign.
    pub minus: bool,
    /// The walk met a number of more than `MAX_DIGITS` digits, or a minus
    /// sign before a byte that is not ASCII.
    pub unsafe_met: bool,
}

/// The walk before the first byte.
pub open spec fn walk_start() -> Walk {
    Walk { inside: 0, escaped: false, name: false, run: 0, minus: false, unsafe_met: false }
}

/// Whether a byte can start a name: a letter of ASCII or `_`.
pub open spec fn starts_name(b: u8) -> bool {
    65 <= b <= 90 || 97 <= b <= 122 || b == 95
}

/// The walk one byte on. Between a quote and the next one like it that no
/// backslash stands before, digits and minus signs count for nothing, and
/// neither do the digits of a name.
pub open spec fn walk_step(w: Walk, b: u8) -> Walk {
    if w.unsafe_met {
        w
    } else if w.inside != 0 {
        if w.escaped {
            Walk { escaped: false, ..w }
        } else if b == w.inside {
            walk_start()
        } else if b == 92 {
            Walk { escaped: true, ..w }
        } else {
            w
        }
    } else if w.minus && b >= 128 {
        Walk { unsafe_met: true, ..w }
    } else if starts_name(b) || (w.name && is_digit(b)) {
        Walk { name: true, ..walk_start() }
    } else if is_digit(b) {
        if w.run >= MAX_DIGITS {
            Walk { unsafe_met: true, ..w }
        } else {
            Walk { run: w.run + 1, minus: false, ..w }
        }
    } else if is_quote(b) {
        Walk { inside: b, ..walk_start() }
    } else {
        Walk { minus: b == 45, ..walk_start() }
    }
}

/// The walk after the first `n` bytes.
pub open spec fn walk_to(bytes: Seq<u8>, n: nat) -> Walk
    decreases n,
{
    if n == 0 {
        walk_start()
    } else {
        walk_step(walk_to(bytes, (n - 1) as nat), bytes[n - 1])
    }
}

/// Whether a text is safe to hand to the parser of queries: outside of
/// names, quoted names, raw strings and literals, each number in it has nine
/// digits at most, so that it fits the `i32` of the parser with room for the steps
/// of a slice, and after a minus sign stands a character of ASCII.
pub open spec fn query_safe(text: Seq<char>) -> bool {
    !walk_to(vstd::utf8::encode_utf8(text), vstd::utf8::encode_utf8(text).len()).unsafe_met
}

/// Says whether a text is safe to hand to the parser of queries.
pub fn is_safe_query(text: &str) -> (r: bool)
    ensures
        r == query_safe(text@),
{
    let bytes = text.as_bytes();
    let n = bytes.len();
    let mut inside: u8 = 0;
    let mut escaped = false;
    let mut name = false;
    let mut run: usize = 0;
    let mut minus = false;
    let mut i: usize = 0;
    while i < n
        invariant
            i <= n == bytes@.len(),
            bytes@ == vstd::utf8::encode_utf8(text@),
            run <= MAX_DIGITS,
            inside == 0 ==> !escaped,
            walk_to(bytes@, i as nat) == (Walk {
                inside,
                escaped,
                name,
                run: run as nat,
                minus,
                unsafe_met: false,
            }),
        decreases n - i,
    {
        let b = bytes[i];
        proof {
            assert(walk_to(bytes@, (i + 1) as nat) == walk_step(walk_to(bytes@, i as nat), b));
        }
        if inside != 0 {
            if escaped {
                escaped = false;
            } else if b == inside {
                inside = 0;
                name = false;
                run = 0;
                minus = false;
            } else if b == 92 {
                escaped = true;
            }
        } else if minus && b >= 128 {
            proof {
                lemma_unsafe_stays(bytes@, (i + 1) as nat, n as nat);
            }
            return false;
        } else if (65 <= b && b <= 90) || (97 <= b && b <= 122) || b == 95 || (name && 48 <= b
            && b <= 57) {
            name = true;
            run = 0;
            minus = false;
        } else if 48 <= b && b <= 57 {
            if run >= MAX_DIGITS {
                proof {
                    lemma_unsafe_stays(bytes@, (i + 1) as nat, n as nat);
                }
                return false;
            }
            run = run + 1;
            minus = false;
        } else if b == 34 || b == 39 || b == 96 {
            inside = b;
            name = false;
            run = 0;
            minus = false;
        } else {
            name = false;
            run = 0;
            minus = b == 45;
        }
        i = i + 1;
    }
    true
}

proof fn lemma_unsafe_stays(bytes: Seq<u8>, n: nat, m: nat)
    requires
        n <= m,
        walk_to(bytes, n).unsafe_met,
    ensures
        walk_to(bytes, m).unsafe_met,
    decreases m - n,
{
    if n < m {
        lemma_unsafe_stays(bytes, n, (m - 1) as nat);
    }
}

/// A compiled query.
pub struct Query {
    expression: jmespath::Expression<'static>,
}

impl Query {
    #[verifier::type_invariant]
    spec fn inv(&self) -> bool {
        query_safe(query_text(self.expression))
    }

    /// The text that the query was compiled from.
    pub closed spec fn text(&self) -> Seq<char> {
        query_text(self.expression)
    }
}

/// Compiles the text of a query. A text that is not safe for the parser,
/// and one that is no query, is a usage error.
pub fn compile_query(text: &str) -> (r: Result<Query, EachError>)
    ensures
        match r {
            Ok(query) => query_safe(text@) && query_ok(text@) && query.text() == text@,
            Err(e) => !(query_safe(text@) && query_ok(text@)) && e is Usage && starts_with(
                e.spec_message(),
                "Invalid JMES query: "@,
            ),
        },
        !query_safe(text@) ==> (r matches Err(e) && e.spec_message() == "Invalid JMES query: "@
            + UNSAFE_QUERY@),
{
    if !is_safe_query(text) {
        let mut message = String::from_str("Invalid JMES query: ");
        message.append(UNSAFE_QUERY);
        proof {
            lemma_starts_with("Invalid JMES query: "@, UNSAFE_QUERY@);
        }
        return Err(EachError::Usage { message });
    }
    match query_compile(text) {
        Ok(expression) => Ok(Query { expression }),
        Err(e) => {
            let reason = query_error_text(&e);
            let mut message = String::from_str("Invalid JMES query: ");
            message.append(reason.as_str());
            proof {
                lemma_starts_with("Invalid JMES query: "@, reason@);
            }
            Err(EachError::Usage { message })
        },
    }
}

/// Evaluates a query over decoded data. A query that fails on the data, or
/// finds what is no JSON value, is a data error.
pub fn apply_query(query: &Query, data: &serde_json::Value) -> (r: Result<
    serde_json::Value,
    EachError,
>)
    ensures
        match query_found(query.text(), tree_of(*data)) {
            Some(Some(found)) => r matches Ok(v) && tree_of(v) == found,
            Some(None) => r matches Err(e) && e is Data && starts_with(
                e.spec_message(),
                "Error converting query result to JSON value: "@,
            ),
            None => r matches Err(e) && e is Data && starts_with(
                e.spec_message(),
                "Error evaluating JMES query: "@,
            ),
        },
{
    proof {
        use_type_invariant(query);
    }
    let found = match query_search(&query.expression, data) {
        Ok(found) => found,
        Err(e) => {
            let reason = query_error_text(&e);
            let mut message = String::from_str("Error evaluating JMES query: ");
            message.append(reason.as_str());
            proof {
                lemma_starts_with("Error evaluating JMES query: "@, reason@);
            }
            return Err(EachError::Data { message });
        },
    };
    match variable_value(&found) {
        Ok(v) => Ok(v),
        Err(e) => {
            let reason = error_text(&e);
            let mut message = String::from_str("Error converting query result to JSON value: ");
            message.append(reason.as_str());
            proof {
                lemma_starts_with("Error converting query result to JSON value: "@, reason@);
            }
            Err(EachError::Data { message })
        },
    }
}

} // verus!
