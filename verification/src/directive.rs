//! The directive syntax: `<method>::<payload>`.
//!
//! A value holds a directive exactly when it contains the separator `::`. The
//! first occurrence splits it: what stands before is the method tag, what
//! stands after, further separators included, is the payload. Nothing is
//! trimmed and nothing is escaped.

use vstd::prelude::*;
use crate::text::chars_of;

verus! {

/// A value split at its first separator.
#[derive(Clone, Debug, PartialEq, Eq)]
pub struct Directive {
    pub method: String,
    pub payload: String,
}

/// The mathematical content of a [`Directive`].
pub struct DirectiveView {
    pub method: Seq<char>,
    pub payload: Seq<char>,
}

impl View for Directive {
    type V = DirectiveView;

    open spec fn view(&self) -> DirectiveView {
        DirectiveView { method: self.method@, payload: self.payload@ }
    }
}

impl DeepView for Directive {
    type V = DirectiveView;

    open spec fn deep_view(&self) -> DirectiveView {
        self.view()
    }
}

/// The load methods a tag can stand for.
#[derive(Clone, Copy, Debug, PartialEq, Eq, Structural)]
pub enum LoadMethod {
    /// `value`: the payload is the value.
    Value,
    /// `aws_sm`: the payload names a secret in the secret store.
    AwsSm,
    /// Any other tag.
    Unknown,
}

/// The separator itself.
pub open spec fn separator() -> Seq<char> {
    seq![':', ':']
}

/// The separator stands at position `i` of `s`.
pub open spec fn separator_at(s: Seq<char>, i: int) -> bool {
    0 <= i && i + 1 < s.len() && s[i] == ':' && s[i + 1] == ':'
}

/// `s` contains the separator.
pub open spec fn has_separator(s: Seq<char>) -> bool {
    exists|i: int| separator_at(s, i)
}

/// The separator stands at `i` and nowhere before.
pub open spec fn is_first_separator(s: Seq<char>, i: int) -> bool {
    separator_at(s, i) && forall|j: int| 0 <= j < i ==> !separator_at(s, j)
}

/// The position of the first separator of `s`, where it has one.
pub open spec fn first_separator(s: Seq<char>) -> int {
    choose|i: int| is_first_separator(s, i)
}

/// The directive that `value` holds, if any.
pub open spec fn directive_of(value: Seq<char>) -> Option<DirectiveView> {
    if has_separator(value) {
        let at = first_separator(value);
        Some(DirectiveView { method: value.take(at), payload: value.skip(at + 2) })
    } else {
        None
    }
}

/// The tag of the literal method.
pub open spec fn value_tag() -> Seq<char> {
    "value"@
}

/// The tag of the secret store method.
pub open spec fn aws_sm_tag() -> Seq<char> {
    "aws_sm"@
}

/// The load method that `tag` stands for. Tags are compared as they are:
/// case matters and blanks count.
pub open spec fn load_method_of(tag: Seq<char>) -> LoadMethod {
    if tag == value_tag() {
        LoadMethod::Value
    } else if tag == aws_sm_tag() {
        LoadMethod::AwsSm
    } else {
        LoadMethod::Unknown
    }
}

/// A first separator is the only first separator.
pub proof fn lemma_first_separator_is(s: Seq<char>, i: int)
    requires
        is_first_separator(s, i),
    ensures
        has_separator(s),
        first_separator(s) == i,
{
}

/// Splits `value` at its first separator. `None` exactly when `value`
/// contains no separator.
pub fn parse(value: &str) -> (directive: Option<Directive>)
    ensures
        directive is None <==> !has_separator(value@),
        directive.deep_view() == directive_of(value@),
{
    let chars = chars_of(value);
    let n = chars.len();
    let mut i: usize = 0;
    while i < n
        invariant
            i <= n,
            n == chars.len(),
            chars@ == value@,
            forall|j: int| 0 <= j < i ==> !separator_at(value@, j),
        decreases n - i,
    {
        if n - i >= 2 && chars[i] == ':' && chars[i + 1] == ':' {
            proof {
                lemma_first_separator_is(value@, i as int);
            }
            let method = value.substring_char(0, i).to_owned();
            let payload = value.substring_char(i + 2, n).to_owned();
            return Some(Directive { method, payload });
        }
        i += 1;
    }
    None
}

impl Directive {
    /// The load method that this directive's tag stands for.
    pub fn load_method(&self) -> (method: LoadMethod)
        ensures
            method == load_method_of(self.method@),
    {
        if self.method == "value".to_owned() {
            LoadMethod::Value
        } else if self.method == "aws_sm".to_owned() {
            LoadMethod::AwsSm
        } else {
            LoadMethod::Unknown
        }
    }
}

} // verus!
