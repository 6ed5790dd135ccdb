//! The single command-line argument: what it asks the loader to do.
use vstd::prelude::*;
use crate::activation::PluginKind;
use crate::text::{chars_of, ends_with_chars, has_suffix, trim_quotes, trim_quotes_of};

verus! {

/// What one invocation asks for.
#[derive(Clone, Debug, PartialEq, Eq)]
pub enum Invocation {
    /// Discover and activate plugins of every kind, once.
    ActivateAll,
    /// Activate one plugin file of the given kind.
    LoadPlugin { kind: PluginKind, path: String },
    /// An argument of no recognised form.
    Unsupported,
}

pub enum InvocationModel {
    ActivateAll,
    LoadPlugin { kind: PluginKind, path: Seq<char> },
    Unsupported,
}

impl View for Invocation {
    type V = InvocationModel;

    open spec fn view(&self) -> InvocationModel {
        match self {
            Invocation::ActivateAll => InvocationModel::ActivateAll,
            Invocation::LoadPlugin { kind, path } => InvocationModel::LoadPlugin {
                kind: *kind,
                path: path@,
            },
            Invocation::Unsupported => InvocationModel::Unsupported,
        }
    }
}

/// What `str::to_lowercase` makes of a text.
pub uninterp spec fn lowercase_of(s: Seq<char>) -> Seq<char>;

/// Relies on `str::to_lowercase`: the result depends on the characters alone.
#[verifier::external_body]
pub(crate) fn lowercase(s: &str) -> (r: String)
    ensures
        r@ == lowercase_of(s@),
{
    s.to_lowercase()
}

/// The invocation that an argument asks for, given the argument in lower
/// case: the word `main`, or a path by its extension; the path loses the
/// double quotes at its ends.
pub open spec fn invocation_of(lowered: Seq<char>, input: Seq<char>) -> InvocationModel {
    if lowered == "main"@ {
        InvocationModel::ActivateAll
    } else if has_suffix(lowered, ".ce"@) {
        InvocationModel::LoadPlugin { kind: PluginKind::Ce, path: trim_quotes(input) }
    } else if has_suffix(lowered, ".7z"@) {
        InvocationModel::LoadPlugin { kind: PluginKind::Edgeless, path: trim_quotes(input) }
    } else if has_suffix(lowered, ".hpm"@) {
        InvocationModel::LoadPlugin { kind: PluginKind::Hpm, path: trim_quotes(input) }
    } else {
        InvocationModel::Unsupported
    }
}

fn ends_with_lit(s: &Vec<char>, lit: &str) -> (b: bool)
    ensures
        b == has_suffix(s@, lit@),
{
    let l = chars_of(lit);
    ends_with_chars(s, &l)
}

/// The invocation that an argument asks for, given also its lower-case form.
pub fn classify_lowered(lowered: &str, input: &str) -> (r: Invocation)
    ensures
        r@ == invocation_of(lowered@, input@),
{
    let low = chars_of(lowered);
    let main = chars_of("main");
    if crate::content::chars_equal(&low, &main) {
        Invocation::ActivateAll
    } else if ends_with_lit(&low, ".ce") {
        Invocation::LoadPlugin { kind: PluginKind::Ce, path: trim_quotes_of(input) }
    } else if ends_with_lit(&low, ".7z") {
        Invocation::LoadPlugin { kind: PluginKind::Edgeless, path: trim_quotes_of(input) }
    } else if ends_with_lit(&low, ".hpm") {
        Invocation::LoadPlugin { kind: PluginKind::Hpm, path: trim_quotes_of(input) }
    } else {
        Invocation::Unsupported
    }
}

/// The invocation that an argument asks for; letter case does not matter.
pub fn classify_input(input: &str) -> (r: Invocation)
    ensures
        r@ == invocation_of(lowercase_of(input@), input@),
{
    let lowered = lowercase(input);
    classify_lowered(lowered.as_str(), input)
}

} // verus!
