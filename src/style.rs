//! ANSI colour and emphasis helpers.

use vstd::prelude::*;

verus! {

/// The escape sequence that switches to display attribute `code`.
pub open spec fn sgr(code: Seq<char>) -> Seq<char> {
    seq!['\u{1b}', '['] + code + seq!['m']
}

/// The escape sequence that resets all display attributes.
pub open spec fn reset_seq() -> Seq<char> {
    seq!['\u{1b}', '[', '0', 'm']
}

/// `text` shown with display attribute `code`, then reset.
pub open spec fn painted(code: Seq<char>, text: Seq<char>) -> Seq<char> {
    sgr(code) + text + reset_seq()
}

pub open spec fn red_code() -> Seq<char> {
    seq!['3', '1']
}

pub open spec fn green_code() -> Seq<char> {
    seq!['3', '2']
}

pub open spec fn blue_code() -> Seq<char> {
    seq!['3', '4']
}

pub open spec fn bold_code() -> Seq<char> {
    seq!['1']
}

/// The text of a list of strings as Rust's `{:?}` formatting writes a slice
/// of them.
pub uninterp spec fn debug_list_text(items: Seq<Seq<char>>) -> Seq<char>;

/// The views of the strings of an optional parameter list.
pub open spec fn params_view(params: Option<&[&str]>) -> Option<Seq<Seq<char>>> {
    match params {
        Some(p) => Some(p@.map_values(|s: &str| s@)),
        None => None,
    }
}

/// What a colour helper shows: the text alone, or the text, a space and the
/// debug form of the parameters.
pub open spec fn label(text: Seq<char>, params: Option<Seq<Seq<char>>>) -> Seq<char> {
    match params {
        Some(p) => text + seq![' '] + debug_list_text(p),
        None => text,
    }
}

/// Relies on `format!("{:?}", ..)` over a slice of `&str`: the result depends
/// on the strings alone.
#[verifier::external_body]
fn debug_list(p: &[&str]) -> (r: String)
    ensures
        r@ == debug_list_text(p@.map_values(|s: &str| s@)),
{
    format!("{:?}", p)
}

fn colored(code: &str, text: &str, params: Option<&[&str]>) -> (r: String)
    ensures
        r@ == painted(code@, label(text@, params_view(params))),
{
    proof {
        reveal_strlit("\x1b[");
        reveal_strlit("m");
        reveal_strlit(" ");
        reveal_strlit("\x1b[0m");
    }
    let mut out = String::from_str("\x1b[");
    out.append(code);
    out.append("m");
    out.append(text);
    match params {
        Some(p) => {
            let listed = debug_list(p);
            out.append(" ");
            out.append(listed.as_str());
        },
        None => {},
    }
    out.append("\x1b[0m");
    assert(out@ =~= painted(code@, label(text@, params_view(params))));
    out
}

/// `text` (followed by the debug form of `params`, if any) in red.
pub fn red(text: &str, params: Option<&[&str]>) -> (r: String)
    ensures
        r@ == painted(red_code(), label(text@, params_view(params))),
{
    proof {
        reveal_strlit("31");
    }
    colored("31", text, params)
}

/// `text` (followed by the debug form of `params`, if any) in green.
pub fn green(text: &str, params: Option<&[&str]>) -> (r: String)
    ensures
        r@ == painted(green_code(), label(text@, params_view(params))),
{
    proof {
        reveal_strlit("32");
    }
    colored("32", text, params)
}

/// `text` (followed by the debug form of `params`, if any) in blue.
pub fn blue(text: &str, params: Option<&[&str]>) -> (r: String)
    ensures
        r@ == painted(blue_code(), label(text@, params_view(params))),
{
    proof {
        reveal_strlit("34");
    }
    colored("34", text, params)
}

/// `text` in bold.
pub fn bold(text: &str) -> (r: String)
    ensures
        r@ == painted(bold_code(), text@),
{
    proof {
        reveal_strlit("1");
    }
    colored("1", text, None)
}

} // verus!
