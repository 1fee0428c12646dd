//! Colour names of the configuration, resolved to terminal colours.

use vstd::prelude::*;

verus! {

/// The type `colored::Color`, which is carried through as it is: nothing
/// is known of what a value of it holds.
#[verifier::external_type_specification]
#[verifier::external_body]
pub struct ExColor(colored::Color);

/// Whether `name` is a colour name: whether `colored::Color::from_str`
/// finds a colour for it.
pub uninterp spec fn is_color_name(name: Seq<char>) -> bool;

/// Resolves a colour name with `colored::Color::from_str`, which lowers the
/// name's case and looks it up in a fixed table of sixteen colours (and
/// `purple` for magenta). `None` stands for its error, which it gives for
/// every other name. Whether there is a colour depends on the name alone;
/// nothing is claimed of which colour it is.
#[verifier::external_body]
pub(crate) fn color_named(name: &str) -> (c: Option<colored::Color>)
    ensures
        c is Some <==> is_color_name(name@),
{
    name.parse::<colored::Color>().ok()
}

} // verus!
