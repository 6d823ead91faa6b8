//! The fonts that the settings ask for.

use vstd::prelude::*;
use vstd::string::*;

verus! {

/// The fonts of the window and of code.
pub struct FontFamilies {
    pub ui: String,
    pub code: String,
}

/// The named font, or the bundled one where none is named.
pub open spec fn named_or(name: Seq<char>, bundled: Seq<char>) -> Seq<char> {
    if name.len() == 0 {
        bundled
    } else {
        name
    }
}

fn choose_font(name: &String, bundled: &String) -> (r: String)
    ensures
        r@ == named_or(name@, bundled@),
{
    if name.as_str().is_empty() {
        bundled.clone()
    } else {
        name.clone()
    }
}

/// The fonts that the settings ask for; an empty name asks for the bundled font.
pub fn font_families_from(ui_font_family: &String, code_font_family: &String, bundled: &FontFamilies) -> (fonts: FontFamilies)
    ensures
        fonts.ui@ == named_or(ui_font_family@, bundled.ui@),
        fonts.code@ == named_or(code_font_family@, bundled.code@),
{
    FontFamilies {
        ui: choose_font(ui_font_family, &bundled.ui),
        code: choose_font(code_font_family, &bundled.code),
    }
}

/// Whether fonts have to be put in place: there are some, and they are not the ones in place.
pub fn refresh_font_settings(current: &Option<FontFamilies>, next: &Option<FontFamilies>) -> (b: bool)
    ensures
        b == match (*current, *next) {
            (_, None) => false,
            (None, Some(_)) => true,
            (Some(now), Some(fonts)) => now.ui@ != fonts.ui@ || now.code@ != fonts.code@,
        },
{
    match (current, next) {
        (_, None) => false,
        (None, Some(_)) => true,
        (Some(now), Some(fonts)) => now.ui != fonts.ui || now.code != fonts.code,
    }
}

/// A font that is named is the one that is used; only without a name the bundled one is.
pub proof fn named_fonts_are_used(name: Seq<char>, bundled: Seq<char>)
    ensures
        name.len() > 0 ==> named_or(name, bundled) == name,
        named_or(Seq::empty(), bundled) == bundled,
{
}

} // verus!
