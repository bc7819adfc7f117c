use nu_ansi_term::{Color, Style};
use vstd::prelude::*;

verus! {

#[verifier::external_type_specification]
#[verifier::external_body]
pub struct ExStyle(Style);

/// The escape sequence that resets all styling.
pub open spec fn ansi_reset() -> Seq<char> {
    seq!['\u{1b}', '[', '0', 'm']
}

/// Relies on nu_ansi_term::ansi::RESET, the code that resets all styles.
#[verifier::external_body]
pub(crate) fn reset_code() -> (r: String)
    ensures
        r@ == ansi_reset(),
{
    nu_ansi_term::ansi::RESET.to_string()
}

/// Relies on nu_ansi_term's Style::prefix: the codes written before styled text.
#[verifier::external_body]
pub(crate) fn style_prefix(style: &Style) -> (r: String) {
    style.prefix().to_string()
}

/// Relies on nu_ansi_term's Color::bold and Style::reverse: green, bold and reversed.
#[verifier::external_body]
fn selected_style_default() -> (r: Style) {
    Color::Green.bold().reverse()
}

/// Relies on nu_ansi_term's Color::normal: dark gray foreground.
#[verifier::external_body]
fn text_style_default() -> (r: Style) {
    Color::DarkGray.normal()
}

/// Styles of the menu's cells.
pub struct MenuTextStyle {
    pub selected_text_style: Style,
    pub text_style: Style,
}

impl Default for MenuTextStyle {
    fn default() -> (r: MenuTextStyle) {
        MenuTextStyle {
            selected_text_style: selected_style_default(),
            text_style: text_style_default(),
        }
    }
}

} // verus!
