//! HTML job descriptions turned into text by the `html2text` crate.

use crate::budget::opt_string_view;
use crate::text::{chars_of, string_of, trim, trim_vec};
use vstd::prelude::*;

verus! {

#[verifier::external_type_specification]
#[verifier::external_body]
pub struct ExHtml2TextError(html2text::Error);

/// Columns the text is wrapped to.
pub const HTML_TO_MD_WIDTH: usize = 120;

/// Name for the text `html2text::from_read` renders from `html` at `width`
/// columns: nothing when it fails.
pub uninterp spec fn html2text_result(html: Seq<char>, width: usize) -> Option<Seq<char>>;

/// `html2text::from_read` over the bytes of `html`. The contract names the
/// result; the rendering rules of the crate are not restated.
///
/// No input needs to be ruled out. The `unwrap` of a character's display
/// width in `flush_word_hard_wrap` (render/text_renderer.rs) walks only the
/// pieces of the current word, and `add_text` pushes a character into that
/// word only inside `if let Some(cwidth) = UnicodeWidthChar::width(c)`, in
/// both of its branches; `add_element` adds only fragment markers. A control
/// character, whose width is `None` (unicode-width, `single_char_width`), is
/// therefore dropped before it can reach the `unwrap`. A width too narrow
/// for a character comes back as an error, not a panic.
#[verifier::external_body]
fn html_to_text(html: &str, width: usize) -> (r: Result<String, html2text::Error>)
    ensures
        match r {
            Ok(t) => html2text_result(html@, width) == Some(t@),
            Err(_) => html2text_result(html@, width) is None,
        },
{
    html2text::from_read(html.as_bytes(), width)
}

/// The trimmed text of `html`; nothing for blank HTML, a failed rendering
/// or blank text.
pub open spec fn html_to_md_spec(html: Seq<char>) -> Option<Seq<char>> {
    if trim(html).len() == 0 {
        None
    } else {
        match html2text_result(html, HTML_TO_MD_WIDTH) {
            None => None,
            Some(t) => if trim(t).len() == 0 {
                None
            } else {
                Some(trim(t))
            },
        }
    }
}

pub fn html_to_md(html: &str) -> (r: Option<String>)
    ensures
        opt_string_view(r) == html_to_md_spec(html@),
{
    if trim_vec(&chars_of(html)).len() == 0 {
        return None;
    }
    match html_to_text(html, HTML_TO_MD_WIDTH) {
        Err(_) => None,
        Ok(t) => {
            let tt = trim_vec(&chars_of(t.as_str()));
            if tt.len() == 0 {
                None
            } else {
                Some(string_of(&tt))
            }
        },
    }
}

/// `html_to_md`, or the empty string where it gives nothing.
pub open spec fn html_to_md_or_empty(html: Seq<char>) -> Seq<char> {
    match html_to_md_spec(html) {
        Some(t) => t,
        None => Seq::empty(),
    }
}

pub fn html_to_md_or_default(html: &str) -> (r: String)
    ensures
        r@ == html_to_md_or_empty(html@),
{
    match html_to_md(html) {
        Some(t) => t,
        None => String::new(),
    }
}

} // verus!
