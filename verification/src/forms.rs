//! The argument form shown before a command with missing arguments: its
//! title, its height and the value read from each field.
use vstd::prelude::*;

use crate::text::{chars_of, extend_all, string_of};

verus! {

/// What a form field holds when the form is submitted.
pub enum FieldInput {
    /// A check box and whether it is ticked.
    Check(bool),
    /// A drop-down and the index of its selected entry.
    Choice(u32),
    /// A text entry and its text.
    Text(String),
    /// Any other widget.
    Other,
}

/// The views of a list of strings.
pub open spec fn option_views(v: Seq<String>) -> Seq<Seq<char>> {
    Seq::new(v.len(), |i: int| v[i]@)
}

/// The value submitted for a field: `true` or `false` for a check box, the
/// selected option of a drop-down (empty when out of range), the text of an
/// entry, else empty.
pub fn form_field_value(input: &FieldInput, options: &[String]) -> (r: String)
    ensures
        r@ == match input {
            FieldInput::Check(b) => if *b {
                "true"@
            } else {
                "false"@
            },
            FieldInput::Choice(i) => if (*i as int) < options.len() {
                option_views(options@)[*i as int]
            } else {
                Seq::empty()
            },
            FieldInput::Text(t) => t@,
            FieldInput::Other => Seq::empty(),
        },
{
    match input {
        FieldInput::Check(b) => if *b {
            "true".to_owned()
        } else {
            "false".to_owned()
        },
        FieldInput::Choice(i) => {
            let k = *i as usize;
            if k < options.len() {
                string_of(&chars_of(options[k].as_str()))
            } else {
                String::new()
            }
        },
        FieldInput::Text(t) => string_of(&chars_of(t.as_str())),
        FieldInput::Other => String::new(),
    }
}

/// The title of the form of the command `name`.
pub fn form_panel_title(name: &str) -> (r: String)
    ensures
        r@ == name@ + " \u{2014} Fill arguments"@,
{
    let mut out = chars_of(name);
    extend_all(&mut out, &chars_of(" \u{2014} Fill arguments"));
    string_of(&out)
}

/// The height of a form with `fields` fields: 60 pixels and 60 per field.
pub fn form_panel_height(fields: usize) -> (h: i32)
    requires
        60 + 60 * fields <= i32::MAX,
    ensures
        h == 60 + 60 * fields,
{
    60 + fields as i32 * 60
}

} // verus!
