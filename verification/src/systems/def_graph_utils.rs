//! Canonical identifiers of spec instances and of streams.

use crate::systems::text::copy_opt_text;
use crate::systems::text::join3;
use crate::systems::text::join4;
use crate::systems::text::opt_chars;
use crate::systems::text::same_text;
use vstd::prelude::*;
use vstd::string::StringExecFns;

verus! {

/// One port of one spec instance: the spec, the port's tag, and the label
/// that tells apart several instances of the spec.
#[derive(Debug, PartialEq)]
pub struct SpecTagInfo {
    pub spec_name: String,
    pub tag: String,
    pub unique_spec_label: Option<String>,
}

/// The producing side of a connection.
#[derive(Debug, PartialEq)]
pub struct FromSpecAndTag {
    pub spec_name: String,
    pub output: String,
    pub unique_spec_label: Option<String>,
}

/// The consuming side of a connection.
#[derive(Debug, PartialEq)]
pub struct ToSpecAndTag {
    pub spec_name: String,
    pub input: String,
    pub has_transform: bool,
    pub unique_spec_label: Option<String>,
}

/// A `SpecTagInfo` as character sequences.
pub struct SpecTagInfoView {
    pub spec_name: Seq<char>,
    pub tag: Seq<char>,
    pub unique_spec_label: Option<Seq<char>>,
}

impl View for SpecTagInfo {
    type V = SpecTagInfoView;

    open spec fn view(&self) -> SpecTagInfoView {
        SpecTagInfoView {
            spec_name: self.spec_name@,
            tag: self.tag@,
            unique_spec_label: opt_chars(self.unique_spec_label),
        }
    }
}

impl Clone for SpecTagInfo {
    fn clone(&self) -> (r: Self)
        ensures
            r@ == self@,
    {
        SpecTagInfo {
            spec_name: self.spec_name.clone(),
            tag: self.tag.clone(),
            unique_spec_label: copy_opt_text(&self.unique_spec_label),
        }
    }
}

/// A `FromSpecAndTag` as character sequences.
pub struct FromSpecAndTagView {
    pub spec_name: Seq<char>,
    pub output: Seq<char>,
    pub unique_spec_label: Option<Seq<char>>,
}

impl View for FromSpecAndTag {
    type V = FromSpecAndTagView;

    open spec fn view(&self) -> FromSpecAndTagView {
        FromSpecAndTagView {
            spec_name: self.spec_name@,
            output: self.output@,
            unique_spec_label: opt_chars(self.unique_spec_label),
        }
    }
}

impl FromSpecAndTagView {
    /// The port that this side of a connection names.
    pub open spec fn port(self) -> SpecTagInfoView {
        SpecTagInfoView {
            spec_name: self.spec_name,
            tag: self.output,
            unique_spec_label: self.unique_spec_label,
        }
    }
}

/// A `ToSpecAndTag` as character sequences.
pub struct ToSpecAndTagView {
    pub spec_name: Seq<char>,
    pub input: Seq<char>,
    pub has_transform: bool,
    pub unique_spec_label: Option<Seq<char>>,
}

impl View for ToSpecAndTag {
    type V = ToSpecAndTagView;

    open spec fn view(&self) -> ToSpecAndTagView {
        ToSpecAndTagView {
            spec_name: self.spec_name@,
            input: self.input@,
            has_transform: self.has_transform,
            unique_spec_label: opt_chars(self.unique_spec_label),
        }
    }
}

impl ToSpecAndTagView {
    /// The port that this side of a connection names.
    pub open spec fn port(self) -> SpecTagInfoView {
        SpecTagInfoView {
            spec_name: self.spec_name,
            tag: self.input,
            unique_spec_label: self.unique_spec_label,
        }
    }
}

impl Clone for FromSpecAndTag {
    fn clone(&self) -> (r: Self)
        ensures
            r@ == self@,
    {
        FromSpecAndTag {
            spec_name: self.spec_name.clone(),
            output: self.output.clone(),
            unique_spec_label: copy_opt_text(&self.unique_spec_label),
        }
    }
}

impl Clone for ToSpecAndTag {
    fn clone(&self) -> (r: Self)
        ensures
            r@ == self@,
    {
        ToSpecAndTag {
            spec_name: self.spec_name.clone(),
            input: self.input.clone(),
            has_transform: self.has_transform,
            unique_spec_label: copy_opt_text(&self.unique_spec_label),
        }
    }
}

/// The view of an optional port description.
pub open spec fn opt_info(o: Option<SpecTagInfo>) -> Option<SpecTagInfoView> {
    match o {
        Some(s) => Some(s@),
        None => None,
    }
}

/// The label that stands for "no label".
pub open spec fn default_label() -> Seq<char> {
    "default_label"@
}

/// Whether a label tells instances apart: it is present and not the default.
pub open spec fn is_distinguishing(label: Option<Seq<char>>) -> bool {
    label is Some && label->0 != default_label()
}

/// The identifier of a spec instance: the name alone, or `name[label]` where
/// a distinguishing label is given.
pub open spec fn spec_identifier(name: Seq<char>, label: Option<Seq<char>>) -> Seq<char> {
    if is_distinguishing(label) {
        name + "["@ + label->0 + "]"@
    } else {
        name
    }
}

/// One side of a stream identifier: `name/tag`, or `name(label)/tag` where a
/// distinguishing label is given; `(*)` where the side is absent.
pub open spec fn stream_side(side: Option<SpecTagInfoView>) -> Seq<char> {
    match side {
        Some(s) => if is_distinguishing(s.unique_spec_label) {
            s.spec_name + "("@ + s.unique_spec_label->0 + ")"@ + "/"@ + s.tag
        } else {
            s.spec_name + "/"@ + s.tag
        },
        None => "(*)"@,
    }
}

/// The identifier of a stream: its two sides joined by `>>`.
pub open spec fn stream_identifier(
    from: Option<SpecTagInfoView>,
    to: Option<SpecTagInfoView>,
) -> Seq<char> {
    stream_side(from) + ">>"@ + stream_side(to)
}

/// Whether `label` is present and differs from the default label.
pub fn distinguishes(label: &Option<String>) -> (r: bool)
    ensures
        r == is_distinguishing(opt_chars(*label)),
{
    match label {
        Some(l) => !same_text(l.as_str(), "default_label"),
        None => false,
    }
}

fn render_side(side: &Option<SpecTagInfo>) -> (r: String)
    ensures
        r@ == stream_side(opt_info(*side)),
{
    match side {
        Some(s) => {
            if distinguishes(&s.unique_spec_label) {
                match &s.unique_spec_label {
                    Some(l) => {
                        let head = join4(s.spec_name.as_str(), "(", l.as_str(), ")");
                        join3(head.as_str(), "/", s.tag.as_str())
                    },
                    None => join3(s.spec_name.as_str(), "/", s.tag.as_str()),
                }
            } else {
                join3(s.spec_name.as_str(), "/", s.tag.as_str())
            }
        },
        None => String::from_str("(*)"),
    }
}

/// Generates the identifier of a stream from its producing and its consuming
/// port. Either side may be absent.
pub fn unique_stream_identifier(from: Option<SpecTagInfo>, to: Option<SpecTagInfo>) -> (r: String)
    ensures
        r@ == stream_identifier(opt_info(from), opt_info(to)),
{
    let from_str = render_side(&from);
    let to_str = render_side(&to);
    join3(from_str.as_str(), ">>", to_str.as_str())
}

/// Generates the identifier of a spec instance from its name and its label.
pub fn unique_spec_identifier(spec_name: String, unique_spec_label: Option<String>) -> (r: String)
    ensures
        r@ == spec_identifier(spec_name@, opt_chars(unique_spec_label)),
{
    if distinguishes(&unique_spec_label) {
        match &unique_spec_label {
            Some(l) => join4(spec_name.as_str(), "[", l.as_str(), "]"),
            None => spec_name,
        }
    } else {
        spec_name
    }
}

} // verus!
