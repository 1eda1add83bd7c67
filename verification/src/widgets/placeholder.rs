//! A stand-in for a widget type that has nothing to show.
use vstd::prelude::*;

use crate::text::str_eq;

verus! {

broadcast use vstd::string::group_string_axioms;

#[derive(Debug)]
pub struct PlaceholderWidget {
    pub id: String,
    pub widget_type: String,
}

impl PlaceholderWidget {
    pub fn new(id: String, widget_type: String) -> (r: Self)
        ensures
            r.id == id,
            r.widget_type == widget_type,
    {
        PlaceholderWidget { id, widget_type }
    }

    pub fn id(&self) -> (r: &str)
        ensures
            r@ == self.id@,
    {
        self.id.as_str()
    }

    /// The name shown is the widget type.
    pub fn name(&self) -> (r: &str)
        ensures
            r@ == self.widget_type@,
    {
        self.widget_type.as_str()
    }

    pub fn widget_type(&self) -> (r: &str)
        ensures
            r@ == self.widget_type@,
    {
        self.widget_type.as_str()
    }

    /// The text drawn: the widget type, followed by the instance id in
    /// parentheses when they differ.
    pub fn label(&self) -> (r: String)
        ensures
            r@ == (if self.id@ == self.widget_type@ {
                self.widget_type@
            } else {
                self.widget_type@ + " ("@ + self.id@ + ")"@
            }),
    {
        if str_eq(self.id.as_str(), self.widget_type.as_str()) {
            return self.widget_type.clone();
        }
        let mut out: Vec<char> = Vec::new();
        crate::widgets::util::push_str_chars(&mut out, self.widget_type.as_str());
        crate::widgets::util::push_str_chars(&mut out, " (");
        crate::widgets::util::push_str_chars(&mut out, self.id.as_str());
        crate::widgets::util::push_str_chars(&mut out, ")");
        assert(out@ =~= self.widget_type@ + " ("@ + self.id@ + ")"@);
        crate::text::string_from_chars(&out)
    }
}

} // verus!
