//! A neutral description of what a command shows, which the front end
//! renders either for people (`Human`) or for scripts (`Porcelain`).

use vstd::prelude::*;
use crate::model::Step;
use crate::text::{cat4, substring};

verus! {

/// What a command shows.
#[derive(Debug)]
pub enum Presentation {
    Empty,
    Plain(String),
    Heading(String),
    Field { label: String, value: String },
    Section { title: String, children: Vec<Presentation> },
    Table { name: Option<String>, rows: Vec<Vec<String>> },
    Record(Vec<String>),
    List(Vec<Presentation>),
    Human(Box<Presentation>),
    Porcelain(Box<Presentation>),
}

/// The first seven characters of an object name, or all of it when shorter.
pub open spec fn short_oid(oid: Seq<char>) -> Seq<char> {
    if oid.len() >= 7 { oid.take(7) } else { oid }
}

/// A value that can describe itself for display.
pub trait ToPresentation {
    fn to_presentation(&self) -> Presentation;
}

/// Marks the values that commands print through their presentation.
pub trait UsePresentation: ToPresentation {
}

impl<T: ToPresentation> ToPresentation for Vec<T> {
    /// A list holding the presentation of each element, in order.
    fn to_presentation(&self) -> (p: Presentation)
        ensures
            p matches Presentation::List(items) && items@.len() == self@.len(),
    {
        let mut items: Vec<Presentation> = Vec::new();
        let mut i: usize = 0;
        while i < self.len()
            invariant
                i <= self@.len(),
                items@.len() == i,
            decreases self@.len() - i,
        {
            items.push(self[i].to_presentation());
            i = i + 1;
        }
        Presentation::List(items)
    }
}

impl ToPresentation for Step {
    /// For people, the step's name and the first seven characters of its cut;
    /// for scripts, its id, name and cut.
    fn to_presentation(&self) -> (p: Presentation)
        ensures
            p matches Presentation::List(items) && items@.len() == 2
                && (items@[0] matches Presentation::Human(h) && (*h matches Presentation::Plain(t)
                    && t@ == self.name@ + " ("@ + short_oid(self.cut@) + ")"@))
                && (items@[1] matches Presentation::Porcelain(b) && (*b matches Presentation::Record(v)
                    && v@.len() == 3 && v@[0]@ == self.id@ && v@[1]@ == self.name@
                    && v@[2]@ == self.cut@)),
    {
        let short = if self.cut.as_str().unicode_len() >= 7 {
            substring(self.cut.as_str(), 0, 7)
        } else {
            self.cut.clone()
        };
        let line = cat4(self.name.as_str(), " (", short.as_str(), ")");
        let human = Presentation::Human(Box::new(Presentation::Plain(line)));
        let record = Presentation::Porcelain(Box::new(Presentation::Record(
            vec![self.id.clone(), self.name.clone(), self.cut.clone()],
        )));
        Presentation::List(vec![human, record])
    }
}

impl UsePresentation for Step {
}

} // verus!
