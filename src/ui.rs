//! The terminal front end's selection question.
use vstd::prelude::*;

verus! {

/// A question that offers `choices` and answers with the item of the same
/// place in `items`.
pub struct QuestionText<'a, U> {
    pub name: &'a str,
    pub message: &'a str,
    pub choices: &'a Vec<String>,
    pub items: &'a Vec<U>,
}

impl<'a, U> QuestionText<'a, U> {
    pub fn new(name: &'a str, message: &'a str, choices: &'a Vec<String>, items: &'a Vec<U>) -> (r: Self)
        ensures
            r.name == name,
            r.message == message,
            r.choices == choices,
            r.items == items,
    {
        QuestionText { name, message, choices, items }
    }

    /// The item that the choice at `index` stands for, if there is one.
    pub fn pick(&self, index: usize) -> (r: Option<&'a U>)
        ensures
            index < self.items@.len() ==> r == Some(&self.items@[index as int]),
            index >= self.items@.len() ==> r is None,
    {
        let items: &'a Vec<U> = self.items;
        if index < items.len() {
            Some(&items[index])
        } else {
            None
        }
    }
}

} // verus!
