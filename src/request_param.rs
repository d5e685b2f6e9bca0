//! A named request parameter and the value sent for it.
use vstd::prelude::*;

verus! {

/// A request parameter; with no value it is left out of the request.
#[derive(Debug)]
pub struct RequestParam {
    pub name: String,
    pub value: Option<String>,
}

/// The text of an optional string.
pub open spec fn opt_view(o: Option<String>) -> Option<Seq<char>> {
    match o {
        Some(s) => Some(s@),
        None => None,
    }
}

impl View for RequestParam {
    type V = (Seq<char>, Option<Seq<char>>);

    open spec fn view(&self) -> (Seq<char>, Option<Seq<char>>) {
        (self.name@, opt_view(self.value))
    }
}

impl RequestParam {
    /// A parameter sent with the given value.
    pub fn new(name: &str, value: &str) -> (r: Self)
        ensures
            r.name@ == name@,
            r.value matches Some(v) && v@ == value@,
    {
        RequestParam { name: String::from_str(name), value: Some(String::from_str(value)) }
    }

    /// A parameter whose value may be absent.
    pub fn new2(name: &str, value: Option<String>) -> (r: Self)
        ensures
            r.name@ == name@,
            r.value == value,
    {
        RequestParam { name: String::from_str(name), value }
    }

    /// A copy that holds the same name and value.
    pub fn duplicate(&self) -> (r: Self)
        ensures
            r == *self,
    {
        let value = match &self.value {
            Some(v) => Some(v.clone()),
            None => None,
        };
        RequestParam { name: self.name.clone(), value }
    }

    /// Whether two parameters hold the same name and value.
    pub fn same(&self, other: &Self) -> (r: bool)
        ensures
            r == (self@ == other@),
    {
        if self.name != other.name {
            return false;
        }
        match (&self.value, &other.value) {
            (Some(a), Some(b)) => *a == *b,
            (None, None) => true,
            _ => false,
        }
    }
}

} // verus!
