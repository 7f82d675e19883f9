//! Argument descriptors: what a command expects to find among its tokens.

use vstd::prelude::*;

verus! {

/// A value that is found by its place among the tokens that are no flags.
#[derive(Debug, Clone, Copy)]
pub struct Positional<'a> {
    name: &'a str,
}

/// What a named descriptor holds: its long name and its one-letter switch.
pub struct NamedView {
    pub name: Seq<char>,
    pub switch: Option<char>,
}

/// A flag, present or absent, written `--name` or `-c`.
#[derive(Debug, Clone, Copy)]
pub struct Flag<'a> {
    name: &'a str,
    switch: Option<char>,
}

/// An option, written `--name` or `-c`, whose value is the token after it.
#[derive(Debug, Clone, Copy)]
pub struct Optional<'a> {
    name: &'a str,
    switch: Option<char>,
}

impl<'a> View for Positional<'a> {
    type V = Seq<char>;

    closed spec fn view(&self) -> Seq<char> {
        self.name@
    }
}

impl<'a> View for Flag<'a> {
    type V = NamedView;

    closed spec fn view(&self) -> NamedView {
        NamedView { name: self.name@, switch: self.switch }
    }
}

impl<'a> View for Optional<'a> {
    type V = NamedView;

    closed spec fn view(&self) -> NamedView {
        NamedView { name: self.name@, switch: self.switch }
    }
}

impl<'a> Positional<'a> {
    /// A positional called `name` in messages.
    pub fn new(name: &'a str) -> (r: Self)
        ensures
            r@ == name@,
    {
        Self { name }
    }

    /// The name given to `new`.
    pub fn get_name(&self) -> (r: &'a str)
        ensures
            r@ == self@,
    {
        self.name
    }
}

impl<'a> Flag<'a> {
    /// A flag with the long name `name` and no switch.
    pub fn new(name: &'a str) -> (r: Self)
        ensures
            r@ == (NamedView { name: name@, switch: None }),
    {
        Self { name, switch: None }
    }

    /// Gives the flag the one-letter switch `c`.
    pub fn switch(self, c: char) -> (r: Self)
        ensures
            r@ == (NamedView { name: self@.name, switch: Some(c) }),
    {
        Self { name: self.name, switch: Some(c) }
    }

    /// The long name.
    pub fn get_name(&self) -> (r: &'a str)
        ensures
            r@ == self@.name,
    {
        self.name
    }

    /// The switch, if the flag has one.
    pub fn get_switch(&self) -> (r: Option<char>)
        ensures
            r == self@.switch,
    {
        self.switch
    }
}

impl<'a> Optional<'a> {
    /// An option with the long name `name` and no switch.
    pub fn new(name: &'a str) -> (r: Self)
        ensures
            r@ == (NamedView { name: name@, switch: None }),
    {
        Self { name, switch: None }
    }

    /// Gives the option the one-letter switch `c`.
    pub fn switch(self, c: char) -> (r: Self)
        ensures
            r@ == (NamedView { name: self@.name, switch: Some(c) }),
    {
        Self { name: self.name, switch: Some(c) }
    }

    /// The long name.
    pub fn get_name(&self) -> (r: &'a str)
        ensures
            r@ == self@.name,
    {
        self.name
    }

    /// The switch, if the option has one.
    pub fn get_switch(&self) -> (r: Option<char>)
        ensures
            r == self@.switch,
    {
        self.switch
    }
}

} // verus!
