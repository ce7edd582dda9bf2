//! The data that JavaScript scripts work with: handles to script variables,
//! and the command library's description of the commands they can call.

use vstd::prelude::*;

verus! {

/// A value that identifies a particular variable accessible from a script.
#[derive(Clone, Copy, PartialEq, Eq, Structural, Debug)]
pub enum VarHandle {
    Local(usize),
    Global(isize),
}

/// The command library: its description, its extensions and its classes.
#[derive(Clone, Debug, Default, PartialEq, Eq)]
pub struct Root {
    pub meta: Meta,
    pub extensions: Vec<Extension>,
    pub classes: Vec<Class>,
}

/// When and where the command library was published.
#[derive(Clone, Debug, Default, PartialEq, Eq)]
pub struct Meta {
    pub last_update: i64,
    pub version: String,
    pub url: String,
}

/// A named group of commands.
#[derive(Clone, Debug, Default, PartialEq, Eq)]
pub struct Extension {
    pub name: String,
    pub commands: Vec<Command>,
}

/// A command as the library describes it.
#[derive(Clone, Debug, Default, PartialEq, Eq)]
pub struct Command {
    pub id: String,
    pub name: String,
    pub num_params: i64,
    pub short_desc: Option<String>,
    pub attrs: Option<Attrs>,
    pub input: Vec<IoValue>,
    pub class: Option<String>,
    pub member: Option<String>,
    pub output: Vec<IoValue>,
    pub platforms: Vec<String>,
    pub versions: Vec<String>,
}

/// The flags that the library may set on a command.
#[derive(Clone, Copy, Debug, Default, PartialEq, Eq)]
pub struct Attrs {
    pub is_static: Option<bool>,
    pub is_condition: Option<bool>,
    pub is_overload: Option<bool>,
    pub is_keyword: Option<bool>,
    pub is_variadic: Option<bool>,
    pub is_nop: Option<bool>,
    pub is_destructor: Option<bool>,
    pub is_constructor: Option<bool>,
    pub is_unsupported: Option<bool>,
    pub is_branch: Option<bool>,
    pub is_segment: Option<bool>,
}

/// A parameter or result of a command.
#[derive(Clone, Debug, Default, PartialEq, Eq)]
pub struct IoValue {
    pub name: String,
    pub value_kind: String,
    pub source: Option<String>,
}

/// A class of the command library.
#[derive(Clone, Debug, Default, PartialEq, Eq)]
pub struct Class {
    pub name: String,
    pub constructable: bool,
    pub desc: String,
    pub extends: Option<String>,
}

} // verus!
