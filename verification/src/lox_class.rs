//! Classes and their instances.

use crate::environment::{bindings_view, bound, read_binding, Binding, BindingView};
use crate::expr::{Literal, Value};
use vstd::prelude::*;

verus! {

/// A class, as plain values: its name, the index of its superclass, and its
/// own methods by name.
pub struct ClassView {
    pub name: Seq<char>,
    pub superclass: Option<int>,
    pub methods: Seq<BindingView>,
}

/// An instance, as plain values: the index of its class, and its fields.
pub struct InstanceView {
    pub class: int,
    pub fields: Seq<BindingView>,
}

/// The method `name` of class `class`: its own, or else the one that the
/// nearest superclass has. The walk goes on only to a superclass of smaller
/// index.
pub open spec fn find_method(classes: Seq<ClassView>, class: int, name: Seq<char>) -> Option<
    Value,
>
    decreases class,
{
    if class < 0 || class >= classes.len() {
        None
    } else {
        match bound(classes[class].methods, name) {
            Some(method) => Some(method),
            None => match classes[class].superclass {
                Some(parent) => if 0 <= parent < class {
                    find_method(classes, parent, name)
                } else {
                    None
                },
                None => None,
            },
        }
    }
}

/// A class: its name, the index of its superclass, and its own methods.
#[derive(Debug)]
pub struct LoxClass {
    pub name: String,
    pub superclass: Option<usize>,
    pub methods: Vec<Binding>,
}

impl View for LoxClass {
    type V = ClassView;

    open spec fn view(&self) -> ClassView {
        ClassView {
            name: self.name@,
            superclass: match self.superclass {
                Some(s) => Some(s as int),
                None => None,
            },
            methods: bindings_view(self.methods@),
        }
    }
}

/// The classes, each as plain values.
pub open spec fn classes_view(classes: Seq<LoxClass>) -> Seq<ClassView> {
    Seq::new(classes.len(), |i: int| classes[i]@)
}

impl LoxClass {
    pub fn new(name: &str, superclass: Option<usize>, methods: Vec<Binding>) -> (class: LoxClass)
        ensures
            class@.name == name@,
            class.superclass == superclass,
            class.methods == methods,
    {
        LoxClass { name: String::from_str(name), superclass, methods }
    }
}

/// The method `name` of the class at `class` in `classes`.
pub fn find_method_in(classes: &Vec<LoxClass>, class: usize, name: &str) -> (found: Option<
    Literal,
>)
    ensures
        match found {
            Some(method) => find_method(classes_view(classes@), class as int, name@) == Some(
                method@,
            ),
            None => find_method(classes_view(classes@), class as int, name@) is None,
        },
{
    let mut current: usize = class;
    loop
        invariant
            find_method(classes_view(classes@), current as int, name@) == find_method(
                classes_view(classes@),
                class as int,
                name@,
            ),
        decreases current,
    {
        if current >= classes.len() {
            return None;
        }
        match read_binding(&classes[current].methods, name) {
            Some(method) => {
                return Some(method);
            },
            None => {},
        }
        match classes[current].superclass {
            Some(parent) => {
                if parent < current {
                    current = parent;
                } else {
                    return None;
                }
            },
            None => {
                return None;
            },
        }
    }
}

/// An instance: the index of its class, and its fields.
#[derive(Debug)]
pub struct LoxInstance {
    pub class: usize,
    pub fields: Vec<Binding>,
}

impl View for LoxInstance {
    type V = InstanceView;

    open spec fn view(&self) -> InstanceView {
        InstanceView { class: self.class as int, fields: bindings_view(self.fields@) }
    }
}

/// The instances, each as plain values.
pub open spec fn instances_view(instances: Seq<LoxInstance>) -> Seq<InstanceView> {
    Seq::new(instances.len(), |i: int| instances[i]@)
}

impl LoxInstance {
    /// An instance of the class at `class`, without fields.
    pub fn new(class: usize) -> (instance: LoxInstance)
        ensures
            instance@ == (InstanceView { class: class as int, fields: Seq::empty() }),
    {
        let instance = LoxInstance { class, fields: Vec::new() };
        assert(instance@.fields =~= Seq::empty());
        instance
    }
}

} // verus!
