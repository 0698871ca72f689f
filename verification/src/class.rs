//! Classes and their instances. Both live in tables and are named by their
//! index. A class never changes once it is made, and its superclass is
//! always an older class, so the superclass links cannot form a cycle. An
//! instance knows its class but no class knows its instances.

use vstd::prelude::*;

use crate::environment::Environment;
use crate::error::{failure, undefined_property, undefined_property_error, InterpreterError};
use crate::function::{bound_scopes, Function};
use crate::lox_type::{LoxType, Value};
use crate::table::Table;
use crate::token::Token;

verus! {

/// A class: its name, its superclass if it has one, and its own methods.
pub struct LoxClass {
    name: String,
    superclass: Option<usize>,
    methods: Table<Function>,
}

/// What a class holds.
pub ghost struct ClassView {
    pub name: Seq<char>,
    pub superclass: Option<usize>,
    pub methods: Map<Seq<char>, Function>,
}

impl View for LoxClass {
    type V = ClassView;

    closed spec fn view(&self) -> ClassView {
        ClassView { name: self.name@, superclass: self.superclass, methods: self.methods@ }
    }
}

/// What the classes of a table hold.
pub open spec fn class_views(classes: Seq<LoxClass>) -> Seq<ClassView> {
    classes.map_values(|class: LoxClass| class@)
}

/// Every superclass is older than its subclass.
pub open spec fn classes_wf(classes: Seq<ClassView>) -> bool {
    forall|i: int|
        0 <= i < classes.len() ==> ((#[trigger] classes[i]).superclass matches Some(s) ==> s < i)
}

/// The method `name` of class `class`: its own, or else the one that its
/// superclass finds.
pub open spec fn find_method(
    classes: Seq<ClassView>,
    class: int,
    name: Seq<char>,
) -> Option<Function>
    decreases class,
{
    if class < 0 || class >= classes.len() {
        None
    } else if classes[class].methods.contains_key(name) {
        Some(classes[class].methods[name])
    } else {
        match classes[class].superclass {
            Some(s) => if s < class {
                find_method(classes, s as int, name)
            } else {
                None
            },
            None => None,
        }
    }
}

impl LoxClass {
    /// The class `name` with the given superclass and methods.
    pub fn new(name: &str, superclass: Option<usize>, methods: Table<Function>) -> (class: Self)
        ensures
            class@ == (ClassView { name: name@, superclass, methods: methods@ }),
    {
        LoxClass { name: String::from_str(name), superclass, methods }
    }

    /// The name of the class.
    pub fn name(&self) -> (name: &String)
        ensures
            name@ == self@.name,
    {
        &self.name
    }

    /// The superclass, if the class has one.
    pub fn superclass(&self) -> (superclass: Option<usize>)
        ensures
            superclass == self@.superclass,
    {
        self.superclass
    }

    /// Looks for the method `name` in the class of index `class` and, where
    /// that class has none of the name, in its superclasses, nearest first.
    pub fn find_method(
        classes: &Vec<LoxClass>,
        class: usize,
        name: &str,
    ) -> (method: Option<Function>)
        requires
            classes_wf(class_views(classes@)),
            class < classes.len(),
        ensures
            method == find_method(class_views(classes@), class as int, name@),
    {
        let mut current = class;
        loop
            invariant
                classes_wf(class_views(classes@)),
                current < classes.len(),
                find_method(class_views(classes@), class as int, name@) == find_method(
                    class_views(classes@),
                    current as int,
                    name@,
                ),
            decreases current,
        {
            assert(class_views(classes@)[current as int] == classes[current as int]@);
            match classes[current].methods.get(name) {
                Some(function) => {
                    return Some(*function);
                },
                None => {},
            }
            match classes[current].superclass {
                Some(s) => {
                    current = s;
                },
                None => {
                    return None;
                },
            }
        }
    }
}

/// An instance: its class and its own fields.
pub struct LoxInstance {
    class: usize,
    fields: Table<LoxType>,
}

/// What an instance holds.
pub ghost struct InstanceView {
    pub class: usize,
    pub fields: Map<Seq<char>, Value>,
}

impl View for LoxInstance {
    type V = InstanceView;

    closed spec fn view(&self) -> InstanceView {
        InstanceView { class: self.class, fields: self.fields@ }
    }
}

/// What the instances of a table hold.
pub open spec fn instance_views(instances: Seq<LoxInstance>) -> Seq<InstanceView> {
    instances.map_values(|instance: LoxInstance| instance@)
}

impl LoxInstance {
    /// An instance of `class` without fields.
    pub fn new(class: usize) -> (instance: Self)
        ensures
            instance@ == (InstanceView { class, fields: Map::empty() }),
    {
        LoxInstance { class, fields: Table::new() }
    }

    /// The class of the instance.
    pub fn class(&self) -> (class: usize)
        ensures
            class == self@.class,
    {
        self.class
    }

    /// Reads the property `name`. A field of the instance comes first; where
    /// there is none of that name, the method that the instance's class
    /// finds is bound to `object` (the value that stands for this instance)
    /// and returned. Where there is neither, the read fails.
    pub fn get(
        &self,
        name: &Token,
        object: &LoxType,
        classes: &Vec<LoxClass>,
        environment: &mut Environment,
    ) -> (property: Result<LoxType, InterpreterError>)
        requires
            old(environment).wf(),
            classes_wf(class_views(classes@)),
            self@.class < classes.len(),
            forall|function: Function|
                find_method(class_views(classes@), self@.class as int, name.lexeme@) == Some(function)
                    ==> (function matches Function::User { closure, .. } && closure < old(
                    environment,
                )@.len()),
        ensures
            final(environment).wf(),
            if self@.fields.contains_key(name.lexeme@) {
                &&& property matches Ok(value)
                &&& value@ == self@.fields[name.lexeme@]
                &&& final(environment)@ == old(environment)@
            } else {
                match find_method(class_views(classes@), self@.class as int, name.lexeme@) {
                    Some(Function::User { declaration, closure, is_initializer }) => {
                        &&& property matches Ok(value)
                        &&& value@ == Value::Callable(
                            Function::User {
                                declaration,
                                closure: old(environment)@.len() as usize,
                                is_initializer,
                            },
                        )
                        &&& final(environment)@ == bound_scopes(old(environment)@, closure, object@)
                    },
                    Some(Function::Native { .. }) => false,
                    None => {
                        &&& property matches Err(error)
                        &&& error@ == failure(Some(*name), undefined_property(name.lexeme@))
                        &&& final(environment)@ == old(environment)@
                    },
                }
            },
    {
        match self.fields.get(name.lexeme.as_str()) {
            Some(value) => Ok(value.clone()),
            None => match LoxClass::find_method(classes, self.class, name.lexeme.as_str()) {
                Some(method) => Ok(LoxType::Callable(method.bind(environment, object.clone()))),
                None => Err(undefined_property_error(name)),
            },
        }
    }

    /// Writes the field `name`, making it if the instance has none of that
    /// name. Methods of the class are not touched.
    pub fn set(&mut self, name: &Token, value: LoxType)
        ensures
            final(self)@ == (InstanceView {
                class: old(self)@.class,
                fields: old(self)@.fields.insert(name.lexeme@, value@),
            }),
    {
        self.fields.insert(name.lexeme.clone(), value);
    }
}

} // verus!
