//! String identity values: namespace names, table names, partition keys.

use vstd::prelude::*;

verus! {

/// The string name of a namespace; equality is string equality.
#[derive(Debug)]
pub struct NamespaceName {
    name: String,
}

impl View for NamespaceName {
    type V = Seq<char>;

    closed spec fn view(&self) -> Seq<char> {
        self.name@
    }
}

impl NamespaceName {
    pub fn new(name: String) -> (r: Self)
        ensures
            r@ == name@,
    {
        NamespaceName { name }
    }

    pub fn as_str(&self) -> (r: &str)
        ensures
            r@ == self@,
    {
        self.name.as_str()
    }
}

impl Clone for NamespaceName {
    fn clone(&self) -> (r: Self)
        ensures
            r@ == self@,
    {
        NamespaceName { name: self.name.clone() }
    }
}

impl PartialEq for NamespaceName {
    fn eq(&self, other: &Self) -> (r: bool) {
        self.name == other.name
    }
}

impl vstd::std_specs::cmp::PartialEqSpecImpl for NamespaceName {
    open spec fn obeys_eq_spec() -> bool {
        true
    }

    open spec fn eq_spec(&self, other: &Self) -> bool {
        self@ == other@
    }
}

/// The string name of a table; equality is string equality.
#[derive(Debug)]
pub struct TableName {
    name: String,
}

impl View for TableName {
    type V = Seq<char>;

    closed spec fn view(&self) -> Seq<char> {
        self.name@
    }
}

impl TableName {
    pub fn new(name: String) -> (r: Self)
        ensures
            r@ == name@,
    {
        TableName { name }
    }

    pub fn as_str(&self) -> (r: &str)
        ensures
            r@ == self@,
    {
        self.name.as_str()
    }
}

impl Clone for TableName {
    fn clone(&self) -> (r: Self)
        ensures
            r@ == self@,
    {
        TableName { name: self.name.clone() }
    }
}

impl PartialEq for TableName {
    fn eq(&self, other: &Self) -> (r: bool) {
        self.name == other.name
    }
}

impl vstd::std_specs::cmp::PartialEqSpecImpl for TableName {
    open spec fn obeys_eq_spec() -> bool {
        true
    }

    open spec fn eq_spec(&self, other: &Self) -> bool {
        self@ == other@
    }
}

/// The key routing a row batch to a partition within a table.
#[derive(Debug)]
pub struct PartitionKey {
    key: String,
}

impl View for PartitionKey {
    type V = Seq<char>;

    closed spec fn view(&self) -> Seq<char> {
        self.key@
    }
}

impl PartitionKey {
    pub fn new(key: String) -> (r: Self)
        ensures
            r@ == key@,
    {
        PartitionKey { key }
    }

    pub fn as_str(&self) -> (r: &str)
        ensures
            r@ == self@,
    {
        self.key.as_str()
    }
}

impl Clone for PartitionKey {
    fn clone(&self) -> (r: Self)
        ensures
            r@ == self@,
    {
        PartitionKey { key: self.key.clone() }
    }
}

} // verus!
