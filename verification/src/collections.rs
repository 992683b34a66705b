//! The data shapes an API collection is written down in: the description
//! format's info, server and schema records.  Reading and writing
//! collection files, and everything that calls out to other services,
//! belongs to the application.

use vstd::prelude::*;

verus! {

use std::collections::HashMap;

#[derive(Debug)]
pub struct Info {
    pub title: String,
    pub version: String,
}

#[derive(Debug)]
pub struct Server {
    pub url: String,
    pub description: Option<String>,
}

#[derive(Debug)]
pub struct MockDataConfig {
    pub description: String,
    pub schema: Option<String>,
    pub examples: Option<Vec<String>>,
}

#[derive(Debug)]
pub struct Parameter {
    pub name: String,
    pub in_: String,
    pub description: Option<String>,
    pub required: Option<bool>,
    pub schema: Schema,
}

#[derive(Debug)]
pub struct Schema {
    pub schema_type: String,
    pub format: Option<String>,
    pub properties: Option<HashMap<String, Schema>>,
    pub items: Option<Box<Schema>>,
}

} // verus!
