//! The data shapes of a recorded API flow: the flow format's info, server
//! and schema records.  They mirror the collection records but carry the
//! flow format's extra fields.

use vstd::prelude::*;

verus! {

use std::collections::HashMap;

#[derive(Debug)]
pub struct Info {
    pub title: String,
    pub version: String,
    pub description: Option<String>,
}

#[derive(Debug)]
pub struct Server {
    pub url: String,
    pub description: Option<String>,
}

#[derive(Debug)]
pub struct Parameter {
    pub name: String,
    pub in_: String,
    pub description: Option<String>,
    pub required: bool,
    pub schema: Schema,
}

#[derive(Debug)]
pub struct Schema {
    pub schema_type: String,
    pub format: Option<String>,
    pub properties: Option<HashMap<String, Schema>>,
    pub items: Option<Box<Schema>>,
}

#[derive(Debug)]
pub struct MockDataConfig {
    pub description: String,
    pub schema: Option<String>,
    pub examples: Option<Vec<String>>,
}

} // verus!
