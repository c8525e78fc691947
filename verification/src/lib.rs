//! A gateway that serves a declaratively described data model as GraphQL over
//! HTTP. This crate holds the rules of the gateway: which configurations are
//! accepted, which connection parameters are complete, in which order the
//! startup stages run, and which HTTP reply answers each outcome of a request.

pub mod config;
pub mod endpoint;
pub mod exploration;
pub mod reply;
pub mod request;
pub mod startup;
