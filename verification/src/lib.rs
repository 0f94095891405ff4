//! Repository audit trials: guidance-link coherence, repository guidance
//! files, persisted finding entities and the audit move domain.
#![allow(unused_imports)]

pub mod text;
pub mod paths;
pub mod model;
pub mod markdown_links;
pub mod link_scan;
pub mod link_findings;
pub mod link_audit;
pub mod repo_roots;
pub mod repository_guidance;
pub mod finding_entity;
pub mod move_domain;
pub mod cli;
