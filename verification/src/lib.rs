use vstd::prelude::*;

pub mod text;
pub mod assoc;
pub mod html;
pub mod copy_clean;
pub mod code_block;
pub mod sidebar;
pub mod paths;
pub mod markdown;
pub mod links;
pub mod config;
pub mod page_text;
pub mod page;
pub mod render;
pub mod completions;
pub mod cache;
pub mod error;
pub mod storage;
pub mod cleanup_home;
pub mod cleanup;
pub mod crawl;

verus! {
}
