//! A verified parser and registry for package-repository definition files.
//!
//! Definition files hold blocks of the shape `name:{enabled:yes,url:"..."}`.
//! The library normalizes raw lines, gathers them into brace-balanced blocks,
//! parses each block into a record, and folds records into a registry where
//! the name is the key, the latest `enabled` value wins, and a known `url` is
//! never erased by a block that supplies none.

mod laws;
mod merge;
mod parse;
mod record;
mod scan;
mod sqldb;
mod text;
mod urlcheck;

pub use laws::enabled_yes_tail;
pub use laws::lemma_parse_single_block;
pub use laws::lemma_parse_url_block;
pub use laws::name_char;
pub use laws::url_char;
pub use laws::url_close_tail;
pub use laws::url_open_tail;
pub use merge::find_name_from;
pub use merge::lemma_merge_enabled_last_wins;
pub use merge::lemma_merge_keeps_unique;
pub use merge::lemma_merge_keeps_url;
pub use merge::lemma_merge_lookup;
pub use merge::lemma_merge_other_names;
pub use merge::merge_repo;
pub use merge::merge_spec;
pub use merge::merged_record;
pub use merge::models;
pub use merge::names_unique;
pub use merge::registry_lookup;
pub use parse::get_section_name;
pub use parse::parse_body_spec;
pub use parse::parse_string;
pub use parse::parse_string_spec;
pub use parse::section_name_spec;
pub use record::fresh_repo;
pub use record::render_spec;
pub use record::MyError;
pub use record::Repo;
pub use record::RepoModel;
pub use scan::extract_step;
pub use scan::lemma_multi_parse_unique;
pub use scan::lemma_multi_parse_unique_from;
pub use scan::multi_parse_from;
pub use scan::multi_parse_lines;
pub use scan::multi_parse_spec;
pub use sqldb::pkg_banner;
pub use sqldb::pkg_info;
pub use text::coerce_bool;
pub use text::coerce_spec;
pub use text::is_space;
pub use text::lemma_canon_line;
pub use text::line_trim;
pub use text::normalize_spec;
pub use urlcheck::url_normal;
