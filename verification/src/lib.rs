//! A small RSS-style feed extractor: a single forward pass over an XML token
//! stream collects one record per container element, routing text and CDATA
//! content into configurable, case-insensitively matched fields.

pub mod engine;
pub mod errors;
pub mod jsonfmt;
pub mod parser;
pub mod record;
pub mod text;
pub mod xmlsource;

pub use errors::RssError;
pub use parser::RssParser;
pub use parser::default_mapping;
pub use jsonfmt::json_of;
pub use jsonfmt::json_of_item;
pub use jsonfmt::json_of_items;
pub use jsonfmt::quoted;
pub use jsonfmt::escape;
pub use jsonfmt::escape_char;
pub use jsonfmt::hex_digit;
pub use jsonfmt::records_to_json;

pub use record::RssItem;
pub use record::ItemModel;
pub use record::empty_item;
pub use engine::XmlToken;
pub use engine::TokenModel;
pub use engine::MappingModel;
pub use engine::FieldKind;
pub use engine::ScanState;
pub use engine::scan;
pub use engine::scan_step;
pub use engine::scan_upto;
pub use engine::scan_init;
pub use engine::field_of;
pub use engine::set_field;
pub use engine::write_text;
pub use engine::text_content;
pub use engine::is_container_start;
pub use engine::count_containers;
pub use xmlsource::tokens_of;
pub use engine::similar_token;
pub use engine::lemma_record_count;
pub use engine::lemma_last_write_wins;
pub use engine::lemma_dispatch_priority;
pub use engine::lemma_scan_case_insensitive;
pub use engine::lemma_untouched_record_stays_empty;
pub use jsonfmt::records_of_json;
pub use jsonfmt::lemma_json_injective;
pub use jsonfmt::lemma_json_round_trip;

pub use text::lower_char;
pub use text::lower;
pub use text::eq_nocase;
pub use text::contains_nocase;
pub use text::str_eq_nocase;
pub use text::str_contains_nocase;
