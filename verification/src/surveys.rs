pub mod extension_json_usage;
pub mod theme_property_usage;
pub mod tree_sitter_grammars;

pub use extension_json_usage::ExtensionJsonUsage;
pub use theme_property_usage::ThemePropertyUsage;
pub use tree_sitter_grammars::TreeSitterGrammars;
