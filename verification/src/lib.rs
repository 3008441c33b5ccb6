pub mod cli;
pub mod document;
pub mod extension;
pub mod extensions;
pub mod fold;
pub mod github;
pub mod manifest;
pub mod order;
pub mod shape;
pub mod survey;
pub mod surveys;
pub mod syntax;
pub mod text;
pub mod theme;
