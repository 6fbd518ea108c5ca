pub mod text;
pub mod number;
pub mod model;
pub mod roles;
pub mod classify;
pub mod wikitext;
pub mod quote;
pub mod citation;
pub mod normalize;
pub mod syntax;
pub mod dump;
pub mod parse;
pub mod report;
