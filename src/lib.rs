pub mod bytescale;
pub mod decimal;
pub mod ifregex;
pub mod ifstats;
pub mod options;
pub mod snapshot;
pub mod text;
