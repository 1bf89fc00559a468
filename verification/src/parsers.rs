pub mod inifile;
pub mod laws;
pub mod scenery_packs;
