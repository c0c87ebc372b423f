pub mod mapper;
pub mod project;
pub mod team_glob_mapper;
